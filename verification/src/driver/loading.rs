//! The locks that the events of a driver tell of, with the files that they name. Every file
//! has to be there and to hold a lock, also where a later event names another for the same id.
use vstd::prelude::*;

use crate::json::text_field;
use crate::split::{join_path, path_joined};
use crate::table::Table;
use crate::text::{cat3, same};

use super::replay::{
    DriverDurableEvent, DriverEventView, DriverStateView, ReplayFault, ReplayedDriverEvents,
};
use super::revision::{StoredFlowRevision, StoredRevisionView};

verus! {

broadcast use vstd::string::group_string_axioms;

/// What was found where an event names a file.
#[derive(Debug)]
pub enum RevisionFile {
    /// Nothing, or nothing was looked for.
    Missing,
    /// A file that cannot be read, with the reason.
    Unreadable(String),
    /// A file that holds no lock, with the reason.
    Malformed(String),
    Read(StoredFlowRevision),
}

#[verifier::ext_equal]
pub enum RevisionFileView {
    Missing,
    Unreadable(Seq<char>),
    Malformed(Seq<char>),
    Read(StoredRevisionView),
}

impl DeepView for RevisionFile {
    type V = RevisionFileView;

    open spec fn deep_view(&self) -> RevisionFileView {
        match self {
            RevisionFile::Missing => RevisionFileView::Missing,
            RevisionFile::Unreadable(reason) => RevisionFileView::Unreadable(reason@),
            RevisionFile::Malformed(reason) => RevisionFileView::Malformed(reason@),
            RevisionFile::Read(revision) => RevisionFileView::Read(revision.deep_view()),
        }
    }
}

/// Why the locks of a driver cannot be had.
#[derive(Debug, PartialEq, Eq)]
pub enum RevisionFault {
    /// An event cannot be followed.
    Event(ReplayFault),
    /// A file that an event names is not usable, with the reason.
    File(String),
}

#[verifier::ext_equal]
pub enum RevisionFaultView {
    Event(ReplayFault),
    File(Seq<char>),
}

impl DeepView for RevisionFault {
    type V = RevisionFaultView;

    open spec fn deep_view(&self) -> RevisionFaultView {
        match self {
            RevisionFault::Event(fault) => RevisionFaultView::Event(*fault),
            RevisionFault::File(reason) => RevisionFaultView::File(reason@),
        }
    }
}

impl RevisionFaultView {
    pub open spec fn text(self) -> Seq<char> {
        match self {
            RevisionFaultView::Event(fault) => fault.text(),
            RevisionFaultView::File(reason) => reason,
        }
    }
}

impl RevisionFault {
    pub fn message(&self) -> (r: String)
        ensures
            r@ == self.deep_view().text(),
    {
        match self {
            RevisionFault::Event(fault) => fault.message().to_string(),
            RevisionFault::File(reason) => reason.clone(),
        }
    }
}

/// The lock that an event tells of, and the file that holds it.
pub open spec fn named_revision(event: DriverEventView) -> Option<(Seq<char>, Seq<char>)> {
    match (text_field(event.payload, "lock_id"@), text_field(event.payload, "revision_file"@)) {
        (Some(lock_id), Some(file)) if event.kind == "flow_revision_available"@ => Some(
            (lock_id, file),
        ),
        _ => None,
    }
}

/// The lock that an event tells of, and the file that holds it.
pub fn revision_named_by(event: &DriverDurableEvent) -> (r: Option<(String, String)>)
    ensures
        match (r, named_revision(event.deep_view())) {
            (Some(got), Some(named)) => got.0@ == named.0 && got.1@ == named.1,
            (None, None) => true,
            _ => false,
        },
{
    if !same(event.kind.as_str(), "flow_revision_available") {
        return None;
    }
    match (event.payload.text_at("lock_id"), event.payload.text_at("revision_file")) {
        (Some(lock_id), Some(file)) => Some((lock_id.to_string(), file.to_string())),
        _ => None,
    }
}

/// Why a file that an event names is not usable.
pub open spec fn file_fault(root: Seq<char>, path: Seq<char>, file: RevisionFileView) -> Option<
    Seq<char>,
> {
    match file {
        RevisionFileView::Missing => Some(
            "flow revision file "@ + path_joined(root, path) + " is missing"@,
        ),
        RevisionFileView::Unreadable(reason) => Some(reason),
        RevisionFileView::Malformed(reason) => Some(reason),
        RevisionFileView::Read(_) => None,
    }
}

fn judge_file(root: &str, path: &str, file: &RevisionFile) -> (r: Option<String>)
    ensures
        r.deep_view() == file_fault(root@, path@, file.deep_view()),
{
    match file {
        RevisionFile::Missing => Some(
            cat3("flow revision file ", join_path(root, path).as_str(), " is missing"),
        ),
        RevisionFile::Unreadable(reason) => Some(reason.clone()),
        RevisionFile::Malformed(reason) => Some(reason.clone()),
        RevisionFile::Read(_) => None,
    }
}

/// The state of a driver and its locks: of each lock, the place of the event that tells of it
/// last.
#[verifier::ext_equal]
pub struct LoadedView {
    pub state: DriverStateView,
    pub locks: Map<Seq<char>, usize>,
}

impl LoadedView {
    /// Behind an event, with what was found where it names a file.
    pub open spec fn followed(
        self,
        root: Seq<char>,
        event: DriverEventView,
        file: RevisionFileView,
        place: usize,
    ) -> Result<LoadedView, RevisionFaultView> {
        match self.state.replayed(event) {
            Err(fault) => Err(RevisionFaultView::Event(fault)),
            Ok(state) => match named_revision(event) {
                None => Ok(LoadedView { state, ..self }),
                Some((lock_id, path)) => match file_fault(root, path, file) {
                    Some(reason) => Err(RevisionFaultView::File(reason)),
                    None => Ok(LoadedView { state, locks: self.locks.insert(lock_id, place) }),
                },
            },
        }
    }
}

/// Behind the first `n` events, with what was found where they name files.
pub open spec fn loaded(
    root: Seq<char>,
    events: Seq<DriverEventView>,
    files: Seq<RevisionFileView>,
    n: int,
) -> Result<LoadedView, RevisionFaultView>
    decreases n,
{
    if n <= 0 {
        Ok(LoadedView { state: DriverStateView::empty(), locks: Map::empty() })
    } else {
        match loaded(root, events, files, n - 1) {
            Err(fault) => Err(fault),
            Ok(before) => before.followed(root, events[n - 1], files[n - 1], (n - 1) as usize),
        }
    }
}

/// The state of a driver and its locks.
#[derive(Debug)]
pub struct LoadedDriver {
    pub state: ReplayedDriverEvents,
    pub locks: Table<String, usize>,
}

impl DeepView for LoadedDriver {
    type V = LoadedView;

    open spec fn deep_view(&self) -> LoadedView {
        LoadedView { state: self.state.deep_view(), locks: self.locks.deep_view() }
    }
}

/// The model of what is loaded.
pub open spec fn loading(r: Result<LoadedDriver, RevisionFault>) -> Result<
    LoadedView,
    RevisionFaultView,
> {
    match r {
        Ok(driver) => Ok(driver.deep_view()),
        Err(fault) => Err(fault.deep_view()),
    }
}

proof fn lemma_load_fault_stays(
    root: Seq<char>,
    events: Seq<DriverEventView>,
    files: Seq<RevisionFileView>,
    n: int,
    m: int,
)
    requires
        0 <= n <= m,
        loaded(root, events, files, n) is Err,
    ensures
        loaded(root, events, files, m) == loaded(root, events, files, n),
    decreases m - n,
{
    if n < m {
        lemma_load_fault_stays(root, events, files, n, m - 1);
    }
}

/// The state of a driver and its locks, from its events and from what was found where each of
/// them names a file. The first event that cannot be followed, or whose file is not usable, is
/// a fault.
pub fn load_revisions(
    root: &str,
    events: &Vec<DriverDurableEvent>,
    files: &Vec<RevisionFile>,
) -> (r: Result<LoadedDriver, RevisionFault>)
    requires
        files.len() == events.len(),
    ensures
        loading(r) == loaded(
            root@,
            events.deep_view(),
            files.deep_view(),
            events.len() as int,
        ),
{
    let ghost given = events.deep_view();
    let ghost found = files.deep_view();
    let mut state = ReplayedDriverEvents::new();
    let mut locks: Table<String, usize> = Table::new();
    let mut i: usize = 0;
    while i < events.len()
        invariant
            i <= events.len() == files.len(),
            given == events.deep_view(),
            found == files.deep_view(),
            loaded(root@, given, found, i as int) == Ok::<LoadedView, RevisionFaultView>(
                LoadedView { state: state.deep_view(), locks: locks.deep_view() },
            ),
        decreases events.len() - i,
    {
        assert(given[i as int] == events@[i as int].deep_view());
        assert(found[i as int] == files@[i as int].deep_view());
        match state.apply(&events[i]) {
            Ok(_) => {},
            Err(fault) => {
                proof {
                    lemma_load_fault_stays(root@, given, found, i + 1, events.len() as int);
                }
                return Err(RevisionFault::Event(fault));
            },
        }
        match revision_named_by(&events[i]) {
            None => {},
            Some((lock_id, path)) => {
                match judge_file(root, path.as_str(), &files[i]) {
                    Some(reason) => {
                        proof {
                            lemma_load_fault_stays(root@, given, found, i + 1, events.len() as int);
                        }
                        return Err(RevisionFault::File(reason));
                    },
                    None => {
                        locks.insert(lock_id, i);
                    },
                }
            },
        }
        i += 1;
    }
    Ok(LoadedDriver { state, locks })
}

/// Whether the event at `i` names a file that holds no lock.
pub open spec fn names_bad_file(
    events: Seq<DriverEventView>,
    files: Seq<RevisionFileView>,
    i: int,
) -> bool {
    named_revision(events[i]) is Some && files[i] !is Read
}

/// No event may name a file that holds no lock, whatever later events say of the same lock.
/// Where none does, the state is the one that the events alone tell of.
pub proof fn lemma_every_named_file_is_read(
    root: Seq<char>,
    events: Seq<DriverEventView>,
    files: Seq<RevisionFileView>,
    n: int,
)
    requires
        0 <= n <= events.len(),
        files.len() == events.len(),
    ensures
        loaded(root, events, files, n) matches Ok(driver) ==> DriverStateView::empty().replayed_all(
            events.take(n),
        ) == Ok::<DriverStateView, ReplayFault>(driver.state),
        (loaded(root, events, files, n) is Ok) == ((DriverStateView::empty().replayed_all(
            events.take(n),
        ) is Ok) && forall|i: int| 0 <= i < n ==> !#[trigger] names_bad_file(events, files, i)),
    decreases n,
{
    if n > 0 {
        lemma_every_named_file_is_read(root, events, files, n - 1);
        assert(events.take(n).drop_last() =~= events.take(n - 1));
        assert(events.take(n).last() == events[n - 1]);
        if loaded(root, events, files, n) is Ok {
            assert forall|i: int| 0 <= i < n implies !#[trigger] names_bad_file(
                events,
                files,
                i,
            ) by {
                if i == n - 1 {
                    assert(!names_bad_file(events, files, n - 1));
                }
            }
        } else if loaded(root, events, files, n - 1) is Ok {
            if DriverStateView::empty().replayed_all(events.take(n)) is Ok {
                assert(names_bad_file(events, files, n - 1));
            }
        }
    } else {
        assert(events.take(0) =~= Seq::empty());
    }
}

} // verus!

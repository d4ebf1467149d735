//! A lock as a directory: which files are written, and the course of reading them back. What is
//! read is refused unless the directory holds the files that its manifest lists, and no others.
use vstd::prelude::*;

use crate::json::{
    json_parse, json_pretty, parse_json, read, text_field, value_of, Json, JsonView,
};

use super::check::is_package_path;
use super::contents::{completed, with_contents};
use super::lock::{FlowLock, FlowLockView};
use super::package::{
    checked_relative_path, entry_fault, listed_resources, manifest, manifest_resources,
    manifest_text, path_names, resource_fault, validate_entry, EntryFacts, EntryKind,
    FlowLockDirectoryError, PackageFiles, FLOW_MANIFEST,
};

verus! {

broadcast use vstd::string::group_string_axioms;

/// A file of a package, with the names it lies under.
#[derive(Debug)]
pub struct PackageFile {
    pub path: Vec<String>,
    pub text: String,
}

#[verifier::ext_equal]
pub struct PackageFileView {
    pub path: Seq<Seq<char>>,
    pub text: Seq<char>,
}

impl DeepView for PackageFile {
    type V = PackageFileView;

    open spec fn deep_view(&self) -> PackageFileView {
        PackageFileView { path: self.path.deep_view(), text: self.text@ }
    }
}

/// The names that the manifest lies under.
pub open spec fn manifest_path() -> Seq<Seq<char>> {
    seq![FLOW_MANIFEST@]
}

/// The files of a package: the manifest, and a file for every resource.
pub open spec fn package_files(lock: FlowLockView) -> Seq<PackageFileView> {
    Seq::new(
        lock.draft.resources.len() + 1,
        |i: int|
            if i == 0 {
                PackageFileView {
                    path: manifest_path(),
                    text: json_pretty(value_of(manifest(lock))).push('\n'),
                }
            } else {
                PackageFileView {
                    path: path_names(lock.draft.resources[i - 1].id),
                    text: lock.draft.resources[i - 1].source,
                }
            },
    )
}

/// Whether all resources lie inside the package.
pub open spec fn stays_inside(lock: FlowLockView) -> bool {
    forall|i: int|
        0 <= i < lock.draft.resources.len() ==> is_package_path(
            (#[trigger] lock.draft.resources[i]).id,
        )
}

/// The files that are written for a lock, in their order. The manifest among them reads back.
pub fn package_plan(lock: &FlowLock) -> (r: Result<Vec<PackageFile>, FlowLockDirectoryError>)
    ensures
        match r {
            Ok(files) => {
                &&& stays_inside(lock.deep_view())
                &&& files.deep_view() == package_files(lock.deep_view())
                &&& json_parse(package_files(lock.deep_view())[0].text) == read(
                    manifest(lock.deep_view()),
                )
            },
            Err(error) => {
                &&& !stays_inside(lock.deep_view())
                &&& error.deep_view() == "flow resource path must stay inside the package"@
            },
        },
{
    let ghost model = lock.deep_view();
    let ghost whole = package_files(model);
    let mut path: Vec<String> = Vec::new();
    path.push(FLOW_MANIFEST.to_string());
    assert(path.deep_view() =~= manifest_path());
    let mut files: Vec<PackageFile> = Vec::new();
    files.push(PackageFile { path, text: manifest_text(lock) });
    let resources = &lock.draft().resources;
    assert(resources.deep_view() == model.draft.resources);
    let mut i: usize = 0;
    while i < resources.len()
        invariant
            i <= resources.len(),
            model == lock.deep_view(),
            whole == package_files(model),
            json_parse(whole[0].text) == read(manifest(model)),
            resources.deep_view() == model.draft.resources,
            files.len() == i + 1,
            forall|j: int| 0 <= j <= i ==> (#[trigger] files@[j]).deep_view() == whole[j],
            forall|j: int|
                0 <= j < i ==> is_package_path((#[trigger] model.draft.resources[j]).id),
        decreases resources.len() - i,
    {
        assert(model.draft.resources[i as int] == resources@[i as int].deep_view());
        let path = match checked_relative_path(resources[i].id.as_str()) {
            Ok(path) => path,
            Err(error) => return Err(error),
        };
        files.push(PackageFile { path, text: resources[i].source.clone() });
        i += 1;
    }
    assert(files.deep_view() =~= whole);
    Ok(files)
}

/// An entry of a package directory, with the names it lies under.
#[derive(Debug)]
pub struct PackageEntry {
    pub path: Vec<String>,
    pub facts: EntryFacts,
}

#[verifier::ext_equal]
pub struct PackageEntryView {
    pub path: Seq<Seq<char>>,
    pub facts: EntryFacts,
}

impl DeepView for PackageEntry {
    type V = PackageEntryView;

    open spec fn deep_view(&self) -> PackageEntryView {
        PackageEntryView { path: self.path.deep_view(), facts: self.facts }
    }
}

/// An entry as it stands in the listing of its directory.
#[derive(Debug)]
pub struct ListedEntry {
    pub name: String,
    pub facts: EntryFacts,
}

#[verifier::ext_equal]
pub struct ListedEntryView {
    pub name: Seq<char>,
    pub facts: EntryFacts,
}

impl DeepView for ListedEntry {
    type V = ListedEntryView;

    open spec fn deep_view(&self) -> ListedEntryView {
        ListedEntryView { name: self.name@, facts: self.facts }
    }
}

/// The entries of a directory, each with the names it lies under.
pub open spec fn entries_at(directory: Seq<Seq<char>>, listed: Seq<ListedEntryView>) -> Seq<
    PackageEntryView,
> {
    Seq::new(
        listed.len(),
        |i: int|
            PackageEntryView { path: directory.push(listed[i].name), facts: listed[i].facts },
    )
}

/// What has been read of a package.
#[derive(Debug)]
struct Reading {
    manifest: Json,
    files: PackageFiles,
    contents: Vec<String>,
}

#[verifier::ext_equal]
pub struct ReadingView {
    pub manifest: JsonView,
    /// The files that may stand in the directory.
    pub files: Seq<Seq<Seq<char>>>,
    /// What the resources hold, as far as they are read.
    pub contents: Seq<Seq<char>>,
}

impl DeepView for Reading {
    type V = ReadingView;

    closed spec fn deep_view(&self) -> ReadingView {
        ReadingView {
            manifest: self.manifest@,
            files: self.files.deep_view(),
            contents: self.contents.deep_view(),
        }
    }
}

impl ReadingView {
    /// The resources that are listed.
    pub open spec fn resources(self) -> Seq<JsonView> {
        match listed_resources(self.manifest) {
            Some(resources) => resources,
            None => Seq::empty(),
        }
    }
}

/// How far the reading of a package has come, and what is waited for.
#[derive(Debug)]
enum LoadStage {
    /// The text of the manifest.
    Manifest,
    /// The text of a resource, which lies under these names.
    Resource(Reading, Vec<String>),
    /// The entries of a directory; those of others are still to be judged.
    Tree(Reading, Vec<String>, Vec<PackageEntry>),
    /// Nothing more.
    Done(Result<Json, FlowLockDirectoryError>),
}

#[verifier::ext_equal]
pub enum LoadStageView {
    Manifest,
    Resource(ReadingView, Seq<Seq<char>>),
    Tree(ReadingView, Seq<Seq<char>>, Seq<PackageEntryView>),
    Done(Result<JsonView, Seq<char>>),
}

/// What came of the reading of a package.
pub open spec fn loaded(r: Result<Json, FlowLockDirectoryError>) -> Result<JsonView, Seq<char>> {
    match r {
        Ok(value) => Ok(value@),
        Err(error) => Err(error.deep_view()),
    }
}

impl DeepView for LoadStage {
    type V = LoadStageView;

    closed spec fn deep_view(&self) -> LoadStageView {
        match self {
            LoadStage::Manifest => LoadStageView::Manifest,
            LoadStage::Resource(reading, path) => LoadStageView::Resource(
                reading.deep_view(),
                path.deep_view(),
            ),
            LoadStage::Tree(reading, directory, todo) => LoadStageView::Tree(
                reading.deep_view(),
                directory.deep_view(),
                todo.deep_view(),
            ),
            LoadStage::Done(r) => LoadStageView::Done(loaded(*r)),
        }
    }
}

/// What is to be done next.
#[derive(Debug)]
pub enum LoadAction {
    /// Read the text of the file that lies under the given names.
    ReadFile(Vec<String>),
    /// List the directory that lies under the given names.
    List(Vec<String>),
    /// Stop: this is the manifest with the contents of its resources.
    Finish(Result<Json, FlowLockDirectoryError>),
}

#[verifier::ext_equal]
pub enum LoadActionView {
    ReadFile(Seq<Seq<char>>),
    List(Seq<Seq<char>>),
    Finish(Result<JsonView, Seq<char>>),
}

impl DeepView for LoadAction {
    type V = LoadActionView;

    open spec fn deep_view(&self) -> LoadActionView {
        match self {
            LoadAction::ReadFile(path) => LoadActionView::ReadFile(path.deep_view()),
            LoadAction::List(path) => LoadActionView::List(path.deep_view()),
            LoadAction::Finish(r) => LoadActionView::Finish(loaded(*r)),
        }
    }
}

/// What came of what was to be done.
#[derive(Debug)]
pub enum LoadEvent {
    Read(Result<String, String>),
    Listed(Result<Vec<ListedEntry>, String>),
}

#[verifier::ext_equal]
pub enum LoadEventView {
    Read(Result<Seq<char>, Seq<char>>),
    Listed(Result<Seq<ListedEntryView>, Seq<char>>),
}

impl DeepView for LoadEvent {
    type V = LoadEventView;

    open spec fn deep_view(&self) -> LoadEventView {
        match self {
            LoadEvent::Read(r) => LoadEventView::Read(
                match r {
                    Ok(text) => Ok(text@),
                    Err(message) => Err(message@),
                },
            ),
            LoadEvent::Listed(r) => LoadEventView::Listed(
                match r {
                    Ok(entries) => Ok(entries.deep_view()),
                    Err(message) => Err(message@),
                },
            ),
        }
    }
}

/// A package that is being read by a user.
#[derive(Debug)]
pub struct LoadMachine {
    user: u32,
    stage: LoadStage,
}

#[verifier::ext_equal]
pub struct LoadView {
    pub user: u32,
    pub stage: LoadStageView,
}

impl DeepView for LoadMachine {
    type V = LoadView;

    closed spec fn deep_view(&self) -> LoadView {
        LoadView { user: self.user, stage: self.stage.deep_view() }
    }
}

/// The next resource is to be read; where there is none, the directory is to be looked through.
pub open spec fn reading_on(reading: ReadingView) -> LoadStageView {
    let n = reading.contents.len();
    if n < reading.resources().len() {
        let resource = reading.resources()[n as int];
        match resource_fault(resource, reading.files) {
            Some(fault) => LoadStageView::Done(Err(fault)),
            None => {
                let path = path_names(text_field(resource, "path"@)->Some_0);
                LoadStageView::Resource(
                    ReadingView { files: reading.files.push(path), ..reading },
                    path,
                )
            },
        }
    } else {
        LoadStageView::Tree(reading, Seq::empty(), Seq::empty())
    }
}

/// The entries are judged in their order; where one is a directory, its own entries come next.
pub open spec fn judged(reading: ReadingView, todo: Seq<PackageEntryView>, user: u32) ->
    LoadStageView
    decreases todo.len(),
{
    if todo.len() == 0 {
        LoadStageView::Done(Ok(completed(reading.manifest, reading.contents)))
    } else {
        match entry_fault(todo[0].facts, todo[0].path, reading.files, user) {
            Some(fault) => LoadStageView::Done(Err(fault)),
            None => if todo[0].facts.kind == EntryKind::Directory {
                LoadStageView::Tree(reading, todo[0].path, todo.drop_first())
            } else {
                judged(reading, todo.drop_first(), user)
            },
        }
    }
}

impl LoadView {
    /// A package of which nothing is read.
    pub open spec fn fresh(user: u32) -> LoadView {
        LoadView { user, stage: LoadStageView::Manifest }
    }

    /// The stage behind an event that fits.
    pub open spec fn next(self, event: LoadEventView) -> LoadStageView {
        match (self.stage, event) {
            (LoadStageView::Manifest, LoadEventView::Read(r)) => match r {
                Err(message) => LoadStageView::Done(Err(message)),
                Ok(text) => match json_parse(text) {
                    Err(message) => LoadStageView::Done(Err(message)),
                    Ok(manifest) => if listed_resources(manifest) is None {
                        LoadStageView::Done(Err("flow lock resources are missing"@))
                    } else {
                        reading_on(
                            ReadingView {
                                manifest,
                                files: seq![manifest_path()],
                                contents: Seq::empty(),
                            },
                        )
                    },
                },
            },
            (LoadStageView::Resource(reading, _), LoadEventView::Read(r)) => match r {
                Err(message) => LoadStageView::Done(Err(message)),
                Ok(text) => reading_on(
                    ReadingView { contents: reading.contents.push(text), ..reading },
                ),
            },
            (LoadStageView::Tree(reading, directory, todo), LoadEventView::Listed(r)) => match r {
                Err(message) => LoadStageView::Done(Err(message)),
                Ok(entries) => judged(reading, entries_at(directory, entries) + todo, self.user),
            },
            _ => self.stage,
        }
    }

    /// Where the reading is behind an event; one that does not fit changes nothing.
    pub open spec fn advanced(self, event: LoadEventView) -> LoadView {
        LoadView { user: self.user, stage: self.next(event) }
    }

    /// Where the reading is behind events.
    pub open spec fn after(self, events: Seq<LoadEventView>) -> LoadView
        decreases events.len(),
    {
        if events.len() == 0 {
            self
        } else {
            self.after(events.drop_last()).advanced(events.last())
        }
    }

    /// What is to be done next.
    pub open spec fn action(self) -> LoadActionView {
        match self.stage {
            LoadStageView::Manifest => LoadActionView::ReadFile(manifest_path()),
            LoadStageView::Resource(_, path) => LoadActionView::ReadFile(path),
            LoadStageView::Tree(_, directory, _) => LoadActionView::List(directory),
            LoadStageView::Done(r) => LoadActionView::Finish(r),
        }
    }
}

impl LoadStage {
    /// Whether as many resources are read as the stage needs.
    spec fn keeps_count(self) -> bool {
        match self {
            LoadStage::Resource(reading, _) => reading.deep_view().contents.len()
                < reading.deep_view().resources().len(),
            LoadStage::Tree(reading, _, _) => reading.deep_view().contents.len()
                == reading.deep_view().resources().len(),
            _ => true,
        }
    }
}

fn read_on(mut reading: Reading) -> (r: LoadStage)
    requires
        listed_resources(reading.deep_view().manifest) is Some,
        reading.deep_view().contents.len() <= reading.deep_view().resources().len(),
    ensures
        r.deep_view() == reading_on(reading.deep_view()),
        r.keeps_count(),
{
    let ghost before = reading.deep_view();
    let n: usize = reading.contents.len();
    let enlisted = match manifest_resources(&reading.manifest) {
        Err(error) => return LoadStage::Done(Err(error)),
        Ok(resources) => if n < resources.len() {
            assert(before.resources()[n as int] == resources@[n as int]@);
            Some(reading.files.enlist(&resources[n]))
        } else {
            None
        },
    };
    match enlisted {
        Some(Err(error)) => LoadStage::Done(Err(error)),
        Some(Ok(path)) => {
            assert(reading.deep_view().files == before.files.push(path.deep_view()));
            LoadStage::Resource(reading, path)
        },
        None => {
            let directory: Vec<String> = Vec::new();
            let todo: Vec<PackageEntry> = Vec::new();
            assert(directory.deep_view() =~= Seq::<Seq<char>>::empty());
            assert(todo.deep_view() =~= Seq::<PackageEntryView>::empty());
            LoadStage::Tree(reading, directory, todo)
        },
    }
}

fn judge(reading: Reading, todo: Vec<PackageEntry>, user: u32) -> (r: LoadStage)
    requires
        reading.deep_view().contents.len() == reading.deep_view().resources().len(),
    ensures
        r.deep_view() == judged(reading.deep_view(), todo.deep_view(), user),
        r.keeps_count(),
{
    let ghost model = reading.deep_view();
    let mut rest = todo;
    while rest.len() > 0
        invariant
            model == reading.deep_view(),
            model.contents.len() == model.resources().len(),
            judged(model, todo.deep_view(), user) == judged(model, rest.deep_view(), user),
        decreases rest.len(),
    {
        let ghost before = rest.deep_view();
        let entry = rest.remove(0);
        assert(before[0] == entry.deep_view());
        assert(before.drop_first() =~= rest.deep_view());
        match validate_entry(&entry.facts, &entry.path, &reading.files, user) {
            Err(error) => return LoadStage::Done(Err(error)),
            Ok(descend) => if descend {
                return LoadStage::Tree(reading, entry.path, rest);
            },
        }
    }
    let contents = &reading.contents;
    LoadStage::Done(Ok(with_contents(reading.manifest, contents)))
}

fn place_entries(directory: &Vec<String>, listed: Vec<ListedEntry>, todo: Vec<PackageEntry>) -> (r:
    Vec<PackageEntry>)
    ensures
        r.deep_view() == entries_at(directory.deep_view(), listed.deep_view()) + todo.deep_view(),
{
    let ghost names = directory.deep_view();
    let ghost model = listed.deep_view();
    let mut out: Vec<PackageEntry> = Vec::new();
    let mut i: usize = 0;
    while i < listed.len()
        invariant
            i <= listed.len(),
            names == directory.deep_view(),
            model == listed.deep_view(),
            out.len() == i,
            forall|j: int|
                0 <= j < i ==> (#[trigger] out@[j]).deep_view() == entries_at(names, model)[j],
        decreases listed.len() - i,
    {
        let mut path = directory.clone();
        assert(path.deep_view() =~= names);
        path.push(listed[i].name.clone());
        assert(path.deep_view() =~= names.push(model[i as int].name));
        out.push(PackageEntry { path, facts: listed[i].facts });
        i += 1;
    }
    let mut rest = todo;
    out.append(&mut rest);
    assert(out.deep_view() =~= entries_at(names, model) + todo.deep_view());
    out
}

impl LoadMachine {
    #[verifier::type_invariant]
    spec fn valid(self) -> bool {
        self.stage.keeps_count()
    }

    /// Begins to read a package as a user.
    pub fn new(user: u32) -> (r: Self)
        ensures
            r.deep_view() == LoadView::fresh(user),
    {
        LoadMachine { user, stage: LoadStage::Manifest }
    }

    /// What is to be done next.
    pub fn action(&self) -> (r: LoadAction)
        ensures
            r.deep_view() == self.deep_view().action(),
    {
        match &self.stage {
            LoadStage::Manifest => {
                let mut path: Vec<String> = Vec::new();
                path.push(FLOW_MANIFEST.to_string());
                assert(path.deep_view() =~= manifest_path());
                LoadAction::ReadFile(path)
            },
            LoadStage::Resource(_, path) => {
                let wanted = path.clone();
                assert(wanted.deep_view() =~= path.deep_view());
                LoadAction::ReadFile(wanted)
            },
            LoadStage::Tree(_, directory, _) => {
                let wanted = directory.clone();
                assert(wanted.deep_view() =~= directory.deep_view());
                LoadAction::List(wanted)
            },
            LoadStage::Done(Ok(value)) => LoadAction::Finish(Ok(value.clone())),
            LoadStage::Done(Err(error)) => LoadAction::Finish(
                Err(FlowLockDirectoryError::new(error.message())),
            ),
        }
    }

    /// Goes on behind an event.
    pub fn advance(self, event: LoadEvent) -> (r: Self)
        ensures
            r.deep_view() == self.deep_view().advanced(event.deep_view()),
    {
        proof {
            use_type_invariant(&self);
        }
        let user = self.user;
        let stage = match (self.stage, event) {
            (LoadStage::Manifest, LoadEvent::Read(r)) => match r {
                Err(message) => refused(message),
                Ok(text) => match parse_json(text.as_str()) {
                    Err(message) => refused(message),
                    Ok(manifest) => begin_reading(manifest),
                },
            },
            (LoadStage::Resource(mut reading, _), LoadEvent::Read(r)) => match r {
                Err(message) => refused(message),
                Ok(text) => {
                    let ghost before = reading.contents.deep_view();
                    reading.contents.push(text);
                    assert(reading.contents.deep_view() =~= before.push(text@));
                    read_on(reading)
                },
            },
            (LoadStage::Tree(reading, directory, todo), LoadEvent::Listed(r)) => match r {
                Err(message) => refused(message),
                Ok(entries) => judge(reading, place_entries(&directory, entries, todo), user),
            },
            (stage, _) => stage,
        };
        LoadMachine { user, stage }
    }
}

fn refused(message: String) -> (r: LoadStage)
    ensures
        r.deep_view() == LoadStageView::Done(Err(message@)),
        r.keeps_count(),
{
    LoadStage::Done(Err(FlowLockDirectoryError::new(message.as_str())))
}

fn begin_reading(manifest: Json) -> (r: LoadStage)
    ensures
        r.deep_view() == (if listed_resources(manifest@) is None {
            LoadStageView::Done(Err("flow lock resources are missing"@))
        } else {
            reading_on(
                ReadingView {
                    manifest: manifest@,
                    files: seq![manifest_path()],
                    contents: Seq::empty(),
                },
            )
        }),
        r.keeps_count(),
{
    if let Err(error) = manifest_resources(&manifest) {
        return LoadStage::Done(Err(error));
    }
    let contents: Vec<String> = Vec::new();
    assert(contents.deep_view() =~= Seq::<Seq<char>>::empty());
    read_on(Reading { manifest, files: PackageFiles::new(), contents })
}

} // verus!

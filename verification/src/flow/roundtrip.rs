//! What a directory gives back: a lock that was written to it, and nothing that was changed.
use vstd::prelude::*;

use crate::json::{json_parse, read, text_field, JsonView};

use super::contents::{
    completed, lemma_manifest_lists_resources, lemma_packages_read_back, same_locks,
};
use super::directory::{
    entries_at, judged, manifest_path, package_files, reading_on, stays_inside, ListedEntryView,
    LoadActionView, LoadEventView, LoadStageView, LoadView, PackageEntryView, PackageFileView,
    ReadingView,
};
use super::export::ordered;
use super::lock::{FlowLock, FlowLockView};
use super::package::{
    bare_resource, entry_fault, is_parent, is_private_directory, is_private_file,
    listed_resources, manifest, path_names, resource_fault, EntryKind,
};

verus! {

broadcast use vstd::string::group_string_axioms;

/// What the files of a directory hold, by the names they lie under.
pub type FilesView = Map<Seq<Seq<char>>, Seq<char>>;

/// Whether a file lies somewhere below a directory.
pub open spec fn lies_below(file: Seq<Seq<char>>, directory: Seq<Seq<char>>) -> bool {
    directory.len() < file.len() && file.take(directory.len() as int) == directory
}

/// Whether an entry is a file, or a directory on the way to it.
pub open spec fn leads_to(entry: PackageEntryView, file: Seq<Seq<char>>) -> bool {
    match entry.facts.kind {
        EntryKind::Regular => entry.path == file,
        EntryKind::Directory => lies_below(file, entry.path),
        _ => false,
    }
}

/// Whether files give an entry: a private file of the user, or a private directory on the way to
/// some file.
pub open spec fn stands(files: FilesView, user: u32, entry: PackageEntryView) -> bool {
    match entry.facts.kind {
        EntryKind::Regular => is_private_file(entry.facts, user) && files.dom().contains(
            entry.path,
        ),
        EntryKind::Directory => is_private_directory(entry.facts, user) && exists|f: Seq<Seq<char>>|
            #[trigger]
            files.dom().contains(f) && is_parent(entry.path, f),
        _ => false,
    }
}

/// Whether entries are the listing of a directory: no two have the same name, every one is given
/// by the files, and every file below the directory is led to.
pub open spec fn lists(
    files: FilesView,
    user: u32,
    directory: Seq<Seq<char>>,
    entries: Seq<ListedEntryView>,
) -> bool {
    let placed = entries_at(directory, entries);
    &&& names_differ(entries)
    &&& forall|i: int| 0 <= i < placed.len() ==> stands(files, user, #[trigger] placed[i])
    &&& forall|f: Seq<Seq<char>>| #[trigger]
        files.dom().contains(f) && lies_below(f, directory) ==> is_led_to(placed, f)
}

/// Whether no two entries have the same name.
pub open spec fn names_differ(entries: Seq<ListedEntryView>) -> bool {
    forall|i: int, j: int|
        0 <= i < j < entries.len() ==> (#[trigger] entries[i]).name != (#[trigger] entries[j]).name
}

/// Whether some entry leads to a file.
pub open spec fn is_led_to(entries: Seq<PackageEntryView>, file: Seq<Seq<char>>) -> bool {
    exists|i: int| 0 <= i < entries.len() && leads_to(#[trigger] entries[i], file)
}

/// Whether an event is what a directory with the given files answers.
pub open spec fn truthful(
    files: FilesView,
    user: u32,
    action: LoadActionView,
    event: LoadEventView,
) -> bool {
    match action {
        LoadActionView::ReadFile(path) => if files.dom().contains(path) {
            event == LoadEventView::Read(Ok(files[path]))
        } else {
            event is Read && event->Read_0 is Err
        },
        LoadActionView::List(directory) => event is Listed && event->Listed_0 is Ok && lists(
            files,
            user,
            directory,
            event->Listed_0->Ok_0,
        ),
        LoadActionView::Finish(_) => true,
    }
}

/// Whether events are what a directory with the given files answers, one after the other.
pub open spec fn answered(files: FilesView, user: u32, events: Seq<LoadEventView>) -> bool
    decreases events.len(),
{
    events.len() == 0 || {
        &&& answered(files, user, events.drop_last())
        &&& truthful(
            files,
            user,
            LoadView::fresh(user).after(events.drop_last()).action(),
            events.last(),
        )
    }
}

/// The names that a listed resource lies under.
pub open spec fn declared_path(resource: JsonView) -> Seq<Seq<char>> {
    match text_field(resource, "path"@) {
        Some(path) => path_names(path),
        None => Seq::empty(),
    }
}

/// The files that are declared with the first resources: the manifest, and theirs.
pub open spec fn declared(resources: Seq<JsonView>, n: int) -> Seq<Seq<Seq<char>>> {
    Seq::new(
        (n + 1) as nat,
        |i: int|
            if i == 0 {
                manifest_path()
            } else {
                declared_path(resources[i - 1])
            },
    )
}

/// What the files of listed resources hold.
pub open spec fn texts_of(files: FilesView, resources: Seq<JsonView>) -> Seq<Seq<char>> {
    Seq::new(resources.len(), |i: int| files[declared_path(resources[i])])
}

/// Whether no file lies under no name.
pub open spec fn named(files: FilesView) -> bool {
    forall|f: Seq<Seq<char>>| #[trigger] files.dom().contains(f) ==> f.len() > 0
}

/// Whether what has been read is what the files hold, with so many files declared.
spec fn sound_reading(files: FilesView, reading: ReadingView, n: int) -> bool {
    let resources = reading.resources();
    &&& files.dom().contains(manifest_path())
    &&& json_parse(files[manifest_path()]) == read(reading.manifest)
    &&& listed_resources(reading.manifest) == Some(resources)
    &&& reading.contents.len() <= resources.len()
    &&& n <= resources.len()
    &&& reading.files == declared(resources, n)
    &&& forall|i: int|
        0 <= i < reading.contents.len() ==> files.dom().contains(
            declared_path(#[trigger] resources[i]),
        ) && files[declared_path(resources[i])] == reading.contents[i]
}

/// Whether a value is the manifest of a directory with the contents of its resources, and the
/// directory holds the files that are declared, and no others.
pub open spec fn gives(files: FilesView, value: JsonView) -> bool {
    files.dom().contains(manifest_path()) && match json_parse(files[manifest_path()]) {
        Err(_) => false,
        Ok(found) => match listed_resources(found) {
            None => false,
            Some(resources) => {
                let all = declared(resources, resources.len() as int);
                &&& value == completed(found, texts_of(files, resources))
                &&& forall|f: Seq<Seq<char>>| #[trigger]
                    files.dom().contains(f) <==> all.contains(f)
            },
        },
    }
}

spec fn sound_stage(files: FilesView, stage: LoadStageView) -> bool {
    match stage {
        LoadStageView::Manifest => true,
        LoadStageView::Resource(reading, path) => {
            let n = reading.contents.len() as int;
            &&& sound_reading(files, reading, n + 1)
            &&& n < reading.resources().len()
            &&& path == declared_path(reading.resources()[n])
        },
        LoadStageView::Tree(reading, directory, todo) => {
            &&& sound_reading(files, reading, reading.contents.len() as int)
            &&& reading.contents.len() == reading.resources().len()
            &&& forall|f: Seq<Seq<char>>| #[trigger]
                files.dom().contains(f) ==> reading.files.contains(f) || lies_below(f, directory)
                    || is_led_to(todo, f)
        },
        LoadStageView::Done(Ok(value)) => gives(files, value),
        LoadStageView::Done(Err(_)) => true,
    }
}

proof fn lemma_declared_grows(resources: Seq<JsonView>, n: int)
    requires
        0 <= n < resources.len(),
    ensures
        declared(resources, n + 1) == declared(resources, n).push(declared_path(resources[n])),
{
    assert(declared(resources, n + 1) =~= declared(resources, n).push(
        declared_path(resources[n]),
    ));
}

proof fn lemma_reading_on_is_sound(files: FilesView, reading: ReadingView)
    requires
        named(files),
        sound_reading(files, reading, reading.contents.len() as int),
    ensures
        sound_stage(files, reading_on(reading)),
{
    let n = reading.contents.len() as int;
    if n < reading.resources().len() {
        lemma_declared_grows(reading.resources(), n);
    } else {
        assert forall|f: Seq<Seq<char>>| #[trigger] files.dom().contains(f) implies lies_below(
            f,
            Seq::empty(),
        ) by {
            assert(f.take(0) =~= Seq::<Seq<char>>::empty());
        }
    }
}

proof fn lemma_all_read(files: FilesView, reading: ReadingView)
    requires
        sound_reading(files, reading, reading.contents.len() as int),
        reading.contents.len() == reading.resources().len(),
        forall|f: Seq<Seq<char>>| #[trigger]
            files.dom().contains(f) ==> reading.files.contains(f),
    ensures
        gives(files, completed(reading.manifest, reading.contents)),
{
    let resources = reading.resources();
    assert(texts_of(files, resources) =~= reading.contents) by {
        assert forall|i: int| 0 <= i < resources.len() implies texts_of(files, resources)[i]
            == reading.contents[i] by {
            assert(files.dom().contains(declared_path(resources[i])));
        }
    }
    let all = declared(resources, resources.len() as int);
    assert forall|f: Seq<Seq<char>>| all.contains(f) implies #[trigger] files.dom().contains(f) by {
        let i = choose|i: int| 0 <= i < all.len() && all[i] == f;
        if i > 0 {
            assert(files.dom().contains(declared_path(resources[i - 1])));
        }
    }
}

proof fn lemma_judged_is_sound(
    files: FilesView,
    reading: ReadingView,
    todo: Seq<PackageEntryView>,
    user: u32,
)
    requires
        sound_reading(files, reading, reading.contents.len() as int),
        reading.contents.len() == reading.resources().len(),
        forall|f: Seq<Seq<char>>| #[trigger]
            files.dom().contains(f) ==> reading.files.contains(f) || is_led_to(todo, f),
    ensures
        sound_stage(files, judged(reading, todo, user)),
    decreases todo.len(),
{
    if todo.len() == 0 {
        lemma_all_read(files, reading);
    } else if entry_fault(todo[0].facts, todo[0].path, reading.files, user) is None {
        let rest = todo.drop_first();
        assert forall|f: Seq<Seq<char>>| #[trigger]
            files.dom().contains(f) implies reading.files.contains(f) || leads_to(todo[0], f)
            || is_led_to(rest, f) by {
            if is_led_to(todo, f) {
                let i = choose|i: int| 0 <= i < todo.len() && leads_to(#[trigger] todo[i], f);
                if i > 0 {
                    assert(rest[i - 1] == todo[i]);
                }
            }
        }
        if todo[0].facts.kind != EntryKind::Directory {
            lemma_judged_is_sound(files, reading, rest, user);
        }
    }
}

proof fn lemma_reading_is_sound(files: FilesView, user: u32, events: Seq<LoadEventView>)
    requires
        named(files),
        answered(files, user, events),
    ensures
        sound_stage(files, LoadView::fresh(user).after(events).stage),
        LoadView::fresh(user).after(events).user == user,
    decreases events.len(),
{
    if events.len() > 0 {
        let front = events.drop_last();
        lemma_reading_is_sound(files, user, front);
        let before = LoadView::fresh(user).after(front);
        let event = events.last();
        match (before.stage, event) {
            (LoadStageView::Manifest, LoadEventView::Read(Ok(text))) => {
                if let Ok(found) = json_parse(text) {
                    if let Some(resources) = listed_resources(found) {
                        let reading = ReadingView {
                            manifest: found,
                            files: seq![manifest_path()],
                            contents: Seq::empty(),
                        };
                        assert(declared(resources, 0) =~= seq![manifest_path()]);
                        lemma_reading_on_is_sound(files, reading);
                    }
                }
            },
            (LoadStageView::Resource(reading, path), LoadEventView::Read(Ok(text))) => {
                let more = ReadingView { contents: reading.contents.push(text), ..reading };
                assert(more.resources() == reading.resources());
                lemma_reading_on_is_sound(files, more);
            },
            (LoadStageView::Tree(reading, directory, todo), LoadEventView::Listed(Ok(entries))) => {
                let placed = entries_at(directory, entries);
                let all = placed + todo;
                assert forall|f: Seq<Seq<char>>| #[trigger]
                    files.dom().contains(f) implies reading.files.contains(f) || is_led_to(
                    all,
                    f,
                ) by {
                    if lies_below(f, directory) {
                        let i = choose|i: int|
                            0 <= i < placed.len() && leads_to(#[trigger] placed[i], f);
                        assert(all[i] == placed[i]);
                    } else if is_led_to(todo, f) {
                        let i = choose|i: int|
                            0 <= i < todo.len() && leads_to(#[trigger] todo[i], f);
                        assert(all[placed.len() + i] == todo[i]);
                    }
                }
                lemma_judged_is_sound(files, reading, all, user);
            },
            _ => {},
        }
    }
}

/// What is read from a directory is its manifest with what the files of its resources hold; and
/// nothing is read from a directory that lacks a file that is declared, or holds another.
pub proof fn lemma_only_declared_files_are_read(
    files: FilesView,
    user: u32,
    events: Seq<LoadEventView>,
    value: JsonView,
)
    requires
        named(files),
        answered(files, user, events),
        LoadView::fresh(user).after(events).action() == LoadActionView::Finish(Ok(value)),
    ensures
        gives(files, value),
{
    lemma_reading_is_sound(files, user, events);
}

/// Whether a directory holds planned files, and no others.
pub open spec fn holds_just(files: FilesView, plan: Seq<PackageFileView>) -> bool {
    &&& forall|i: int|
        0 <= i < plan.len() ==> files.dom().contains((#[trigger] plan[i]).path)
            && files[plan[i].path] == plan[i].text
    &&& forall|f: Seq<Seq<char>>| #[trigger]
        files.dom().contains(f) ==> exists|i: int| 0 <= i < plan.len() && (#[trigger] plan[i]).path
            == f
}

/// Whether no two planned files lie under the same names.
pub open spec fn apart(plan: Seq<PackageFileView>) -> bool {
    forall|i: int, j: int|
        0 <= i < j < plan.len() ==> (#[trigger] plan[i]).path != (#[trigger] plan[j]).path
}

/// What the resources of a lock hold.
pub open spec fn sources(lock: FlowLockView) -> Seq<Seq<char>> {
    Seq::new(lock.draft.resources.len(), |i: int| lock.draft.resources[i].source)
}

/// The resources that the manifest of a lock lists.
spec fn listed_in(lock: FlowLockView) -> Seq<JsonView> {
    Seq::new(
        lock.draft.resources.len(),
        |i: int| ordered(bare_resource(lock.draft.resources[i])),
    )
}

proof fn lemma_plan_is_declared(lock: FlowLockView)
    ensures
        listed_resources(manifest(lock)) == Some(listed_in(lock)),
        forall|i: int|
            0 <= i < lock.draft.resources.len() ==> {
                &&& text_field(#[trigger] listed_in(lock)[i], "path"@) == Some(
                    lock.draft.resources[i].id,
                )
                &&& listed_in(lock)[i] is Record
            },
        forall|n: int, i: int|
            0 <= i <= n <= lock.draft.resources.len() ==> #[trigger] declared(
                listed_in(lock),
                n,
            )[i] == package_files(lock)[i].path,
{
    lemma_manifest_lists_resources(lock);
    assert forall|i: int| 0 <= i < lock.draft.resources.len() implies text_field(
        #[trigger] listed_in(lock)[i],
        "path"@,
    ) == Some(lock.draft.resources[i].id) by {
        let resource = lock.draft.resources[i];
        assert(text_field(ordered(bare_resource(resource)), "path"@) == Some(
            resource.id,
        ));
    }
    assert forall|n: int, i: int|
        0 <= i <= n <= lock.draft.resources.len() implies #[trigger] declared(
        listed_in(lock),
        n,
    )[i] == package_files(lock)[i].path by {
        if i > 0 {
            assert(text_field(listed_in(lock)[i - 1], "path"@) is Some);
        }
    }
}

/// Whether the reading of a lock goes well so far.
spec fn goes_well(lock: FlowLockView, files: FilesView, user: u32, stage: LoadStageView) -> bool {
    match stage {
        LoadStageView::Manifest => true,
        LoadStageView::Resource(reading, _) => reading.manifest == manifest(lock),
        LoadStageView::Tree(reading, _, todo) => {
            &&& reading.manifest == manifest(lock)
            &&& forall|i: int| 0 <= i < todo.len() ==> stands(files, user, #[trigger] todo[i])
        },
        LoadStageView::Done(r) => r is Ok,
    }
}

proof fn lemma_reading_on_goes_well(
    lock: FlowLockView,
    files: FilesView,
    user: u32,
    reading: ReadingView,
)
    requires
        apart(package_files(lock)),
        stays_inside(lock),
        reading.manifest == manifest(lock),
        sound_reading(files, reading, reading.contents.len() as int),
    ensures
        goes_well(lock, files, user, reading_on(reading)),
{
    lemma_plan_is_declared(lock);
    let n = reading.contents.len() as int;
    let resources = reading.resources();
    assert(resources == listed_in(lock));
    if n < resources.len() {
        let plan = package_files(lock);
        let id = lock.draft.resources[n].id;
        assert(text_field(resources[n], "path"@) == Some(id));
        assert(plan[n + 1].path == path_names(id));
        if reading.files.contains(path_names(id)) {
            let i = choose|i: int|
                0 <= i < reading.files.len() && reading.files[i] == path_names(id);
            assert(declared(listed_in(lock), n)[i] == plan[i].path);
            assert(plan[i].path == plan[n + 1].path);
        }
        assert(resource_fault(resources[n], reading.files) is None);
    }
}

proof fn lemma_standing_entries_pass(
    files: FilesView,
    user: u32,
    reading: ReadingView,
    entry: PackageEntryView,
)
    requires
        stands(files, user, entry),
        forall|f: Seq<Seq<char>>| #[trigger]
            files.dom().contains(f) ==> reading.files.contains(f),
    ensures
        entry_fault(entry.facts, entry.path, reading.files, user) is None,
{
    match entry.facts.kind {
        EntryKind::Directory => {
            let f = choose|f: Seq<Seq<char>>| #[trigger]
                files.dom().contains(f) && is_parent(entry.path, f);
            let i = choose|i: int| 0 <= i < reading.files.len() && reading.files[i] == f;
            assert(is_parent(entry.path, reading.files[i]));
        },
        _ => {},
    }
}

proof fn lemma_judged_goes_well(
    lock: FlowLockView,
    files: FilesView,
    user: u32,
    reading: ReadingView,
    todo: Seq<PackageEntryView>,
)
    requires
        reading.manifest == manifest(lock),
        forall|f: Seq<Seq<char>>| #[trigger]
            files.dom().contains(f) ==> reading.files.contains(f),
        forall|i: int| 0 <= i < todo.len() ==> stands(files, user, #[trigger] todo[i]),
    ensures
        goes_well(lock, files, user, judged(reading, todo, user)),
    decreases todo.len(),
{
    if todo.len() > 0 {
        let rest = todo.drop_first();
        assert(stands(files, user, todo[0]));
        lemma_standing_entries_pass(files, user, reading, todo[0]);
        assert forall|i: int| 0 <= i < rest.len() implies stands(
            files,
            user,
            #[trigger] rest[i],
        ) by {
            assert(rest[i] == todo[i + 1]);
        }
        if todo[0].facts.kind != EntryKind::Directory {
            lemma_judged_goes_well(lock, files, user, reading, rest);
        }
    }
}

proof fn lemma_reading_goes_well(
    lock: FlowLockView,
    files: FilesView,
    user: u32,
    events: Seq<LoadEventView>,
)
    requires
        named(files),
        stays_inside(lock),
        apart(package_files(lock)),
        holds_just(files, package_files(lock)),
        json_parse(package_files(lock)[0].text) == read(manifest(lock)),
        answered(files, user, events),
    ensures
        goes_well(lock, files, user, LoadView::fresh(user).after(events).stage),
    decreases events.len(),
{
    if events.len() > 0 {
        let front = events.drop_last();
        lemma_reading_goes_well(lock, files, user, front);
        lemma_reading_is_sound(files, user, front);
        lemma_plan_is_declared(lock);
        let plan = package_files(lock);
        let before = LoadView::fresh(user).after(front);
        match before.stage {
            LoadStageView::Manifest => {
                assert(files.dom().contains(plan[0].path));
                let reading = ReadingView {
                    manifest: manifest(lock),
                    files: seq![manifest_path()],
                    contents: Seq::empty(),
                };
                assert(declared(listed_in(lock), 0) =~= seq![manifest_path()]);
                lemma_reading_on_goes_well(lock, files, user, reading);
            },
            LoadStageView::Resource(reading, path) => {
                let n = reading.contents.len() as int;
                assert(reading.resources() == listed_in(lock));
                assert(text_field(listed_in(lock)[n], "path"@) is Some);
                assert(plan[n + 1].path == path);
                assert(files.dom().contains(plan[n + 1].path));
                let text = files[path];
                let more = ReadingView { contents: reading.contents.push(text), ..reading };
                assert(more.resources() == reading.resources());
                lemma_reading_on_goes_well(lock, files, user, more);
            },
            LoadStageView::Tree(reading, directory, todo) => {
                let entries = events.last()->Listed_0->Ok_0;
                let placed = entries_at(directory, entries);
                let all = placed + todo;
                assert forall|i: int| 0 <= i < all.len() implies stands(
                    files,
                    user,
                    #[trigger] all[i],
                ) by {
                    if i < placed.len() {
                        assert(all[i] == placed[i]);
                    } else {
                        assert(all[i] == todo[i - placed.len()]);
                    }
                }
                assert forall|f: Seq<Seq<char>>| #[trigger]
                    files.dom().contains(f) implies reading.files.contains(f) by {
                    let i = choose|i: int| 0 <= i < plan.len() && (#[trigger] plan[i]).path == f;
                    let n = lock.draft.resources.len() as int;
                    assert(declared(listed_in(lock), n)[i] == plan[i].path);
                    assert(reading.files[i] == f);
                }
                lemma_judged_goes_well(lock, files, user, reading, all);
            },
            LoadStageView::Done(_) => {},
        }
    }
}

/// A lock that was written to a directory is read back from it, where its files could be written
/// beside each other: nothing on the way is refused, and what is read says what the stored lock
/// says.
pub proof fn lemma_written_locks_are_read_back(
    lock: FlowLockView,
    files: FilesView,
    user: u32,
    events: Seq<LoadEventView>,
)
    requires
        named(files),
        stays_inside(lock),
        apart(package_files(lock)),
        holds_just(files, package_files(lock)),
        json_parse(package_files(lock)[0].text) == read(manifest(lock)),
        answered(files, user, events),
    ensures
        match LoadView::fresh(user).after(events).action() {
            LoadActionView::Finish(Ok(value)) => {
                &&& value == completed(manifest(lock), sources(lock))
                &&& same_locks(value, ordered(FlowLock::wire_json(lock)))
            },
            LoadActionView::Finish(Err(_)) => false,
            _ => true,
        },
{
    lemma_reading_goes_well(lock, files, user, events);
    lemma_reading_is_sound(files, user, events);
    lemma_plan_is_declared(lock);
    lemma_packages_read_back(lock);
    let plan = package_files(lock);
    assert(plan[0].path == manifest_path());
    assert(texts_of(files, listed_in(lock)) =~= sources(lock)) by {
        assert forall|i: int| 0 <= i < lock.draft.resources.len() implies texts_of(
            files,
            listed_in(lock),
        )[i] == sources(lock)[i] by {
            assert(text_field(listed_in(lock)[i], "path"@) is Some);
            assert(plan[i + 1].text == lock.draft.resources[i].source);
            assert(files[plan[i + 1].path] == plan[i + 1].text);
        }
    }
}

/// From a directory with the manifest of a lock, something is read only if it holds the files of
/// the lock, none less and none more; and what is read has what the files hold now.
pub proof fn lemma_changed_directories_are_noticed(
    lock: FlowLockView,
    files: FilesView,
    user: u32,
    events: Seq<LoadEventView>,
    value: JsonView,
)
    requires
        named(files),
        files.dom().contains(manifest_path()),
        files[manifest_path()] == package_files(lock)[0].text,
        json_parse(package_files(lock)[0].text) == read(manifest(lock)),
        answered(files, user, events),
        LoadView::fresh(user).after(events).action() == LoadActionView::Finish(Ok(value)),
    ensures
        forall|f: Seq<Seq<char>>| #[trigger]
            files.dom().contains(f) <==> exists|i: int|
                0 <= i < package_files(lock).len() && (#[trigger] package_files(lock)[i]).path == f,
        value == completed(
            manifest(lock),
            Seq::new(
                lock.draft.resources.len(),
                |i: int| files[path_names(lock.draft.resources[i].id)],
            ),
        ),
{
    lemma_only_declared_files_are_read(files, user, events, value);
    lemma_plan_is_declared(lock);
    let plan = package_files(lock);
    let n = lock.draft.resources.len() as int;
    let all = declared(listed_in(lock), n);
    assert forall|f: Seq<Seq<char>>| #[trigger] files.dom().contains(f) <==> exists|i: int|
        0 <= i < plan.len() && (#[trigger] plan[i]).path == f by {
        if files.dom().contains(f) {
            let i = choose|i: int| 0 <= i < all.len() && all[i] == f;
            assert(plan[i].path == f);
        }
        if exists|i: int| 0 <= i < plan.len() && (#[trigger] plan[i]).path == f {
            let i = choose|i: int| 0 <= i < plan.len() && (#[trigger] plan[i]).path == f;
            assert(all[i] == f);
            assert(all.contains(f));
        }
    }
    let texts = Seq::new(
        lock.draft.resources.len(),
        |i: int| files[path_names(lock.draft.resources[i].id)],
    );
    assert(texts_of(files, listed_in(lock)) =~= texts) by {
        assert forall|i: int| 0 <= i < n implies texts_of(files, listed_in(lock))[i]
            == texts[i] by {
            assert(text_field(listed_in(lock)[i], "path"@) is Some);
        }
    }
}

/// How many names lie between a directory and a file below it.
spec fn way_to(file: Seq<Seq<char>>, directory: Seq<Seq<char>>) -> nat {
    if lies_below(file, directory) {
        (file.len() - directory.len()) as nat
    } else {
        0
    }
}

/// How many names lie between the directories among entries and a file below them.
spec fn ways_to(file: Seq<Seq<char>>, todo: Seq<PackageEntryView>) -> nat
    decreases todo.len(),
{
    if todo.len() == 0 {
        0
    } else {
        ways_to(file, todo.drop_first()) + if todo[0].facts.kind == EntryKind::Directory {
            way_to(file, todo[0].path)
        } else {
            0nat
        }
    }
}

/// How much of a directory is still to be looked through, for the first files.
spec fn left(
    plan: Seq<PackageFileView>,
    n: int,
    directory: Seq<Seq<char>>,
    todo: Seq<PackageEntryView>,
) -> nat
    decreases n,
{
    if n <= 0 {
        0
    } else {
        left(plan, n - 1, directory, todo) + way_to(plan[n - 1].path, directory) + ways_to(
            plan[n - 1].path,
            todo,
        )
    }
}

/// How many answers a reading still takes at most.
spec fn rank(lock: FlowLockView, stage: LoadStageView) -> nat {
    let plan = package_files(lock);
    let count = lock.draft.resources.len();
    let whole = left(plan, plan.len() as int, Seq::empty(), Seq::empty());
    match stage {
        LoadStageView::Manifest => 1 + count + whole,
        LoadStageView::Resource(reading, _) => if reading.contents.len() < count {
            (count - reading.contents.len()) as nat + whole
        } else {
            whole
        },
        LoadStageView::Tree(_, directory, todo) => left(plan, plan.len() as int, directory, todo),
        LoadStageView::Done(_) => 0,
    }
}

proof fn lemma_ways_add(
    file: Seq<Seq<char>>,
    a: Seq<PackageEntryView>,
    b: Seq<PackageEntryView>,
)
    ensures
        ways_to(file, a + b) == ways_to(file, a) + ways_to(file, b),
    decreases a.len(),
{
    if a.len() == 0 {
        assert(a + b =~= b);
    } else {
        assert((a + b).drop_first() =~= a.drop_first() + b);
        lemma_ways_add(file, a.drop_first(), b);
    }
}

proof fn lemma_way_leads_through(
    file: Seq<Seq<char>>,
    directory: Seq<Seq<char>>,
    name: Seq<char>,
)
    ensures
        lies_below(file, directory.push(name)) ==> {
            &&& lies_below(file, directory)
            &&& file[directory.len() as int] == name
            &&& way_to(file, directory.push(name)) + 1 == way_to(file, directory)
        },
{
    let below = directory.push(name);
    if lies_below(file, below) {
        assert(file.take(directory.len() as int) =~= directory) by {
            assert forall|k: int| 0 <= k < directory.len() implies file[k] == directory[k] by {
                assert(file.take(below.len() as int)[k] == below[k]);
            }
        }
        assert(file.take(below.len() as int)[directory.len() as int]
            == below[directory.len() as int]);
    }
}

proof fn lemma_listing_is_nearer(
    file: Seq<Seq<char>>,
    directory: Seq<Seq<char>>,
    entries: Seq<ListedEntryView>,
)
    requires
        names_differ(entries),
    ensures
        ({
            let ways = ways_to(file, entries_at(directory, entries));
            &&& lies_below(file, directory) ==> ways + 1 <= way_to(file, directory)
            &&& !lies_below(file, directory) ==> ways == 0
            &&& (forall|i: int|
                0 <= i < entries.len() ==> (#[trigger] entries[i]).name
                    != file[directory.len() as int]) ==> ways == 0
        }),
    decreases entries.len(),
{
    let placed = entries_at(directory, entries);
    if entries.len() > 0 {
        let rest = entries.drop_first();
        assert forall|i: int, j: int| 0 <= i < j < rest.len() implies (#[trigger] rest[i]).name != (
        #[trigger] rest[j]).name by {
            assert(entries[i + 1].name != entries[j + 1].name);
        }
        lemma_listing_is_nearer(file, directory, rest);
        assert(placed.drop_first() =~= entries_at(directory, rest));
        lemma_way_leads_through(file, directory, entries[0].name);
        assert(placed[0].path == directory.push(entries[0].name));
        if lies_below(file, placed[0].path) {
            assert forall|i: int| 0 <= i < rest.len() implies (#[trigger] rest[i]).name
                != file[directory.len() as int] by {
                assert(entries[0].name != entries[i + 1].name);
            }
        }
        if forall|i: int|
            0 <= i < entries.len() ==> (#[trigger] entries[i]).name
                != file[directory.len() as int] {
            assert(entries[0].name != file[directory.len() as int]);
            assert forall|i: int| 0 <= i < rest.len() implies (#[trigger] rest[i]).name
                != file[directory.len() as int] by {
                assert(rest[i] == entries[i + 1]);
            }
        }
    }
}

proof fn lemma_judged_ways(
    file: Seq<Seq<char>>,
    reading: ReadingView,
    todo: Seq<PackageEntryView>,
    user: u32,
)
    ensures
        judged(reading, todo, user) matches LoadStageView::Tree(_, directory, rest) ==> way_to(
            file,
            directory,
        ) + ways_to(file, rest) == ways_to(file, todo),
    decreases todo.len(),
{
    if todo.len() > 0 && todo[0].facts.kind != EntryKind::Directory {
        lemma_judged_ways(file, reading, todo.drop_first(), user);
    }
}

/// A directory that is looked into has some file below it.
spec fn is_used(plan: Seq<PackageFileView>, directory: Seq<Seq<char>>) -> bool {
    exists|i: int| 0 <= i < plan.len() && lies_below((#[trigger] plan[i]).path, directory)
}

proof fn lemma_listing_leaves_less(
    plan: Seq<PackageFileView>,
    n: int,
    directory: Seq<Seq<char>>,
    entries: Seq<ListedEntryView>,
    todo: Seq<PackageEntryView>,
    reading: ReadingView,
    user: u32,
)
    requires
        0 <= n <= plan.len(),
        names_differ(entries),
    ensures
        judged(reading, entries_at(directory, entries) + todo, user) matches LoadStageView::Tree(
            _,
            next,
            rest,
        ) ==> {
            &&& left(plan, n, next, rest) <= left(plan, n, directory, todo)
            &&& (exists|i: int| 0 <= i < n && lies_below((#[trigger] plan[i]).path, directory))
                ==> left(plan, n, next, rest) + 1 <= left(plan, n, directory, todo)
        },
        (exists|i: int| 0 <= i < n && lies_below((#[trigger] plan[i]).path, directory)) ==> left(
            plan,
            n,
            directory,
            todo,
        ) >= 1,
    decreases n,
{
    if n > 0 {
        let file = plan[n - 1].path;
        let all = entries_at(directory, entries) + todo;
        lemma_listing_leaves_less(plan, n - 1, directory, entries, todo, reading, user);
        lemma_listing_is_nearer(file, directory, entries);
        lemma_ways_add(file, entries_at(directory, entries), todo);
        lemma_judged_ways(file, reading, all, user);
        if exists|i: int| 0 <= i < n && lies_below((#[trigger] plan[i]).path, directory) {
            let i = choose|i: int| 0 <= i < n && lies_below((#[trigger] plan[i]).path, directory);
            if i < n - 1 {
                assert(lies_below(plan[i].path, directory));
            }
        }
    }
}

proof fn lemma_judged_directories_are_used(
    files: FilesView,
    plan: Seq<PackageFileView>,
    user: u32,
    reading: ReadingView,
    todo: Seq<PackageEntryView>,
)
    requires
        holds_just(files, plan),
        forall|i: int| 0 <= i < todo.len() ==> stands(files, user, #[trigger] todo[i]),
    ensures
        judged(reading, todo, user) matches LoadStageView::Tree(_, directory, _) ==> is_used(
            plan,
            directory,
        ),
    decreases todo.len(),
{
    if todo.len() > 0 {
        assert(stands(files, user, todo[0]));
        let rest = todo.drop_first();
        if todo[0].facts.kind == EntryKind::Directory {
            let f = choose|f: Seq<Seq<char>>| #[trigger]
                files.dom().contains(f) && is_parent(todo[0].path, f);
            let i = choose|i: int| 0 <= i < plan.len() && (#[trigger] plan[i]).path == f;
            assert(lies_below(plan[i].path, todo[0].path));
        } else {
            assert forall|i: int| 0 <= i < rest.len() implies stands(
                files,
                user,
                #[trigger] rest[i],
            ) by {
                assert(rest[i] == todo[i + 1]);
            }
            lemma_judged_directories_are_used(files, plan, user, reading, rest);
        }
    }
}

proof fn lemma_used_takes_an_answer(
    plan: Seq<PackageFileView>,
    directory: Seq<Seq<char>>,
    todo: Seq<PackageEntryView>,
)
    requires
        is_used(plan, directory),
    ensures
        left(plan, plan.len() as int, directory, todo) >= 1,
{
    let nothing = Seq::<ListedEntryView>::empty();
    let blank = ReadingView {
        manifest: JsonView::Null,
        files: Seq::empty(),
        contents: Seq::empty(),
    };
    lemma_listing_leaves_less(plan, plan.len() as int, directory, nothing, todo, blank, 0);
}

proof fn lemma_root_is_used(lock: FlowLockView)
    ensures
        is_used(package_files(lock), Seq::empty()),
{
    let plan = package_files(lock);
    let root = Seq::<Seq<char>>::empty();
    assert(plan[0].path.take(0) =~= root);
    assert(lies_below(plan[0].path, root));
}

/// Whether a stage is over, or takes fewer answers than given and looks into used directories.
spec fn is_nearer(lock: FlowLockView, stage: LoadStageView, n: int) -> bool {
    match stage {
        LoadStageView::Manifest => false,
        LoadStageView::Resource(_, _) => 1 <= rank(lock, stage) < n,
        LoadStageView::Tree(_, directory, _) => 1 <= rank(lock, stage) < n && is_used(
            package_files(lock),
            directory,
        ),
        LoadStageView::Done(_) => true,
    }
}

proof fn lemma_tree_comes_nearer(
    lock: FlowLockView,
    files: FilesView,
    user: u32,
    reading: ReadingView,
    directory: Seq<Seq<char>>,
    todo: Seq<PackageEntryView>,
    entries: Seq<ListedEntryView>,
)
    requires
        holds_just(files, package_files(lock)),
        lists(files, user, directory, entries),
        forall|i: int| 0 <= i < todo.len() ==> stands(files, user, #[trigger] todo[i]),
        is_used(package_files(lock), directory),
    ensures
        is_nearer(
            lock,
            judged(reading, entries_at(directory, entries) + todo, user),
            rank(lock, LoadStageView::Tree(reading, directory, todo)) as int,
        ),
{
    let plan = package_files(lock);
    let placed = entries_at(directory, entries);
    let all = placed + todo;
    assert forall|i: int| 0 <= i < all.len() implies stands(files, user, #[trigger] all[i]) by {
        if i < placed.len() {
            assert(all[i] == placed[i]);
        } else {
            assert(all[i] == todo[i - placed.len()]);
        }
    }
    lemma_judged_directories_are_used(files, plan, user, reading, all);
    let n = plan.len() as int;
    lemma_listing_leaves_less(plan, n, directory, entries, todo, reading, user);
    lemma_judged_is_tree_or_done(reading, all, user);
    if let LoadStageView::Tree(_, next, rest) = judged(reading, all, user) {
        lemma_used_takes_an_answer(plan, next, rest);
    }
}

proof fn lemma_judged_is_tree_or_done(
    reading: ReadingView,
    todo: Seq<PackageEntryView>,
    user: u32,
)
    ensures
        judged(reading, todo, user) is Tree || judged(reading, todo, user) is Done,
    decreases todo.len(),
{
    if todo.len() > 0 {
        lemma_judged_is_tree_or_done(reading, todo.drop_first(), user);
    }
}

proof fn lemma_reading_on_comes_nearer(lock: FlowLockView, reading: ReadingView)
    requires
        reading.resources().len() == lock.draft.resources.len(),
        reading.contents.len() <= reading.resources().len(),
    ensures
        is_nearer(
            lock,
            reading_on(reading),
            lock.draft.resources.len() - reading.contents.len() + rank(
                lock,
                LoadStageView::Tree(reading, Seq::empty(), Seq::empty()),
            ) + 1,
        ),
{
    lemma_root_is_used(lock);
    lemma_used_takes_an_answer(package_files(lock), Seq::empty(), Seq::empty());
}

proof fn lemma_step_comes_nearer(
    lock: FlowLockView,
    files: FilesView,
    before: LoadView,
    event: LoadEventView,
)
    requires
        holds_just(files, package_files(lock)),
        json_parse(package_files(lock)[0].text) == read(manifest(lock)),
        goes_well(lock, files, before.user, before.stage),
        sound_stage(files, before.stage),
        truthful(files, before.user, before.action(), event),
        before.stage matches LoadStageView::Tree(_, directory, _) ==> is_used(
            package_files(lock),
            directory,
        ),
    ensures
        is_nearer(lock, before.advanced(event).stage, rank(lock, before.stage) as int),
{
    lemma_plan_is_declared(lock);
    let plan = package_files(lock);
    match before.stage {
        LoadStageView::Manifest => {
            assert(files.dom().contains(plan[0].path));
            let reading = ReadingView {
                manifest: manifest(lock),
                files: seq![manifest_path()],
                contents: Seq::empty(),
            };
            lemma_reading_on_comes_nearer(lock, reading);
        },
        LoadStageView::Resource(reading, path) => {
            let n = reading.contents.len() as int;
            assert(reading.resources() == listed_in(lock));
            assert(text_field(listed_in(lock)[n], "path"@) is Some);
            assert(plan[n + 1].path == path);
            assert(files.dom().contains(plan[n + 1].path));
            let more = ReadingView { contents: reading.contents.push(files[path]), ..reading };
            assert(more.resources() == reading.resources());
            lemma_reading_on_comes_nearer(lock, more);
        },
        LoadStageView::Tree(reading, directory, todo) => {
            let entries = event->Listed_0->Ok_0;
            lemma_tree_comes_nearer(lock, files, before.user, reading, directory, todo, entries);
        },
        LoadStageView::Done(_) => {},
    }
}

proof fn lemma_reading_comes_nearer(
    lock: FlowLockView,
    files: FilesView,
    user: u32,
    events: Seq<LoadEventView>,
)
    requires
        named(files),
        stays_inside(lock),
        apart(package_files(lock)),
        holds_just(files, package_files(lock)),
        json_parse(package_files(lock)[0].text) == read(manifest(lock)),
        answered(files, user, events),
    ensures
        events.len() > 0 ==> is_nearer(
            lock,
            LoadView::fresh(user).after(events).stage,
            rank(lock, LoadStageView::Manifest) - events.len() + 1,
        ),
    decreases events.len(),
{
    if events.len() > 0 {
        let front = events.drop_last();
        let before = LoadView::fresh(user).after(front);
        lemma_reading_comes_nearer(lock, files, user, front);
        lemma_reading_goes_well(lock, files, user, front);
        lemma_reading_is_sound(files, user, front);
        if front.len() == 0 {
            assert(before == LoadView::fresh(user));
        }
        lemma_step_comes_nearer(lock, files, before, events.last());
    }
}

/// The reading of a lock from the directory that it was written to ends: it takes an answer for
/// the manifest, one for each resource, and at most one for every name that a file lies under.
pub proof fn lemma_written_locks_are_read_to_the_end(
    lock: FlowLockView,
    files: FilesView,
    user: u32,
    events: Seq<LoadEventView>,
)
    requires
        named(files),
        stays_inside(lock),
        apart(package_files(lock)),
        holds_just(files, package_files(lock)),
        json_parse(package_files(lock)[0].text) == read(manifest(lock)),
        answered(files, user, events),
        events.len() > lock.draft.resources.len() + names_count(
            package_files(lock),
            package_files(lock).len() as int,
        ),
    ensures
        LoadView::fresh(user).after(events).action() is Finish,
{
    let plan = package_files(lock);
    lemma_whole_is_all_names(plan, plan.len() as int);
    lemma_reading_comes_nearer(lock, files, user, events);
}

/// How many names the first files lie under.
pub open spec fn names_count(plan: Seq<PackageFileView>, n: int) -> nat
    decreases n,
{
    if n <= 0 {
        0
    } else {
        names_count(plan, n - 1) + plan[n - 1].path.len()
    }
}

proof fn lemma_whole_is_all_names(plan: Seq<PackageFileView>, n: int)
    ensures
        left(plan, n, Seq::empty(), Seq::empty()) <= names_count(plan, n),
    decreases n,
{
    if n > 0 {
        lemma_whole_is_all_names(plan, n - 1);
    }
}

} // verus!

use std::collections::BTreeMap;

use humanize_plugin::flow::canonical::canonicalize_draft;
use humanize_plugin::flow::directory::{
    package_plan, ListedEntry, LoadAction, LoadEvent, LoadMachine,
};
use humanize_plugin::flow::export::order_fields;
use humanize_plugin::flow::lock::{FlowLockFault, FlowLockWire};
use humanize_plugin::flow::package::{EntryFacts, EntryKind};
use humanize_plugin::flow::{
    flow_lock, FlowCheckMode, FlowDraft, FlowLock, FlowNode, FlowResource, ResourceKind,
};
use humanize_plugin::json::{compact, Json};

type Files = BTreeMap<Vec<String>, String>;

fn text(value: &str) -> String {
    value.to_string()
}

fn resource(id: &str, kind: ResourceKind, source: &str) -> FlowResource {
    FlowResource { id: text(id), kind, source: text(source) }
}

fn draft() -> FlowDraft {
    FlowDraft {
        nodes: vec![FlowNode { id: text("build"), ..FlowNode::default() }],
        resources: vec![
            resource("prompts/deep/build.md", ResourceKind::Prompt, "build it\n"),
            resource("README.md", ResourceKind::Readme, "What this does: \"all\".\n"),
        ],
        ..FlowDraft::default()
    }
}

fn lock() -> FlowLock {
    flow_lock(&draft(), FlowCheckMode::Core).unwrap()
}

fn written(lock: &FlowLock) -> Files {
    package_plan(lock).unwrap().into_iter().map(|file| (file.path, file.text)).collect()
}

fn names(path: &str) -> Vec<String> {
    path.split('/').map(text).collect()
}

fn facts(kind: EntryKind) -> EntryFacts {
    match kind {
        EntryKind::Directory => EntryFacts { kind, uid: 7, mode: 0o700, nlink: 2 },
        _ => EntryFacts { kind, uid: 7, mode: 0o600, nlink: 1 },
    }
}

fn listing(files: &Files, at: &[String]) -> Vec<ListedEntry> {
    let mut found: BTreeMap<String, EntryKind> = BTreeMap::new();
    for path in files.keys() {
        if path.len() > at.len() && &path[..at.len()] == at {
            let kind = if path.len() == at.len() + 1 {
                EntryKind::Regular
            } else {
                EntryKind::Directory
            };
            found.insert(path[at.len()].clone(), kind);
        }
    }
    found.into_iter().map(|(name, kind)| ListedEntry { name, facts: facts(kind) }).collect()
}

fn load(files: &Files) -> Result<Json, String> {
    let mut machine = LoadMachine::new(7);
    for _ in 0..100 {
        let event = match machine.action() {
            LoadAction::ReadFile(path) => LoadEvent::Read(match files.get(&path) {
                Some(found) => Ok(found.clone()),
                None => Err(format!("missing {}", path.join("/"))),
            }),
            LoadAction::List(path) => LoadEvent::Listed(Ok(listing(files, &path))),
            LoadAction::Finish(result) => {
                return result.map_err(|error| error.message().to_string());
            }
        };
        machine = machine.advance(event);
    }
    panic!("the reading does not end");
}

#[test]
fn directories_give_their_locks_back() {
    let lock = lock();
    let files = written(&lock);
    let paths: Vec<String> = files.keys().map(|path| path.join("/")).collect();
    assert_eq!(paths, vec!["README.md", "flow.json", "prompts/deep/build.md"]);
    let read = load(&files).unwrap();
    assert_eq!(
        compact(&order_fields(&read)),
        compact(&order_fields(&lock.to_wire_json()))
    );
    let stored = |flow: FlowDraft| FlowLockWire {
        format: text("humanize.flow_lock.v1"),
        lock_id: text(lock.id()),
        content_hash: text(lock.content_hash()),
        check_mode: FlowCheckMode::Core,
        diagnostics: vec![],
        flow,
    };
    let again = stored(canonicalize_draft(&draft())).verify().unwrap();
    assert_eq!(again.canonical_bytes(), lock.canonical_bytes());
    let mut altered = canonicalize_draft(&draft());
    altered.resources[0].source = text("something else");
    assert_eq!(stored(altered).verify().err(), Some(FlowLockFault::Identity));
}

#[test]
fn changed_directories_are_noticed() {
    let lock = lock();
    let mut more = written(&lock);
    more.insert(names("notes.txt"), text(""));
    assert_eq!(
        load(&more).unwrap_err(),
        "flow lock directory contains an undeclared file"
    );
    let mut nested = written(&lock);
    nested.insert(names("extra/notes.txt"), text(""));
    assert_eq!(
        load(&nested).unwrap_err(),
        "flow lock directory contains an undeclared directory"
    );
    let mut deeper = written(&lock);
    deeper.insert(names("prompts/deep/more.md"), text(""));
    assert_eq!(
        load(&deeper).unwrap_err(),
        "flow lock directory contains an undeclared file"
    );
    let mut less = written(&lock);
    less.remove(&names("prompts/deep/build.md"));
    assert_eq!(load(&less).unwrap_err(), "missing prompts/deep/build.md");
    let mut changed = written(&lock);
    changed.insert(names("README.md"), text("something else"));
    let read = load(&changed).unwrap();
    assert_ne!(compact(&order_fields(&read)), compact(&order_fields(&lock.to_wire_json())));
    assert!(compact(&read).contains("something else"));
    let mut torn = written(&lock);
    torn.insert(names("flow.json"), text("{"));
    assert!(load(&torn).is_err());
    torn.insert(names("flow.json"), text("{\"flow\":{}}"));
    assert_eq!(load(&torn).unwrap_err(), "flow lock resources are missing");
}

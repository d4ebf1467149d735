//! A lock as a directory of files: what may stand in it, and under which names.
use vstd::prelude::*;
use vstd::utf8::encode_utf8;

use crate::hash::push_bytes;
use crate::json::{
    field, json_parse, json_pretty, json_view, no_fields, pretty, read, text_field, text_list,
    text_list_json, value_of, Fields, Json, JsonView,
};
use crate::number::{decimal, decimal_text};
use crate::split::{components, path_components, Component, ComponentView};
use crate::text::same;

use super::check::{is_package_path, package_path_is_valid};
use super::diagnostic::Diagnostic;
use super::document::{list_of, list_to_json, Document};
use super::export::{order_fields, ordered};
use super::lock::{FlowLock, FlowLockView, FLOW_LOCK_FORMAT};
use super::model::{
    FlowContract, FlowDraft, FlowDraftView, FlowImport, FlowNode, FlowPolicies, FlowResource,
    FlowResourceView, FlowRoute,
};
use super::shallow::lemma_manifests_read_back;

verus! {

broadcast use vstd::string::group_string_axioms;

/// The file that describes a package.
pub const FLOW_MANIFEST: &'static str = "flow.json";

/// Why a lock cannot be written to or read from a directory.
#[derive(Debug)]
pub struct FlowLockDirectoryError {
    message: String,
}

impl DeepView for FlowLockDirectoryError {
    type V = Seq<char>;

    closed spec fn deep_view(&self) -> Seq<char> {
        self.message@
    }
}

impl FlowLockDirectoryError {
    pub fn new(message: &str) -> (r: Self)
        ensures
            r.deep_view() == message@,
    {
        FlowLockDirectoryError { message: message.to_string() }
    }

    pub fn message(&self) -> (r: &str)
        ensures
            r@ == self.deep_view(),
    {
        self.message.as_str()
    }
}

/// A path as the list of its names.
pub open spec fn names(path: Seq<ComponentView>, n: int) -> Seq<Seq<char>>
    decreases n,
{
    if n <= 0 {
        Seq::empty()
    } else {
        match path[n - 1] {
            ComponentView::Normal(name) => names(path, n - 1).push(name),
            _ => names(path, n - 1),
        }
    }
}

/// The names that a path leads through.
pub open spec fn path_names(path: Seq<char>) -> Seq<Seq<char>> {
    names(path_components(path), path_components(path).len() as int)
}

fn name_list(path: &str) -> (r: Vec<String>)
    ensures
        r.deep_view() == path_names(path@),
{
    let parts = components(path);
    let ghost model = path_components(path@);
    let mut out: Vec<String> = Vec::new();
    let mut i: usize = 0;
    assert(out.deep_view() =~= names(model, 0));
    while i < parts.len()
        invariant
            i <= parts.len(),
            parts.deep_view() == model,
            out.deep_view() == names(model, i as int),
        decreases parts.len() - i,
    {
        let ghost before = out.deep_view();
        assert(model[i as int] == parts@[i as int].deep_view());
        match &parts[i] {
            Component::Normal(name) => {
                out.push(name.clone());
                assert(out.deep_view() =~= before.push(name@));
            },
            _ => {},
        }
        i += 1;
    }
    out
}

/// The names of a path that stays inside the package.
pub fn checked_relative_path(value: &str) -> (r: Result<Vec<String>, FlowLockDirectoryError>)
    ensures
        r is Ok <==> is_package_path(value@),
        r matches Ok(path) ==> path.deep_view() == path_names(value@),
        r matches Err(error) ==> error.deep_view()
            == "flow resource path must stay inside the package"@,
{
    if package_path_is_valid(value) {
        Ok(name_list(value))
    } else {
        Err(FlowLockDirectoryError::new("flow resource path must stay inside the package"))
    }
}

/// A resource without its content.
pub open spec fn bare_resource(resource: FlowResourceView) -> JsonView {
    JsonView::Record(
        no_fields().push(("path"@, JsonView::Text(resource.id))).push(
            ("kind"@, JsonView::Text(resource.kind.name())),
        ),
    )
}

pub open spec fn bare_resources(resources: Seq<FlowResourceView>) -> JsonView {
    JsonView::List(Seq::new(resources.len(), |i: int| bare_resource(resources[i])))
}

fn bare_resources_to_json(resources: &Vec<FlowResource>) -> (r: Json)
    ensures
        r@ == bare_resources(resources.deep_view()),
{
    let mut out: Vec<Json> = Vec::new();
    let ghost model = resources.deep_view();
    let mut i: usize = 0;
    while i < resources.len()
        invariant
            i <= resources.len(),
            model == resources.deep_view(),
            out.len() == i,
            forall|j: int|
                0 <= j < i ==> json_view(#[trigger] out@[j]) == bare_resource(model[j]),
        decreases resources.len() - i,
    {
        assert(model[i as int] == resources@[i as int].deep_view());
        out.push(
            Fields::new().put("path", Json::text(resources[i].id.as_str())).put(
                "kind",
                Json::text(resources[i].kind.as_str()),
            ).done(),
        );
        i += 1;
    }
    let r = Json::List(out);
    assert(r@->List_0 =~= bare_resources(model)->List_0);
    r
}

/// What the manifest of a package holds: the lock without the contents of its
/// resources, with the fields of every object in the order of their keys.
pub open spec fn manifest(lock: FlowLockView) -> JsonView {
    ordered(
        JsonView::Record(
            no_fields().push(("format"@, JsonView::Text(FLOW_LOCK_FORMAT@))).push(
                ("lock_id"@, JsonView::Text(lock.id)),
            ).push(("content_hash"@, JsonView::Text(lock.content_hash))).push(
                ("check_mode"@, JsonView::Text(lock.mode.name())),
            ).push(("diagnostics"@, list_of::<Diagnostic>(lock.diagnostics))).push(
                ("flow"@, bare_flow(lock.draft)),
            ),
        ),
    )
}

/// A flow without the contents of its resources.
pub open spec fn bare_flow(value: FlowDraftView) -> JsonView {
    JsonView::Record(
        no_fields().push(("nodes"@, list_of::<FlowNode>(value.nodes))).push(
            ("contracts"@, list_of::<FlowContract>(value.contracts)),
        ).push(("routes"@, list_of::<FlowRoute>(value.routes))).push(
            ("resources"@, bare_resources(value.resources)),
        ).push(("imports"@, list_of::<FlowImport>(value.imports))).push(
            ("policies"@, FlowPolicies::json(value.policies)),
        ).push(("extensions"@, text_list(value.extensions))),
    )
}

fn bare_flow_to_json(draft: &FlowDraft) -> (r: Json)
    ensures
        r@ == bare_flow(draft.deep_view()),
{
    let extensions = draft.extensions.as_slice();
    assert(extensions.deep_view() =~= draft.extensions.deep_view());
    Fields::new().put("nodes", list_to_json(&draft.nodes)).put(
        "contracts",
        list_to_json(&draft.contracts),
    ).put("routes", list_to_json(&draft.routes)).put(
        "resources",
        bare_resources_to_json(&draft.resources),
    ).put("imports", list_to_json(&draft.imports)).put(
        "policies",
        draft.policies.to_json(),
    ).put("extensions", text_list_json(extensions)).done()
}

fn findings_to_json(findings: &[Diagnostic]) -> (r: Json)
    ensures
        r@ == list_of::<Diagnostic>(findings.deep_view()),
{
    let mut out: Vec<Json> = Vec::new();
    let mut i: usize = 0;
    while i < findings.len()
        invariant
            i <= findings.len(),
            out.len() == i,
            forall|j: int|
                0 <= j < i ==> json_view(#[trigger] out@[j]) == Diagnostic::json(
                    findings@[j].deep_view(),
                ),
        decreases findings.len() - i,
    {
        out.push(findings[i].to_json());
        i += 1;
    }
    let r = Json::List(out);
    assert(r@->List_0 =~= list_of::<Diagnostic>(findings.deep_view())->List_0);
    r
}

/// The text of the manifest of a package, closed by a line end. It reads back.
pub fn manifest_text(lock: &FlowLock) -> (r: String)
    ensures
        r@ == json_pretty(value_of(manifest(lock.deep_view()))).push('\n'),
        json_parse(r@) == read(manifest(lock.deep_view())),
{
    let value = Fields::new().put("format", Json::text(FLOW_LOCK_FORMAT)).put(
        "lock_id",
        Json::text(lock.id()),
    ).put("content_hash", Json::text(lock.content_hash())).put(
        "check_mode",
        Json::text(lock.mode().as_str()),
    ).put("diagnostics", findings_to_json(lock.diagnostics())).put(
        "flow",
        bare_flow_to_json(lock.draft()),
    ).done();
    let value = order_fields(&value);
    let mut text = pretty(&value);
    proof {
        lemma_manifests_read_back(lock.deep_view());
    }
    text.push('\n');
    text
}

/// The resources that a manifest lists.
pub open spec fn listed_resources(manifest: JsonView) -> Option<Seq<JsonView>> {
    match field(manifest, "flow"@) {
        Some(flow) => match field(flow, "resources"@) {
            Some(JsonView::List(items)) => Some(items),
            _ => None,
        },
        None => None,
    }
}

pub fn manifest_resources(manifest: &Json) -> (r: Result<&Vec<Json>, FlowLockDirectoryError>)
    ensures
        match r {
            Ok(items) => listed_resources(manifest@) == Some(json_view(Json::List(*items))->List_0),
            Err(error) => listed_resources(manifest@) is None && error.deep_view()
                == "flow lock resources are missing"@,
        },
{
    match manifest.get("flow") {
        Some(flow) => match flow.get("resources") {
            Some(Json::List(items)) => Ok(items),
            _ => Err(FlowLockDirectoryError::new("flow lock resources are missing")),
        },
        None => Err(FlowLockDirectoryError::new("flow lock resources are missing")),
    }
}

/// The files that a package may hold, each as the list of names it lies under.
#[derive(Debug)]
pub struct PackageFiles {
    files: Vec<Vec<String>>,
}

impl DeepView for PackageFiles {
    type V = Seq<Seq<Seq<char>>>;

    closed spec fn deep_view(&self) -> Seq<Seq<Seq<char>>> {
        self.files.deep_view()
    }
}

fn same_path(a: &Vec<String>, b: &Vec<String>) -> (r: bool)
    ensures
        r == (a.deep_view() == b.deep_view()),
{
    super::lock::same_list(a, b)
}

fn contains_path(paths: &Vec<Vec<String>>, wanted: &Vec<String>) -> (r: bool)
    ensures
        r == paths.deep_view().contains(wanted.deep_view()),
{
    let mut i: usize = 0;
    while i < paths.len()
        invariant
            i <= paths.len(),
            forall|j: int| 0 <= j < i ==> paths.deep_view()[j] != wanted.deep_view(),
        decreases paths.len() - i,
    {
        if same_path(&paths[i], wanted) {
            assert(paths.deep_view()[i as int] == wanted.deep_view());
            return true;
        }
        i += 1;
    }
    false
}

/// Why a listed resource is refused: the first that holds.
pub open spec fn resource_fault(resource: JsonView, known: Seq<Seq<Seq<char>>>) -> Option<
    Seq<char>,
> {
    if !(resource is Record) {
        Some("flow resource must be an object"@)
    } else {
        match text_field(resource, "path"@) {
            None => Some("flow resource path is required"@),
            Some(path) => if !is_package_path(path) {
                Some("flow resource path must stay inside the package"@)
            } else if known.contains(path_names(path)) {
                Some("flow resource path is duplicated"@)
            } else {
                None
            },
        }
    }
}

impl PackageFiles {
    /// The manifest alone.
    pub fn new() -> (r: Self)
        ensures
            r.deep_view() == seq![seq![FLOW_MANIFEST@]],
    {
        let mut path: Vec<String> = Vec::new();
        path.push(FLOW_MANIFEST.to_string());
        assert(path.deep_view() =~= seq![FLOW_MANIFEST@]);
        let mut files: Vec<Vec<String>> = Vec::new();
        files.push(path);
        assert(files.deep_view() =~= seq![seq![FLOW_MANIFEST@]]);
        PackageFiles { files }
    }

    /// Takes a listed resource in, and gives the names of the file it lies in.
    pub fn enlist(&mut self, resource: &Json) -> (r: Result<Vec<String>, FlowLockDirectoryError>)
        ensures
            match r {
                Ok(path) => {
                    &&& resource_fault(resource@, old(self).deep_view()) is None
                    &&& text_field(resource@, "path"@) is Some
                    &&& path.deep_view() == path_names(text_field(resource@, "path"@)->0)
                    &&& final(self).deep_view() == old(self).deep_view().push(path.deep_view())
                },
                Err(error) => {
                    &&& resource_fault(resource@, old(self).deep_view()) == Some(error.deep_view())
                    &&& final(self).deep_view() == old(self).deep_view()
                },
            },
    {
        match resource {
            Json::Record(_) => {},
            _ => {
                return Err(FlowLockDirectoryError::new("flow resource must be an object"));
            },
        }
        let text = match resource.text_at("path") {
            Some(text) => text,
            None => {
                return Err(FlowLockDirectoryError::new("flow resource path is required"));
            },
        };
        let path = match checked_relative_path(text) {
            Ok(path) => path,
            Err(error) => {
                return Err(error);
            },
        };
        if contains_path(&self.files, &path) {
            return Err(FlowLockDirectoryError::new("flow resource path is duplicated"));
        }
        let kept = path.clone();
        assert(kept.deep_view() =~= path.deep_view());
        let ghost before = self.files.deep_view();
        self.files.push(kept);
        assert(self.files.deep_view() =~= before.push(path.deep_view()));
        Ok(path)
    }

    /// Whether a file may stand under the given names.
    pub fn allows_file(&self, path: &Vec<String>) -> (r: bool)
        ensures
            r == self.deep_view().contains(path.deep_view()),
    {
        contains_path(&self.files, path)
    }

    /// Whether a directory may stand under the given names: some file lies below it.
    pub fn allows_directory(&self, path: &Vec<String>) -> (r: bool)
        ensures
            r == is_parent_of_some(path.deep_view(), self.deep_view()),
    {
        let ghost model = self.files.deep_view();
        let ghost wanted = path.deep_view();
        if path.len() == 0 {
            return false;
        }
        let mut i: usize = 0;
        while i < self.files.len()
            invariant
                i <= self.files.len(),
                path.len() > 0,
                model == self.files.deep_view(),
                wanted == path.deep_view(),
                forall|j: int| 0 <= j < i ==> !is_parent(wanted, #[trigger] model[j]),
            decreases self.files.len() - i,
        {
            let file = &self.files[i];
            assert(model[i as int] == file.deep_view());
            if file.len() > path.len() {
                let mut k: usize = 0;
                let mut matches = true;
                while k < path.len() && matches
                    invariant
                        k <= path.len() < file.len(),
                        matches ==> forall|j: int|
                            0 <= j < k ==> path.deep_view()[j] == file.deep_view()[j],
                        !matches ==> path.deep_view() != file.deep_view().take(path.len() as int),
                    decreases path.len() - k,
                {
                    if !same(path[k].as_str(), file[k].as_str()) {
                        assert(path.deep_view()[k as int] != file.deep_view()[k as int]);
                        assert(file.deep_view().take(path.len() as int)[k as int]
                            == file.deep_view()[k as int]);
                        matches = false;
                    }
                    k += 1;
                }
                if matches {
                    assert(path.deep_view() =~= file.deep_view().take(path.len() as int));
                    assert(is_parent(wanted, model[i as int]));
                    return true;
                }
            }
            i += 1;
        }
        false
    }
}

/// Whether a directory lies on the way to a file.
pub open spec fn is_parent(directory: Seq<Seq<char>>, file: Seq<Seq<char>>) -> bool {
    0 < directory.len() < file.len() && directory == file.take(directory.len() as int)
}

pub open spec fn is_parent_of_some(
    directory: Seq<Seq<char>>,
    files: Seq<Seq<Seq<char>>>,
) -> bool {
    exists|i: int| 0 <= i < files.len() && is_parent(directory, #[trigger] files[i])
}

/// What stands under a name in a directory.
#[derive(Debug, Clone, Copy, PartialEq, Eq, Structural)]
pub enum EntryKind {
    Directory,
    Regular,
    Symlink,
    Other,
}

/// What is known of a directory entry.
#[derive(Debug, Clone, Copy)]
pub struct EntryFacts {
    pub kind: EntryKind,
    pub uid: u32,
    pub mode: u32,
    pub nlink: u64,
}

pub open spec fn is_private_directory(entry: EntryFacts, user: u32) -> bool {
    entry.uid == user && entry.mode == 0o700 && entry.nlink >= 2
}

pub open spec fn is_private_file(entry: EntryFacts, user: u32) -> bool {
    entry.uid == user && entry.mode == 0o600 && entry.nlink == 1
}

/// Why an entry of a package directory is refused.
pub open spec fn entry_fault(
    entry: EntryFacts,
    path: Seq<Seq<char>>,
    files: Seq<Seq<Seq<char>>>,
    user: u32,
) -> Option<Seq<char>> {
    match entry.kind {
        EntryKind::Directory => if !is_private_directory(entry, user) {
            Some("flow lock directories must be current-user mode 0700"@)
        } else if !is_parent_of_some(path, files) {
            Some("flow lock directory contains an undeclared directory"@)
        } else {
            None
        },
        EntryKind::Regular => if !is_private_file(entry, user) {
            Some("flow lock files must be current-user mode 0600 single-link files"@)
        } else if !files.contains(path) {
            Some("flow lock directory contains an undeclared file"@)
        } else {
            None
        },
        _ => Some("flow lock directory contains an unsafe entry"@),
    }
}

fn validate_private_directory_entry(entry: &EntryFacts, user: u32) -> (r: Result<
    (),
    FlowLockDirectoryError,
>)
    ensures
        r is Ok <==> is_private_directory(*entry, user),
        r matches Err(error) ==> error.deep_view()
            == "flow lock directories must be current-user mode 0700"@,
{
    if entry.uid != user || entry.mode != 0o700 || entry.nlink < 2 {
        return Err(
            FlowLockDirectoryError::new("flow lock directories must be current-user mode 0700"),
        );
    }
    Ok(())
}

fn validate_private_file_entry(entry: &EntryFacts, user: u32) -> (r: Result<
    (),
    FlowLockDirectoryError,
>)
    ensures
        r is Ok <==> is_private_file(*entry, user),
        r matches Err(error) ==> error.deep_view()
            == "flow lock files must be current-user mode 0600 single-link files"@,
{
    if entry.uid != user || entry.mode != 0o600 || entry.nlink != 1 {
        return Err(
            FlowLockDirectoryError::new(
                "flow lock files must be current-user mode 0600 single-link files",
            ),
        );
    }
    Ok(())
}

/// Judges an entry of a package directory; a directory that passes is looked into.
pub fn validate_entry(
    entry: &EntryFacts,
    path: &Vec<String>,
    files: &PackageFiles,
    user: u32,
) -> (r: Result<bool, FlowLockDirectoryError>)
    ensures
        match r {
            Ok(descend) => {
                &&& entry_fault(*entry, path.deep_view(), files.deep_view(), user) is None
                &&& descend == (entry.kind == EntryKind::Directory)
            },
            Err(error) => entry_fault(*entry, path.deep_view(), files.deep_view(), user) == Some(
                error.deep_view(),
            ),
        },
{
    match entry.kind {
        EntryKind::Directory => {
            match validate_private_directory_entry(entry, user) {
                Ok(_) => {},
                Err(error) => {
                    return Err(error);
                },
            }
            if !files.allows_directory(path) {
                return Err(
                    FlowLockDirectoryError::new(
                        "flow lock directory contains an undeclared directory",
                    ),
                );
            }
            Ok(true)
        },
        EntryKind::Regular => {
            match validate_private_file_entry(entry, user) {
                Ok(_) => {},
                Err(error) => {
                    return Err(error);
                },
            }
            if !files.allows_file(path) {
                return Err(
                    FlowLockDirectoryError::new("flow lock directory contains an undeclared file"),
                );
            }
            Ok(false)
        },
        _ => Err(FlowLockDirectoryError::new("flow lock directory contains an unsafe entry")),
    }
}

/// What the names of staging directories for a package begin with.
pub open spec fn staging_prefix_bytes(final_name: Seq<u8>) -> Seq<u8> {
    encode_utf8("."@) + final_name + encode_utf8(".staging-"@)
}

pub fn staging_prefix(final_name: &[u8]) -> (r: Vec<u8>)
    ensures
        r@ == staging_prefix_bytes(final_name@),
{
    let mut out: Vec<u8> = Vec::new();
    push_bytes(".".as_bytes(), &mut out);
    push_bytes(final_name, &mut out);
    push_bytes(".staging-".as_bytes(), &mut out);
    assert(out@ =~= staging_prefix_bytes(final_name@));
    out
}

/// The name of a staging directory for a package.
pub fn staging_name(final_name: &[u8], process: u32, number: u64) -> (r: Vec<u8>)
    ensures
        r@ == staging_prefix_bytes(final_name@) + encode_utf8(
            decimal(process as nat) + "-"@ + decimal(number as nat),
        ),
{
    let mut out = staging_prefix(final_name);
    let mut tail = decimal_text(process as u64);
    tail.push_str("-");
    tail.push_str(decimal_text(number).as_str());
    push_bytes(tail.as_str().as_bytes(), &mut out);
    out
}

/// Whether a name begins with the given bytes.
pub fn has_byte_prefix(name: &[u8], prefix: &[u8]) -> (r: bool)
    ensures
        r == (prefix@.len() <= name@.len() && name@.take(prefix@.len() as int) == prefix@),
{
    if prefix.len() > name.len() {
        return false;
    }
    let mut i: usize = 0;
    while i < prefix.len()
        invariant
            i <= prefix.len() <= name.len(),
            forall|j: int| 0 <= j < i ==> name@[j] == prefix@[j],
        decreases prefix.len() - i,
    {
        if name[i] != prefix[i] {
            assert(name@.take(prefix@.len() as int)[i as int] != prefix@[i as int]);
            return false;
        }
        i += 1;
    }
    assert(name@.take(prefix@.len() as int) =~= prefix@);
    true
}

/// Judges an entry beside a package that is to be written: `true` where it is a
/// staging directory to be removed, `false` where it is none of ours.
pub fn staging_entry(
    name: &[u8],
    entry: &EntryFacts,
    final_name: &[u8],
    user: u32,
) -> (r: Result<bool, FlowLockDirectoryError>)
    ensures
        ({
            let prefix = staging_prefix_bytes(final_name@);
            let ours = prefix.len() <= name@.len() && name@.take(prefix.len() as int) == prefix;
            let safe = entry.kind == EntryKind::Directory && entry.uid == user && entry.mode
                == 0o700;
            match r {
                Ok(remove) => remove == ours && (ours ==> safe),
                Err(error) => ours && !safe && error.deep_view()
                    == "unsafe flow lock staging entry"@,
            }
        }),
{
    let prefix = staging_prefix(final_name);
    if !has_byte_prefix(name, prefix.as_slice()) {
        return Ok(false);
    }
    if entry.kind != EntryKind::Directory || entry.uid != user || entry.mode != 0o700 {
        return Err(FlowLockDirectoryError::new("unsafe flow lock staging entry"));
    }
    Ok(true)
}

} // verus!

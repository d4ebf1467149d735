//! A lock read back from a directory: its manifest, with what the files of its resources hold.
use vstd::prelude::*;

use crate::json::{
    distinct_keys, field, json_view, lemma_field_at, lemma_field_set, lookup, no_fields,
    text_field, with_field, Json, JsonView,
};

use super::document::Document;
use super::export::{lemma_ordered_field, ordered};
use super::lock::{FlowLock, FlowLockView};
use super::model::{FlowDraft, FlowDraftView, FlowResource, FlowResourceView};
use super::package::{
    bare_flow, bare_resource, bare_resources, listed_resources, manifest, manifest_resources,
};

verus! {

broadcast use vstd::string::group_string_axioms;

/// The resources of a manifest, each with its content.
pub open spec fn filled(resources: Seq<JsonView>, contents: Seq<Seq<char>>) -> Seq<JsonView> {
    Seq::new(
        resources.len(),
        |i: int| with_field(resources[i], "content"@, JsonView::Text(contents[i])),
    )
}

/// A manifest with the contents of its resources.
pub open spec fn completed(manifest: JsonView, contents: Seq<Seq<char>>) -> JsonView {
    match (field(manifest, "flow"@), listed_resources(manifest)) {
        (Some(flow), Some(resources)) => with_field(
            manifest,
            "flow"@,
            with_field(flow, "resources"@, JsonView::List(filled(resources, contents))),
        ),
        _ => manifest,
    }
}

/// A manifest with the contents of its resources, one for each.
pub fn with_contents(manifest: Json, contents: &Vec<String>) -> (r: Json)
    requires
        listed_resources(manifest@) matches Some(resources) ==> resources.len() == contents.len(),
    ensures
        r@ == completed(manifest@, contents.deep_view()),
{
    let mut out: Vec<Json> = Vec::new();
    match manifest_resources(&manifest) {
        Err(_) => return manifest,
        Ok(resources) => {
            let ghost listed = listed_resources(manifest@)->Some_0;
            let mut i: usize = 0;
            while i < resources.len()
                invariant
                    i <= resources.len() == contents.len(),
                    listed == json_view(Json::List(*resources))->List_0,
                    listed.len() == resources.len(),
                    out.len() == i,
                    forall|j: int|
                        0 <= j < i ==> (#[trigger] out@[j])@ == filled(
                            listed,
                            contents.deep_view(),
                        )[j],
                decreases resources.len() - i,
            {
                assert(listed[i as int] == resources@[i as int]@);
                out.push(resources[i].clone().with("content", Json::text(contents[i].as_str())));
                i += 1;
            }
            assert(out.deep_view() =~= filled(listed, contents.deep_view()));
        },
    }
    let flow = match manifest.get("flow") {
        Some(flow) => flow.clone(),
        None => return manifest,
    };
    manifest.with("flow", flow.with("resources", Json::list(out)))
}

/// Whether two objects have the same fields, in whatever order.
pub open spec fn same_fields(a: JsonView, b: JsonView) -> bool {
    &&& a is Record
    &&& b is Record
    &&& forall|key: Seq<char>| #[trigger] field(a, key) == field(b, key)
}

/// Whether two lists hold objects with the same fields.
pub open spec fn same_items(a: Option<JsonView>, b: Option<JsonView>) -> bool {
    match (a, b) {
        (Some(JsonView::List(x)), Some(JsonView::List(y))) => x.len() == y.len() && forall|i: int|
            0 <= i < x.len() ==> same_fields(#[trigger] x[i], y[i]),
        _ => false,
    }
}

/// Whether two flows have the same fields, and resources with the same fields.
pub open spec fn same_flows(a: Option<JsonView>, b: Option<JsonView>) -> bool {
    match (a, b) {
        (Some(x), Some(y)) => {
            &&& x is Record
            &&& y is Record
            &&& same_items(field(x, "resources"@), field(y, "resources"@))
            &&& forall|key: Seq<char>|
                key != "resources"@ ==> #[trigger] field(x, key) == field(y, key)
        },
        _ => false,
    }
}

/// Whether two stored locks say the same, with the fields of their parts in whatever order.
pub open spec fn same_locks(a: JsonView, b: JsonView) -> bool {
    &&& a is Record
    &&& b is Record
    &&& same_flows(field(a, "flow"@), field(b, "flow"@))
    &&& forall|key: Seq<char>| key != "flow"@ ==> #[trigger] field(a, key) == field(b, key)
}

proof fn lemma_lookups_alike(
    a: Seq<(Seq<char>, JsonView)>,
    b: Seq<(Seq<char>, JsonView)>,
    wanted: Seq<char>,
)
    requires
        a.len() == b.len(),
        forall|i: int|
            0 <= i < a.len() ==> (#[trigger] a[i]).0 == b[i].0 && (a[i].0 == wanted ==> a[i].1
                == b[i].1),
    ensures
        lookup(a, wanted) == lookup(b, wanted),
    decreases a.len(),
{
    if a.len() > 0 {
        assert(a.last() == a[a.len() - 1]);
        lemma_lookups_alike(a.drop_last(), b.drop_last(), wanted);
    }
}

proof fn lemma_resource_filled(resource: FlowResourceView)
    ensures
        same_fields(
            with_field(
                ordered(bare_resource(resource)),
                "content"@,
                JsonView::Text(resource.source),
            ),
            ordered(FlowResource::json(resource)),
        ),
{
    reveal_strlit("path");
    reveal_strlit("kind");
    reveal_strlit("content");
    assert("path"@.len() == 4 && "kind"@.len() == 4 && "content"@.len() == 7);
    assert("path"@[0] == 'p' && "kind"@[0] == 'k');
    let bare = no_fields().push(("path"@, JsonView::Text(resource.id))).push(
        ("kind"@, JsonView::Text(resource.kind.name())),
    );
    let text = JsonView::Text(resource.source);
    let whole = bare.push(("content"@, text));
    assert(distinct_keys(bare));
    assert(distinct_keys(whole));
    let made = with_field(ordered(bare_resource(resource)), "content"@, text);
    let stored = ordered(FlowResource::json(resource));
    assert forall|key: Seq<char>| #[trigger] field(made, key) == field(stored, key) by {
        lemma_field_set(ordered(JsonView::Record(bare)), "content"@, text, key);
        lemma_ordered_field(bare, key);
        lemma_ordered_field(whole, key);
        assert(whole.drop_last() =~= bare);
    }
}

proof fn lemma_flow_filled(flow: FlowDraftView)
    ensures
        ({
            let bare = ordered(bare_flow(flow));
            let stored = ordered(FlowDraft::json(flow));
            let contents = Seq::new(flow.resources.len(), |i: int| flow.resources[i].source);
            field(bare, "resources"@) matches Some(JsonView::List(items)) && same_flows(
                Some(with_field(bare, "resources"@, JsonView::List(filled(items, contents)))),
                Some(stored),
            )
        }),
{
    reveal_strlit("nodes");
    reveal_strlit("contracts");
    reveal_strlit("routes");
    reveal_strlit("resources");
    reveal_strlit("imports");
    reveal_strlit("policies");
    reveal_strlit("extensions");
    assert("nodes"@.len() == 5 && "contracts"@.len() == 9 && "routes"@.len() == 6);
    assert("resources"@.len() == 9 && "imports"@.len() == 7 && "policies"@.len() == 8);
    assert("extensions"@.len() == 10 && "contracts"@[0] == 'c' && "resources"@[0] == 'r');
    let bare_fields = bare_flow(flow)->Record_0;
    let stored_fields = FlowDraft::json(flow)->Record_0;
    assert(distinct_keys(bare_fields));
    assert(distinct_keys(stored_fields));
    let bare = ordered(bare_flow(flow));
    let stored = ordered(FlowDraft::json(flow));
    let contents = Seq::new(flow.resources.len(), |i: int| flow.resources[i].source);
    lemma_ordered_field(bare_fields, "resources"@);
    lemma_ordered_field(stored_fields, "resources"@);
    let listed = bare_resources(flow.resources);
    let whole = super::document::list_of::<FlowResource>(flow.resources);
    assert(lookup(bare_fields, "resources"@) == Some(listed)) by {
        lemma_field_at(bare_fields, 3);
    }
    assert(lookup(stored_fields, "resources"@) == Some(whole)) by {
        lemma_field_at(stored_fields, 3);
    }
    let items = ordered(listed)->List_0;
    let made = with_field(bare, "resources"@, JsonView::List(filled(items, contents)));
    lemma_field_set(bare, "resources"@, JsonView::List(filled(items, contents)), "resources"@);
    assert forall|i: int| 0 <= i < items.len() implies same_fields(
        #[trigger] filled(items, contents)[i],
        ordered(whole)->List_0[i],
    ) by {
        lemma_resource_filled(flow.resources[i]);
        assert(items[i] == ordered(bare_resource(flow.resources[i])));
    }
    assert forall|key: Seq<char>| key != "resources"@ implies #[trigger] field(made, key) == field(
        stored,
        key,
    ) by {
        lemma_field_set(bare, "resources"@, JsonView::List(filled(items, contents)), key);
        lemma_ordered_field(bare_fields, key);
        lemma_ordered_field(stored_fields, key);
        lemma_lookups_alike(bare_fields, stored_fields, key);
    }
}

/// The manifest of a lock, with the contents of its own resources, says what the stored lock
/// says.
pub proof fn lemma_packages_read_back(lock: FlowLockView)
    ensures
        same_locks(
            completed(
                manifest(lock),
                Seq::new(lock.draft.resources.len(), |i: int| lock.draft.resources[i].source),
            ),
            ordered(FlowLock::wire_json(lock)),
        ),
{
    reveal_strlit("format");
    reveal_strlit("lock_id");
    reveal_strlit("content_hash");
    reveal_strlit("check_mode");
    reveal_strlit("diagnostics");
    reveal_strlit("flow");
    assert("format"@.len() == 6 && "lock_id"@.len() == 7 && "content_hash"@.len() == 12);
    assert("check_mode"@.len() == 10 && "diagnostics"@.len() == 11 && "flow"@.len() == 4);
    let stored_fields = FlowLock::wire_json(lock)->Record_0;
    let bare_fields = stored_fields.update(5, ("flow"@, bare_flow(lock.draft)));
    assert(distinct_keys(stored_fields));
    assert(distinct_keys(bare_fields));
    assert(manifest(lock) == ordered(JsonView::Record(bare_fields))) by {
        let given = no_fields().push(stored_fields[0]).push(stored_fields[1]).push(
            stored_fields[2],
        ).push(stored_fields[3]).push(stored_fields[4]).push(("flow"@, bare_flow(lock.draft)));
        assert(given =~= bare_fields);
    }
    let contents = Seq::new(lock.draft.resources.len(), |i: int| lock.draft.resources[i].source);
    let whole = manifest(lock);
    let stored = ordered(FlowLock::wire_json(lock));
    lemma_ordered_field(bare_fields, "flow"@);
    lemma_ordered_field(stored_fields, "flow"@);
    lemma_field_at(bare_fields, 5);
    lemma_field_at(stored_fields, 5);
    lemma_flow_filled(lock.draft);
    let flow = ordered(bare_flow(lock.draft));
    let items = field(flow, "resources"@)->Some_0->List_0;
    let made = with_field(flow, "resources"@, JsonView::List(filled(items, contents)));
    assert(completed(whole, contents) == with_field(whole, "flow"@, made));
    lemma_field_set(whole, "flow"@, made, "flow"@);
    assert forall|key: Seq<char>| key != "flow"@ implies #[trigger] field(
        completed(whole, contents),
        key,
    ) == field(stored, key) by {
        lemma_field_set(whole, "flow"@, made, key);
        lemma_ordered_field(bare_fields, key);
        lemma_ordered_field(stored_fields, key);
        lemma_lookups_alike(bare_fields, stored_fields, key);
    }
}

/// The manifest of a lock lists its resources, in their order.
pub proof fn lemma_manifest_lists_resources(lock: FlowLockView)
    ensures
        listed_resources(manifest(lock)) == Some(
            Seq::new(
                lock.draft.resources.len(),
                |i: int| ordered(bare_resource(lock.draft.resources[i])),
            ),
        ),
        forall|i: int|
            0 <= i < lock.draft.resources.len() ==> text_field(
                ordered(bare_resource(#[trigger] lock.draft.resources[i])),
                "path"@,
            ) == Some(lock.draft.resources[i].id),
{
    reveal_strlit("format");
    reveal_strlit("lock_id");
    reveal_strlit("content_hash");
    reveal_strlit("check_mode");
    reveal_strlit("diagnostics");
    reveal_strlit("flow");
    assert("format"@.len() == 6 && "lock_id"@.len() == 7 && "content_hash"@.len() == 12);
    assert("check_mode"@.len() == 10 && "diagnostics"@.len() == 11 && "flow"@.len() == 4);
    let stored_fields = FlowLock::wire_json(lock)->Record_0;
    let bare_fields = stored_fields.update(5, ("flow"@, bare_flow(lock.draft)));
    assert(distinct_keys(bare_fields));
    assert(manifest(lock) == ordered(JsonView::Record(bare_fields))) by {
        let given = no_fields().push(stored_fields[0]).push(stored_fields[1]).push(
            stored_fields[2],
        ).push(stored_fields[3]).push(stored_fields[4]).push(("flow"@, bare_flow(lock.draft)));
        assert(given =~= bare_fields);
    }
    lemma_ordered_field(bare_fields, "flow"@);
    lemma_field_at(bare_fields, 5);
    lemma_bare_flow_lists(lock.draft);
    assert forall|i: int| 0 <= i < lock.draft.resources.len() implies text_field(
        ordered(bare_resource(#[trigger] lock.draft.resources[i])),
        "path"@,
    ) == Some(lock.draft.resources[i].id) by {
        lemma_bare_path(lock.draft.resources[i]);
    }
}

proof fn lemma_bare_flow_lists(flow: FlowDraftView)
    ensures
        field(ordered(bare_flow(flow)), "resources"@) == Some(
            JsonView::List(
                Seq::new(
                    flow.resources.len(),
                    |i: int| ordered(bare_resource(flow.resources[i])),
                ),
            ),
        ),
{
    reveal_strlit("nodes");
    reveal_strlit("contracts");
    reveal_strlit("routes");
    reveal_strlit("resources");
    reveal_strlit("imports");
    reveal_strlit("policies");
    reveal_strlit("extensions");
    assert("nodes"@.len() == 5 && "contracts"@.len() == 9 && "routes"@.len() == 6);
    assert("resources"@.len() == 9 && "imports"@.len() == 7 && "policies"@.len() == 8);
    assert("extensions"@.len() == 10 && "contracts"@[0] == 'c' && "resources"@[0] == 'r');
    let bare_fields = bare_flow(flow)->Record_0;
    assert(distinct_keys(bare_fields));
    lemma_ordered_field(bare_fields, "resources"@);
    lemma_field_at(bare_fields, 3);
    let items = ordered(bare_resources(flow.resources))->List_0;
    assert(items =~= Seq::new(
        flow.resources.len(),
        |i: int| ordered(bare_resource(flow.resources[i])),
    ));
}

proof fn lemma_bare_path(resource: FlowResourceView)
    ensures
        text_field(ordered(bare_resource(resource)), "path"@) == Some(resource.id),
{
    reveal_strlit("path");
    reveal_strlit("kind");
    assert("path"@[0] == 'p' && "kind"@[0] == 'k');
    let bare = no_fields().push(("path"@, JsonView::Text(resource.id))).push(
        ("kind"@, JsonView::Text(resource.kind.name())),
    );
    assert(distinct_keys(bare));
    lemma_ordered_field(bare, "path"@);
    lemma_field_at(bare, 0);
}

} // verus!

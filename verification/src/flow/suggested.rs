//! What holds of every suggested flow: nothing is found against it, and it can be locked.
use vstd::prelude::*;

use crate::number::{decimal, lemma_decimal_reads_back};
use crate::split::{
    component, lemma_piece_behind, lemma_whole_piece, only_names, part_components,
    path_components, pieces,
};
use crate::text::{is_blank, lemma_blank_trims_to_nothing, trimmed};

use super::check::{
    all_contract_findings, all_contract_id_findings, all_node_findings, all_node_id_findings,
    all_node_scope_findings, all_resource_findings, artifact_id_findings, check_findings,
    contract_findings, contract_id_findings, contract_id_repeats, has_contract, has_readme,
    has_readme_content, has_resource, has_schema, is_package_path, is_readme, kind_of,
    node_findings, node_id_repeats, node_scope_findings, resource_findings, resource_kind,
    resource_path_repeats, resource_ref_findings, schema_findings, scope_findings,
};
use super::diagnostic::{any_blocks, DiagnosticView, FlowCheckMode};
use super::model::{FlowResourceView, ResourceKind};
use super::profile::{draft_qos, first_qos};
use super::suggest::{
    candidate, is_slug, is_slug_char, lemma_slug, lemma_unique_ids, next_id, slug, suggested,
    suggested_contract_id, suggested_prompt_path, suggested_schema_path, unique_ids, SuggestView,
};

verus! {

broadcast use vstd::string::group_string_axioms;

/// Whether a text is made of the characters of slugs alone.
pub open spec fn is_plain(s: Seq<char>) -> bool {
    s.len() > 0 && forall|i: int| 0 <= i < s.len() ==> is_slug_char(#[trigger] s[i])
}

proof fn lemma_candidate_is_plain(base: Seq<char>, count: nat)
    requires
        is_plain(base),
    ensures
        is_plain(candidate(base, count)),
{
    reveal_strlit("_");
    lemma_decimal_reads_back(count);
    let made = candidate(base, count);
    if count != 1 {
        assert forall|i: int| 0 <= i < made.len() implies is_slug_char(#[trigger] made[i]) by {
            if i < base.len() {
                assert(made[i] == base[i]);
            } else if i == base.len() {
                assert(made[i] == '_');
            } else {
                assert(made[i] == decimal(count)[i - base.len() - 1]);
            }
        }
    }
}

proof fn lemma_ids_are_plain(values: Seq<Seq<char>>, fallback: Seq<char>, n: int)
    requires
        0 <= n,
        is_slug(fallback),
    ensures
        forall|i: int| 0 <= i < n ==> is_plain(#[trigger] unique_ids(values, fallback, n)[i]),
    decreases n,
{
    if n > 0 {
        lemma_ids_are_plain(values, fallback, n - 1);
        lemma_unique_ids(values, fallback, n - 1);
        let used = unique_ids(values, fallback, n - 1);
        let base = slug(values[n - 1], fallback);
        lemma_slug(values[n - 1], fallback);
        let count = choose|count: nat| super::suggest::is_first_free(base, used, count);
        lemma_candidate_is_plain(base, count);
        let all = unique_ids(values, fallback, n);
        assert forall|i: int| 0 <= i < n implies is_plain(#[trigger] all[i]) by {
            if i < n - 1 {
                assert(all[i] == used[i]);
            } else {
                assert(all[i] == next_id(base, used));
            }
        }
    }
}

/// Whether a text is the name of a file or a directory.
spec fn is_name(part: Seq<char>) -> bool {
    part.len() > 0 && part != "."@ && part != ".."@
}

proof fn lemma_named_parts(parts: Seq<Seq<char>>, n: int)
    requires
        0 <= n <= parts.len(),
        forall|i: int| 0 <= i < n ==> is_name(#[trigger] parts[i]),
    ensures
        forall|i: int|
            0 <= i < part_components(parts, n).len() ==> (#[trigger] part_components(
                parts,
                n,
            )[i]) is Normal,
    decreases n,
{
    if n > 0 {
        lemma_named_parts(parts, n - 1);
        assert(is_name(parts[n - 1]));
        assert(component(parts[n - 1], n == 1) is Some);
    }
}

proof fn lemma_names_stay_inside(path: Seq<char>)
    requires
        path.len() > 0,
        path[0] != '/',
        path != "flow.json"@,
        forall|i: int| 0 <= i < pieces(path, '/').len() ==> is_name(
            #[trigger] pieces(path, '/')[i],
        ),
    ensures
        is_package_path(path),
{
    let parts = pieces(path, '/');
    lemma_named_parts(parts, parts.len() as int);
    assert(path_components(path) == part_components(parts, parts.len() as int));
    assert(only_names(path));
}

proof fn lemma_readme_path()
    ensures
        is_package_path("README.md"@),
        "README.md"@.len() == 9,
        "README.md"@[0] == 'R',
{
    reveal_strlit("README.md");
    reveal_strlit("flow.json");
    reveal_strlit(".");
    reveal_strlit("..");
    let path = "README.md"@;
    assert(!path.contains('/'));
    lemma_whole_piece(path, '/');
    assert(path[0] == 'R');
    assert("flow.json"@[0] == 'f');
    lemma_names_stay_inside(path);
}

proof fn lemma_prompt_path(id: Seq<char>)
    requires
        is_plain(id),
    ensures
        is_package_path(suggested_prompt_path(id)),
        suggested_prompt_path(id).len() == id.len() + 11,
        suggested_prompt_path(id)[0] == 'p',
        suggested_prompt_path(id).subrange(8, 8 + id.len() as int) == id,
{
    reveal_strlit("prompts/");
    reveal_strlit("prompts");
    reveal_strlit(".md");
    reveal_strlit("flow.json");
    reveal_strlit(".");
    reveal_strlit("..");
    let path = suggested_prompt_path(id);
    let root = "prompts"@;
    let file = id + ".md"@;
    assert(path =~= root.push('/') + file);
    assert forall|i: int| 0 <= i < file.len() implies #[trigger] file[i] != '/' by {
        if i < id.len() {
            assert(file[i] == id[i]);
            assert(is_slug_char(id[i]));
        } else {
            assert(file[i] == ".md"@[i - id.len()]);
        }
    }
    assert(!file.contains('/'));
    assert(!root.contains('/'));
    lemma_whole_piece(root, '/');
    lemma_piece_behind(root, file, '/');
    assert(pieces(path, '/') =~= seq![root, file]);
    assert(path[7] == '/');
    assert("flow.json"@[7] == 'o');
    assert(path.subrange(8, 8 + id.len() as int) =~= id);
    lemma_names_stay_inside(path);
}

proof fn lemma_schema_path(id: Seq<char>, artifact: Seq<char>)
    requires
        is_plain(id),
        is_plain(artifact),
    ensures
        is_package_path(suggested_schema_path(id, artifact)),
        suggested_schema_path(id, artifact).len() == id.len() + artifact.len() + 13,
        suggested_schema_path(id, artifact)[0] == 's',
        suggested_schema_path(id, artifact).subrange(8, 8 + id.len() as int) == id,
{
    reveal_strlit("schemas/");
    reveal_strlit("schemas");
    reveal_strlit("/");
    reveal_strlit(".txt");
    reveal_strlit("flow.json");
    reveal_strlit(".");
    reveal_strlit("..");
    let path = suggested_schema_path(id, artifact);
    let root = "schemas"@;
    let file = artifact + ".txt"@;
    let front = root.push('/') + id;
    assert(path =~= front.push('/') + file);
    assert forall|i: int| 0 <= i < id.len() implies #[trigger] id[i] != '/' by {
        assert(is_slug_char(id[i]));
    }
    assert forall|i: int| 0 <= i < file.len() implies #[trigger] file[i] != '/' by {
        if i < artifact.len() {
            assert(file[i] == artifact[i]);
            assert(is_slug_char(artifact[i]));
        } else {
            assert(file[i] == ".txt"@[i - artifact.len()]);
        }
    }
    assert(!file.contains('/'));
    assert(!id.contains('/'));
    assert(!root.contains('/'));
    lemma_whole_piece(root, '/');
    lemma_piece_behind(root, id, '/');
    lemma_piece_behind(front, file, '/');
    assert(pieces(path, '/') =~= seq![root, id, file]);
    assert(is_name(id)) by {
        assert(is_slug_char(id[0]));
        assert("."@[0] == '.');
        assert(".."@[0] == '.');
    }
    assert(path[7] == '/');
    assert("flow.json"@[7] == 'o');
    assert(path.subrange(8, 8 + id.len() as int) =~= id);
    lemma_names_stay_inside(path);
}

proof fn lemma_contract_ids_differ(a: Seq<char>, b: Seq<char>)
    ensures
        suggested_contract_id(a) == suggested_contract_id(b) ==> a == b,
{
    let n = "contract."@.len() as int;
    assert(suggested_contract_id(a).skip(n) =~= a);
    assert(suggested_contract_id(b).skip(n) =~= b);
}

proof fn lemma_kind_found(resources: Seq<FlowResourceView>, id: Seq<char>, n: int, j: int)
    requires
        0 <= j < n <= resources.len(),
        resources[j].id == id,
        forall|k: int| j < k < n ==> (#[trigger] resources[k]).id != id,
    ensures
        resource_kind(resources, id, n) == Some(resources[j].kind),
    decreases n,
{
    if j < n - 1 {
        assert(resources[n - 1].id != id);
        lemma_kind_found(resources, id, n - 1, j);
    }
}

/// The facts on which the findings on a suggested flow turn.
proof fn lemma_suggested_shape(input: SuggestView)
    ensures
        ({
            let ids = input.node_ids();
            &&& ids.no_duplicates()
            &&& ids.len() > 0
            &&& is_plain(input.artifact_key())
            &&& forall|i: int| 0 <= i < ids.len() ==> is_plain(#[trigger] ids[i])
        }),
{
    reveal_strlit("node");
    reveal_strlit("result");
    let names = input.node_names();
    assert(is_slug("node"@));
    assert(is_slug("result"@));
    lemma_unique_ids(names, "node"@, names.len() as int);
    lemma_ids_are_plain(names, "node"@, names.len() as int);
    match input.artifact {
        Some(name) => {
            lemma_slug(name, "result"@);
        },
        None => {},
    }
}

/// Where the resources of a suggested flow lie: the readme, then the schemas, then the prompts.
proof fn lemma_suggested_paths(input: SuggestView)
    ensures
        ({
            let d = suggested(input);
            let ids = input.node_ids();
            let artifact = input.artifact_key();
            &&& d.resources.len() == 1 + 2 * ids.len()
            &&& d.resources[0].id == "README.md"@
            &&& d.resources[0].kind == ResourceKind::Readme
            &&& d.resources[0].source == input.readme
            &&& forall|i: int|
                0 <= i < ids.len() ==> {
                    &&& (#[trigger] d.resources[1 + i]).id == suggested_schema_path(
                        ids[i],
                        artifact,
                    )
                    &&& d.resources[1 + i].kind == ResourceKind::Schema
                }
            &&& forall|i: int|
                0 <= i < ids.len() ==> {
                    &&& (#[trigger] d.resources[1 + ids.len() + i]).id == suggested_prompt_path(
                        ids[i],
                    )
                    &&& d.resources[1 + ids.len() + i].kind == ResourceKind::Prompt
                }
        }),
{
}

/// No two resources of a suggested flow share a path, and every path stays in the package.
proof fn lemma_suggested_paths_differ(input: SuggestView)
    ensures
        ({
            let r = suggested(input).resources;
            &&& forall|i: int| 0 <= i < r.len() ==> is_package_path((#[trigger] r[i]).id)
            &&& forall|i: int, j: int|
                0 <= i < j < r.len() ==> (#[trigger] r[i]).id != (#[trigger] r[j]).id
            &&& forall|i: int| 0 < i < r.len() ==> (#[trigger] r[i]).id != "README.md"@
        }),
{
    let r = suggested(input).resources;
    let ids = input.node_ids();
    let n = ids.len() as int;
    let artifact = input.artifact_key();
    lemma_suggested_shape(input);
    lemma_suggested_paths(input);
    lemma_readme_path();
    assert forall|i: int| 0 <= i < n implies {
        &&& is_package_path(#[trigger] suggested_schema_path(ids[i], artifact))
        &&& suggested_schema_path(ids[i], artifact)[0] == 's'
        &&& suggested_schema_path(ids[i], artifact).len() == ids[i].len() + artifact.len() + 13
        &&& suggested_schema_path(ids[i], artifact).subrange(8, 8 + ids[i].len() as int) == ids[i]
    } by {
        lemma_schema_path(ids[i], artifact);
    }
    assert forall|i: int| 0 <= i < n implies {
        &&& is_package_path(#[trigger] suggested_prompt_path(ids[i]))
        &&& suggested_prompt_path(ids[i])[0] == 'p'
        &&& suggested_prompt_path(ids[i]).len() == ids[i].len() + 11
        &&& suggested_prompt_path(ids[i]).subrange(8, 8 + ids[i].len() as int) == ids[i]
    } by {
        lemma_prompt_path(ids[i]);
    }
    assert forall|i: int| 0 <= i < r.len() implies is_package_path((#[trigger] r[i]).id) by {
        if 1 <= i <= n {
            assert(r[1 + (i - 1)].id == suggested_schema_path(ids[i - 1], artifact));
        } else if i > n {
            assert(r[1 + n + (i - 1 - n)].id == suggested_prompt_path(ids[i - 1 - n]));
        }
    }
    assert forall|i: int, j: int| 0 <= i < j < r.len() implies (#[trigger] r[i]).id != (
    #[trigger] r[j]).id by {
        if 1 <= i <= n {
            assert(r[1 + (i - 1)].id == suggested_schema_path(ids[i - 1], artifact));
        }
        if 1 <= j <= n {
            assert(r[1 + (j - 1)].id == suggested_schema_path(ids[j - 1], artifact));
        }
        if i > n {
            assert(r[1 + n + (i - 1 - n)].id == suggested_prompt_path(ids[i - 1 - n]));
        }
        if j > n {
            assert(r[1 + n + (j - 1 - n)].id == suggested_prompt_path(ids[j - 1 - n]));
        }
    }
    assert forall|i: int| 0 < i < r.len() implies (#[trigger] r[i]).id != "README.md"@ by {
        assert(r[0].id != r[i].id);
    }
}

proof fn lemma_no_resource_findings(input: SuggestView, n: int)
    requires
        0 <= n <= suggested(input).resources.len(),
    ensures
        all_resource_findings(suggested(input), n) == Seq::<DiagnosticView>::empty(),
    decreases n,
{
    let d = suggested(input);
    if n > 0 {
        lemma_no_resource_findings(input, n - 1);
        lemma_suggested_paths(input);
        lemma_suggested_paths_differ(input);
        let i = n - 1;
        let ids = input.node_ids();
        assert(is_package_path(d.resources[i].id));
        assert(!resource_path_repeats(d, i)) by {
            if resource_path_repeats(d, i) {
                let j = choose|j: int|
                    0 <= j < i && (#[trigger] d.resources[j]).id == d.resources[i].id;
                assert(d.resources[j].id != d.resources[i].id);
            }
        }
        if 1 <= i <= ids.len() {
            assert(d.resources[1 + (i - 1)].kind == ResourceKind::Schema);
        } else if i > ids.len() {
            assert(d.resources[1 + ids.len() + (i - 1 - ids.len())].kind == ResourceKind::Prompt);
        }
        assert(resource_findings(d, i) =~= Seq::<DiagnosticView>::empty());
        assert(all_resource_findings(d, n) =~= Seq::<DiagnosticView>::empty());
    }
}

proof fn lemma_no_node_id_findings(input: SuggestView, n: int)
    requires
        0 <= n <= suggested(input).nodes.len(),
    ensures
        all_node_id_findings(suggested(input), n) == Seq::<DiagnosticView>::empty(),
    decreases n,
{
    let d = suggested(input);
    if n > 0 {
        lemma_no_node_id_findings(input, n - 1);
        lemma_suggested_shape(input);
        let ids = input.node_ids();
        assert(!node_id_repeats(d, n - 1)) by {
            if node_id_repeats(d, n - 1) {
                let j = choose|j: int|
                    0 <= j < n - 1 && (#[trigger] d.nodes[j]).id == d.nodes[n - 1].id;
                assert(ids[j] == ids[n - 1]);
            }
        }
        assert(all_node_id_findings(d, n) =~= Seq::<DiagnosticView>::empty());
    }
}

proof fn lemma_no_contract_findings(input: SuggestView, n: int)
    requires
        0 <= n <= suggested(input).contracts.len(),
    ensures
        all_contract_id_findings(suggested(input), n) == Seq::<DiagnosticView>::empty(),
        all_contract_findings(suggested(input), n) == Seq::<DiagnosticView>::empty(),
    decreases n,
{
    let d = suggested(input);
    if n > 0 {
        lemma_no_contract_findings(input, n - 1);
        lemma_suggested_shape(input);
        lemma_suggested_paths(input);
        let ids = input.node_ids();
        let i = n - 1;
        let contract = d.contracts[i];
        assert(!contract_id_repeats(d, i)) by {
            if contract_id_repeats(d, i) {
                let j = choose|j: int|
                    0 <= j < i && (#[trigger] d.contracts[j]).id == d.contracts[i].id;
                lemma_contract_ids_differ(ids[j], ids[i]);
                assert(ids[j] == ids[i]);
            }
        }
        reveal_with_fuel(artifact_id_findings, 2);
        assert(artifact_id_findings(contract, i, 1) =~= Seq::<DiagnosticView>::empty());
        assert(contract_id_findings(d, i) =~= Seq::<DiagnosticView>::empty());
        assert(all_contract_id_findings(d, n) =~= Seq::<DiagnosticView>::empty());
        assert(d.resources[1 + i].id == contract.artifacts[0].schema_resource_id->0);
        assert(has_schema(d, contract.artifacts[0].schema_resource_id->0));
        reveal_with_fuel(schema_findings, 2);
        assert(schema_findings(d, contract, 1) =~= Seq::<DiagnosticView>::empty());
        assert(contract_findings(d, i) =~= Seq::<DiagnosticView>::empty());
        assert(all_contract_findings(d, n) =~= Seq::<DiagnosticView>::empty());
    }
}

proof fn lemma_no_node_findings(input: SuggestView, n: int)
    requires
        0 <= n <= suggested(input).nodes.len(),
    ensures
        all_node_findings(suggested(input), n) == Seq::<DiagnosticView>::empty(),
    decreases n,
{
    let d = suggested(input);
    if n > 0 {
        lemma_no_node_findings(input, n - 1);
        lemma_suggested_shape(input);
        lemma_suggested_paths(input);
        lemma_suggested_paths_differ(input);
        let ids = input.node_ids();
        let i = n - 1;
        let node = d.nodes[i];
        let action = node.action->0;
        assert(d.contracts[i].id == node.contract_id->0);
        assert(has_contract(d, node.contract_id->0));
        let place = 1 + ids.len() + i;
        assert(d.resources[place].id == suggested_prompt_path(ids[i]));
        assert forall|k: int| place < k < d.resources.len() implies (
        #[trigger] d.resources[k]).id != suggested_prompt_path(ids[i]) by {
            assert(d.resources[place].id != d.resources[k].id);
        }
        lemma_kind_found(
            d.resources,
            suggested_prompt_path(ids[i]),
            d.resources.len() as int,
            place,
        );
        assert(kind_of(d, action.prompt_ref->0) == Some(ResourceKind::Prompt));
        assert(d.resources[0].id == action.resource_refs[0]);
        assert(has_resource(d, action.resource_refs[0]));
        reveal_with_fuel(resource_ref_findings, 2);
        assert(resource_ref_findings(d, node, action, 1) =~= Seq::<DiagnosticView>::empty());
        assert(node_findings(d, i) =~= Seq::<DiagnosticView>::empty());
        assert(all_node_findings(d, n) =~= Seq::<DiagnosticView>::empty());
    }
}

proof fn lemma_no_scope_findings(input: SuggestView, mode: FlowCheckMode, n: int)
    requires
        0 <= n <= suggested(input).nodes.len(),
    ensures
        all_node_scope_findings(suggested(input), mode, n) == Seq::<DiagnosticView>::empty(),
    decreases n,
{
    let d = suggested(input);
    if n > 0 {
        lemma_no_scope_findings(input, mode, n - 1);
        assert(node_scope_findings(d, mode, n - 1) =~= Seq::<DiagnosticView>::empty());
        assert(all_node_scope_findings(d, mode, n) =~= Seq::<DiagnosticView>::empty());
    }
}

/// Nothing is found against a suggested flow, in any mode.
pub proof fn lemma_suggested_flows_are_sound(input: SuggestView, mode: FlowCheckMode)
    requires
        trimmed(input.readme).len() > 0,
    ensures
        check_findings(suggested(input), mode) == Seq::<DiagnosticView>::empty(),
{
    let d = suggested(input);
    lemma_no_node_id_findings(input, d.nodes.len() as int);
    lemma_no_contract_findings(input, d.contracts.len() as int);
    lemma_no_resource_findings(input, d.resources.len() as int);
    lemma_no_node_findings(input, d.nodes.len() as int);
    lemma_no_scope_findings(input, mode, d.nodes.len() as int);
    lemma_suggested_paths(input);
    lemma_blank_trims_to_nothing(input.readme);
    assert(is_readme(d.resources[0]));
    assert(has_readme(d));
    assert(!is_blank(d.resources[0].source));
    assert(has_readme_content(d));
    assert(first_qos(d.extensions) is None);
    assert(draft_qos(d.extensions).completion_target is None);
    assert(scope_findings(
        d.policies.write_scopes,
        mode,
        "policies.write_scopes["@,
        0,
    ) =~= Seq::<DiagnosticView>::empty());
    assert(check_findings(d, mode) =~= Seq::<DiagnosticView>::empty());
}

/// A suggested flow can be locked, in any mode.
pub proof fn lemma_suggested_flows_can_be_locked(input: SuggestView, mode: FlowCheckMode)
    requires
        trimmed(input.readme).len() > 0,
    ensures
        !any_blocks(check_findings(suggested(input), mode)),
{
    lemma_suggested_flows_are_sound(input, mode);
}

} // verus!

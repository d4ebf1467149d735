//! What is known of a run, in terms of what its history says.
use vstd::prelude::*;

use crate::json::{
    field, json_parse, lemma_field_set, option_text, text_field, unsigned_field, JsonView,
};

use super::context::{
    activation_shown, activations_of, applied_locks, artifact_versions_of, artifact_with_id,
    artifacts_of, attempts_entry, board_entry, board_of, board_versions_of, context_of, doubts_told,
    ActivationEntryView, ArtifactEntryView, BoardEntryView, BoardVersionView, RunFactsView,
    SlotEntryView, StopAttemptsView,
};
use super::participant::{latest_binding, participant_status};
use super::read_model::{mode_or_null, revisions_shown, small_or_null, without_nonces};
use super::replay::ReplayedDriverEvents;
use super::request::optional_number;
use super::shown::{lemma_activation_report_tells, lemma_whole_context_tells};
use super::wire::{context_payloads, effects_of, payload_value, EffectEntryView};

verus! {

broadcast use vstd::string::group_string_axioms;

proof fn lemma_artifacts_by_key(records: Seq<ArtifactEntryView>, run_id: Seq<char>, i: int)
    requires
        0 <= i < records.len(),
        records[i].run_id == run_id,
        forall|j: int|
            i < j < records.len() && (#[trigger] records[j]).run_id == run_id
                ==> records[j].artifact_key != records[i].artifact_key,
    ensures
        artifacts_of(records, run_id) is Record,
        field(artifacts_of(records, run_id), records[i].artifact_key) == Some(
            payload_value(records[i].payload),
        ),
    decreases records.len(),
{
    let front = records.drop_last();
    let last = records.last();
    assert(last == records[records.len() - 1]);
    let before = artifacts_of(front, run_id);
    lemma_artifacts_are_a_record(front, run_id);
    if last.run_id == run_id {
        lemma_field_set(
            before,
            last.artifact_key,
            payload_value(last.payload),
            records[i].artifact_key,
        );
    }
    if i < front.len() {
        assert(front[i] == records[i]);
        assert forall|j: int|
            i < j < front.len() && (#[trigger] front[j]).run_id == run_id implies
                front[j].artifact_key != front[i].artifact_key by {
            assert(front[j] == records[j]);
        }
        lemma_artifacts_by_key(front, run_id, i);
    }
}

proof fn lemma_artifacts_are_a_record(records: Seq<ArtifactEntryView>, run_id: Seq<char>)
    ensures
        artifacts_of(records, run_id) is Record,
    decreases records.len(),
{
    if records.len() > 0 {
        lemma_artifacts_are_a_record(records.drop_last(), run_id);
    }
}

proof fn lemma_no_artifact(records: Seq<ArtifactEntryView>, run_id: Seq<char>, key: Seq<char>)
    requires
        forall|j: int|
            0 <= j < records.len() && (#[trigger] records[j]).run_id == run_id
                ==> records[j].artifact_key != key,
    ensures
        field(artifacts_of(records, run_id), key) is None,
    decreases records.len(),
{
    if records.len() > 0 {
        let front = records.drop_last();
        let last = records.last();
        assert(last == records[records.len() - 1]);
        assert forall|j: int| 0 <= j < front.len() && (#[trigger] front[j]).run_id == run_id implies
            front[j].artifact_key != key by {
            assert(front[j] == records[j]);
        }
        lemma_no_artifact(front, run_id, key);
        lemma_artifacts_are_a_record(front, run_id);
        if last.run_id == run_id {
            lemma_field_set(
                artifacts_of(front, run_id),
                last.artifact_key,
                payload_value(last.payload),
                key,
            );
        }
    }
}

/// What a run was given under a key shows in its context: the payload that came last, as the JSON
/// value that it spells, or as text where it spells none.
pub proof fn lemma_last_artifacts_show(state: ReplayedDriverEvents, facts: RunFactsView, i: int)
    requires
        0 <= i < facts.artifacts.len(),
        facts.artifacts[i].run_id == facts.run_id,
        forall|j: int|
            i < j < facts.artifacts.len() && (#[trigger] facts.artifacts[j]).run_id == facts.run_id
                ==> facts.artifacts[j].artifact_key != facts.artifacts[i].artifact_key,
    ensures
        field(context_of(state, facts), "artifacts"@) is Some,
        field(
            field(context_of(state, facts), "artifacts"@)->0,
            facts.artifacts[i].artifact_key,
        ) == Some(
            match json_parse(facts.artifacts[i].payload) {
                Ok(value) => value,
                Err(_) => JsonView::Text(facts.artifacts[i].payload),
            },
        ),
{
    lemma_context_parts(state, facts);
    lemma_artifacts_by_key(facts.artifacts, facts.run_id, i);
}

/// A key under which a run was given nothing is not among its artifacts, whatever other runs were
/// given.
pub proof fn lemma_no_other_artifacts_show(
    state: ReplayedDriverEvents,
    facts: RunFactsView,
    key: Seq<char>,
)
    requires
        forall|j: int|
            0 <= j < facts.artifacts.len() && (#[trigger] facts.artifacts[j]).run_id == facts.run_id
                ==> facts.artifacts[j].artifact_key != key,
    ensures
        field(context_of(state, facts), "artifacts"@) is Some,
        field(field(context_of(state, facts), "artifacts"@)->0, key) is None,
{
    lemma_context_parts(state, facts);
    lemma_no_artifact(facts.artifacts, facts.run_id, key);
}

proof fn lemma_board_found(boards: Seq<BoardEntryView>, run_id: Seq<char>, b: int)
    requires
        0 <= b < boards.len(),
        boards[b].run_id == run_id,
        forall|j: int| b < j < boards.len() ==> (#[trigger] boards[j]).run_id != run_id,
    ensures
        board_entry(boards, run_id) == Some(boards[b]),
    decreases boards.len(),
{
    if b < boards.len() - 1 {
        let front = boards.drop_last();
        assert(boards.last() == boards[boards.len() - 1]);
        assert(front[b] == boards[b]);
        assert forall|j: int| b < j < front.len() implies (#[trigger] front[j]).run_id
            != run_id by {
            assert(front[j] == boards[j]);
        }
        lemma_board_found(front, run_id, b);
    }
}

proof fn lemma_no_board(boards: Seq<BoardEntryView>, run_id: Seq<char>)
    requires
        forall|j: int| 0 <= j < boards.len() ==> (#[trigger] boards[j]).run_id != run_id,
    ensures
        board_entry(boards, run_id) is None,
    decreases boards.len(),
{
    if boards.len() > 0 {
        let front = boards.drop_last();
        assert(boards.last() == boards[boards.len() - 1]);
        assert forall|j: int| 0 <= j < front.len() implies (#[trigger] front[j]).run_id
            != run_id by {
            assert(front[j] == boards[j]);
        }
        lemma_no_board(front, run_id);
    }
}

/// The board of a run shows in its context as it is kept.
pub proof fn lemma_boards_show(state: ReplayedDriverEvents, facts: RunFactsView, b: int)
    requires
        0 <= b < facts.boards.len(),
        facts.boards[b].run_id == facts.run_id,
        forall|j: int|
            b < j < facts.boards.len() ==> (#[trigger] facts.boards[j]).run_id != facts.run_id,
    ensures
        field(context_of(state, facts), "board"@) == Some(facts.boards[b].board),
{
    lemma_context_parts(state, facts);
    lemma_board_found(facts.boards, facts.run_id, b);
}

/// A run without a board shows an empty one.
pub proof fn lemma_runs_without_boards_show_none(state: ReplayedDriverEvents, facts: RunFactsView)
    requires
        forall|j: int|
            0 <= j < facts.boards.len() ==> (#[trigger] facts.boards[j]).run_id != facts.run_id,
    ensures
        field(context_of(state, facts), "board"@) == Some(JsonView::Record(Seq::empty())),
{
    lemma_context_parts(state, facts);
    lemma_no_board(facts.boards, facts.run_id);
}

proof fn lemma_board_versions_are_a_record(items: Seq<BoardVersionView>, run_id: Seq<char>)
    ensures
        board_versions_of(items, run_id) is Record,
    decreases items.len(),
{
    if items.len() > 0 {
        lemma_board_versions_are_a_record(items.drop_last(), run_id);
    }
}

proof fn lemma_board_versions_by_key(items: Seq<BoardVersionView>, run_id: Seq<char>, i: int)
    requires
        0 <= i < items.len(),
        items[i].run_id == run_id,
        forall|j: int|
            i < j < items.len() && (#[trigger] items[j]).run_id == run_id ==> items[j].key
                != items[i].key,
    ensures
        field(board_versions_of(items, run_id), items[i].key) == Some(
            JsonView::Unsigned(items[i].version),
        ),
    decreases items.len(),
{
    let front = items.drop_last();
    let last = items.last();
    assert(last == items[items.len() - 1]);
    lemma_board_versions_are_a_record(front, run_id);
    if last.run_id == run_id {
        lemma_field_set(
            board_versions_of(front, run_id),
            last.key,
            JsonView::Unsigned(last.version),
            items[i].key,
        );
    }
    if i < front.len() {
        assert(front[i] == items[i]);
        assert forall|j: int|
            i < j < front.len() && (#[trigger] front[j]).run_id == run_id implies front[j].key
            != front[i].key by {
            assert(front[j] == items[j]);
        }
        lemma_board_versions_by_key(front, run_id, i);
    }
}

proof fn lemma_effects_are_a_record(items: Seq<EffectEntryView>, run_id: Seq<char>)
    ensures
        effects_of(items, run_id) is Record,
    decreases items.len(),
{
    if items.len() > 0 {
        lemma_effects_are_a_record(items.drop_last(), run_id);
    }
}

proof fn lemma_effects_by_key(items: Seq<EffectEntryView>, run_id: Seq<char>, i: int)
    requires
        0 <= i < items.len(),
        items[i].run_id == run_id,
        forall|j: int|
            i < j < items.len() && (#[trigger] items[j]).run_id == run_id ==> items[j].activation_id + "/"@ + items[j].effect_key
                != items[i].activation_id + "/"@ + items[i].effect_key,
    ensures
        field(effects_of(items, run_id), items[i].activation_id + "/"@ + items[i].effect_key) == Some(
            payload_value(items[i].payload),
        ),
    decreases items.len(),
{
    let front = items.drop_last();
    let last = items.last();
    assert(last == items[items.len() - 1]);
    lemma_effects_are_a_record(front, run_id);
    if last.run_id == run_id {
        lemma_field_set(
            effects_of(front, run_id),
            last.activation_id + "/"@ + last.effect_key,
            payload_value(last.payload),
            items[i].activation_id + "/"@ + items[i].effect_key,
        );
    }
    if i < front.len() {
        assert(front[i] == items[i]);
        assert forall|j: int|
            i < j < front.len() && (#[trigger] front[j]).run_id == run_id implies front[j].activation_id + "/"@ + front[j].effect_key
            != front[i].activation_id + "/"@ + front[i].effect_key by {
            assert(front[j] == items[j]);
        }
        lemma_effects_by_key(front, run_id, i);
    }
}

proof fn lemma_activations_are_a_record(
    state: ReplayedDriverEvents,
    items: Seq<ActivationEntryView>,
    attempts: Seq<StopAttemptsView>,
    run_id: Seq<char>)
    ensures
        activations_of(state, items, attempts, run_id) is Record,
    decreases items.len(),
{
    if items.len() > 0 {
        lemma_activations_are_a_record(state, items.drop_last(), attempts, run_id);
    }
}

proof fn lemma_activations_by_key(
    state: ReplayedDriverEvents,
    items: Seq<ActivationEntryView>,
    attempts: Seq<StopAttemptsView>,
    run_id: Seq<char>, i: int)
    requires
        0 <= i < items.len(),
        items[i].run_id == run_id,
        forall|j: int|
            i < j < items.len() && (#[trigger] items[j]).run_id == run_id ==> items[j].activation_id
                != items[i].activation_id,
    ensures
        field(activations_of(state, items, attempts, run_id), items[i].activation_id) == Some(
            activation_shown(
                items[i],
                attempts,
                participant_status(
                    latest_binding(state.participant_bindings.pairs(), items[i].activation_id),
                ),
                run_id,
            ),
        ),
    decreases items.len(),
{
    let front = items.drop_last();
    let last = items.last();
    assert(last == items[items.len() - 1]);
    lemma_activations_are_a_record(state, front, attempts, run_id);
    if last.run_id == run_id {
        lemma_field_set(
            activations_of(state, front, attempts, run_id),
            last.activation_id,
            activation_shown(
                last,
                attempts,
                participant_status(
                    latest_binding(state.participant_bindings.pairs(), last.activation_id),
                ),
                run_id,
            ),
            items[i].activation_id,
        );
    }
    if i < front.len() {
        assert(front[i] == items[i]);
        assert forall|j: int|
            i < j < front.len() && (#[trigger] front[j]).run_id == run_id implies front[j].activation_id
            != front[i].activation_id by {
            assert(front[j] == items[j]);
        }
        lemma_activations_by_key(state, front, attempts, run_id, i);
    }
}

/// The number of the event by which a fact of the board was set last shows beside the board.
pub proof fn lemma_board_versions_show(state: ReplayedDriverEvents, facts: RunFactsView, i: int)
    requires
        0 <= i < facts.board_versions.len(),
        facts.board_versions[i].run_id == facts.run_id,
        forall|j: int|
            i < j < facts.board_versions.len() && (#[trigger] facts.board_versions[j]).run_id
                == facts.run_id ==> facts.board_versions[j].key != facts.board_versions[i].key,
    ensures
        field(context_of(state, facts), "board_versions"@) is Some,
        unsigned_field(
            field(context_of(state, facts), "board_versions"@)->0,
            facts.board_versions[i].key,
        ) == Some(facts.board_versions[i].version),
{
    lemma_context_parts(state, facts);
    lemma_board_versions_by_key(facts.board_versions, facts.run_id, i);
}

/// An effect of an activation shows under the activation and its key, as it was told last.
pub proof fn lemma_effects_show(state: ReplayedDriverEvents, facts: RunFactsView, i: int)
    requires
        0 <= i < facts.effects.len(),
        facts.effects[i].run_id == facts.run_id,
        forall|j: int|
            i < j < facts.effects.len() && (#[trigger] facts.effects[j]).run_id == facts.run_id
                ==> facts.effects[j].activation_id + "/"@ + facts.effects[j].effect_key
                != facts.effects[i].activation_id + "/"@ + facts.effects[i].effect_key,
    ensures
        field(context_of(state, facts), "effects"@) is Some,
        field(
            field(context_of(state, facts), "effects"@)->0,
            facts.effects[i].activation_id + "/"@ + facts.effects[i].effect_key,
        ) == Some(
            match json_parse(facts.effects[i].payload) {
                Ok(value) => value,
                Err(_) => JsonView::Text(facts.effects[i].payload),
            },
        ),
{
    lemma_context_parts(state, facts);
    lemma_effects_by_key(facts.effects, facts.run_id, i);
}

/// An activation of the run shows under its id, with its node, its status, its generation, its key
/// and its trigger as its history has them.
pub proof fn lemma_activations_show(state: ReplayedDriverEvents, facts: RunFactsView, i: int)
    requires
        0 <= i < facts.activations.len(),
        facts.activations[i].run_id == facts.run_id,
        forall|j: int|
            i < j < facts.activations.len() && (#[trigger] facts.activations[j]).run_id
                == facts.run_id ==> facts.activations[j].activation_id
                != facts.activations[i].activation_id,
    ensures
        field(context_of(state, facts), "activations"@) is Some,
        ({
            let entry = facts.activations[i];
            let found = field(
                field(context_of(state, facts), "activations"@)->0,
                entry.activation_id,
            );
            &&& found is Some
            &&& text_field(found->0, "activation_id"@) == Some(entry.activation_id)
            &&& text_field(found->0, "node_id"@) == Some(entry.node_id)
            &&& text_field(found->0, "status"@) == Some(entry.status.name())
            &&& unsigned_field(found->0, "activation_generation"@) == Some(
                entry.activation_generation,
            )
            &&& field(found->0, "stable_key"@) == Some(entry.stable_key)
            &&& field(found->0, "trigger"@) == Some(entry.trigger)
        }),
{
    lemma_context_parts(state, facts);
    lemma_activations_by_key(state, facts.activations, facts.attempts, facts.run_id, i);
    let entry = facts.activations[i];
    lemma_activation_report_tells(
        entry.activation_id,
        entry.node_id,
        entry.stable_key,
        entry.activation_generation,
        entry.trigger,
        entry.status,
        context_payloads(entry.context),
        participant_status(
            latest_binding(state.participant_bindings.pairs(), entry.activation_id),
        ),
        match attempts_entry(facts.attempts, facts.run_id, entry.activation_id) {
            Some(tried) => tried.attempts,
            None => 0,
        },
    );
}

proof fn lemma_artifact_found(records: Seq<ArtifactEntryView>, a: int)
    requires
        0 <= a < records.len(),
        forall|j: int|
            a < j < records.len() ==> (#[trigger] records[j]).artifact_id != records[a].artifact_id,
    ensures
        artifact_with_id(records, records[a].artifact_id) == Some(records[a]),
    decreases records.len(),
{
    if a < records.len() - 1 {
        let front = records.drop_last();
        assert(records.last() == records[records.len() - 1]);
        assert(front[a] == records[a]);
        assert forall|j: int| a < j < front.len() implies (#[trigger] front[j]).artifact_id
            != front[a].artifact_id by {
            assert(front[j] == records[j]);
        }
        lemma_artifact_found(front, a);
    }
}

proof fn lemma_slots_are_a_record(
    slots: Seq<SlotEntryView>,
    records: Seq<ArtifactEntryView>,
    run_id: Seq<char>,
)
    ensures
        artifact_versions_of(slots, records, run_id) is Record,
    decreases slots.len(),
{
    if slots.len() > 0 {
        lemma_slots_are_a_record(slots.drop_last(), records, run_id);
    }
}

proof fn lemma_slots_by_key(
    slots: Seq<SlotEntryView>,
    records: Seq<ArtifactEntryView>,
    run_id: Seq<char>,
    i: int,
)
    requires
        0 <= i < slots.len(),
        slots[i].run_id == run_id,
        artifact_with_id(records, slots[i].artifact_id) is Some,
        forall|j: int|
            i < j < slots.len() && (#[trigger] slots[j]).run_id == run_id ==> slots[j].key
                != slots[i].key,
    ensures
        field(artifact_versions_of(slots, records, run_id), slots[i].key) == Some(
            JsonView::Unsigned(
                artifact_with_id(records, slots[i].artifact_id)->0.event_sequence,
            ),
        ),
    decreases slots.len(),
{
    let front = slots.drop_last();
    let last = slots.last();
    assert(last == slots[slots.len() - 1]);
    lemma_slots_are_a_record(front, records, run_id);
    if last.run_id == run_id && artifact_with_id(records, last.artifact_id) is Some {
        lemma_field_set(
            artifact_versions_of(front, records, run_id),
            last.key,
            JsonView::Unsigned(artifact_with_id(records, last.artifact_id)->0.event_sequence),
            slots[i].key,
        );
    }
    if i < front.len() {
        assert(front[i] == slots[i]);
        assert forall|j: int| i < j < front.len() && (#[trigger] front[j]).run_id == run_id implies
            front[j].key != front[i].key by {
            assert(front[j] == slots[j]);
        }
        lemma_slots_by_key(front, records, run_id, i);
    }
}

/// The number of the event by which the artifact of a slot was delivered shows under the key of the
/// slot.
pub proof fn lemma_artifact_versions_show(
    state: ReplayedDriverEvents,
    facts: RunFactsView,
    i: int,
    a: int,
)
    requires
        0 <= i < facts.slots.len(),
        facts.slots[i].run_id == facts.run_id,
        forall|j: int|
            i < j < facts.slots.len() && (#[trigger] facts.slots[j]).run_id == facts.run_id
                ==> facts.slots[j].key != facts.slots[i].key,
        0 <= a < facts.artifacts.len(),
        facts.artifacts[a].artifact_id == facts.slots[i].artifact_id,
        forall|j: int|
            a < j < facts.artifacts.len() ==> (#[trigger] facts.artifacts[j]).artifact_id
                != facts.artifacts[a].artifact_id,
    ensures
        field(context_of(state, facts), "artifact_versions"@) is Some,
        unsigned_field(
            field(context_of(state, facts), "artifact_versions"@)->0,
            facts.slots[i].key,
        ) == Some(facts.artifacts[a].event_sequence),
{
    lemma_context_parts(state, facts);
    lemma_artifact_found(facts.artifacts, a);
    lemma_slots_by_key(facts.slots, facts.artifacts, facts.run_id, i);
}

/// A run shows under its own id, with its status, its limits and how far it has come.
pub proof fn lemma_runs_show_as_they_are(state: ReplayedDriverEvents, facts: RunFactsView)
    ensures
        text_field(context_of(state, facts), "run_id"@) == Some(facts.run_id),
        text_field(context_of(state, facts), "run_status"@) == Some(facts.status.name()),
        text_field(context_of(state, facts), "run_status_reason"@) == facts.run_status_reason,
        facts.run_mode matches Some(mode) ==> text_field(context_of(state, facts), "run_mode"@)
            == Some(mode.name()),
        unsigned_field(context_of(state, facts), "initial_activation_limit"@)
            == facts.initial_activation_limit,
        unsigned_field(context_of(state, facts), "activation_limit"@) == facts.activation_limit,
        unsigned_field(context_of(state, facts), "activations_used"@) == Some(
            facts.activations_used,
        ),
        unsigned_field(context_of(state, facts), "event_cursor"@) == Some(
            facts.authority.event_cursor,
        ),
        unsigned_field(context_of(state, facts), "context_generation"@) == Some(
            facts.authority.generation(),
        ),
        match facts.stop_attempt_limit {
            Some(limit) => unsigned_field(context_of(state, facts), "stop_attempt_limit"@) == Some(
                limit as u64,
            ),
            None => unsigned_field(context_of(state, facts), "stop_attempt_limit"@) is None,
        },
{
    lemma_context_parts(state, facts);
}

proof fn lemma_context_parts(state: ReplayedDriverEvents, facts: RunFactsView)
    ensures
        ({
            let told = context_of(state, facts);
            &&& field(told, "run_id"@) == Some(JsonView::Text(facts.run_id))
            &&& field(told, "run_status"@) == Some(JsonView::Text(facts.status.name()))
            &&& field(told, "run_status_reason"@) == Some(
                option_text(facts.run_status_reason),
            )
            &&& field(told, "run_mode"@) == Some(
                mode_or_null(facts.run_mode),
            )
            &&& field(told, "initial_activation_limit"@) == Some(
                optional_number(facts.initial_activation_limit),
            )
            &&& field(told, "activation_limit"@) == Some(
                optional_number(facts.activation_limit),
            )
            &&& field(told, "stop_attempt_limit"@) == Some(
                small_or_null(facts.stop_attempt_limit),
            )
            &&& field(told, "activations_used"@) == Some(JsonView::Unsigned(facts.activations_used))
            &&& field(told, "event_cursor"@) == Some(
                JsonView::Unsigned(facts.authority.event_cursor),
            )
            &&& field(told, "context_generation"@) == Some(
                JsonView::Unsigned(facts.authority.generation()),
            )
            &&& field(told, "activations"@) == Some(
                activations_of(state, facts.activations, facts.attempts, facts.run_id),
            )
            &&& field(told, "artifacts"@) == Some(artifacts_of(facts.artifacts, facts.run_id))
            &&& field(told, "artifact_versions"@) == Some(
                artifact_versions_of(facts.slots, facts.artifacts, facts.run_id),
            )
            &&& field(told, "board"@) == Some(board_of(facts.boards, facts.run_id))
            &&& field(told, "board_versions"@) == Some(
                board_versions_of(facts.board_versions, facts.run_id),
            )
            &&& field(told, "effects"@) == Some(effects_of(facts.effects, facts.run_id))
        }),
{
    lemma_whole_context_tells(
        facts.run_id,
        facts.status,
        facts.run_status_reason,
        facts.run_mode,
        facts.initial_activation_limit,
        facts.activation_limit,
        facts.stop_attempt_limit,
        facts.activations_used,
        facts.authority.event_cursor,
        facts.authority.generation(),
        activations_of(state, facts.activations, facts.attempts, facts.run_id),
        artifacts_of(facts.artifacts, facts.run_id),
        artifact_versions_of(facts.slots, facts.artifacts, facts.run_id),
        board_of(facts.boards, facts.run_id),
        board_versions_of(facts.board_versions, facts.run_id),
        effects_of(facts.effects, facts.run_id),
        revisions_shown(
            applied_locks(facts.applications, facts.reviews, facts.run_id),
        ),
        doubts_told(state),
        without_nonces(facts.run_assets),
    );
}

} // verus!

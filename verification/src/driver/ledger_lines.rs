//! The ledger of input, read back line by line, and what of it is still to be told.
use vstd::prelude::*;

use crate::flow::export::{lemma_ordered_field, ordered};
use crate::input_ledger::{MachineInputRecord, MachineInputRecordView, MachineInputStatus};
use crate::json::{
    distinct_keys, field, lemma_field_at, text_field, unsigned_field, Json, JsonView,
};
use crate::text::same;

use super::delivery::{AmbiguousDelivery, AmbiguousDeliveryView};
use super::failure::{DriverFailure, FailureView};
use super::fields::{arrange, arranged, read_text};
use super::publication::{is_role, machine_input_to_publish, settling};

verus! {

broadcast use vstd::string::group_string_axioms;

/// The status with a name.
pub open spec fn status_named(name: Seq<char>) -> Option<MachineInputStatus> {
    if name == "started"@ {
        Some(MachineInputStatus::Started)
    } else if name == "submitted"@ {
        Some(MachineInputStatus::Submitted)
    } else if name == "failed"@ {
        Some(MachineInputStatus::Failed)
    } else {
        None
    }
}

/// How the status of an entry is read: by its name, alone or as the key of a null.
pub open spec fn status_of(value: JsonView) -> Option<MachineInputStatus> {
    match value {
        JsonView::Text(name) => status_named(name),
        JsonView::Record(fields) => if fields.len() == 1 && fields[0].1 is Null {
            status_named(fields[0].0)
        } else {
            None
        },
        _ => None,
    }
}

pub open spec fn status_at(value: JsonView) -> Option<MachineInputStatus> {
    match field(value, "status"@) {
        Some(item) => status_of(item),
        None => None,
    }
}

fn find_status(name: &str) -> (r: Option<MachineInputStatus>)
    ensures
        r == status_named(name@),
{
    if same(name, "started") {
        Some(MachineInputStatus::Started)
    } else if same(name, "submitted") {
        Some(MachineInputStatus::Submitted)
    } else if same(name, "failed") {
        Some(MachineInputStatus::Failed)
    } else {
        None
    }
}

fn read_status(value: &Json) -> (r: Option<MachineInputStatus>)
    ensures
        r == status_at(value@),
{
    let item = match value.get("status") {
        Some(item) => item,
        None => return None,
    };
    match item {
        Json::Text(name) => find_status(name.as_str()),
        Json::Record(fields) => {
            if fields.len() != 1 {
                return None;
            }
            assert(item@->Record_0[0] == (fields@[0].0@, fields@[0].1@));
            match &fields[0].1 {
                Json::Null => find_status(fields[0].0.as_str()),
                _ => None,
            }
        },
        _ => None,
    }
}

/// A number that counts things.
pub open spec fn count_at(value: JsonView, key: Seq<char>) -> Option<usize> {
    match unsigned_field(value, key) {
        Some(n) => if n <= usize::MAX {
            Some(n as usize)
        } else {
            None
        },
        None => None,
    }
}

fn read_count(value: &Json, key: &str) -> (r: Option<usize>)
    ensures
        r == count_at(value@, key@),
{
    match value.unsigned_at(key) {
        Some(n) => if n <= usize::MAX as u64 {
            Some(n as usize)
        } else {
            None
        },
        None => None,
    }
}

/// The fields of an entry in their order.
pub open spec fn entry_names() -> Seq<Seq<char>> {
    seq![
        "run_id"@,
        "activation_id"@,
        "pane_id"@,
        "allocation_generation"@,
        "started_at_ms"@,
        "submitted_at_ms"@,
        "payload_hash"@,
        "normalized_text"@,
        "submit_key_count"@,
        "transaction_id"@,
        "status"@,
    ]
}

/// How an entry is read, from an object or from a list; nothing where a field does not fit.
pub open spec fn entry_of(value: JsonView) -> Option<MachineInputRecordView> {
    entry_in(arranged(value, entry_names(), 11))
}

/// How an entry is read from an object.
pub open spec fn entry_in(value: JsonView) -> Option<MachineInputRecordView> {
    if value is Record && text_field(value, "run_id"@) is Some
        && text_field(value, "activation_id"@) is Some
        && text_field(value, "pane_id"@) is Some
        && unsigned_field(value, "allocation_generation"@) is Some
        && unsigned_field(value, "started_at_ms"@) is Some
        && unsigned_field(value, "submitted_at_ms"@) is Some
        && text_field(value, "payload_hash"@) is Some
        && text_field(value, "normalized_text"@) is Some
        && count_at(value, "submit_key_count"@) is Some
        && text_field(value, "transaction_id"@) is Some
        && status_at(value) is Some {
        Some(
            MachineInputRecordView {
                run_id: text_field(value, "run_id"@)->Some_0,
                activation_id: text_field(value, "activation_id"@)->Some_0,
                pane_id: text_field(value, "pane_id"@)->Some_0,
                allocation_generation: unsigned_field(value, "allocation_generation"@)->Some_0,
                started_at_ms: unsigned_field(value, "started_at_ms"@)->Some_0,
                submitted_at_ms: unsigned_field(value, "submitted_at_ms"@)->Some_0,
                payload_hash: text_field(value, "payload_hash"@)->Some_0,
                normalized_text: text_field(value, "normalized_text"@)->Some_0,
                submit_key_count: count_at(value, "submit_key_count"@)->Some_0,
                transaction_id: text_field(value, "transaction_id"@)->Some_0,
                status: status_at(value)->Some_0,
            },
        )
    } else {
        None
    }
}

/// The entry that a line of the ledger holds.
pub fn read_entry(value: &Json) -> (r: Option<MachineInputRecord>)
    ensures
        r.deep_view() == entry_of(value@),
{
    let names = vec![
        "run_id",
        "activation_id",
        "pane_id",
        "allocation_generation",
        "started_at_ms",
        "submitted_at_ms",
        "payload_hash",
        "normalized_text",
        "submit_key_count",
        "transaction_id",
        "status",
    ];
    assert(names.deep_view() =~= entry_names());
    let value = &arrange(value, &names, 11);
    if !value.is_record() {
        return None;
    }
    let run_id = read_text(value, "run_id")?;
    let activation_id = read_text(value, "activation_id")?;
    let pane_id = read_text(value, "pane_id")?;
    let allocation_generation: u64 = value.unsigned_at("allocation_generation")?;
    let started_at_ms: u64 = value.unsigned_at("started_at_ms")?;
    let submitted_at_ms: u64 = value.unsigned_at("submitted_at_ms")?;
    let payload_hash = read_text(value, "payload_hash")?;
    let normalized_text = read_text(value, "normalized_text")?;
    let submit_key_count: usize = read_count(value, "submit_key_count")?;
    let transaction_id = read_text(value, "transaction_id")?;
    let status = read_status(value)?;
    Some(
        MachineInputRecord {
            run_id,
            activation_id,
            pane_id,
            allocation_generation,
            started_at_ms,
            submitted_at_ms,
            payload_hash,
            normalized_text,
            submit_key_count,
            transaction_id,
            status,
        },
    )
}

/// An entry is read back as it was written, in whatever order its fields stand.
pub proof fn lemma_entries_read_back(record: MachineInputRecordView)
    ensures
        entry_of(MachineInputRecord::json(record)) == Some(record),
        entry_of(ordered(MachineInputRecord::json(record))) == Some(record),
{
    reveal_strlit("run_id");
    reveal_strlit("activation_id");
    reveal_strlit("pane_id");
    reveal_strlit("allocation_generation");
    reveal_strlit("started_at_ms");
    reveal_strlit("submitted_at_ms");
    reveal_strlit("payload_hash");
    reveal_strlit("normalized_text");
    reveal_strlit("submit_key_count");
    reveal_strlit("transaction_id");
    reveal_strlit("status");
    reveal_strlit("started");
    reveal_strlit("submitted");
    reveal_strlit("failed");
    assert("run_id"@.len() == 6);
    assert("activation_id"@.len() == 13);
    assert("pane_id"@.len() == 7);
    assert("allocation_generation"@.len() == 21);
    assert("started_at_ms"@.len() == 13);
    assert("submitted_at_ms"@.len() == 15);
    assert("payload_hash"@.len() == 12);
    assert("normalized_text"@.len() == 15);
    assert("submit_key_count"@.len() == 16);
    assert("transaction_id"@.len() == 14);
    assert("status"@.len() == 6);
    assert("run_id"@[0] == 'r' && "status"@[0] == 's');
    assert("activation_id"@[0] == 'a' && "started_at_ms"@[0] == 's');
    assert("submitted_at_ms"@[0] == 's' && "normalized_text"@[0] == 'n');
    assert("started"@.len() == 7 && "submitted"@.len() == 9 && "failed"@.len() == 6);
    let fields = MachineInputRecord::json(record)->Record_0;
    assert(distinct_keys(fields));
    lemma_field_at(fields, 0);
    lemma_ordered_field(fields, "run_id"@);
    lemma_field_at(fields, 1);
    lemma_ordered_field(fields, "activation_id"@);
    lemma_field_at(fields, 2);
    lemma_ordered_field(fields, "pane_id"@);
    lemma_field_at(fields, 3);
    lemma_ordered_field(fields, "allocation_generation"@);
    lemma_field_at(fields, 4);
    lemma_ordered_field(fields, "started_at_ms"@);
    lemma_field_at(fields, 5);
    lemma_ordered_field(fields, "submitted_at_ms"@);
    lemma_field_at(fields, 6);
    lemma_ordered_field(fields, "payload_hash"@);
    lemma_field_at(fields, 7);
    lemma_ordered_field(fields, "normalized_text"@);
    lemma_field_at(fields, 8);
    lemma_ordered_field(fields, "submit_key_count"@);
    lemma_field_at(fields, 9);
    lemma_ordered_field(fields, "transaction_id"@);
    lemma_field_at(fields, 10);
    lemma_ordered_field(fields, "status"@);
    assert(entry_of(MachineInputRecord::json(record)) =~= Some(record));
    assert(entry_of(ordered(MachineInputRecord::json(record))) =~= Some(record));
}

/// The first delivery from a place on whose entry is still to be told, with the place of the
/// entry. A delivery of an unknown role keeps everything behind it from being told.
pub open spec fn input_due(
    records: Seq<MachineInputRecordView>,
    run_id: Seq<char>,
    deliveries: Seq<AmbiguousDeliveryView>,
    told: Seq<Seq<char>>,
    from: int,
) -> Result<Option<(int, int)>, FailureView>
    decreases deliveries.len() - from,
{
    if from < 0 || from >= deliveries.len() {
        Ok(None)
    } else if !is_role(deliveries[from].role) {
        Err(
            FailureView::plain(
                "publication_blocked"@,
                "private input delivery has an unknown role"@,
            ),
        )
    } else {
        match settling(records, run_id, deliveries[from]) {
            Some(at) if !told.contains(records[at].transaction_id) => Ok(Some((from, at))),
            _ => input_due(records, run_id, deliveries, told, from + 1),
        }
    }
}

fn is_listed(told: &Vec<String>, wanted: &str) -> (r: bool)
    ensures
        r == told.deep_view().contains(wanted@),
{
    let ghost model = told.deep_view();
    let mut i: usize = 0;
    while i < told.len()
        invariant
            i <= told.len(),
            model == told.deep_view(),
            forall|j: int| 0 <= j < i ==> #[trigger] model[j] != wanted@,
        decreases told.len() - i,
    {
        assert(model[i as int] == told@[i as int]@);
        if same(told[i].as_str(), wanted) {
            return true;
        }
        i += 1;
    }
    false
}

proof fn lemma_settling_in_range(
    records: Seq<MachineInputRecordView>,
    run_id: Seq<char>,
    delivery: AmbiguousDeliveryView,
)
    ensures
        settling(records, run_id, delivery) matches Some(at) ==> 0 <= at < records.len(),
    decreases records.len(),
{
    if records.len() > 0 {
        lemma_settling_in_range(records.drop_last(), run_id, delivery);
    }
}

/// The first delivery from a place on whose entry is still to be told, with the place of the
/// entry. The transactions are those of the entries that were told.
pub fn next_input_to_publish(
    records: &Vec<MachineInputRecord>,
    run_id: &str,
    deliveries: &Vec<AmbiguousDelivery>,
    told: &Vec<String>,
    from: usize,
) -> (r: Result<Option<(usize, usize)>, DriverFailure>)
    ensures
        match r {
            Ok(Some((place, at))) => input_due(
                records.deep_view(),
                run_id@,
                deliveries.deep_view(),
                told.deep_view(),
                from as int,
            ) == Ok::<Option<(int, int)>, FailureView>(Some((place as int, at as int))),
            Ok(None) => input_due(
                records.deep_view(),
                run_id@,
                deliveries.deep_view(),
                told.deep_view(),
                from as int,
            ) == Ok::<Option<(int, int)>, FailureView>(None),
            Err(failure) => input_due(
                records.deep_view(),
                run_id@,
                deliveries.deep_view(),
                told.deep_view(),
                from as int,
            ) == Err::<Option<(int, int)>, FailureView>(failure.deep_view()),
        },
{
    let ghost entries = records.deep_view();
    let ghost begun = deliveries.deep_view();
    let ghost known = told.deep_view();
    let ghost due = input_due(entries, run_id@, begun, known, from as int);
    let mut i: usize = from;
    while i < deliveries.len()
        invariant
            entries == records.deep_view(),
            begun == deliveries.deep_view(),
            known == told.deep_view(),
            due == input_due(entries, run_id@, begun, known, from as int),
            due == input_due(entries, run_id@, begun, known, i as int),
        decreases deliveries.len() - i,
    {
        assert(begun[i as int] == deliveries@[i as int].deep_view());
        match machine_input_to_publish(records, run_id, &deliveries[i]) {
            Err(failure) => return Err(failure),
            Ok(None) => {},
            Ok(Some(at)) => {
                proof {
                    lemma_settling_in_range(entries, run_id@, begun[i as int]);
                    assert(entries[at as int] == records@[at as int].deep_view());
                }
                if !is_listed(told, records[at].transaction_id.as_str()) {
                    return Ok(Some((i, at)));
                }
            },
        }
        i += 1;
    }
    Ok(None)
}

/// An entry that was told is not told again, and only deliveries of a known role are.
pub proof fn lemma_entries_are_told_once(
    records: Seq<MachineInputRecordView>,
    run_id: Seq<char>,
    deliveries: Seq<AmbiguousDeliveryView>,
    told: Seq<Seq<char>>,
    from: int,
)
    ensures
        input_due(records, run_id, deliveries, told, from) matches Ok(Some((place, at))) ==> {
            &&& from <= place < deliveries.len()
            &&& 0 <= at < records.len()
            &&& settling(records, run_id, deliveries[place]) == Some(at)
            &&& !told.contains(records[at].transaction_id)
            &&& is_role(deliveries[place].role)
        },
    decreases deliveries.len() - from,
{
    if 0 <= from < deliveries.len() {
        lemma_settling_in_range(records, run_id, deliveries[from]);
        lemma_entries_are_told_once(records, run_id, deliveries, told, from + 1);
    }
}

} // verus!

//! The ledger of input that was typed into agents: what was sent, when, and whether it
//! was submitted.
use vstd::prelude::*;
use vstd::utf8::encode_utf8;

use crate::flow::suggest::{alphanumeric, is_alphanumeric};
use crate::hash::{fnv1a, fnv1a_hash, FNV_OFFSET_BASIS};
use crate::json::{compact, json_compact, no_fields, value_of, Fields, Json, JsonView};
use crate::number::{decimal, decimal_text, hex_u64, hex_u64_text};
use crate::split::{join_path, path_joined};
use crate::text::{cat2, cat3, char_vec, from_chars, same};

verus! {

broadcast use vstd::string::group_string_axioms;

/// A text with line feeds alone: each carriage return becomes a line feed, and takes
/// the line feed behind it in.
pub open spec fn unified(s: Seq<char>) -> Seq<char>
    decreases s.len(),
{
    if s.len() == 0 {
        Seq::empty()
    } else {
        let front = unified(s.drop_last());
        if s.last() == '\n' && s.len() >= 2 && s[s.len() - 2] == '\r' {
            front
        } else if s.last() == '\r' {
            front.push('\n')
        } else {
            front.push(s.last())
        }
    }
}

/// A text without the line feeds at its end.
pub open spec fn without_final_feeds(s: Seq<char>) -> Seq<char>
    decreases s.len(),
{
    if s.len() > 0 && s.last() == '\n' {
        without_final_feeds(s.drop_last())
    } else {
        s
    }
}

/// The form in which input is recorded and hashed.
pub open spec fn normalized(s: Seq<char>) -> Seq<char> {
    without_final_feeds(unified(s))
}

pub fn normalize_machine_input_text(text: &str) -> (r: String)
    ensures
        r@ == normalized(text@),
{
    let chars = char_vec(text);
    let mut out: Vec<char> = Vec::new();
    let mut i: usize = 0;
    assert(out@ =~= unified(text@.take(0)));
    while i < chars.len()
        invariant
            i <= chars.len(),
            chars@ == text@,
            out@ == unified(text@.take(i as int)),
        decreases chars.len() - i,
    {
        let c = chars[i];
        let ghost now = text@.take(i + 1);
        assert(now.drop_last() =~= text@.take(i as int));
        assert(now.last() == c);
        assert(i > 0 ==> now[now.len() - 2] == text@[i - 1]);
        if c == '\n' && i > 0 && chars[i - 1] == '\r' {
        } else if c == '\r' {
            out.push('\n');
        } else {
            out.push(c);
        }
        i += 1;
    }
    assert(text@.take(i as int) =~= text@);
    let ghost all = out@;
    while out.len() > 0 && out[out.len() - 1] == '\n'
        invariant
            without_final_feeds(all) == without_final_feeds(out@),
        decreases out.len(),
    {
        let ghost before = out@;
        out.truncate(out.len() - 1);
        assert(out@ =~= before.drop_last());
    }
    from_chars(out.as_slice())
}

proof fn lemma_unified(s: Seq<char>)
    ensures
        forall|i: int| 0 <= i < unified(s).len() ==> #[trigger] unified(s)[i] != '\r',
    decreases s.len(),
{
    if s.len() > 0 {
        lemma_unified(s.drop_last());
        let front = unified(s.drop_last());
        assert forall|i: int| 0 <= i < unified(s).len() implies #[trigger] unified(s)[i]
            != '\r' by {
            if i < front.len() {
                assert(unified(s)[i] == front[i]);
            }
        }
    }
}

proof fn lemma_unified_fixpoint(s: Seq<char>)
    requires
        forall|i: int| 0 <= i < s.len() ==> #[trigger] s[i] != '\r',
    ensures
        unified(s) == s,
    decreases s.len(),
{
    if s.len() > 0 {
        lemma_unified_fixpoint(s.drop_last());
        assert(s[s.len() - 1] != '\r');
        if s.len() >= 2 {
            assert(s[s.len() - 2] != '\r');
        }
        assert(s.drop_last().push(s.last()) =~= s);
    } else {
        assert(s =~= Seq::empty());
    }
}

proof fn lemma_without_final_feeds(s: Seq<char>)
    ensures
        without_final_feeds(s).len() <= s.len(),
        without_final_feeds(s) == s.take(without_final_feeds(s).len() as int),
        without_final_feeds(s).len() > 0 ==> without_final_feeds(s).last() != '\n',
    decreases s.len(),
{
    if s.len() > 0 && s.last() == '\n' {
        lemma_without_final_feeds(s.drop_last());
        let t = without_final_feeds(s);
        assert(s.drop_last().take(t.len() as int) =~= s.take(t.len() as int));
    } else {
        assert(s.take(s.len() as int) =~= s);
    }
}

/// Normal form holds no carriage return and no line feed at its end, and stays as it is
/// when normalized again.
pub proof fn lemma_normalized(s: Seq<char>)
    ensures
        forall|i: int| 0 <= i < normalized(s).len() ==> #[trigger] normalized(s)[i] != '\r',
        normalized(s).len() > 0 ==> normalized(s).last() != '\n',
        normalized(normalized(s)) == normalized(s),
{
    lemma_unified(s);
    lemma_without_final_feeds(unified(s));
    let n = normalized(s);
    assert forall|i: int| 0 <= i < n.len() implies #[trigger] n[i] != '\r' by {
        assert(n[i] == unified(s)[i]);
    }
    lemma_unified_fixpoint(n);
}

/// The hash of input in normal form.
pub open spec fn payload_hash(text: Seq<char>) -> Seq<char> {
    "fnv1a64:"@ + hex_u64(fnv1a(FNV_OFFSET_BASIS, encode_utf8(normalized(text))))
}

fn stable_hash(text: &str) -> (r: u64)
    ensures
        r == fnv1a(FNV_OFFSET_BASIS, encode_utf8(text@)),
{
    fnv1a_hash(FNV_OFFSET_BASIS, text.as_bytes())
}

pub fn machine_input_payload_hash(text: &str) -> (r: String)
    ensures
        r@ == payload_hash(text@),
{
    let normalized = normalize_machine_input_text(text);
    cat2("fnv1a64:", hex_u64_text(stable_hash(normalized.as_str())).as_str())
}

/// Input and its normal form have one hash: line ends and final line feeds do not count.
pub proof fn lemma_hash_of_normal_form(text: Seq<char>)
    ensures
        payload_hash(normalized(text)) == payload_hash(text),
{
    lemma_normalized(text);
}

/// What a transaction is told apart by.
pub open spec fn transaction_payload(
    run_id: Seq<char>,
    activation_id: Seq<char>,
    pane_id: Seq<char>,
    payload_hash: Seq<char>,
    started_at_ms: u64,
    sequence: u64,
) -> Seq<char> {
    run_id + "\0"@ + activation_id + "\0"@ + pane_id + "\0"@ + payload_hash + "\0"@ + decimal(
        started_at_ms as nat,
    ) + "\0"@ + decimal(sequence as nat)
}

pub open spec fn transaction_id_of(
    run_id: Seq<char>,
    activation_id: Seq<char>,
    pane_id: Seq<char>,
    payload_hash: Seq<char>,
    started_at_ms: u64,
    sequence: u64,
) -> Seq<char> {
    "machine-input:"@ + hex_u64(
        fnv1a(
            FNV_OFFSET_BASIS,
            encode_utf8(
                transaction_payload(
                    run_id,
                    activation_id,
                    pane_id,
                    payload_hash,
                    started_at_ms,
                    sequence,
                ),
            ),
        ),
    )
}

pub fn machine_input_transaction_id(
    run_id: &str,
    activation_id: &str,
    pane_id: &str,
    payload_hash: &str,
    started_at_ms: u64,
    sequence: u64,
) -> (r: String)
    ensures
        r@ == transaction_id_of(
            run_id@,
            activation_id@,
            pane_id@,
            payload_hash@,
            started_at_ms,
            sequence,
        ),
{
    let mut payload = cat3(run_id, "\0", activation_id);
    payload.push_str("\0");
    payload.push_str(pane_id);
    payload.push_str("\0");
    payload.push_str(payload_hash);
    payload.push_str("\0");
    payload.push_str(decimal_text(started_at_ms).as_str());
    payload.push_str("\0");
    payload.push_str(decimal_text(sequence).as_str());
    cat2("machine-input:", hex_u64_text(stable_hash(payload.as_str())).as_str())
}

/// A character that a run may have in a directory name.
pub open spec fn is_segment_char(c: char) -> bool {
    is_alphanumeric(c) || c == '-' || c == '_' || c == '.'
}

fn segment_char(c: char) -> (r: bool)
    ensures
        r == is_segment_char(c),
{
    alphanumeric(c) || c == '-' || c == '_' || c == '.'
}

/// Whether a text can be the name of a directory of its own.
pub open spec fn is_safe_segment(s: Seq<char>) -> bool {
    &&& s.len() > 0
    &&& s != "."@
    &&& s != ".."@
    &&& forall|i: int| 0 <= i < s.len() ==> is_segment_char(#[trigger] s[i])
}

pub fn is_safe_run_path_segment(run_id: &str) -> (r: bool)
    ensures
        r == is_safe_segment(run_id@),
{
    let chars = char_vec(run_id);
    let mut i: usize = 0;
    while i < chars.len()
        invariant
            i <= chars.len(),
            chars@ == run_id@,
            forall|j: int| 0 <= j < i ==> is_segment_char(#[trigger] run_id@[j]),
        decreases chars.len() - i,
    {
        if !segment_char(chars[i]) {
            assert(!is_segment_char(run_id@[i as int]));
            return false;
        }
        i += 1;
    }
    chars.len() > 0 && !same(run_id, ".") && !same(run_id, "..")
}

/// A text with an underscore in place of every character that a name may not have.
pub open spec fn masked(s: Seq<char>) -> Seq<char> {
    Seq::new(
        s.len(),
        |i: int|
            if is_segment_char(s[i]) {
                s[i]
            } else {
                '_'
            },
    )
}

/// A text without the dots at its start.
pub open spec fn without_leading_dots(s: Seq<char>) -> Seq<char>
    decreases s.len(),
{
    if s.len() > 0 && s[0] == '.' {
        without_leading_dots(s.drop_first())
    } else {
        s
    }
}

/// A text without the dots at its end.
pub open spec fn without_trailing_dots(s: Seq<char>) -> Seq<char>
    decreases s.len(),
{
    if s.len() > 0 && s.last() == '.' {
        without_trailing_dots(s.drop_last())
    } else {
        s
    }
}

/// The directory name of a run: its id where that is safe, else what can be kept of it
/// and a hash of the whole.
pub open spec fn run_segment(run_id: Seq<char>) -> Seq<char> {
    if is_safe_segment(run_id) {
        run_id
    } else {
        let kept = without_trailing_dots(without_leading_dots(masked(run_id)));
        let base = if kept.len() == 0 {
            "run"@
        } else {
            kept
        };
        base + "-"@ + hex_u64(fnv1a(FNV_OFFSET_BASIS, encode_utf8(run_id)))
    }
}

pub fn machine_input_run_path_segment(run_id: &str) -> (r: String)
    ensures
        r@ == run_segment(run_id@),
{
    if is_safe_run_path_segment(run_id) {
        return run_id.to_string();
    }
    let chars = char_vec(run_id);
    let mut kept: Vec<char> = Vec::new();
    let mut i: usize = 0;
    while i < chars.len()
        invariant
            i <= chars.len(),
            chars@ == run_id@,
            kept@ == masked(run_id@).take(i as int),
        decreases chars.len() - i,
    {
        if segment_char(chars[i]) {
            kept.push(chars[i]);
        } else {
            kept.push('_');
        }
        i += 1;
        assert(kept@ =~= masked(run_id@).take(i as int));
    }
    let ghost all = masked(run_id@);
    assert(all.take(i as int) =~= all);
    let mut start: usize = 0;
    assert(all.skip(0) =~= all);
    while start < kept.len() && kept[start] == '.'
        invariant
            start <= kept.len(),
            kept@ == all,
            without_leading_dots(all) == without_leading_dots(all.skip(start as int)),
        decreases kept.len() - start,
    {
        assert(all.skip(start as int).drop_first() =~= all.skip(start + 1));
        start += 1;
    }
    let ghost middle = all.skip(start as int);
    let mut end: usize = kept.len();
    assert(all.subrange(start as int, end as int) =~= middle);
    while start < end && kept[end - 1] == '.'
        invariant
            start <= end <= kept.len(),
            kept@ == all,
            without_trailing_dots(middle) == without_trailing_dots(
                all.subrange(start as int, end as int),
            ),
        decreases end,
    {
        assert(all.subrange(start as int, end as int).drop_last() =~= all.subrange(
            start as int,
            end - 1,
        ));
        end -= 1;
    }
    let hash = hex_u64_text(stable_hash(run_id));
    if start == end {
        cat3("run", "-", hash.as_str())
    } else {
        let base = from_chars(vstd::slice::slice_subrange(kept.as_slice(), start, end));
        cat3(base.as_str(), "-", hash.as_str())
    }
}

proof fn lemma_dotless(s: Seq<char>)
    requires
        forall|i: int| 0 <= i < s.len() ==> is_segment_char(#[trigger] s[i]),
    ensures
        forall|i: int|
            0 <= i < without_leading_dots(s).len() ==> is_segment_char(
                #[trigger] without_leading_dots(s)[i],
            ),
    decreases s.len(),
{
    if s.len() > 0 && s[0] == '.' {
        let t = s.drop_first();
        assert forall|i: int| 0 <= i < t.len() implies is_segment_char(#[trigger] t[i]) by {
            assert(t[i] == s[i + 1]);
        }
        lemma_dotless(t);
        assert(without_leading_dots(s) == without_leading_dots(t));
    } else {
        assert(without_leading_dots(s) == s);
    }
}

proof fn lemma_dotless_end(s: Seq<char>)
    requires
        forall|i: int| 0 <= i < s.len() ==> is_segment_char(#[trigger] s[i]),
    ensures
        forall|i: int|
            0 <= i < without_trailing_dots(s).len() ==> is_segment_char(
                #[trigger] without_trailing_dots(s)[i],
            ),
    decreases s.len(),
{
    if s.len() > 0 && s.last() == '.' {
        let t = s.drop_last();
        assert forall|i: int| 0 <= i < t.len() implies is_segment_char(#[trigger] t[i]) by {
            assert(t[i] == s[i]);
        }
        lemma_dotless_end(t);
        assert(without_trailing_dots(s) == without_trailing_dots(t));
    } else {
        assert(without_trailing_dots(s) == s);
    }
}

/// The directory name of a run is safe, whatever its id.
pub proof fn lemma_run_segment_is_safe(run_id: Seq<char>)
    ensures
        is_safe_segment(run_segment(run_id)),
{
    if !is_safe_segment(run_id) {
        reveal_strlit("run");
        reveal_strlit("-");
        reveal_strlit(".");
        reveal_strlit("..");
        let all = masked(run_id);
        lemma_dotless(all);
        lemma_dotless_end(without_leading_dots(all));
        let kept = without_trailing_dots(without_leading_dots(all));
        let base = if kept.len() == 0 {
            "run"@
        } else {
            kept
        };
        let bytes = crate::number::big_endian(
            fnv1a(FNV_OFFSET_BASIS, encode_utf8(run_id)) as nat,
            8,
        );
        let tail = hex_u64(fnv1a(FNV_OFFSET_BASIS, encode_utf8(run_id)));
        crate::number::lemma_hex_digits(bytes);
        let s = run_segment(run_id);
        assert(s == base + "-"@ + tail);
        assert(base.len() > 0);
        assert forall|i: int| 0 <= i < s.len() implies is_segment_char(#[trigger] s[i]) by {
            if i < base.len() {
                assert(s[i] == base[i]);
            } else if i == base.len() {
                assert(s[i] == '-');
            } else {
                assert(s[i] == tail[i - base.len() - 1]);
            }
        }
        assert(s[base.len() as int] == '-');
        assert(s != "."@) by {
            if s == "."@ {
                assert(s[0] == '.');
                assert(base.len() == 0);
            }
        }
        assert(s != ".."@) by {
            if s == ".."@ {
                assert(s.len() == 2);
                assert(s[1] == '.' && s[0] == '.');
            }
        }
    }
}

/// How far the input of a transaction came.
#[derive(Debug, Clone, Copy, PartialEq, Eq, Structural)]
pub enum MachineInputStatus {
    Started,
    Submitted,
    Failed,
}

impl DeepView for MachineInputStatus {
    type V = MachineInputStatus;

    open spec fn deep_view(&self) -> MachineInputStatus {
        *self
    }
}

impl MachineInputStatus {
    pub open spec fn name(self) -> Seq<char> {
        match self {
            MachineInputStatus::Started => "started"@,
            MachineInputStatus::Submitted => "submitted"@,
            MachineInputStatus::Failed => "failed"@,
        }
    }

    pub fn as_str(self) -> (r: &'static str)
        ensures
            r@ == self.name(),
    {
        match self {
            MachineInputStatus::Started => "started",
            MachineInputStatus::Submitted => "submitted",
            MachineInputStatus::Failed => "failed",
        }
    }
}

/// What is known of input when it is recorded.
#[derive(Debug, PartialEq, Eq)]
pub struct MachineInputSubmission<'a> {
    pub run_id: &'a str,
    pub activation_id: &'a str,
    pub pane_id: &'a str,
    pub allocation_generation: u64,
    pub started_at_ms: u64,
    pub submitted_at_ms: u64,
    pub text: &'a str,
    pub submit_key_count: usize,
    pub transaction_id: String,
}

/// An entry of the ledger.
#[derive(Debug, PartialEq, Eq)]
pub struct MachineInputRecord {
    pub run_id: String,
    pub activation_id: String,
    pub pane_id: String,
    pub allocation_generation: u64,
    pub started_at_ms: u64,
    pub submitted_at_ms: u64,
    pub payload_hash: String,
    pub normalized_text: String,
    pub submit_key_count: usize,
    pub transaction_id: String,
    pub status: MachineInputStatus,
}

#[verifier::ext_equal]
pub struct MachineInputRecordView {
    pub run_id: Seq<char>,
    pub activation_id: Seq<char>,
    pub pane_id: Seq<char>,
    pub allocation_generation: u64,
    pub started_at_ms: u64,
    pub submitted_at_ms: u64,
    pub payload_hash: Seq<char>,
    pub normalized_text: Seq<char>,
    pub submit_key_count: usize,
    pub transaction_id: Seq<char>,
    pub status: MachineInputStatus,
}

impl DeepView for MachineInputRecord {
    type V = MachineInputRecordView;

    open spec fn deep_view(&self) -> MachineInputRecordView {
        MachineInputRecordView {
            run_id: self.run_id.deep_view(),
            activation_id: self.activation_id.deep_view(),
            pane_id: self.pane_id.deep_view(),
            allocation_generation: self.allocation_generation,
            started_at_ms: self.started_at_ms,
            submitted_at_ms: self.submitted_at_ms,
            payload_hash: self.payload_hash.deep_view(),
            normalized_text: self.normalized_text.deep_view(),
            submit_key_count: self.submit_key_count,
            transaction_id: self.transaction_id.deep_view(),
            status: self.status,
        }
    }
}

impl Clone for MachineInputRecord {
    fn clone(&self) -> (r: Self)
        ensures
            r.deep_view() == self.deep_view(),
    {
        let r = MachineInputRecord {
            run_id: self.run_id.clone(),
            activation_id: self.activation_id.clone(),
            pane_id: self.pane_id.clone(),
            allocation_generation: self.allocation_generation,
            started_at_ms: self.started_at_ms,
            submitted_at_ms: self.submitted_at_ms,
            payload_hash: self.payload_hash.clone(),
            normalized_text: self.normalized_text.clone(),
            submit_key_count: self.submit_key_count,
            transaction_id: self.transaction_id.clone(),
            status: self.status,
        };
        r
    }
}

impl<'a> MachineInputSubmission<'a> {
    /// The entry that records the input with the given status.
    pub open spec fn recorded(self, status: MachineInputStatus) -> MachineInputRecordView {
        MachineInputRecordView {
            run_id: self.run_id@,
            activation_id: self.activation_id@,
            pane_id: self.pane_id@,
            allocation_generation: self.allocation_generation,
            started_at_ms: self.started_at_ms,
            submitted_at_ms: self.submitted_at_ms,
            payload_hash: payload_hash(self.text@),
            normalized_text: normalized(self.text@),
            submit_key_count: self.submit_key_count,
            transaction_id: self.transaction_id@,
            status,
        }
    }

    /// The entry that records the input with the given status, and shows another text for it.
    pub open spec fn recorded_as(
        self,
        projection: Seq<char>,
        status: MachineInputStatus,
    ) -> MachineInputRecordView {
        MachineInputRecordView {
            normalized_text: normalized(projection),
            ..self.recorded(status)
        }
    }
}

impl MachineInputRecord {
    fn shown_as(self, projection: &str) -> (r: Self)
        ensures
            r.deep_view() == (MachineInputRecordView {
                normalized_text: normalized(projection@),
                ..self.deep_view()
            }),
    {
        MachineInputRecord {
            run_id: self.run_id,
            activation_id: self.activation_id,
            pane_id: self.pane_id,
            allocation_generation: self.allocation_generation,
            started_at_ms: self.started_at_ms,
            submitted_at_ms: self.submitted_at_ms,
            payload_hash: self.payload_hash,
            normalized_text: normalize_machine_input_text(projection),
            submit_key_count: self.submit_key_count,
            transaction_id: self.transaction_id,
            status: self.status,
        }
    }

    pub fn started_with_projection(submission: MachineInputSubmission<'_>, projection: &str) -> (r:
        Self)
        ensures
            r.deep_view() == submission.recorded_as(projection@, MachineInputStatus::Started),
    {
        MachineInputRecord::started(submission).shown_as(projection)
    }

    pub fn submitted_with_projection(submission: MachineInputSubmission<'_>, projection: &str) -> (r:
        Self)
        ensures
            r.deep_view() == submission.recorded_as(projection@, MachineInputStatus::Submitted),
    {
        MachineInputRecord::submitted(submission).shown_as(projection)
    }

    pub fn failed_with_projection(submission: MachineInputSubmission<'_>, projection: &str) -> (r:
        Self)
        ensures
            r.deep_view() == submission.recorded_as(projection@, MachineInputStatus::Failed),
    {
        MachineInputRecord::failed(submission).shown_as(projection)
    }

    fn from_submission(submission: MachineInputSubmission<'_>, status: MachineInputStatus) -> (r:
        Self)
        ensures
            r.deep_view() == submission.recorded(status),
    {
        let normalized_text = normalize_machine_input_text(submission.text);
        let payload_hash = machine_input_payload_hash(normalized_text.as_str());
        proof {
            lemma_hash_of_normal_form(submission.text@);
        }
        MachineInputRecord {
            run_id: submission.run_id.to_string(),
            activation_id: submission.activation_id.to_string(),
            pane_id: submission.pane_id.to_string(),
            allocation_generation: submission.allocation_generation,
            started_at_ms: submission.started_at_ms,
            submitted_at_ms: submission.submitted_at_ms,
            payload_hash,
            normalized_text,
            submit_key_count: submission.submit_key_count,
            transaction_id: submission.transaction_id,
            status,
        }
    }

    pub fn started(submission: MachineInputSubmission<'_>) -> (r: Self)
        ensures
            r.deep_view() == submission.recorded(MachineInputStatus::Started),
    {
        MachineInputRecord::from_submission(submission, MachineInputStatus::Started)
    }

    pub fn submitted(submission: MachineInputSubmission<'_>) -> (r: Self)
        ensures
            r.deep_view() == submission.recorded(MachineInputStatus::Submitted),
    {
        MachineInputRecord::from_submission(submission, MachineInputStatus::Submitted)
    }

    pub fn failed(submission: MachineInputSubmission<'_>) -> (r: Self)
        ensures
            r.deep_view() == submission.recorded(MachineInputStatus::Failed),
    {
        MachineInputRecord::from_submission(submission, MachineInputStatus::Failed)
    }

    /// The entry as a JSON document.
    pub open spec fn json(record: MachineInputRecordView) -> JsonView {
        JsonView::Record(
            no_fields().push(("run_id"@, JsonView::Text(record.run_id))).push(
                ("activation_id"@, JsonView::Text(record.activation_id)),
            ).push(("pane_id"@, JsonView::Text(record.pane_id))).push(
                ("allocation_generation"@, JsonView::Unsigned(record.allocation_generation)),
            ).push(
                ("started_at_ms"@, JsonView::Unsigned(record.started_at_ms)),
            ).push(("submitted_at_ms"@, JsonView::Unsigned(record.submitted_at_ms))).push(
                ("payload_hash"@, JsonView::Text(record.payload_hash)),
            ).push(("normalized_text"@, JsonView::Text(record.normalized_text))).push(
                ("submit_key_count"@, JsonView::Unsigned(record.submit_key_count as u64)),
            ).push(("transaction_id"@, JsonView::Text(record.transaction_id))).push(
                ("status"@, JsonView::Text(record.status.name())),
            ),
        )
    }

    pub fn to_json(&self) -> (r: Json)
        ensures
            r@ == MachineInputRecord::json(self.deep_view()),
    {
        Fields::new().put("run_id", Json::text(self.run_id.as_str())).put(
            "activation_id",
            Json::text(self.activation_id.as_str()),
        ).put("pane_id", Json::text(self.pane_id.as_str())).put(
            "allocation_generation",
            Json::Unsigned(self.allocation_generation),
        ).put(
            "started_at_ms",
            Json::Unsigned(self.started_at_ms),
        ).put("submitted_at_ms", Json::Unsigned(self.submitted_at_ms)).put(
            "payload_hash",
            Json::text(self.payload_hash.as_str()),
        ).put("normalized_text", Json::text(self.normalized_text.as_str())).put(
            "submit_key_count",
            Json::Unsigned(self.submit_key_count as u64),
        ).put("transaction_id", Json::text(self.transaction_id.as_str())).put(
            "status",
            Json::text(self.status.as_str()),
        ).done()
    }

    /// The line of the ledger that holds the entry.
    pub open spec fn line(record: MachineInputRecordView) -> Seq<char> {
        json_compact(value_of(MachineInputRecord::json(record)))
    }

    pub fn to_line(&self) -> (r: String)
        ensures
            r@ == MachineInputRecord::line(self.deep_view()),
    {
        compact(&self.to_json())
    }
}

/// Where the entries of a ledger go.
#[derive(Debug)]
enum MachineInputLedgerSink {
    RuntimeDefault,
    JsonlPath(String),
    Memory(Vec<MachineInputRecord>),
}

/// Where the entries of a ledger go, and what it holds of them itself.
#[verifier::ext_equal]
pub enum SinkView {
    RuntimeDefault,
    JsonlPath(Seq<char>),
    Memory(Seq<MachineInputRecordView>),
}

/// A ledger of input.
#[derive(Debug)]
pub struct MachineInputLedger {
    sink: MachineInputLedgerSink,
    sequence: u64,
}

#[verifier::ext_equal]
pub struct LedgerView {
    pub sink: SinkView,
    pub sequence: u64,
}

impl DeepView for MachineInputLedger {
    type V = LedgerView;

    closed spec fn deep_view(&self) -> LedgerView {
        LedgerView {
            sink: match self.sink {
                MachineInputLedgerSink::RuntimeDefault => SinkView::RuntimeDefault,
                MachineInputLedgerSink::JsonlPath(path) => SinkView::JsonlPath(path@),
                MachineInputLedgerSink::Memory(records) => SinkView::Memory(records.deep_view()),
            },
            sequence: self.sequence,
        }
    }
}

/// A line that is to be written behind a file.
#[derive(Debug)]
pub struct LedgerWrite {
    pub path: String,
    pub line: String,
}

/// The path of the ledger of a run: in the directory that the store has for the run, or
/// in one of its own below the working directory where the store has none.
pub open spec fn default_path(run_id: Seq<char>, store_root: Option<Seq<char>>) -> Seq<char> {
    path_joined(
        match store_root {
            Some(root) => root,
            None => path_joined("."@, run_segment(run_id)),
        },
        "machine-inputs.jsonl"@,
    )
}

impl MachineInputLedger {
    fn new(sink: MachineInputLedgerSink) -> (r: Self)
        ensures
            r.sink == sink,
            r.sequence == 0,
    {
        MachineInputLedger { sink, sequence: 0 }
    }

    pub fn runtime_default() -> (r: Self)
        ensures
            r.deep_view() == (LedgerView { sink: SinkView::RuntimeDefault, sequence: 0 }),
    {
        MachineInputLedger::new(MachineInputLedgerSink::RuntimeDefault)
    }

    pub fn at_path(path: String) -> (r: Self)
        ensures
            r.deep_view() == (LedgerView { sink: SinkView::JsonlPath(path@), sequence: 0 }),
    {
        MachineInputLedger::new(MachineInputLedgerSink::JsonlPath(path))
    }

    pub fn in_memory() -> (r: Self)
        ensures
            r.deep_view() == (LedgerView { sink: SinkView::Memory(Seq::empty()), sequence: 0 }),
    {
        let records: Vec<MachineInputRecord> = Vec::new();
        assert(records.deep_view() =~= Seq::empty());
        MachineInputLedger::new(MachineInputLedgerSink::Memory(records))
    }

    /// The path of the ledger of a run, with the directory that the store has for the run.
    pub fn runtime_default_path(run_id: &str, store_root: Option<String>) -> (r: String)
        ensures
            r@ == default_path(run_id@, store_root.deep_view()),
    {
        let root = match store_root {
            Some(root) => root,
            None => join_path(".", machine_input_run_path_segment(run_id).as_str()),
        };
        join_path(root.as_str(), "machine-inputs.jsonl")
    }

    /// Takes an entry in. A ledger in memory keeps it; any other one says which line is to
    /// be written where, with the directory that the store has for the run.
    pub fn append(&mut self, record: MachineInputRecord, store_root: Option<String>) -> (r: Option<
        LedgerWrite,
    >)
        ensures
            forall|handle: int|
                final(self).deep_view() == #[trigger] called(
                    old(self).deep_view(),
                    LedgerCall::Append { handle, record: record.deep_view() },
                ),
            match old(self).deep_view().sink {
                SinkView::Memory(records) => r is None,
                SinkView::JsonlPath(path) => {
                    &&& r matches Some(write) && write.path@ == path && write.line@
                        == MachineInputRecord::line(record.deep_view())
                },
                SinkView::RuntimeDefault => {
                    &&& r matches Some(write) && write.path@ == default_path(
                        record.deep_view().run_id,
                        store_root.deep_view(),
                    ) && write.line@ == MachineInputRecord::line(record.deep_view())
                },
            },
    {
        match &mut self.sink {
            MachineInputLedgerSink::Memory(records) => {
                let ghost before = records.deep_view();
                records.push(record);
                assert(records.deep_view() =~= before.push(record.deep_view()));
                None
            },
            MachineInputLedgerSink::JsonlPath(path) => {
                Some(LedgerWrite { path: path.clone(), line: record.to_line() })
            },
            MachineInputLedgerSink::RuntimeDefault => {
                let path = MachineInputLedger::runtime_default_path(
                    record.run_id.as_str(),
                    store_root,
                );
                Some(LedgerWrite { path, line: record.to_line() })
            },
        }
    }

    /// The entries that a ledger in memory holds; any other one holds none.
    pub open spec fn held(ledger: LedgerView) -> Seq<MachineInputRecordView> {
        match ledger.sink {
            SinkView::Memory(records) => records,
            _ => Seq::empty(),
        }
    }

    pub fn records(&self) -> (r: Vec<MachineInputRecord>)
        ensures
            r.deep_view() == MachineInputLedger::held(self.deep_view()),
    {
        let out = match &self.sink {
            MachineInputLedgerSink::Memory(records) => records.clone(),
            _ => Vec::new(),
        };
        assert(out.deep_view() =~= MachineInputLedger::held(self.deep_view()));
        out
    }

    /// The lines of the entries that a ledger in memory holds.
    pub fn jsonl_lines(&self) -> (r: Vec<String>)
        ensures
            r.deep_view() == Seq::new(
                MachineInputLedger::held(self.deep_view()).len(),
                |i: int| MachineInputRecord::line(MachineInputLedger::held(self.deep_view())[i]),
            ),
    {
        let records = self.records();
        let ghost model = records.deep_view();
        let mut out: Vec<String> = Vec::new();
        let mut i: usize = 0;
        while i < records.len()
            invariant
                i <= records.len(),
                model == records.deep_view(),
                out.len() == i,
                forall|j: int|
                    0 <= j < i ==> (#[trigger] out@[j])@ == MachineInputRecord::line(model[j]),
            decreases records.len() - i,
        {
            out.push(records[i].to_line());
            i += 1;
        }
        assert(out.deep_view() =~= Seq::new(
            model.len(),
            |i: int| MachineInputRecord::line(model[i]),
        ));
        out
    }

    /// The number that was given last, zero where none was.
    pub fn last_sequence(&self) -> (r: u64)
        ensures
            r == self.deep_view().sequence,
    {
        self.sequence
    }

    /// The number of the next transaction, counted from one.
    pub fn next_sequence(&mut self) -> (r: u64)
        requires
            old(self).deep_view().sequence < u64::MAX,
        ensures
            r == old(self).deep_view().sequence + 1,
            forall|handle: int|
                final(self).deep_view() == #[trigger] called(
                    old(self).deep_view(),
                    LedgerCall::Next { handle },
                ),
    {
        self.sequence = self.sequence + 1;
        self.sequence
    }
}

/// A call on a ledger, through whichever of its handles.
pub enum LedgerCall {
    /// `append`, with the entry.
    Append { handle: int, record: MachineInputRecordView },
    /// `next_sequence`.
    Next { handle: int },
}

/// The ledger after a call.
pub open spec fn called(ledger: LedgerView, call: LedgerCall) -> LedgerView {
    match call {
        LedgerCall::Append { record, .. } => match ledger.sink {
            SinkView::Memory(records) => LedgerView {
                sink: SinkView::Memory(records.push(record)),
                ..ledger
            },
            _ => ledger,
        },
        LedgerCall::Next { .. } => LedgerView { sequence: (ledger.sequence + 1) as u64, ..ledger },
    }
}

/// The ledger after calls, in the order in which they came.
pub open spec fn after_calls(ledger: LedgerView, calls: Seq<LedgerCall>) -> LedgerView
    decreases calls.len(),
{
    if calls.len() == 0 {
        ledger
    } else {
        called(after_calls(ledger, calls.drop_last()), calls.last())
    }
}

/// The entries that calls hand in.
pub open spec fn appended(calls: Seq<LedgerCall>) -> Seq<MachineInputRecordView>
    decreases calls.len(),
{
    if calls.len() == 0 {
        Seq::empty()
    } else {
        match calls.last() {
            LedgerCall::Append { record, .. } => appended(calls.drop_last()).push(record),
            LedgerCall::Next { .. } => appended(calls.drop_last()),
        }
    }
}

/// How many of the calls ask for a number.
pub open spec fn numbered(calls: Seq<LedgerCall>) -> nat
    decreases calls.len(),
{
    if calls.len() == 0 {
        0
    } else {
        numbered(calls.drop_last()) + if calls.last() is Next {
            1nat
        } else {
            0
        }
    }
}

/// The number that the call at `i` is given.
pub open spec fn number_at(ledger: LedgerView, calls: Seq<LedgerCall>, i: int) -> int {
    after_calls(ledger, calls.take(i)).sequence + 1
}

/// All handles of a ledger see the same entries: those that were handed in, each of them as
/// often as it was, in the order of the calls. A ledger of lines on disk holds none. An entry
/// takes no number, and every request for a number takes one.
pub proof fn lemma_handles_share_the_ledger(ledger: LedgerView, calls: Seq<LedgerCall>)
    requires
        ledger.sequence + numbered(calls) <= u64::MAX,
    ensures
        after_calls(ledger, calls).sequence == ledger.sequence + numbered(calls),
        MachineInputLedger::held(after_calls(ledger, calls)) == if ledger.sink is Memory {
            MachineInputLedger::held(ledger) + appended(calls)
        } else {
            Seq::empty()
        },
        ledger.sink is Memory <==> after_calls(ledger, calls).sink is Memory,
        ledger.sink !is Memory ==> after_calls(ledger, calls).sink == ledger.sink,
    decreases calls.len(),
{
    if calls.len() > 0 {
        lemma_handles_share_the_ledger(ledger, calls.drop_last());
        if ledger.sink is Memory {
            assert(MachineInputLedger::held(after_calls(ledger, calls))
                =~= MachineInputLedger::held(ledger) + appended(calls));
        }
    } else if ledger.sink is Memory {
        assert(MachineInputLedger::held(ledger) + appended(calls) =~= MachineInputLedger::held(
            ledger,
        ));
    }
}

proof fn lemma_numbered_grows(calls: Seq<LedgerCall>, i: int, j: int)
    requires
        0 <= i <= j <= calls.len(),
    ensures
        numbered(calls.take(i)) <= numbered(calls.take(j)),
        i < j && calls[i] is Next ==> numbered(calls.take(i)) < numbered(calls.take(j)),
    decreases j - i,
{
    if i < j {
        assert(calls.take(j).drop_last() =~= calls.take(j - 1));
        lemma_numbered_grows(calls, i, j - 1);
    }
}

/// Whichever handles ask, the first number of a new ledger is one, the next one is two and
/// so on: no two requests are given the same number.
pub proof fn lemma_numbers_count_the_requests(ledger: LedgerView, calls: Seq<LedgerCall>)
    requires
        ledger.sequence + numbered(calls) <= u64::MAX,
    ensures
        forall|i: int|
            0 <= i < calls.len() ==> #[trigger] number_at(ledger, calls, i) == ledger.sequence
                + numbered(calls.take(i)) + 1,
        forall|i: int, j: int|
            0 <= i < j < calls.len() && calls[i] is Next ==> #[trigger] number_at(ledger, calls, i)
                < #[trigger] number_at(ledger, calls, j),
{
    assert(calls.take(calls.len() as int) =~= calls);
    assert forall|i: int| 0 <= i < calls.len() implies #[trigger] number_at(ledger, calls, i)
        == ledger.sequence + numbered(calls.take(i)) + 1 by {
        lemma_numbered_grows(calls, i, calls.len() as int);
        lemma_handles_share_the_ledger(ledger, calls.take(i));
    }
    assert forall|i: int, j: int|
        0 <= i < j < calls.len() && calls[i] is Next implies #[trigger] number_at(ledger, calls, i)
        < #[trigger] number_at(ledger, calls, j) by {
        lemma_numbered_grows(calls, i, j);
    }
}

/// Why an entry could not be written.
#[derive(Debug, PartialEq, Eq)]
pub struct MachineInputLedgerError {
    message: String,
}

impl DeepView for MachineInputLedgerError {
    type V = Seq<char>;

    closed spec fn deep_view(&self) -> Seq<char> {
        self.message@
    }
}

impl MachineInputLedgerError {
    /// The failure to write a line to a file.
    pub fn write_failed(path: &str, cause: &str) -> (r: Self)
        ensures
            r.deep_view() == "write machine input ledger "@ + path@ + " failed: "@ + cause@,
    {
        MachineInputLedgerError {
            message: crate::text::cat4("write machine input ledger ", path, " failed: ", cause),
        }
    }

    pub fn message(&self) -> (r: &str)
        ensures
            r@ == self.deep_view(),
    {
        self.message.as_str()
    }
}

/// Where the time of entries comes from.
#[derive(Debug, Clone, Copy, PartialEq, Eq, Structural)]
pub enum MachineInputClock {
    Realtime,
    Fixed(u64),
}

impl MachineInputClock {
    pub fn realtime() -> (r: Self)
        ensures
            r == MachineInputClock::Realtime,
    {
        MachineInputClock::Realtime
    }

    pub fn fixed(timestamp_ms: u64) -> (r: Self)
        ensures
            r == MachineInputClock::Fixed(timestamp_ms),
    {
        MachineInputClock::Fixed(timestamp_ms)
    }

    /// The time of an entry, where the wall clock shows `wall_ms`.
    pub fn now_ms(&self, wall_ms: u64) -> (r: u64)
        ensures
            r == (match *self {
                MachineInputClock::Realtime => wall_ms,
                MachineInputClock::Fixed(timestamp_ms) => timestamp_ms,
            }),
    {
        match self {
            MachineInputClock::Realtime => wall_ms,
            MachineInputClock::Fixed(timestamp_ms) => *timestamp_ms,
        }
    }
}

} // verus!

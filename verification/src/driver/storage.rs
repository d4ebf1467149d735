//! The files of the driver: a log has one record on each line, and a line that was cut off is
//! dropped.
use vstd::prelude::*;
use vstd::utf8::{
    char_is_scalar, char_u32_cast, encode_scalar, encode_utf8, has_width_1_encoding,
    has_width_2_encoding, has_width_3_encoding, last_continuation_byte, leading_byte_width_2,
    leading_byte_width_3, leading_byte_width_4, second_last_continuation_byte,
    third_last_continuation_byte,
};

use crate::hash::push_bytes;
use crate::json::{json_parse, parse_json, Json, JsonView};
use crate::split::{pieces, split};
use crate::text::{blank, char_vec, is_blank};

verus! {

broadcast use vstd::string::group_string_axioms;

/// The byte that ends a record.
pub const LINE_FEED: u8 = 10;

/// How much of a log is whole, of its first `n` bytes: all up to the last end of a record.
pub open spec fn whole_before(bytes: Seq<u8>, n: int) -> int
    decreases n,
{
    if n <= 0 || n > bytes.len() {
        0
    } else if bytes[n - 1] == LINE_FEED {
        n
    } else {
        whole_before(bytes, n - 1)
    }
}

/// How much of a log is whole.
pub open spec fn whole(bytes: Seq<u8>) -> int {
    whole_before(bytes, bytes.len() as int)
}

/// How much of a log is whole; the rest was cut off while it was written.
pub fn durable_length(bytes: &[u8]) -> (r: usize)
    ensures
        r == whole(bytes@),
        r <= bytes@.len(),
{
    let mut n: usize = bytes.len();
    while n > 0
        invariant
            n <= bytes@.len(),
            whole(bytes@) == whole_before(bytes@, n as int),
        decreases n,
    {
        if bytes[n - 1] == LINE_FEED {
            return n;
        }
        n -= 1;
    }
    0
}

proof fn lemma_whole_of_tail(front: Seq<u8>, tail: Seq<u8>, n: int)
    requires
        0 <= n <= tail.len(),
        forall|i: int| 0 <= i < n ==> tail[i] != LINE_FEED,
        front.len() == 0 || front.last() == LINE_FEED,
    ensures
        whole_before(front + tail, front.len() + n) == front.len(),
    decreases n,
{
    let all = front + tail;
    if n > 0 {
        assert(all[front.len() + n - 1] == tail[n - 1]);
        lemma_whole_of_tail(front, tail, n - 1);
    } else if front.len() > 0 {
        assert(all[front.len() - 1] == front.last());
    }
}

/// A record that was cut off is dropped, and every whole record before it is kept.
pub proof fn lemma_torn_tail_is_dropped(front: Seq<u8>, tail: Seq<u8>)
    requires
        front.len() == 0 || front.last() == LINE_FEED,
        !tail.contains(LINE_FEED),
    ensures
        whole(front + tail) == front.len(),
        (front + tail).take(whole(front + tail)) == front,
{
    assert forall|i: int| 0 <= i < tail.len() implies tail[i] != LINE_FEED by {
        assert(tail.contains(tail[i]));
    }
    lemma_whole_of_tail(front, tail, tail.len() as int);
    assert((front + tail).take(front.len() as int) =~= front);
}

proof fn lemma_scalar_has_no_feed(c: u32)
    requires
        c != 10,
        vstd::utf8::is_scalar(c),
    ensures
        !encode_scalar(c).contains(LINE_FEED),
{
    let bytes = encode_scalar(c);
    if has_width_1_encoding(c) {
        assert((c & 0x7F) as u8 != 10u8) by (bit_vector)
            requires
                c <= 0x7F,
                c != 10,
        ;
    } else {
        assert(0xC0u8 | ((c >> 6) & 0x1F) as u8 >= 0x80u8) by (bit_vector);
        assert(0xE0u8 | ((c >> 12) & 0x0F) as u8 >= 0x80u8) by (bit_vector);
        assert(0xF0u8 | ((c >> 18) & 0x7) as u8 >= 0x80u8) by (bit_vector);
        assert(0x80u8 | (c & 0x3F) as u8 >= 0x80u8) by (bit_vector);
        assert(0x80u8 | ((c >> 6) & 0x3F) as u8 >= 0x80u8) by (bit_vector);
        assert(0x80u8 | ((c >> 12) & 0x3F) as u8 >= 0x80u8) by (bit_vector);
        assert(leading_byte_width_2(c) >= 0x80);
        assert(leading_byte_width_3(c) >= 0x80);
        assert(leading_byte_width_4(c) >= 0x80);
        assert(last_continuation_byte(c) >= 0x80);
        assert(second_last_continuation_byte(c) >= 0x80);
        assert(third_last_continuation_byte(c) >= 0x80);
        assert forall|i: int| 0 <= i < bytes.len() implies bytes[i] != LINE_FEED by {
            if has_width_2_encoding(c) {
            } else if has_width_3_encoding(c) {
            } else {
            }
        }
    }
}

/// A text on one line is on one line in UTF-8 too.
pub proof fn lemma_one_line_in_utf8(text: Seq<char>)
    requires
        !text.contains('\n'),
    ensures
        !encode_utf8(text).contains(LINE_FEED),
    decreases text.len(),
{
    if text.len() > 0 {
        let rest = text.drop_first();
        assert forall|i: int| 0 <= i < rest.len() implies rest[i] != '\n' by {
            assert(rest[i] == text[i + 1]);
            assert(text.contains(text[i + 1]));
        }
        lemma_one_line_in_utf8(rest);
        assert(text.contains(text[0]));
        let c = text[0];
        char_is_scalar(c);
        if c as u32 == 10 {
            char_u32_cast(c, 10u32);
            char_u32_cast('\n', 10u32);
        }
        lemma_scalar_has_no_feed(c as u32);
        let head = encode_scalar(text[0] as u32);
        let tail = encode_utf8(rest);
        assert forall|i: int| 0 <= i < (head + tail).len() implies (head + tail)[i] != LINE_FEED by {
            if i < head.len() {
                assert(head.contains(head[i]));
            } else {
                assert(tail.contains(tail[i - head.len()]));
            }
        }
    }
}

/// A record of a log: what is printed on one line, and the end of the line.
pub open spec fn record(text: Seq<char>) -> Seq<u8> {
    encode_utf8(text).push(LINE_FEED)
}

pub fn record_bytes(text: &str) -> (r: Vec<u8>)
    ensures
        r@ == record(text@),
{
    let mut out: Vec<u8> = Vec::new();
    push_bytes(text.as_bytes(), &mut out);
    out.push(LINE_FEED);
    assert(out@ =~= record(text@));
    out
}

/// A log to which a record was added is whole; if the writing of one more was cut off, nothing
/// of the log is lost.
pub proof fn lemma_records_are_kept(log: Seq<u8>, text: Seq<char>, n: int)
    requires
        log.len() == 0 || log.last() == LINE_FEED,
        !text.contains('\n'),
        0 <= n <= record(text).len(),
    ensures
        whole(log + record(text)) == (log + record(text)).len(),
        n < record(text).len() ==> whole(log + record(text).take(n)) == log.len(),
{
    let added = record(text);
    let all = log + added;
    assert(all[all.len() - 1] == LINE_FEED);
    if n < added.len() {
        lemma_one_line_in_utf8(text);
        let torn = added.take(n);
        assert forall|i: int| 0 <= i < torn.len() implies torn[i] != LINE_FEED by {
            assert(torn[i] == encode_utf8(text)[i]);
            assert(encode_utf8(text).contains(encode_utf8(text)[i]));
        }
        assert(!torn.contains(LINE_FEED));
        lemma_torn_tail_is_dropped(log, torn);
    }
}

/// The lines among parts that hold something.
pub open spec fn filled_lines(parts: Seq<Seq<char>>) -> Seq<Seq<char>>
    decreases parts.len(),
{
    if parts.len() == 0 {
        parts
    } else {
        let front = filled_lines(parts.drop_last());
        if is_blank(parts.last()) {
            front
        } else {
            front.push(parts.last())
        }
    }
}

/// The records of a log.
pub open spec fn lines_of(content: Seq<char>) -> Seq<Seq<char>> {
    filled_lines(pieces(content, '\n'))
}

pub fn record_lines(content: &str) -> (r: Vec<String>)
    ensures
        r.deep_view() == lines_of(content@),
{
    let parts = split(content, '\n');
    let ghost model = parts.deep_view();
    let mut out: Vec<String> = Vec::new();
    let mut i: usize = 0;
    assert(model.take(0) =~= Seq::<Seq<char>>::empty());
    assert(out.deep_view() =~= Seq::<Seq<char>>::empty());
    while i < parts.len()
        invariant
            i <= parts.len(),
            model == parts.deep_view(),
            out.deep_view() == filled_lines(model.take(i as int)),
        decreases parts.len() - i,
    {
        let ghost before = out.deep_view();
        assert(model.take(i + 1).drop_last() =~= model.take(i as int));
        assert(model.take(i + 1).last() == parts@[i as int]@);
        if !blank(parts[i].as_str()) {
            out.push(parts[i].clone());
            assert(out.deep_view() =~= before.push(parts@[i as int]@));
        }
        i += 1;
    }
    assert(model.take(i as int) =~= model);
    out
}

/// What lines hold, or the message of the first that holds no JSON.
pub open spec fn read_lines(lines: Seq<Seq<char>>) -> Result<Seq<JsonView>, Seq<char>>
    decreases lines.len(),
{
    if lines.len() == 0 {
        Ok(Seq::empty())
    } else {
        match read_lines(lines.drop_last()) {
            Err(message) => Err(message),
            Ok(front) => match json_parse(lines.last()) {
                Ok(value) => Ok(front.push(value)),
                Err(message) => Err(message),
            },
        }
    }
}

proof fn lemma_fault_stays(lines: Seq<Seq<char>>, n: int)
    requires
        0 <= n <= lines.len(),
        read_lines(lines.take(n)) is Err,
    ensures
        read_lines(lines) == read_lines(lines.take(n)),
    decreases lines.len() - n,
{
    if n == lines.len() {
        assert(lines.take(n) =~= lines);
    } else {
        assert(lines.take(n + 1).drop_last() =~= lines.take(n));
        lemma_fault_stays(lines, n + 1);
    }
}

/// What the lines of a log hold.
pub fn read_records(lines: &Vec<String>) -> (r: Result<Vec<Json>, String>)
    ensures
        match r {
            Ok(values) => read_lines(lines.deep_view()) == Ok::<Seq<JsonView>, Seq<char>>(
                values.deep_view(),
            ),
            Err(message) => read_lines(lines.deep_view()) == Err::<Seq<JsonView>, Seq<char>>(
                message@,
            ),
        },
{
    let ghost model = lines.deep_view();
    let mut out: Vec<Json> = Vec::new();
    let mut i: usize = 0;
    assert(model.take(0) =~= Seq::<Seq<char>>::empty());
    assert(out.deep_view() =~= Seq::<JsonView>::empty());
    while i < lines.len()
        invariant
            i <= lines.len(),
            model == lines.deep_view(),
            read_lines(model.take(i as int)) == Ok::<Seq<JsonView>, Seq<char>>(out.deep_view()),
        decreases lines.len() - i,
    {
        let ghost before = out.deep_view();
        assert(model.take(i + 1).drop_last() =~= model.take(i as int));
        assert(model.take(i + 1).last() == lines@[i as int]@);
        match parse_json(lines[i].as_str()) {
            Ok(value) => {
                out.push(value);
                assert(out.deep_view() =~= before.push(value@));
            },
            Err(message) => {
                proof {
                    lemma_fault_stays(model, i + 1);
                }
                return Err(message);
            },
        }
        i += 1;
    }
    assert(model.take(i as int) =~= model);
    Ok(out)
}

/// A character that the name of a file may hold.
pub open spec fn is_file_char(c: char) -> bool {
    ('a' <= c <= 'z') || ('A' <= c <= 'Z') || ('0' <= c <= '9') || c == '-' || c == '_' || c == '.'
}

/// The name of a file for a text.
pub open spec fn file_segment(value: Seq<char>) -> Seq<char> {
    if value.len() == 0 {
        "id"@
    } else {
        Seq::new(
            value.len(),
            |i: int|
                if is_file_char(value[i]) {
                    value[i]
                } else {
                    '_'
                },
        )
    }
}

pub fn safe_file_segment(value: &str) -> (r: String)
    ensures
        r@ == file_segment(value@),
{
    let chars = char_vec(value);
    if chars.len() == 0 {
        return "id".to_string();
    }
    let ghost wanted = file_segment(value@);
    let mut out = String::new();
    let mut i: usize = 0;
    assert(out@ =~= wanted.take(0));
    while i < chars.len()
        invariant
            i <= chars.len(),
            chars.len() > 0,
            chars@ == value@,
            wanted == file_segment(value@),
            out@ == wanted.take(i as int),
        decreases chars.len() - i,
    {
        let c = chars[i];
        let allowed = ('a' <= c && c <= 'z') || ('A' <= c && c <= 'Z') || ('0' <= c && c <= '9')
            || c == '-' || c == '_' || c == '.';
        let ghost before = out@;
        if allowed {
            out.push(c);
        } else {
            out.push('_');
        }
        i += 1;
        assert(out@ =~= before.push(wanted[i - 1]));
        assert(out@ =~= wanted.take(i as int));
    }
    assert(wanted.take(i as int) =~= wanted);
    out
}

/// The name of a file leads out of no directory: it holds no slash, and something.
pub proof fn lemma_file_segments_stay(value: Seq<char>)
    ensures
        file_segment(value).len() > 0,
        forall|i: int|
            0 <= i < file_segment(value).len() ==> is_file_char(#[trigger] file_segment(value)[i]),
        !file_segment(value).contains('/'),
{
    reveal_strlit("id");
    let segment = file_segment(value);
    assert forall|i: int| 0 <= i < segment.len() implies is_file_char(#[trigger] segment[i]) by {
        if value.len() > 0 && is_file_char(value[i]) {
            assert(segment[i] == value[i]);
        }
    }
}

/// A control character.
pub open spec fn is_control(c: char) -> bool {
    c as u32 <= 0x1f || 0x7f <= c as u32 <= 0x9f
}

/// Whether a text may be the id of a run.
pub open spec fn is_run_id(run_id: Seq<char>) -> bool {
    run_id.len() > 0 && forall|i: int|
        0 <= i < run_id.len() ==> !is_control(#[trigger] run_id[i]) && run_id[i] != '/' && run_id[i]
            != '\\'
}

pub fn validate_run_id(run_id: &str) -> (r: Result<(), &'static str>)
    ensures
        match r {
            Ok(_) => is_run_id(run_id@),
            Err(message) => !is_run_id(run_id@) && message@
                == "run_id must be non-empty and must not contain path separators"@,
        },
{
    let n: usize = run_id.unicode_len();
    if n == 0 {
        return Err("run_id must be non-empty and must not contain path separators");
    }
    let mut i: usize = 0;
    while i < n
        invariant
            i <= n,
            n == run_id@.len(),
            forall|j: int|
                0 <= j < i ==> !is_control(#[trigger] run_id@[j]) && run_id@[j] != '/'
                    && run_id@[j] != '\\',
        decreases n - i,
    {
        let c = run_id.get_char(i);
        let code = c as u32;
        if code <= 0x1f || (0x7f <= code && code <= 0x9f) || c == '/' || c == '\\' {
            assert(is_control(run_id@[i as int]) || run_id@[i as int] == '/' || run_id@[i as int]
                == '\\');
            return Err("run_id must be non-empty and must not contain path separators");
        }
        i += 1;
    }
    Ok(())
}

/// What came of an attempt to reach a driver.
#[derive(Debug, Clone, Copy, PartialEq, Eq, Structural)]
pub enum Contact {
    /// It answers.
    Answered,
    /// Nobody listens.
    Refused,
    /// There is nothing to reach.
    NotFound,
    /// It cannot be told.
    Unclear,
}

/// What is to be done with what a driver left behind.
#[derive(Debug, Clone, Copy, PartialEq, Eq, Structural)]
pub enum StaleSocket {
    /// Nothing is there.
    Gone,
    /// It is to be removed.
    Remove,
    /// It is outside the directory for such things.
    Outside,
    /// A driver runs.
    InUse,
    /// It is something else.
    NotSocket,
    /// It cannot be told whether a driver runs.
    Indeterminate,
}

/// What is to be done with the socket that a driver left behind: it is removed only if nobody
/// listens.
pub open spec fn stale_socket_step(
    inside: bool,
    contact: Contact,
    present: bool,
    is_socket: bool,
) -> StaleSocket {
    if !inside {
        StaleSocket::Outside
    } else {
        match contact {
            Contact::Answered => StaleSocket::InUse,
            Contact::Unclear => StaleSocket::Indeterminate,
            Contact::Refused => if !present {
                StaleSocket::Indeterminate
            } else if is_socket {
                StaleSocket::Remove
            } else {
                StaleSocket::NotSocket
            },
            Contact::NotFound => if !present {
                StaleSocket::Gone
            } else if is_socket {
                StaleSocket::Remove
            } else {
                StaleSocket::NotSocket
            },
        }
    }
}

pub fn remove_stale_socket(inside: bool, contact: Contact, present: bool, is_socket: bool) -> (r:
    StaleSocket)
    ensures
        r == stale_socket_step(inside, contact, present, is_socket),
{
    if !inside {
        return StaleSocket::Outside;
    }
    match contact {
        Contact::Answered => StaleSocket::InUse,
        Contact::Unclear => StaleSocket::Indeterminate,
        Contact::Refused => {
            if !present {
                StaleSocket::Indeterminate
            } else if is_socket {
                StaleSocket::Remove
            } else {
                StaleSocket::NotSocket
            }
        },
        Contact::NotFound => {
            if !present {
                StaleSocket::Gone
            } else if is_socket {
                StaleSocket::Remove
            } else {
                StaleSocket::NotSocket
            }
        },
    }
}

/// Nothing is removed while a driver may run.
pub proof fn lemma_live_sockets_stay(inside: bool, contact: Contact, present: bool, is_socket: bool)
    requires
        contact == Contact::Answered || contact == Contact::Unclear,
    ensures
        stale_socket_step(inside, contact, present, is_socket) != StaleSocket::Remove,
{
}

} // verus!

//! Requests and answers on the wire: each is one line, and none is too long.
use vstd::prelude::*;
use vstd::utf8::encode_utf8;

use crate::flow::export::{order_fields, ordered};
use crate::hash::push_bytes;
use crate::json::{compact, json_compact, value_of, Json, JsonView};

use super::storage::{lemma_one_line_in_utf8, record, record_bytes, LINE_FEED};
use super::wire::{driver_error, refusal};

verus! {

broadcast use vstd::string::group_string_axioms;

/// How many bytes a request or an answer may have.
pub const MAX_FRAME_BYTES: usize = 1048576;

/// How long reading and writing may take, in milliseconds.
pub const IO_TIMEOUT_MS: u64 = 2000;

/// Where the first line ends, from the `n`-th byte on.
pub open spec fn line_end(bytes: Seq<u8>, n: int) -> Option<int>
    decreases bytes.len() - n,
{
    if n < 0 || n >= bytes.len() {
        None
    } else if bytes[n] == LINE_FEED {
        Some(n)
    } else {
        line_end(bytes, n + 1)
    }
}

/// What the bytes that have come so far hold.
#[verifier::ext_equal]
pub enum FrameView {
    Complete(Seq<u8>),
    TooLarge,
    More,
}

/// What the bytes that have come so far hold: a line, too much for one, or less.
pub open spec fn frame_of(bytes: Seq<u8>) -> FrameView {
    match line_end(bytes, 0) {
        Some(end) => if end > MAX_FRAME_BYTES {
            FrameView::TooLarge
        } else {
            FrameView::Complete(bytes.take(end))
        },
        None => if bytes.len() > MAX_FRAME_BYTES {
            FrameView::TooLarge
        } else {
            FrameView::More
        },
    }
}

proof fn lemma_no_end(bytes: Seq<u8>, n: int)
    requires
        0 <= n <= bytes.len(),
        forall|i: int| n <= i < bytes.len() ==> bytes[i] != LINE_FEED,
    ensures
        line_end(bytes, n) is None,
    decreases bytes.len() - n,
{
    if n < bytes.len() {
        lemma_no_end(bytes, n + 1);
    }
}

proof fn lemma_end(bytes: Seq<u8>, n: int, end: int)
    requires
        0 <= n <= end < bytes.len(),
        bytes[end] == LINE_FEED,
        forall|i: int| n <= i < end ==> bytes[i] != LINE_FEED,
    ensures
        line_end(bytes, n) == Some(end),
    decreases end - n,
{
    if n < end {
        lemma_end(bytes, n + 1, end);
    }
}

/// The bytes of a line that has not come to its end.
#[derive(Debug)]
pub struct FrameBuffer {
    bytes: Vec<u8>,
}

impl View for FrameBuffer {
    type V = Seq<u8>;

    closed spec fn view(&self) -> Seq<u8> {
        self.bytes@
    }
}

/// What came of reading.
#[derive(Debug)]
pub enum FrameRead {
    /// A line, and how many of the new bytes belong to it.
    Complete(Vec<u8>, usize),
    TooLarge,
    /// The other side ended before the line did.
    Truncated,
    More(FrameBuffer),
}

impl FrameBuffer {
    #[verifier::type_invariant]
    spec fn open_line(self) -> bool {
        &&& self.bytes@.len() <= MAX_FRAME_BYTES
        &&& forall|i: int| 0 <= i < self.bytes@.len() ==> self.bytes@[i] != LINE_FEED
    }

    pub fn new() -> (r: Self)
        ensures
            r@ == Seq::<u8>::empty(),
    {
        FrameBuffer { bytes: Vec::new() }
    }

    /// Takes in more bytes; none mean that the other side has ended.
    pub fn take(self, available: &[u8]) -> (r: FrameRead)
        ensures
            frame_of(self@) is More,
            match r {
                FrameRead::Truncated => available@.len() == 0,
                FrameRead::Complete(line, used) => {
                    &&& available@.len() > 0
                    &&& frame_of(self@ + available@) == FrameView::Complete(line@)
                    &&& used == line@.len() - self@.len() + 1
                },
                FrameRead::TooLarge => available@.len() > 0 && frame_of(self@ + available@)
                    == FrameView::TooLarge,
                FrameRead::More(buffer) => {
                    &&& available@.len() > 0
                    &&& frame_of(self@ + available@) is More
                    &&& buffer@ == self@ + available@
                },
            },
    {
        proof {
            use_type_invariant(&self);
            lemma_no_end(self.bytes@, 0);
        }
        if available.len() == 0 {
            return FrameRead::Truncated;
        }
        let ghost all = self.bytes@ + available@;
        let had: usize = self.bytes.len();
        let mut end: usize = 0;
        while end < available.len() && available[end] != LINE_FEED
            invariant
                end <= available@.len(),
                forall|i: int| 0 <= i < end ==> available@[i] != LINE_FEED,
            decreases available.len() - end,
        {
            end += 1;
        }
        let mut bytes = self.bytes;
        if end < available.len() {
            proof {
                assert forall|i: int| 0 <= i < had + end implies all[i] != LINE_FEED by {
                    if i >= had {
                        assert(all[i] == available@[i - had]);
                    }
                }
                assert(all[had + end] == available@[end as int]);
                lemma_end(all, 0, had + end);
            }
            if end > MAX_FRAME_BYTES - had {
                return FrameRead::TooLarge;
            }
            let mut i: usize = 0;
            let ghost start = bytes@;
            assert(bytes@ =~= start + available@.take(0));
            while i < end
                invariant
                    i <= end <= available@.len(),
                    bytes@ == start + available@.take(i as int),
                decreases end - i,
            {
                bytes.push(available[i]);
                i += 1;
                assert(bytes@ =~= start + available@.take(i as int));
            }
            assert(bytes@ =~= all.take(had + end));
            return FrameRead::Complete(bytes, end + 1);
        }
        proof {
            assert forall|i: int| 0 <= i < all.len() implies all[i] != LINE_FEED by {
                if i >= had {
                    assert(all[i] == available@[i - had]);
                }
            }
            lemma_no_end(all, 0);
        }
        if available.len() > MAX_FRAME_BYTES - had {
            return FrameRead::TooLarge;
        }
        push_bytes(available, &mut bytes);
        assert(bytes@ =~= all);
        FrameRead::More(FrameBuffer { bytes })
    }
}

/// What is answered in place of an answer that is too long.
pub open spec fn too_large_answer() -> JsonView {
    refusal(
        JsonView::Null,
        "response_too_large"@,
        "driver IPC response exceeds the maximum frame size"@,
    )
}

/// How a value is printed.
pub open spec fn printed(value: JsonView) -> Seq<char> {
    json_compact(value_of(ordered(value)))
}

/// An answer as it is written.
pub open spec fn answer_frame(value: JsonView) -> Seq<u8> {
    if encode_utf8(printed(value)).len() > MAX_FRAME_BYTES {
        record(printed(too_large_answer()))
    } else {
        record(printed(value))
    }
}

pub fn write_frame(value: &Json) -> (r: Vec<u8>)
    ensures
        r@ == answer_frame(value@),
{
    let text = compact(&order_fields(value));
    if text.as_str().as_bytes().len() > MAX_FRAME_BYTES {
        let refused = driver_error(
            Json::Null,
            "response_too_large",
            "driver IPC response exceeds the maximum frame size",
        );
        let short = compact(&order_fields(&refused));
        record_bytes(short.as_str())
    } else {
        record_bytes(text.as_str())
    }
}

/// What is written on one line, and is not too long, is read back whole.
pub proof fn lemma_lines_are_read_back(text: Seq<char>)
    requires
        !text.contains('\n'),
        encode_utf8(text).len() <= MAX_FRAME_BYTES,
    ensures
        frame_of(record(text)) == FrameView::Complete(encode_utf8(text)),
{
    lemma_one_line_in_utf8(text);
    let bytes = encode_utf8(text);
    let line = record(text);
    assert forall|i: int| 0 <= i < bytes.len() implies line[i] != LINE_FEED by {
        assert(line[i] == bytes[i]);
        assert(bytes.contains(bytes[i]));
    }
    lemma_end(line, 0, bytes.len() as int);
    assert(line.take(bytes.len() as int) =~= bytes);
}

} // verus!

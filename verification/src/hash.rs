//! Digests: SHA-256, and the 64-bit FNV-1a hash.
use vstd::prelude::*;
use sha2::Digest;
use vstd::utf8::{encode_utf8, encode_utf8_decode_utf8};

use crate::number::{
    big_endian, byte_bound, hex, hex_text, lemma_big_endian_injective, lemma_big_endian_length,
    push_u64_be,
};

verus! {

/// The SHA-256 digest of bytes.
pub uninterp spec fn sha256(bytes: Seq<u8>) -> Seq<u8>;

/// `sha2::Sha256::digest`: 32 bytes that depend on the input alone.
#[verifier::external_body]
fn sha256_digest(bytes: &[u8]) -> (r: Vec<u8>)
    ensures
        r@ == sha256(bytes@),
        r@.len() == 32,
{
    sha2::Sha256::digest(bytes).to_vec()
}

/// The SHA-256 digest of bytes in hexadecimal.
pub open spec fn sha256_hex(bytes: Seq<u8>) -> Seq<char> {
    hex(sha256(bytes))
}

pub fn sha256_hex_text(bytes: &[u8]) -> (r: String)
    ensures
        r@ == sha256_hex(bytes@),
        r@.len() == 64,
{
    let digest = sha256_digest(bytes);
    proof {
        crate::number::lemma_hex_length(digest@);
    }
    hex_text(digest.as_slice())
}

/// A text framed by its length: eight bytes, the most significant first, and the
/// text in UTF-8.
pub open spec fn framed(text: Seq<char>) -> Seq<u8> {
    big_endian(encode_utf8(text).len(), 8) + encode_utf8(text)
}

/// The frames of several texts, one behind the other.
pub open spec fn framed_all(texts: Seq<Seq<char>>) -> Seq<u8>
    decreases texts.len(),
{
    if texts.len() == 0 {
        Seq::empty()
    } else {
        framed_all(texts.drop_last()) + framed(texts.last())
    }
}

proof fn lemma_first_frame(texts: Seq<Seq<char>>)
    requires
        texts.len() > 0,
    ensures
        framed_all(texts) == framed(texts[0]) + framed_all(texts.drop_first()),
    decreases texts.len(),
{
    let rest = texts.drop_first();
    if texts.len() == 1 {
        assert(texts.drop_last() =~= Seq::<Seq<char>>::empty());
        assert(rest =~= Seq::<Seq<char>>::empty());
        assert(framed_all(texts) =~= framed(texts[0]) + framed_all(rest));
    } else {
        lemma_first_frame(texts.drop_last());
        assert(texts.drop_last().drop_first() =~= rest.drop_last());
        assert(rest.last() == texts.last());
        assert(framed_all(texts) =~= framed(texts[0]) + framed_all(rest));
    }
}

/// Frames tell the texts in them apart: two lists of texts have the same frames only if they
/// are the same.
pub proof fn lemma_frames_tell_texts(a: Seq<Seq<char>>, b: Seq<Seq<char>>)
    requires
        framed_all(a) == framed_all(b),
        forall|i: int| 0 <= i < a.len() ==> encode_utf8(#[trigger] a[i]).len() <= u64::MAX,
        forall|i: int| 0 <= i < b.len() ==> encode_utf8(#[trigger] b[i]).len() <= u64::MAX,
    ensures
        a == b,
    decreases a.len(),
{
    if a.len() == 0 || b.len() == 0 {
        if a.len() > 0 {
            lemma_first_frame(a);
            lemma_big_endian_length(encode_utf8(a[0]).len(), 8);
            assert(framed_all(a).len() >= 8);
            assert(framed_all(b).len() == 0);
        }
        if b.len() > 0 {
            lemma_first_frame(b);
            lemma_big_endian_length(encode_utf8(b[0]).len(), 8);
            assert(framed_all(b).len() >= 8);
            assert(framed_all(a).len() == 0);
        }
        assert(a =~= b);
    } else {
        lemma_first_frame(a);
        lemma_first_frame(b);
        let x = encode_utf8(a[0]);
        let y = encode_utf8(b[0]);
        let whole = framed_all(a);
        lemma_big_endian_length(x.len(), 8);
        lemma_big_endian_length(y.len(), 8);
        assert(whole.take(8) =~= big_endian(x.len(), 8));
        assert(framed_all(b).take(8) =~= big_endian(y.len(), 8));
        assert(byte_bound(8) == 0x1_0000_0000_0000_0000) by {
            reveal_with_fuel(byte_bound, 9);
        }
        lemma_big_endian_injective(x.len(), y.len(), 8);
        let n = 8 + x.len() as int;
        assert(whole.subrange(8, n) =~= x);
        assert(framed_all(b).subrange(8, n) =~= y);
        encode_utf8_decode_utf8(a[0]);
        encode_utf8_decode_utf8(b[0]);
        let more = a.drop_first();
        let others = b.drop_first();
        assert(whole.skip(n) =~= framed_all(more));
        assert(framed_all(b).skip(n) =~= framed_all(others));
        assert forall|i: int| 0 <= i < more.len() implies encode_utf8(#[trigger] more[i]).len()
            <= u64::MAX by {
            assert(more[i] == a[i + 1]);
        }
        assert forall|i: int| 0 <= i < others.len() implies encode_utf8(#[trigger] others[i]).len()
            <= u64::MAX by {
            assert(others[i] == b[i + 1]);
        }
        lemma_frames_tell_texts(more, others);
        assert(a =~= seq![a[0]] + more);
        assert(b =~= seq![b[0]] + others);
    }
}

pub fn push_bytes(bytes: &[u8], out: &mut Vec<u8>)
    ensures
        final(out)@ == old(out)@ + bytes@,
{
    let mut i: usize = 0;
    let ghost start = out@;
    assert(out@ =~= start + bytes@.take(0));
    while i < bytes.len()
        invariant
            i <= bytes.len(),
            out@ == start + bytes@.take(i as int),
        decreases bytes.len() - i,
    {
        out.push(bytes[i]);
        i += 1;
        assert(bytes@.take(i as int) =~= bytes@.take(i - 1).push(bytes@[i - 1]));
        assert(out@ =~= start + bytes@.take(i as int));
    }
    assert(bytes@.take(i as int) =~= bytes@);
}

pub fn push_framed(text: &str, out: &mut Vec<u8>)
    ensures
        final(out)@ == old(out)@ + framed(text@),
{
    let bytes = text.as_bytes();
    push_u64_be(bytes.len() as u64, out);
    push_bytes(bytes, out);
    assert(out@ =~= old(out)@ + framed(text@));
}

/// The frames of the given texts.
pub fn frame_all(texts: &[&str]) -> (r: Vec<u8>)
    ensures
        r@ == framed_all(texts.deep_view()),
{
    let mut out: Vec<u8> = Vec::new();
    let mut i: usize = 0;
    let ghost model = texts.deep_view();
    assert(out@ =~= framed_all(model.take(0)));
    while i < texts.len()
        invariant
            i <= texts.len(),
            model == texts.deep_view(),
            out@ == framed_all(model.take(i as int)),
        decreases texts.len() - i,
    {
        push_framed(texts[i], &mut out);
        proof {
            assert(model.take(i + 1).drop_last() =~= model.take(i as int));
            assert(model.take(i + 1).last() == texts@[i as int]@);
        }
        i += 1;
    }
    assert(model.take(i as int) =~= model);
    out
}

/// The start value of the 64-bit FNV-1a hash.
pub const FNV_OFFSET_BASIS: u64 = 0xcbf29ce484222325;

/// The multiplier of the 64-bit FNV-1a hash.
pub const FNV_PRIME: u64 = 0x100000001b3;

/// One step of FNV-1a: mix the byte in, then multiply modulo 2^64.
pub open spec fn fnv_step(state: u64, byte: u8) -> u64 {
    (state ^ (byte as u64)).wrapping_mul(FNV_PRIME)
}

/// The FNV-1a hash of bytes from a given state.
pub open spec fn fnv1a(state: u64, bytes: Seq<u8>) -> u64
    decreases bytes.len(),
{
    if bytes.len() == 0 {
        state
    } else {
        fnv_step(fnv1a(state, bytes.drop_last()), bytes.last())
    }
}

pub fn fnv1a_hash(state: u64, bytes: &[u8]) -> (r: u64)
    ensures
        r == fnv1a(state, bytes@),
{
    let mut hash: u64 = state;
    let mut i: usize = 0;
    assert(bytes@.take(0) =~= Seq::<u8>::empty());
    while i < bytes.len()
        invariant
            i <= bytes.len(),
            hash == fnv1a(state, bytes@.take(i as int)),
        decreases bytes.len() - i,
    {
        hash = (hash ^ (bytes[i] as u64)).wrapping_mul(FNV_PRIME);
        proof {
            assert(bytes@.take(i + 1).drop_last() =~= bytes@.take(i as int));
            assert(bytes@.take(i + 1).last() == bytes@[i as int]);
        }
        i += 1;
    }
    assert(bytes@.take(i as int) =~= bytes@);
    hash
}

/// Hashing in two steps is hashing the whole.
pub proof fn lemma_fnv1a_concat(state: u64, a: Seq<u8>, b: Seq<u8>)
    ensures
        fnv1a(fnv1a(state, a), b) == fnv1a(state, a + b),
    decreases b.len(),
{
    if b.len() == 0 {
        assert(a + b =~= a);
    } else {
        assert((a + b).drop_last() =~= a + b.drop_last());
        assert((a + b).last() == b.last());
        lemma_fnv1a_concat(state, a, b.drop_last());
    }
}

} // verus!

//! What digits, digests and entries keep of what they were made from.
use vstd::prelude::*;
use vstd::utf8::{encode_utf8, encode_utf8_decode_utf8};

use crate::hash::FNV_OFFSET_BASIS;
use crate::input_ledger::{is_safe_segment, normalized, run_segment, unified, without_final_feeds};
use crate::kernel::{pair_segments, segment};
use crate::number::{
    big_endian, byte_bound, digit, hex, hex_byte, hex_u64, lemma_big_endian_injective,
    lemma_decimal_reads_back, lemma_hex_length, little_endian, signed_decimal, signed_value,
};
use crate::split::{only_names, part_components, path_components, pieces};

verus! {

broadcast use vstd::string::group_string_axioms;

proof fn lemma_digits_differ(a: nat, b: nat)
    requires
        a < 16,
        b < 16,
        digit(a) == digit(b),
    ensures
        a == b,
{
}

/// Hexadecimal digits tell the bytes: two lists of bytes have the same digits only if they are the same.
pub proof fn lemma_hex_tells_bytes(a: Seq<u8>, b: Seq<u8>)
    requires
        hex(a) == hex(b),
    ensures
        a == b,
    decreases a.len(),
{
    lemma_hex_length(a);
    lemma_hex_length(b);
    assert(a.len() == b.len());
    if a.len() > 0 {
        let x = hex(a.drop_last());
        let y = hex(b.drop_last());
        lemma_hex_length(a.drop_last());
        lemma_hex_length(b.drop_last());
        assert(hex(a).take(x.len() as int) =~= x);
        assert(hex(b).take(y.len() as int) =~= y);
        lemma_hex_tells_bytes(a.drop_last(), b.drop_last());
        let n = x.len() as int;
        assert(hex(a)[n] == hex_byte(a.last())[0]);
        assert(hex(b)[n] == hex_byte(b.last())[0]);
        assert(hex(a)[n + 1] == hex_byte(a.last())[1]);
        assert(hex(b)[n + 1] == hex_byte(b.last())[1]);
        lemma_digits_differ((a.last() / 16) as nat, (b.last() / 16) as nat);
        lemma_digits_differ((a.last() % 16) as nat, (b.last() % 16) as nat);
        assert(a.last() == 16 * (a.last() / 16) + a.last() % 16);
        assert(b.last() == 16 * (b.last() / 16) + b.last() % 16);
        assert(a =~= a.drop_last().push(a.last()));
        assert(b =~= b.drop_last().push(b.last()));
    } else {
        assert(a =~= b);
    }
}

/// Sixteen digits tell the number.
pub proof fn lemma_hex_tells_numbers(a: u64, b: u64)
    requires
        hex_u64(a) == hex_u64(b),
    ensures
        a == b,
{
    lemma_hex_tells_bytes(big_endian(a as nat, 8), big_endian(b as nat, 8));
    assert(byte_bound(8) == 0x1_0000_0000_0000_0000) by {
        reveal_with_fuel(byte_bound, 9);
    }
    lemma_big_endian_injective(a as nat, b as nat, 8);
}

proof fn lemma_little_endian_length(n: nat, count: nat)
    ensures
        little_endian(n, count).len() == count,
    decreases count,
{
    if count > 0 {
        lemma_little_endian_length(n / 256, (count - 1) as nat);
    }
}

/// Bytes with the least significant first tell the number that fits in them.
pub proof fn lemma_little_endian_injective(a: nat, b: nat, count: nat)
    requires
        a < byte_bound(count),
        b < byte_bound(count),
        little_endian(a, count) == little_endian(b, count),
    ensures
        a == b,
    decreases count,
{
    if count > 0 {
        let less = (count - 1) as nat;
        lemma_little_endian_length(a / 256, less);
        lemma_little_endian_length(b / 256, less);
        assert(little_endian(a, count)[0] == (a % 256) as u8);
        assert(little_endian(b, count)[0] == (b % 256) as u8);
        assert(little_endian(a, count).skip(1) =~= little_endian(a / 256, less));
        assert(little_endian(b, count).skip(1) =~= little_endian(b / 256, less));
        lemma_little_endian_injective(a / 256, b / 256, less);
    }
}

/// A signed number is read back from its digits.
pub proof fn lemma_signed_reads_back(n: i32)
    ensures
        signed_value(signed_decimal(n as int)) == Some(n),
{
    if n < 0 {
        let m = (-(n as int)) as nat;
        let text = signed_decimal(n as int);
        crate::number::lemma_unsigned_reads_back(m as u64);
        lemma_decimal_reads_back(m);
        assert(text.skip(1) =~= crate::number::decimal(m));
        assert(text[1] == crate::number::decimal(m)[0]);
        assert(crate::number::decimal(m)[0] != '+') by {
            lemma_first_digit(m);
        }
    } else {
        crate::number::lemma_unsigned_reads_back(n as u64);
        lemma_first_digit(n as nat);
    }
}

proof fn lemma_first_digit(n: nat)
    ensures
        crate::number::decimal(n).len() > 0,
        '0' <= crate::number::decimal(n)[0] <= '9',
    decreases n,
{
    if n >= 10 {
        lemma_first_digit(n / 10);
    }
}

proof fn lemma_first_pair(pairs: Seq<(Seq<char>, Seq<char>)>)
    requires
        pairs.len() > 0,
    ensures
        pair_segments(pairs) == segment(pairs[0].0) + segment(pairs[0].1) + pair_segments(
            pairs.drop_first(),
        ),
    decreases pairs.len(),
{
    let rest = pairs.drop_first();
    if pairs.len() == 1 {
        assert(pairs.drop_last() =~= Seq::<(Seq<char>, Seq<char>)>::empty());
        assert(rest =~= Seq::<(Seq<char>, Seq<char>)>::empty());
        assert(pair_segments(pairs) =~= segment(pairs[0].0) + segment(pairs[0].1) + pair_segments(
            rest,
        ));
    } else {
        lemma_first_pair(pairs.drop_last());
        assert(pairs.drop_last().drop_first() =~= rest.drop_last());
        assert(rest.last() == pairs.last());
        assert(pair_segments(pairs) =~= segment(pairs[0].0) + segment(pairs[0].1) + pair_segments(
            rest,
        ));
    }
}

proof fn lemma_segments_tell(a: Seq<char>, x: Seq<u8>, b: Seq<char>, y: Seq<u8>)
    requires
        segment(a) + x == segment(b) + y,
        encode_utf8(a).len() <= u64::MAX,
        encode_utf8(b).len() <= u64::MAX,
    ensures
        a == b,
        x == y,
{
    let p = encode_utf8(a);
    let q = encode_utf8(b);
    let left = segment(a) + x;
    let right = segment(b) + y;
    lemma_little_endian_length(p.len(), 8);
    lemma_little_endian_length(q.len(), 8);
    assert(left.take(8) =~= little_endian(p.len(), 8));
    assert(right.take(8) =~= little_endian(q.len(), 8));
    assert(byte_bound(8) == 0x1_0000_0000_0000_0000) by {
        reveal_with_fuel(byte_bound, 9);
    }
    lemma_little_endian_injective(p.len(), q.len(), 8);
    let n = 8 + p.len() as int;
    assert(left.subrange(8, n) =~= p);
    assert(right.subrange(8, n) =~= q);
    encode_utf8_decode_utf8(a);
    encode_utf8_decode_utf8(b);
    assert(left.skip(n) =~= x);
    assert(right.skip(n) =~= y);
}

/// Whether texts are not longer than a length can be written.
pub open spec fn lengths_fit(pairs: Seq<(Seq<char>, Seq<char>)>) -> bool {
    forall|i: int|
        0 <= i < pairs.len() ==> encode_utf8((#[trigger] pairs[i]).0).len() <= u64::MAX
            && encode_utf8(pairs[i].1).len() <= u64::MAX
}

proof fn lemma_pair_segments_tell(
    a: Seq<(Seq<char>, Seq<char>)>,
    b: Seq<(Seq<char>, Seq<char>)>,
)
    requires
        pair_segments(a) == pair_segments(b),
        lengths_fit(a),
        lengths_fit(b),
    ensures
        a == b,
    decreases a.len(),
{
    if a.len() > 0 {
        lemma_first_pair(a);
        lemma_little_endian_length(encode_utf8(a[0].0).len(), 8);
        assert(pair_segments(a).len() >= 8);
    }
    if b.len() > 0 {
        lemma_first_pair(b);
        lemma_little_endian_length(encode_utf8(b[0].0).len(), 8);
        assert(pair_segments(b).len() >= 8);
    }
    if a.len() > 0 && b.len() > 0 {
        let x = pair_segments(a.drop_first());
        let y = pair_segments(b.drop_first());
        assert(segment(a[0].0) + (segment(a[0].1) + x) =~= pair_segments(a));
        assert(segment(b[0].0) + (segment(b[0].1) + y) =~= pair_segments(b));
        lemma_segments_tell(a[0].0, segment(a[0].1) + x, b[0].0, segment(b[0].1) + y);
        lemma_segments_tell(a[0].1, x, b[0].1, y);
        assert forall|i: int| 0 <= i < a.drop_first().len() implies encode_utf8(
            (#[trigger] a.drop_first()[i]).0,
        ).len() <= u64::MAX && encode_utf8(a.drop_first()[i].1).len() <= u64::MAX by {
            assert(a.drop_first()[i] == a[i + 1]);
        }
        assert forall|i: int| 0 <= i < b.drop_first().len() implies encode_utf8(
            (#[trigger] b.drop_first()[i]).0,
        ).len() <= u64::MAX && encode_utf8(b.drop_first()[i].1).len() <= u64::MAX by {
            assert(b.drop_first()[i] == b[i + 1]);
        }
        lemma_pair_segments_tell(a.drop_first(), b.drop_first());
        assert(a =~= seq![a[0]] + a.drop_first());
        assert(b =~= seq![b[0]] + b.drop_first());
    } else {
        assert(a =~= b);
    }
}

/// The bytes that the fingerprint of an artifact is made from tell all that the artifact holds: its id,
/// its name, its schema and its payload.
pub proof fn lemma_fingerprinted_bytes_tell_artifacts(
    a: (Seq<char>, Seq<char>, Seq<char>, Seq<(Seq<char>, Seq<char>)>),
    b: (Seq<char>, Seq<char>, Seq<char>, Seq<(Seq<char>, Seq<char>)>),
) -> (bytes: (Seq<u8>, Seq<u8>))
    requires
        encode_utf8(a.0).len() <= u64::MAX,
        encode_utf8(a.1).len() <= u64::MAX,
        encode_utf8(a.2).len() <= u64::MAX,
        encode_utf8(b.0).len() <= u64::MAX,
        encode_utf8(b.1).len() <= u64::MAX,
        encode_utf8(b.2).len() <= u64::MAX,
        lengths_fit(a.3),
        lengths_fit(b.3),
    ensures
        crate::kernel::fingerprint_of(a.0, a.1, a.2, a.3) == hex_u64(
            crate::hash::fnv1a(FNV_OFFSET_BASIS, bytes.0),
        ),
        crate::kernel::fingerprint_of(b.0, b.1, b.2, b.3) == hex_u64(
            crate::hash::fnv1a(FNV_OFFSET_BASIS, bytes.1),
        ),
        bytes.0 == bytes.1 ==> a == b,
{
    let x = segment(a.0) + segment(a.1) + segment(a.2) + pair_segments(a.3);
    let y = segment(b.0) + segment(b.1) + segment(b.2) + pair_segments(b.3);
    if x == y {
        assert(x =~= segment(a.0) + (segment(a.1) + (segment(a.2) + pair_segments(a.3))));
        assert(y =~= segment(b.0) + (segment(b.1) + (segment(b.2) + pair_segments(b.3))));
        lemma_segments_tell(
            a.0,
            segment(a.1) + (segment(a.2) + pair_segments(a.3)),
            b.0,
            segment(b.1) + (segment(b.2) + pair_segments(b.3)),
        );
        lemma_segments_tell(
            a.1,
            segment(a.2) + pair_segments(a.3),
            b.1,
            segment(b.2) + pair_segments(b.3),
        );
        lemma_segments_tell(a.2, pair_segments(a.3), b.2, pair_segments(b.3));
        lemma_pair_segments_tell(a.3, b.3);
    }
    (x, y)
}

proof fn lemma_unified_keeps(s: Seq<char>)
    ensures
        unified(s).filter(|c: char| c != '\n') == s.filter(|c: char| c != '\n' && c != '\r'),
        !s.contains('\r') ==> unified(s) == s,
    decreases s.len(),
{
    reveal(Seq::filter);
    let plain = |c: char| c != '\n';
    let both = |c: char| c != '\n' && c != '\r';
    if s.len() > 0 {
        let front = s.drop_last();
        lemma_unified_keeps(front);
        let all = unified(s);
        if s.last() == '\n' && s.len() >= 2 && s[s.len() - 2] == '\r' {
            assert(s.contains('\r'));
            assert(s.filter(both) == front.filter(both));
        } else {
            assert(all.drop_last() =~= unified(front));
            if s.last() == '\r' {
                assert(s[s.len() - 1] == '\r');
                assert(s.contains('\r'));
                assert(all.last() == '\n');
            } else {
                assert(all.last() == s.last());
            }
            if !s.contains('\r') {
                assert(!front.contains('\r')) by {
                    if front.contains('\r') {
                        let i = choose|i: int| 0 <= i < front.len() && front[i] == '\r';
                        assert(s[i] == '\r');
                    }
                }
                assert(all =~= s);
            }
        }
    } else {
        assert(unified(s) =~= s);
        assert(unified(s).filter(plain) =~= s.filter(both));
    }
}

proof fn lemma_final_feeds_go(s: Seq<char>)
    ensures
        without_final_feeds(s).filter(|c: char| c != '\n') == s.filter(|c: char| c != '\n'),
        without_final_feeds(s).is_prefix_of(s),
    decreases s.len(),
{
    reveal(Seq::filter);
    if s.len() > 0 && s.last() == '\n' {
        lemma_final_feeds_go(s.drop_last());
    }
}

/// Normal form takes only carriage returns and line feeds from input: every other character stays, in
/// its order; and input without carriage returns that does not end in a line feed stays as it is.
pub proof fn lemma_normal_form_keeps_the_text(s: Seq<char>)
    ensures
        normalized(s).filter(|c: char| c != '\n') == s.filter(|c: char| c != '\n' && c != '\r'),
        !s.contains('\r') && (s.len() == 0 || s.last() != '\n') ==> normalized(s) == s,
{
    lemma_unified_keeps(s);
    lemma_final_feeds_go(unified(s));
}

/// A run whose id can name a directory has the directory of that name.
pub proof fn lemma_safe_ids_name_their_directory(run_id: Seq<char>)
    requires
        is_safe_segment(run_id),
    ensures
        run_segment(run_id) == run_id,
{
}

proof fn lemma_components_of_parts(parts: Seq<Seq<char>>, n: int)
    requires
        0 <= n <= parts.len(),
    ensures
        forall|i: int|
            0 <= i < part_components(parts, n).len() ==> (#[trigger] part_components(parts, n)[i])
                !is RootDir,
        (exists|k: int| 0 <= k < n && #[trigger] parts[k] == ".."@) <==> (exists|i: int|
            0 <= i < part_components(parts, n).len() && #[trigger] part_components(parts, n)[i]
                is ParentDir),
    decreases n,
{
    reveal_strlit("..");
    reveal_strlit(".");
    assert(".."@.len() == 2);
    assert("."@.len() == 1);
    if n > 0 {
        lemma_components_of_parts(parts, n - 1);
        let front = part_components(parts, n - 1);
        let all = part_components(parts, n);
        if exists|k: int| 0 <= k < n && #[trigger] parts[k] == ".."@ {
            let k = choose|k: int| 0 <= k < n && #[trigger] parts[k] == ".."@;
            if k < n - 1 {
                let i = choose|i: int| 0 <= i < front.len() && #[trigger] front[i] is ParentDir;
                assert(all[i] is ParentDir);
            } else {
                assert(all[all.len() - 1] is ParentDir);
            }
        }
        if exists|i: int| 0 <= i < all.len() && #[trigger] all[i] is ParentDir {
            let i = choose|i: int| 0 <= i < all.len() && #[trigger] all[i] is ParentDir;
            if i < front.len() {
                assert(front[i] is ParentDir);
            } else {
                assert(parts[n - 1] == ".."@);
            }
        }
    }
}

/// A path of names alone stays inside: it does not start at the root, and none of its parts leads up.
pub proof fn lemma_paths_of_names_stay_inside(path: Seq<char>)
    requires
        only_names(path),
    ensures
        path.len() > 0 ==> path[0] != '/',
        !pieces(path, '/').contains(".."@),
{
    let parts = pieces(path, '/');
    let n = parts.len() as int;
    lemma_components_of_parts(parts, n);
    let all = path_components(path);
    if path.len() > 0 && path[0] == '/' {
        assert(all[0] is RootDir);
    } else if parts.contains(".."@) {
        let k = choose|k: int| 0 <= k < parts.len() && parts[k] == ".."@;
        assert(parts[k] == ".."@);
        let i = choose|i: int|
            0 <= i < part_components(parts, n).len() && #[trigger] part_components(parts, n)[i]
                is ParentDir;
        assert(all[i] is ParentDir);
    }
}

} // verus!

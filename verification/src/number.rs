//! Numbers as text: decimal and hexadecimal digits, and big-endian bytes.
use vstd::prelude::*;

verus! {

/// The character of a digit below sixteen.
pub open spec fn digit(d: nat) -> char {
    if d < 10 {
        (48 + d) as char
    } else {
        (87 + d) as char
    }
}

pub fn digit_char(d: u8) -> (r: char)
    requires
        d < 16,
    ensures
        r == digit(d as nat),
{
    if d < 10 {
        (48u8 + d) as char
    } else {
        (87u8 + d) as char
    }
}

/// The decimal digits of a number, without leading zeros.
pub open spec fn decimal(n: nat) -> Seq<char>
    decreases n,
{
    if n < 10 {
        seq![digit(n)]
    } else {
        decimal(n / 10).push(digit(n % 10))
    }
}

/// The decimal digits of a number, with a sign where it is negative.
pub open spec fn signed_decimal(n: int) -> Seq<char> {
    if n < 0 {
        seq!['-'] + decimal((-n) as nat)
    } else {
        decimal(n as nat)
    }
}

pub fn decimal_text(n: u64) -> (r: String)
    ensures
        r@ == decimal(n as nat),
    decreases n,
{
    if n < 10 {
        let mut out = String::new();
        out.push(digit_char(n as u8));
        assert(out@ =~= seq![digit(n as nat)]);
        out
    } else {
        let mut out = decimal_text(n / 10);
        out.push(digit_char((n % 10) as u8));
        out
    }
}

pub fn decimal_index(n: usize) -> (r: String)
    ensures
        r@ == decimal(n as nat),
{
    decimal_text(n as u64)
}

pub fn signed_decimal_text(n: i64) -> (r: String)
    ensures
        r@ == signed_decimal(n as int),
{
    if n < 0 {
        let mut out = String::new();
        out.push('-');
        let magnitude: u64 = (-((n + 1))) as u64 + 1;
        let digits = decimal_text(magnitude);
        out.push_str(digits.as_str());
        assert(out@ =~= seq!['-'] + decimal((-n) as nat));
        out
    } else {
        decimal_text(n as u64)
    }
}

/// The number that decimal digits stand for.
pub open spec fn decimal_value(digits: Seq<char>) -> nat
    decreases digits.len(),
{
    if digits.len() == 0 {
        0
    } else {
        10 * decimal_value(digits.drop_last()) + (digits.last() as nat - 48) as nat
    }
}

/// Whether a string is made of decimal digits alone.
pub open spec fn all_digits(s: Seq<char>) -> bool {
    forall|i: int| 0 <= i < s.len() ==> '0' <= #[trigger] s[i] <= '9'
}

/// Decimal digits read back as the number they were written from.
pub proof fn lemma_decimal_reads_back(n: nat)
    ensures
        decimal_value(decimal(n)) == n,
        all_digits(decimal(n)),
        decimal(n).len() > 0,
    decreases n,
{
    if n < 10 {
        let s = seq![digit(n)];
        assert(s.drop_last() =~= Seq::<char>::empty());
        assert(decimal_value(s.drop_last()) == 0);
    } else {
        lemma_decimal_reads_back(n / 10);
        let s = decimal(n);
        assert(s.drop_last() =~= decimal(n / 10));
        assert(s.last() == digit(n % 10));
    }
}

/// Two numbers with the same digits are equal.
pub proof fn lemma_decimal_injective(a: nat, b: nat)
    requires
        decimal(a) == decimal(b),
    ensures
        a == b,
{
    lemma_decimal_reads_back(a);
    lemma_decimal_reads_back(b);
}

/// The two hexadecimal digits of a byte.
pub open spec fn hex_byte(b: u8) -> Seq<char> {
    seq![digit((b / 16) as nat), digit((b % 16) as nat)]
}

/// The lower-case hexadecimal digits of bytes, two for each.
pub open spec fn hex(bytes: Seq<u8>) -> Seq<char>
    decreases bytes.len(),
{
    if bytes.len() == 0 {
        Seq::empty()
    } else {
        hex(bytes.drop_last()) + hex_byte(bytes.last())
    }
}

pub fn hex_text(bytes: &[u8]) -> (r: String)
    ensures
        r@ == hex(bytes@),
{
    let mut out = String::new();
    let mut i: usize = 0;
    assert(bytes@.take(0) =~= Seq::<u8>::empty());
    while i < bytes.len()
        invariant
            i <= bytes.len(),
            out@ == hex(bytes@.take(i as int)),
        decreases bytes.len() - i,
    {
        let b: u8 = bytes[i];
        out.push(digit_char(b / 16));
        out.push(digit_char(b % 16));
        proof {
            let next = bytes@.take(i + 1);
            assert(next.drop_last() =~= bytes@.take(i as int));
            assert(next.last() == b);
            assert(out@ =~= hex(bytes@.take(i as int)) + hex_byte(b));
        }
        i += 1;
    }
    assert(bytes@.take(i as int) =~= bytes@);
    out
}

/// Each byte takes two digits.
pub proof fn lemma_hex_length(bytes: Seq<u8>)
    ensures
        hex(bytes).len() == 2 * bytes.len(),
    decreases bytes.len(),
{
    if bytes.len() > 0 {
        lemma_hex_length(bytes.drop_last());
    }
}

/// A lower-case hexadecimal digit.
pub open spec fn is_hex_digit(c: char) -> bool {
    '0' <= c <= '9' || 'a' <= c <= 'f'
}

/// Hexadecimal text is made of hexadecimal digits.
pub proof fn lemma_hex_digits(bytes: Seq<u8>)
    ensures
        forall|i: int| 0 <= i < hex(bytes).len() ==> is_hex_digit(#[trigger] hex(bytes)[i]),
    decreases bytes.len(),
{
    if bytes.len() > 0 {
        lemma_hex_digits(bytes.drop_last());
        let front = hex(bytes.drop_last());
        let all = hex(bytes);
        assert forall|i: int| 0 <= i < all.len() implies is_hex_digit(#[trigger] all[i]) by {
            if i < front.len() {
                assert(all[i] == front[i]);
            } else {
                assert(all[i] == hex_byte(bytes.last())[i - front.len()]);
            }
        }
    }
}

/// The low `count` bytes of a number, the most significant first.
pub open spec fn big_endian(n: nat, count: nat) -> Seq<u8>
    decreases count,
{
    if count == 0 {
        Seq::empty()
    } else {
        big_endian(n / 256, (count - 1) as nat).push((n % 256) as u8)
    }
}

/// The low `count` bytes of a number, the least significant first.
pub open spec fn little_endian(n: nat, count: nat) -> Seq<u8>
    decreases count,
{
    if count == 0 {
        Seq::empty()
    } else {
        seq![(n % 256) as u8] + little_endian(n / 256, (count - 1) as nat)
    }
}

fn push_big_endian(n: u64, count: usize, out: &mut Vec<u8>)
    ensures
        final(out)@ == old(out)@ + big_endian(n as nat, count as nat),
    decreases count,
{
    if count > 0 {
        push_big_endian(n / 256, count - 1, out);
        out.push((n % 256) as u8);
        assert(out@ =~= old(out)@ + big_endian(n as nat, count as nat));
    } else {
        assert(out@ =~= old(out)@ + big_endian(n as nat, 0));
    }
}

/// The eight bytes of a number, the most significant first.
pub fn push_u64_be(n: u64, out: &mut Vec<u8>)
    ensures
        final(out)@ == old(out)@ + big_endian(n as nat, 8),
{
    push_big_endian(n, 8, out);
}

fn push_little_endian(n: u64, count: usize, out: &mut Vec<u8>)
    ensures
        final(out)@ == old(out)@ + little_endian(n as nat, count as nat),
    decreases count,
{
    if count > 0 {
        out.push((n % 256) as u8);
        let ghost mid = out@;
        push_little_endian(n / 256, count - 1, out);
        assert(out@ =~= old(out)@ + little_endian(n as nat, count as nat));
    } else {
        assert(out@ =~= old(out)@ + little_endian(n as nat, 0));
    }
}

/// The eight bytes of a number, the least significant first.
pub fn push_u64_le(n: u64, out: &mut Vec<u8>)
    ensures
        final(out)@ == old(out)@ + little_endian(n as nat, 8),
{
    push_little_endian(n, 8, out);
}

/// The sixteen hexadecimal digits of a number, padded with zeros.
pub open spec fn hex_u64(n: u64) -> Seq<char> {
    hex(big_endian(n as nat, 8))
}

pub fn hex_u64_text(n: u64) -> (r: String)
    ensures
        r@ == hex_u64(n),
{
    let mut bytes: Vec<u8> = Vec::new();
    push_u64_be(n, &mut bytes);
    assert(bytes@ =~= big_endian(n as nat, 8));
    hex_text(bytes.as_slice())
}

/// The number that a text stands for: decimal digits, with a plus sign before them or
/// without, and no more than fits in 64 bits.
pub open spec fn unsigned_value(s: Seq<char>) -> Option<u64> {
    let digits = if s.len() > 0 && s[0] == '+' {
        s.skip(1)
    } else {
        s
    };
    if digits.len() > 0 && all_digits(digits) && decimal_value(digits) <= u64::MAX {
        Some(decimal_value(digits) as u64)
    } else {
        None
    }
}

proof fn lemma_decimal_grows(digits: Seq<char>, n: int)
    requires
        0 <= n <= digits.len(),
    ensures
        decimal_value(digits.take(n)) <= decimal_value(digits),
    decreases digits.len() - n,
{
    if n == digits.len() {
        assert(digits.take(n) =~= digits);
    } else {
        lemma_decimal_grows(digits, n + 1);
        assert(digits.take(n + 1).drop_last() =~= digits.take(n));
    }
}

/// Reads a number of at most 64 bits.
pub fn read_u64(s: &str) -> (r: Option<u64>)
    ensures
        r == unsigned_value(s@),
{
    let n: usize = s.unicode_len();
    let start: usize = if n > 0 && s.get_char(0) == '+' {
        1
    } else {
        0
    };
    let ghost digits = s@.skip(start as int);
    assert(start == 0 ==> digits =~= s@);
    if start == n {
        return None;
    }
    let mut value: u64 = 0;
    let mut i: usize = start;
    assert(digits.take(0) =~= Seq::<char>::empty());
    while i < n
        invariant
            start <= i <= n,
            start <= 1,
            start < n,
            n == s@.len(),
            digits == s@.skip(start as int),
            digits == (if s@.len() > 0 && s@[0] == '+' {
                s@.skip(1)
            } else {
                s@
            }),
            value == decimal_value(digits.take(i - start)),
            forall|j: int| 0 <= j < i - start ==> '0' <= #[trigger] digits[j] <= '9',
        decreases n - i,
    {
        let c = s.get_char(i);
        assert(c == digits[i - start]);
        if !('0' <= c && c <= '9') {
            return None;
        }
        let d: u64 = (c as u64) - 48;
        proof {
            lemma_decimal_grows(digits, i - start + 1);
            assert(digits.take(i - start + 1).drop_last() =~= digits.take(i - start));
            assert(digits.take(i - start + 1).last() == c);
        }
        if value > (0xffff_ffff_ffff_ffff - d) / 10 {
            return None;
        }
        value = value * 10 + d;
        i += 1;
    }
    assert(digits.take(i - start) =~= digits);
    Some(value)
}

/// Numbers read back as what they were written from.
pub proof fn lemma_unsigned_reads_back(n: u64)
    ensures
        unsigned_value(decimal(n as nat)) == Some(n),
{
    lemma_decimal_reads_back(n as nat);
}

/// The number of 32 bits that a text stands for, with a sign before it or without.
pub open spec fn signed_value(s: Seq<char>) -> Option<i32> {
    if s.len() > 0 && s[0] == '-' {
        match unsigned_value(s.skip(1)) {
            Some(n) => if s[1] != '+' && n <= 0x8000_0000 {
                Some((-(n as int)) as i32)
            } else {
                None
            },
            None => None,
        }
    } else {
        match unsigned_value(s) {
            Some(n) => if n <= 0x7fff_ffff {
                Some(n as i32)
            } else {
                None
            },
            None => None,
        }
    }
}

/// Reads a number of 32 bits.
pub fn read_i32(s: &str) -> (r: Option<i32>)
    ensures
        r == signed_value(s@),
{
    let n: usize = s.unicode_len();
    if n > 0 && s.get_char(0) == '-' {
        let rest = s.substring_char(1, n);
        assert(rest@ =~= s@.skip(1));
        match read_u64(rest) {
            Some(value) => {
                if s.get_char(1) != '+' && value <= 0x8000_0000 {
                    Some((-(value as i64)) as i32)
                } else {
                    None
                }
            },
            None => None,
        }
    } else {
        match read_u64(s) {
            Some(value) => {
                if value <= 0x7fff_ffff {
                    Some(value as i32)
                } else {
                    None
                }
            },
            None => None,
        }
    }
}

/// The largest number that fits in so many bytes, and one.
pub open spec fn byte_bound(count: nat) -> nat
    decreases count,
{
    if count == 0 {
        1
    } else {
        256 * byte_bound((count - 1) as nat)
    }
}

/// Numbers that fit in so many bytes are told apart by them.
pub proof fn lemma_big_endian_injective(a: nat, b: nat, count: nat)
    requires
        a < byte_bound(count),
        b < byte_bound(count),
        big_endian(a, count) == big_endian(b, count),
    ensures
        a == b,
    decreases count,
{
    if count > 0 {
        let x = big_endian(a / 256, (count - 1) as nat);
        let y = big_endian(b / 256, (count - 1) as nat);
        assert(big_endian(a, count).drop_last() =~= x);
        assert(big_endian(b, count).drop_last() =~= y);
        assert(big_endian(a, count).last() == (a % 256) as u8);
        assert(big_endian(b, count).last() == (b % 256) as u8);
        lemma_big_endian_injective(a / 256, b / 256, (count - 1) as nat);
    }
}

pub proof fn lemma_big_endian_length(n: nat, count: nat)
    ensures
        big_endian(n, count).len() == count,
    decreases count,
{
    if count > 0 {
        lemma_big_endian_length(n / 256, (count - 1) as nat);
    }
}

} // verus!

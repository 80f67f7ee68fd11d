//! Numerals: how integers are written in decimal and hexadecimal, and how decimal is read back.
use vstd::prelude::*;

use crate::text::chars_of;

verus! {

/// The character that writes the digit `d`, lower case above nine.
pub open spec fn digit_char(d: nat) -> char {
    if d < 10 {
        ('0' as u32 + d) as char
    } else {
        ('a' as u32 + (d - 10)) as char
    }
}

/// `n` written in the given base, without leading zeros.
pub open spec fn digits(n: nat, base: nat) -> Seq<char>
    decreases n,
{
    if base < 2 || n < base {
        seq![digit_char(n)]
    } else {
        proof {
            assert(n / base < n) by (nonlinear_arith)
                requires
                    2 <= base <= n,
            ;
        }
        digits(n / base, base).push(digit_char(n % base))
    }
}

/// `n` in decimal.
pub open spec fn decimal(n: nat) -> Seq<char> {
    digits(n, 10)
}

/// `n` in decimal, with a minus sign where it is negative.
pub open spec fn signed_decimal(n: int) -> Seq<char> {
    if n < 0 {
        seq!['-'] + decimal((-n) as nat)
    } else {
        decimal(n as nat)
    }
}

/// `n` in hexadecimal, lower case.
pub open spec fn hex(n: nat) -> Seq<char> {
    digits(n, 16)
}

fn digit(d: u64) -> (c: char)
    requires
        d < 16,
    ensures
        c == digit_char(d as nat),
{
    if d < 10 {
        (48 + d as u8) as char
    } else {
        (97 + (d - 10) as u8) as char
    }
}

fn push_digits(n: u64, base: u64, out: &mut String)
    requires
        2 <= base <= 16,
    ensures
        final(out)@ == old(out)@ + digits(n as nat, base as nat),
    decreases n,
{
    if n < base {
        out.push(digit(n));
        assert(out@ =~= old(out)@ + digits(n as nat, base as nat));
    } else {
        assert(n / base < n) by (nonlinear_arith)
            requires
                2 <= base <= n,
        ;
        push_digits(n / base, base, out);
        out.push(digit(n % base));
        assert(out@ =~= old(out)@ + digits(n as nat, base as nat));
    }
}

/// `n` in decimal.
pub fn u64_to_decimal(n: u64) -> (r: String)
    ensures
        r@ == decimal(n as nat),
{
    let mut out = String::new();
    push_digits(n, 10, &mut out);
    assert(out@ =~= decimal(n as nat));
    out
}

/// `n` in decimal, with a minus sign where it is negative.
pub fn i64_to_decimal(n: i64) -> (r: String)
    ensures
        r@ == signed_decimal(n as int),
{
    let mut out = String::new();
    if n < 0 {
        out.push('-');
        let magnitude: u64 = if n == i64::MIN {
            0x8000_0000_0000_0000
        } else {
            (-n) as u64
        };
        push_digits(magnitude, 10, &mut out);
        assert(out@ =~= signed_decimal(n as int));
    } else {
        push_digits(n as u64, 10, &mut out);
        assert(out@ =~= signed_decimal(n as int));
    }
    out
}

/// `n` in hexadecimal, lower case.
pub fn u64_to_hex(n: u64) -> (r: String)
    ensures
        r@ == hex(n as nat),
{
    let mut out = String::new();
    push_digits(n, 16, &mut out);
    assert(out@ =~= hex(n as nat));
    out
}

/// The two hexadecimal digits of a byte.
pub open spec fn byte_hex(b: u8) -> Seq<char> {
    seq![digit_char((b / 16) as nat), digit_char((b % 16) as nat)]
}

/// The hexadecimal digits of `bytes`, two for each byte.
pub open spec fn bytes_hex(bytes: Seq<u8>) -> Seq<char>
    decreases bytes.len(),
{
    if bytes.len() == 0 {
        seq![]
    } else {
        bytes_hex(bytes.drop_last()) + byte_hex(bytes.last())
    }
}

/// The hexadecimal digits of `bytes[from..]`, two for each byte.
pub fn hex_of_bytes(bytes: &[u8], from: usize, to: usize) -> (r: String)
    requires
        from <= to <= bytes@.len(),
    ensures
        r@ == bytes_hex(bytes@.subrange(from as int, to as int)),
{
    let mut out = String::new();
    let mut i: usize = from;
    while i < to
        invariant
            from <= i <= to <= bytes@.len(),
            out@ == bytes_hex(bytes@.subrange(from as int, i as int)),
        decreases to - i,
    {
        let b: u8 = bytes[i];
        let ghost before = out@;
        out.push(digit((b / 16) as u64));
        out.push(digit((b % 16) as u64));
        let ghost next = bytes@.subrange(from as int, i + 1);
        assert(next.drop_last() =~= bytes@.subrange(from as int, i as int));
        assert(out@ =~= before + byte_hex(b));
        i = i + 1;
    }
    out
}

// ---------------------------------------------------------------------------------------------
// Reading decimal
// ---------------------------------------------------------------------------------------------

/// Whether `c` is one of the ten decimal digits.
pub open spec fn is_digit(c: char) -> bool {
    '0' <= c <= '9'
}

/// Whether `s` is a non-empty run of decimal digits.
pub open spec fn all_digits(s: Seq<char>) -> bool {
    s.len() > 0 && forall|i: int| 0 <= i < s.len() ==> is_digit(#[trigger] s[i])
}

/// The number that a run of decimal digits writes.
pub open spec fn value_of(s: Seq<char>) -> nat
    decreases s.len(),
{
    if s.len() == 0 {
        0
    } else {
        10 * value_of(s.drop_last()) + (s.last() as u32 - '0' as u32) as nat
    }
}

/// The number that `s` writes with an optional plus sign, or, where `signed`, minus sign.
pub open spec fn numeral_value(s: Seq<char>, signed: bool) -> Option<int> {
    if all_digits(s) {
        Some(value_of(s) as int)
    } else if s.len() > 0 && s[0] == '+' && all_digits(s.skip(1)) {
        Some(value_of(s.skip(1)) as int)
    } else if signed && s.len() > 0 && s[0] == '-' && all_digits(s.skip(1)) {
        Some(-(value_of(s.skip(1)) as int))
    } else {
        None
    }
}

/// The number that `s` writes, if it lies between `min` and `max`.
pub open spec fn parsed(s: Seq<char>, min: int, max: int) -> Option<int> {
    match numeral_value(s, min < 0) {
        Some(n) => if min <= n <= max {
            Some(n)
        } else {
            None
        },
        None => None,
    }
}

pub proof fn lemma_value_of_prefix(s: Seq<char>, i: int)
    requires
        all_digits(s),
        0 <= i <= s.len(),
    ensures
        value_of(s.take(i)) <= value_of(s),
    decreases s.len() - i,
{
    if i < s.len() {
        lemma_value_of_prefix(s, i + 1);
        assert(s.take(i + 1).drop_last() =~= s.take(i));
        assert(is_digit(s[i]));
    } else {
        assert(s.take(i) =~= s);
    }
}

/// The value of the digits `cs[from..]`, if they are all digits and it is at most `max`.
fn read_digits(cs: &Vec<char>, from: usize, max: u64) -> (r: Option<u64>)
    requires
        from <= cs@.len(),
    ensures
        match r {
            Some(n) => all_digits(cs@.skip(from as int)) && n == value_of(cs@.skip(from as int))
                && n <= max,
            None => all_digits(cs@.skip(from as int)) ==> value_of(cs@.skip(from as int)) > max,
        },
{
    let ghost s = cs@.skip(from as int);
    if from == cs.len() {
        return None;
    }
    let mut n: u64 = 0;
    let mut i: usize = from;
    assert(s.take(0) =~= seq![]);
    while i < cs.len()
        invariant
            from <= i <= cs@.len(),
            from < cs@.len(),
            s == cs@.skip(from as int),
            forall|j: int| 0 <= j < i - from ==> is_digit(#[trigger] s[j]),
            n == value_of(s.take(i - from)),
            n <= max,
        decreases cs.len() - i,
    {
        let c: char = cs[i];
        assert(s[i - from] == c);
        if !('0' <= c && c <= '9') {
            assert(!is_digit(s[i - from]));
            return None;
        }
        let d: u64 = (c as u32 - '0' as u32) as u64;
        assert(s.take(i - from + 1).drop_last() =~= s.take(i - from));
        assert(value_of(s.take(i - from + 1)) == 10 * n + d);
        if d > max || n > (max - d) / 10 {
            proof {
                if all_digits(s) {
                    lemma_value_of_prefix(s, i - from + 1);
                }
            }
            return None;
        }
        n = n * 10 + d;
        i = i + 1;
    }
    assert(s.take(i - from) =~= s);
    Some(n)
}

/// The number that `s` writes, if it is one of the unsigned integers up to `max`.
pub fn parse_unsigned(s: &str, max: u64) -> (r: Option<u64>)
    ensures
        match r {
            Some(n) => parsed(s@, 0, max as int) == Some(n as int),
            None => parsed(s@, 0, max as int) is None,
        },
{
    let cs = chars_of(s);
    assert(cs@.skip(0) =~= cs@);
    if cs.len() > 0 && cs[0] == '+' {
        assert(!is_digit(s@[0]));
        read_digits(&cs, 1, max)
    } else {
        proof {
            if s@.len() > 0 {
                assert(!all_digits(s@.skip(1)) || s@[0] != '+');
            }
        }
        read_digits(&cs, 0, max)
    }
}

/// The number that `s` writes, if it is a 64-bit unsigned integer.
pub fn parse_u64(s: &str) -> (r: Option<u64>)
    ensures
        match r {
            Some(n) => parsed(s@, 0, u64::MAX as int) == Some(n as int),
            None => parsed(s@, 0, u64::MAX as int) is None,
        },
{
    parse_unsigned(s, u64::MAX)
}

/// The number that `s` writes, if it is a 64-bit signed integer.
pub fn parse_i64(s: &str) -> (r: Option<i64>)
    ensures
        match r {
            Some(n) => parsed(s@, i64::MIN as int, i64::MAX as int) == Some(n as int),
            None => parsed(s@, i64::MIN as int, i64::MAX as int) is None,
        },
{
    let cs = chars_of(s);
    assert(cs@.skip(0) =~= cs@);
    if cs.len() > 0 && cs[0] == '-' {
        assert(!is_digit(s@[0]));
        match read_digits(&cs, 1, 0x8000_0000_0000_0000) {
            Some(n) => if n == 0x8000_0000_0000_0000 {
                Some(i64::MIN)
            } else {
                Some(-(n as i64))
            },
            None => None,
        }
    } else if cs.len() > 0 && cs[0] == '+' {
        assert(!is_digit(s@[0]));
        match read_digits(&cs, 1, 0x7fff_ffff_ffff_ffff) {
            Some(n) => Some(n as i64),
            None => None,
        }
    } else {
        match read_digits(&cs, 0, 0x7fff_ffff_ffff_ffff) {
            Some(n) => Some(n as i64),
            None => None,
        }
    }
}

/// The number that `s` writes, if it is a 32-bit signed integer.
pub fn parse_i32(s: &str) -> (r: Option<i32>)
    ensures
        match r {
            Some(n) => parsed(s@, i32::MIN as int, i32::MAX as int) == Some(n as int),
            None => parsed(s@, i32::MIN as int, i32::MAX as int) is None,
        },
{
    match parse_i64(s) {
        Some(n) => if -0x8000_0000 <= n && n <= 0x7fff_ffff {
            Some(n as i32)
        } else {
            None
        },
        None => None,
    }
}

// ---------------------------------------------------------------------------------------------
// Laws
// ---------------------------------------------------------------------------------------------

/// What is written in decimal reads back as the number it was written from.
pub proof fn law_decimal_reads_back(n: nat)
    ensures
        all_digits(decimal(n)),
        value_of(decimal(n)) == n,
        numeral_value(decimal(n), false) == Some(n as int),
    decreases n,
{
    let s = decimal(n);
    if n < 10 {
        assert(s =~= seq![digit_char(n)]);
        assert(s.drop_last() =~= seq![]);
        assert(value_of(s.drop_last()) == 0);
        assert(s.last() as u32 - '0' as u32 == n);
    } else {
        law_decimal_reads_back(n / 10);
        assert(s.drop_last() =~= decimal(n / 10));
        assert(s.last() as u32 - '0' as u32 == n % 10);
        assert forall|i: int| 0 <= i < s.len() implies is_digit(#[trigger] s[i]) by {
            if i < s.len() - 1 {
                assert(s[i] == decimal(n / 10)[i]);
            }
        }
    }
}

/// A signed number reads back from its decimal form, too.
pub proof fn law_signed_decimal_reads_back(n: int)
    ensures
        numeral_value(signed_decimal(n), true) == Some(n),
{
    if n < 0 {
        law_decimal_reads_back((-n) as nat);
        assert(signed_decimal(n).skip(1) =~= decimal((-n) as nat));
        assert(!is_digit(signed_decimal(n)[0]));
    } else {
        law_decimal_reads_back(n as nat);
    }
}

/// Two numbers that are written alike are the same.
pub proof fn law_decimal_is_injective(a: nat, b: nat)
    requires
        decimal(a) == decimal(b),
    ensures
        a == b,
{
    law_decimal_reads_back(a);
    law_decimal_reads_back(b);
}

/// The number that hexadecimal digits write.
pub open spec fn hex_value(s: Seq<char>) -> nat
    decreases s.len(),
{
    if s.len() == 0 {
        0
    } else {
        16 * hex_value(s.drop_last()) + (if is_digit(s.last()) {
            (s.last() as u32 - '0' as u32) as nat
        } else {
            (s.last() as u32 - 'a' as u32 + 10) as nat
        })
    }
}

/// What is written in hexadecimal reads back as the number it was written from, and is written without
/// leading zeros.
pub proof fn law_hex_reads_back(n: nat)
    ensures
        hex_value(hex(n)) == n,
        hex(n).len() > 0,
        n > 0 ==> hex(n)[0] != '0',
        forall|i: int|
            0 <= i < hex(n).len() ==> '0' <= (#[trigger] hex(n)[i]) <= '9' || 'a' <= hex(n)[i] <= 'f',
    decreases n,
{
    let s = hex(n);
    if n < 16 {
        assert(s =~= seq![digit_char(n)]);
        assert(s.drop_last() =~= seq![]);
        assert(hex_value(s.drop_last()) == 0);
    } else {
        law_hex_reads_back(n / 16);
        assert(s.drop_last() =~= hex(n / 16));
        assert(s[0] == hex(n / 16)[0]);
        assert forall|i: int| 0 <= i < s.len() implies '0' <= (#[trigger] s[i]) <= '9' || 'a' <= s[i]
            <= 'f' by {
            if i < s.len() - 1 {
                assert(s[i] == hex(n / 16)[i]);
            }
        }
    }
}

/// Each byte is written with two hexadecimal digits, one byte after the other.
pub proof fn law_bytes_have_two_digits_each(bytes: Seq<u8>, i: int)
    requires
        0 <= i < bytes.len(),
    ensures
        bytes_hex(bytes).len() == 2 * bytes.len(),
        hex_value(bytes_hex(bytes).subrange(2 * i, 2 * i + 2)) == bytes[i],
    decreases bytes.len(),
{
    let rest = bytes.drop_last();
    let whole = bytes_hex(bytes);
    lemma_bytes_hex_len(bytes);
    lemma_bytes_hex_len(rest);
    if i < rest.len() {
        law_bytes_have_two_digits_each(rest, i);
        assert(whole.subrange(2 * i, 2 * i + 2) =~= bytes_hex(rest).subrange(2 * i, 2 * i + 2));
    } else {
        let pair = byte_hex(bytes[i]);
        assert(whole.subrange(2 * i, 2 * i + 2) =~= pair);
        assert(pair.drop_last() =~= seq![pair[0]]);
        assert(seq![pair[0]].drop_last() =~= seq![]);
        assert(hex_value(seq![pair[0]].drop_last()) == 0);
        assert(seq![pair[0]].last() == pair[0]);
        assert(hex_value(seq![pair[0]]) == bytes[i] / 16);
        assert(pair.last() == digit_char((bytes[i] % 16) as nat));
        assert(hex_value(pair) == 16 * (bytes[i] / 16) + bytes[i] % 16);
    }
}

proof fn lemma_bytes_hex_len(bytes: Seq<u8>)
    ensures
        bytes_hex(bytes).len() == 2 * bytes.len(),
    decreases bytes.len(),
{
    if bytes.len() > 0 {
        lemma_bytes_hex_len(bytes.drop_last());
    }
}

/// Leading zeros and a plus sign do not change what digits write; a minus sign is read only where
/// numbers may be negative. A text with any other character is no number, nor is one without digits.
pub proof fn law_what_is_read_as_a_number(s: Seq<char>, n: nat, signed: bool, i: int)
    ensures
        numeral_value(seq!['+'] + decimal(n), signed) == Some(n as int),
        numeral_value(seq!['0'] + decimal(n), signed) == Some(n as int),
        numeral_value(seq!['-'] + decimal(n), true) == Some(-(n as int)),
        numeral_value(seq!['-'] + decimal(n), false) is None,
        numeral_value(Seq::empty(), signed) is None,
        numeral_value(seq!['+'], signed) is None,
        numeral_value(seq!['-'], signed) is None,
        1 <= i < s.len() && !('0' <= s[i] <= '9') ==> numeral_value(s, signed) is None,
        s.len() > 0 && !('0' <= s[0] <= '9') && s[0] != '+' && s[0] != '-' ==> numeral_value(s, signed)
            is None,
{
    law_decimal_reads_back(n);
    let d = decimal(n);
    let plus = seq!['+'] + d;
    let minus = seq!['-'] + d;
    let zero = seq!['0'] + d;
    assert(plus.skip(1) =~= d && minus.skip(1) =~= d);
    assert(!is_digit(plus[0]) && !is_digit(minus[0]));
    assert forall|k: int| 0 <= k < zero.len() implies is_digit(#[trigger] zero[k]) by {
        if k > 0 {
            assert(zero[k] == d[k - 1]);
        }
    }
    lemma_value_of_leading_zero(d);
    assert(seq!['+'].skip(1) =~= seq![] && seq!['-'].skip(1) =~= seq![]);
    assert(!is_digit(seq!['+'][0]) && !is_digit(seq!['-'][0]));
    if 1 <= i < s.len() && !('0' <= s[i] <= '9') {
        assert(!is_digit(s[i]));
        assert(s.skip(1)[i - 1] == s[i]);
        assert(!is_digit(s.skip(1)[i - 1]));
    }
    if s.len() > 0 && !('0' <= s[0] <= '9') {
        assert(!is_digit(s[0]));
    }
}

proof fn lemma_value_of_leading_zero(s: Seq<char>)
    ensures
        value_of(seq!['0'] + s) == value_of(s),
    decreases s.len(),
{
    let zero = seq!['0'] + s;
    if s.len() == 0 {
        assert(zero =~= seq!['0']);
        assert(zero.drop_last() =~= seq![]);
        assert(value_of(zero.drop_last()) == 0);
    } else {
        assert(zero.drop_last() =~= seq!['0'] + s.drop_last());
        lemma_value_of_leading_zero(s.drop_last());
    }
}

/// A number is read if it lies in the range that is asked for, and only then.
pub proof fn law_numbers_are_read_within_their_range(n: int, min: int, max: int)
    requires
        min <= 0,
    ensures
        min <= n <= max && (n >= 0 || min < 0) ==> parsed(signed_decimal(n), min, max) == Some(n),
        n < min || n > max ==> parsed(signed_decimal(n), min, max) is None,
{
    law_signed_decimal_reads_back(n);
    if n >= 0 {
        law_decimal_reads_back(n as nat);
    } else {
        law_decimal_reads_back((-n) as nat);
        assert(signed_decimal(n).skip(1) =~= decimal((-n) as nat));
        assert(!is_digit(signed_decimal(n)[0]));
    }
}

} // verus!

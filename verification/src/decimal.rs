use vstd::prelude::*;

verus! {

/// `b` is one of the ASCII digits `0` to `9`.
pub open spec fn is_ascii_digit(b: u8) -> bool {
    48 <= b && b <= 57
}

/// Every byte of `s` is an ASCII digit.
pub open spec fn all_digits(s: Seq<u8>) -> bool {
    forall|i: int| 0 <= i < s.len() ==> is_ascii_digit(#[trigger] s[i])
}

/// The number that the decimal digits `s` spell, most significant first.
pub open spec fn digits_value(s: Seq<u8>) -> nat
    decreases s.len(),
{
    if s.len() == 0 {
        0
    } else {
        digits_value(s.drop_last()) * 10 + (s.last() - 48) as nat
    }
}

/// The digits of an unsigned number: the text without its optional leading `+`.
pub open spec fn unsigned_digits(s: Seq<u8>) -> Seq<u8> {
    if s.len() > 0 && s[0] == 43u8 {
        s.drop_first()
    } else {
        s
    }
}

/// What reading `s` as an unsigned decimal number no larger than `max` gives:
/// an optional `+`, then at least one digit and nothing else, of value at most `max`.
/// This is the grammar of `FromStr` for Rust's unsigned integer types.
pub open spec fn parse_unsigned(s: Seq<u8>, max: nat) -> Option<nat> {
    let d = unsigned_digits(s);
    if d.len() > 0 && all_digits(d) && digits_value(d) <= max {
        Some(digits_value(d))
    } else {
        None
    }
}

/// What reading `s` as an `i64` gives: an optional `-` or `+`, then at least one digit
/// and nothing else, of a value in the range of `i64`. This is the grammar of
/// `FromStr` for `i64`.
pub open spec fn parse_i64(s: Seq<u8>) -> Option<int> {
    if s.len() > 0 && s[0] == 45u8 {
        let d = s.drop_first();
        if d.len() > 0 && all_digits(d) && digits_value(d) <= 0x8000_0000_0000_0000 {
            Some(-(digits_value(d) as int))
        } else {
            None
        }
    } else {
        match parse_unsigned(s, i64::MAX as nat) {
            Some(v) => Some(v as int),
            None => None,
        }
    }
}

/// A longer run of digits never spells a smaller number than its prefix.
proof fn lemma_prefix_value_le(s: Seq<u8>, j: int)
    requires
        all_digits(s),
        0 <= j <= s.len(),
    ensures
        digits_value(s.take(j)) <= digits_value(s),
    decreases s.len(),
{
    if j < s.len() {
        let t = s.drop_last();
        assert(t.take(j) =~= s.take(j));
        assert(all_digits(t));
        lemma_prefix_value_le(t, j);
    } else {
        assert(s.take(j) =~= s);
    }
}

/// Reads the bytes `s[start..]` as decimal digits of a value no larger than `max`.
fn parse_digits(s: &[u8], start: usize, max: u64) -> (r: Option<u64>)
    requires
        start <= s@.len(),
    ensures
        ({
            let d = s@.subrange(start as int, s@.len() as int);
            match r {
                Some(v) => d.len() > 0 && all_digits(d) && digits_value(d) <= max
                    && v as nat == digits_value(d),
                None => !(d.len() > 0 && all_digits(d) && digits_value(d) <= max),
            }
        }),
{
    let len = s.len();
    if start == len {
        return None;
    }
    let ghost d = s@.subrange(start as int, len as int);
    let mut v: u64 = 0;
    let mut i: usize = start;
    while i < len
        invariant
            start <= i <= len,
            len == s@.len(),
            d == s@.subrange(start as int, len as int),
            d.len() > 0,
            all_digits(s@.subrange(start as int, i as int)),
            v as nat == digits_value(s@.subrange(start as int, i as int)),
            v <= max,
        decreases len - i,
    {
        let b = s[i];
        let ghost prefix = s@.subrange(start as int, i as int);
        let ghost next = s@.subrange(start as int, i + 1);
        assert(next.drop_last() =~= prefix);
        assert(d.take(i - start) =~= prefix);
        assert(d.take(i + 1 - start) =~= next);
        if b < 48 || b > 57 {
            assert(!is_ascii_digit(d[i - start]));
            return None;
        }
        let digit: u64 = (b - 48) as u64;
        assert(all_digits(next));
        if digit > max || v > (max - digit) / 10 {
            assert(v * 10 + digit > max) by (nonlinear_arith)
                requires
                    digit > max || v > (max - digit) / 10,
                    digit <= 9,
            ;
            assert(digits_value(next) > max);
            proof {
                if all_digits(d) {
                    lemma_prefix_value_le(d, i + 1 - start);
                }
            }
            return None;
        }
        assert(v * 10 + digit <= max) by (nonlinear_arith)
            requires
                digit <= max,
                v <= (max - digit) / 10,
        ;
        v = v * 10 + digit;
        i = i + 1;
    }
    assert(s@.subrange(start as int, i as int) =~= d);
    Some(v)
}

/// Reads `s` as an unsigned decimal number no larger than `max`, with the grammar
/// of Rust's `FromStr` for unsigned integers.
pub fn parse_unsigned_bytes(s: &[u8], max: u64) -> (r: Option<u64>)
    ensures
        match r {
            Some(v) => parse_unsigned(s@, max as nat) == Some(v as nat),
            None => parse_unsigned(s@, max as nat) is None,
        },
{
    if s.len() > 0 && s[0] == 43u8 {
        assert(s@.subrange(1, s@.len() as int) =~= s@.drop_first());
        parse_digits(s, 1, max)
    } else {
        assert(s@.subrange(0, s@.len() as int) =~= s@);
        parse_digits(s, 0, max)
    }
}

/// Reads `s` as an `i64`, with the grammar of Rust's `FromStr` for `i64`.
pub fn parse_i64_bytes(s: &[u8]) -> (r: Option<i64>)
    ensures
        match r {
            Some(v) => parse_i64(s@) == Some(v as int),
            None => parse_i64(s@) is None,
        },
{
    if s.len() > 0 && s[0] == 45u8 {
        assert(s@.subrange(1, s@.len() as int) =~= s@.drop_first());
        match parse_digits(s, 1, 0x8000_0000_0000_0000u64) {
            Some(m) => {
                if m == 0x8000_0000_0000_0000u64 {
                    Some(i64::MIN)
                } else {
                    Some(-(m as i64))
                }
            },
            None => None,
        }
    } else {
        match parse_unsigned_bytes(s, i64::MAX as u64) {
            Some(m) => Some(m as i64),
            None => None,
        }
    }
}

/// A number read as an `i64` is in the range of `i64`.
pub proof fn lemma_parse_i64_in_range(s: Seq<u8>)
    requires
        parse_i64(s) is Some,
    ensures
        i64::MIN <= parse_i64(s).unwrap() <= i64::MAX,
{
}

/// A single digit spells the number it stands for: `0` is 0, ..., `9` is 9.
pub proof fn law_single_digit(c: u8)
    requires
        is_ascii_digit(c),
    ensures
        digits_value(seq![c]) == c - 48,
{
    reveal_with_fuel(digits_value, 2);
    assert(seq![c].drop_last() =~= Seq::<u8>::empty());
}

/// Writing one more digit after a number multiplies it by ten and adds the digit.
pub proof fn law_digit_append(s: Seq<u8>, c: u8)
    requires
        all_digits(s),
        is_ascii_digit(c),
    ensures
        digits_value(s.push(c)) == digits_value(s) * 10 + (c - 48),
{
    assert(s.push(c).drop_last() =~= s);
}

/// Leading zeros do not change a number.
pub proof fn law_leading_zero(s: Seq<u8>)
    requires
        all_digits(s),
    ensures
        digits_value(seq![48u8] + s) == digits_value(s),
    decreases s.len(),
{
    if s.len() == 0 {
        law_single_digit(48u8);
        assert(seq![48u8] + s =~= seq![48u8]);
    } else {
        let t = s.drop_last();
        assert(all_digits(t));
        law_leading_zero(t);
        assert((seq![48u8] + s).drop_last() =~= seq![48u8] + t);
    }
}

/// A number of `n` digits is less than ten to the `n`.
pub proof fn law_digits_bound(s: Seq<u8>)
    requires
        all_digits(s),
    ensures
        digits_value(s) < vstd::arithmetic::power::pow(10, s.len()),
    decreases s.len(),
{
    vstd::arithmetic::power::lemma_pow_positive(10, s.len());
    if s.len() > 0 {
        let t = s.drop_last();
        assert(all_digits(t));
        law_digits_bound(t);
        vstd::arithmetic::power::lemma_pow_adds(10, t.len(), 1);
        vstd::arithmetic::power::lemma_pow1(10);
        let p = vstd::arithmetic::power::pow(10, t.len());
        let d = (s.last() - 48) as nat;
        assert(digits_value(t) * 10 + d < p * 10) by (nonlinear_arith)
            requires
                digits_value(t) < p,
                d <= 9,
        ;
    }
}

/// Digits whose number is at most `max` read as that number, with or without a
/// leading `+`; and whatever reads as a number is at most `max` and is spelled by
/// the digits after the optional `+`.
pub proof fn law_parse_unsigned_reads_digits(d: Seq<u8>, max: nat)
    requires
        d.len() > 0,
        all_digits(d),
        digits_value(d) <= max,
    ensures
        parse_unsigned(d, max) == Some(digits_value(d)),
        parse_unsigned(seq![43u8] + d, max) == Some(digits_value(d)),
        parse_i64(d) == if digits_value(d) <= i64::MAX { Some(digits_value(d) as int) } else { None::<int> },
        digits_value(d) <= 0x8000_0000_0000_0000 ==> parse_i64(seq![45u8] + d) == Some(
            -(digits_value(d) as int),
        ),
{
    assert(!(d[0] == 43u8));
    assert((seq![43u8] + d).drop_first() =~= d);
    assert((seq![45u8] + d).drop_first() =~= d);
    assert(!(d[0] == 45u8));
}

/// A number is refused when it is larger than `max`, when a byte after the optional
/// `+` is no digit, or when no digit is there.
pub proof fn law_parse_unsigned_refuses(s: Seq<u8>, max: nat)
    requires
        unsigned_digits(s).len() == 0 || !all_digits(unsigned_digits(s)) || digits_value(
            unsigned_digits(s),
        ) > max,
    ensures
        parse_unsigned(s, max) is None,
{
}

} // verus!

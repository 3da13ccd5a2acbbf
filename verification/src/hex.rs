//! Hexadecimal digits: their values, numbers written with them, and the
//! lower-case rendering of numbers.

use vstd::prelude::*;

verus! {

/// The value of a hexadecimal digit of either case, `None` for any other character.
pub open spec fn digit_value(c: char) -> Option<int> {
    if '0' <= c <= '9' {
        Some(c as int - '0' as int)
    } else if 'a' <= c <= 'f' {
        Some(c as int - 'a' as int + 10)
    } else if 'A' <= c <= 'F' {
        Some(c as int - 'A' as int + 10)
    } else {
        None
    }
}

/// Every character of `s` is a hexadecimal digit.
pub open spec fn all_hex(s: Seq<char>) -> bool {
    forall|i: int| 0 <= i < s.len() ==> (#[trigger] digit_value(s[i])) is Some
}

/// The number that the digits of `s` spell, most significant digit first.
/// A character that is no digit counts as zero.
pub open spec fn hex_value(s: Seq<char>) -> int
    decreases s.len(),
{
    if s.len() == 0 {
        0
    } else {
        16 * hex_value(s.drop_last()) + match digit_value(s.last()) {
            Some(d) => d,
            None => 0,
        }
    }
}

/// The byte that two hexadecimal digits spell.
pub open spec fn pair_value(hi: char, lo: char) -> int {
    16 * digit_value(hi).unwrap() + digit_value(lo).unwrap()
}

/// `s` without a leading `+`.
pub open spec fn unsigned_part(s: Seq<char>) -> Seq<char> {
    if s.len() > 0 && s[0] == '+' {
        s.skip(1)
    } else {
        s
    }
}

/// What a radix-16 reading of `s` as a `u32` gives: an optional `+`, then at
/// least one digit and nothing else, and a value that fits.
pub open spec fn radix16_u32(s: Seq<char>) -> Option<u32> {
    let digits = unsigned_part(s);
    if digits.len() > 0 && all_hex(digits) && hex_value(digits) <= u32::MAX {
        Some(hex_value(digits) as u32)
    } else {
        None
    }
}

/// The lower-case digit for a value below sixteen.
pub open spec fn lower_digit(v: int) -> char {
    if 0 <= v < 10 {
        ('0' as int + v) as char
    } else {
        ('a' as int + v - 10) as char
    }
}

/// Sixteen to the power `e`.
pub open spec fn pow16(e: nat) -> nat
    decreases e,
{
    if e == 0 {
        1
    } else {
        16 * pow16((e - 1) as nat)
    }
}

/// How many digits `n` takes when written with at least six.
pub open spec fn padded_width(n: u32) -> nat {
    if n >= 0x1000_0000 {
        8
    } else if n >= 0x100_0000 {
        7
    } else {
        6
    }
}

/// `n` in lower-case hexadecimal, padded with zeros to six digits.
pub open spec fn lower_hex6(n: u32) -> Seq<char> {
    Seq::new(
        padded_width(n),
        |k: int| lower_digit((n as int / pow16((padded_width(n) - 1 - k) as nat) as int) % 16),
    )
}

/// The two lower-case digits of a byte.
pub open spec fn lower_hex_byte(b: u8) -> Seq<char> {
    seq![lower_digit(b as int / 16), lower_digit(b as int % 16)]
}

/// The value of a hexadecimal digit.
pub fn hex_digit(c: char) -> (r: Option<u8>)
    ensures
        match r {
            Some(v) => digit_value(c) == Some(v as int) && v < 16,
            None => digit_value(c) is None,
        },
{
    let n: u32 = c as u32;
    if c >= '0' && c <= '9' {
        Some((n - '0' as u32) as u8)
    } else if c >= 'a' && c <= 'f' {
        Some((n - 'a' as u32 + 10) as u8)
    } else if c >= 'A' && c <= 'F' {
        Some((n - 'A' as u32 + 10) as u8)
    } else {
        None
    }
}

/// The lower-case digit for `v`.
pub fn to_lower_digit(v: u8) -> (c: char)
    requires
        v < 16,
    ensures
        c == lower_digit(v as int),
        digit_value(c) == Some(v as int),
{
    if v < 10 {
        (48u8 + v) as char
    } else {
        (87u8 + v) as char
    }
}

/// A number is below sixteen to the power of its digit count.
pub proof fn lemma_hex_value_bound(s: Seq<char>)
    ensures
        0 <= hex_value(s) < pow16(s.len()),
    decreases s.len(),
{
    if s.len() > 0 {
        lemma_hex_value_bound(s.drop_last());
    }
}

/// Appending digits never lowers the value of the digits before them.
pub proof fn lemma_hex_value_prefix(s: Seq<char>, k: int)
    requires
        0 <= k <= s.len(),
    ensures
        hex_value(s.take(k)) <= hex_value(s),
    decreases s.len() - k,
{
    if k < s.len() {
        lemma_hex_value_prefix(s, k + 1);
        let t = s.take(k + 1);
        assert(t.drop_last() =~= s.take(k));
        lemma_hex_value_bound(s.take(k));
    } else {
        assert(s.take(k) =~= s);
    }
}

/// Reads the characters of `v` from `start` to `end` as a radix-16 `u32`.
pub fn parse_radix16(v: &Vec<char>, start: usize, end: usize) -> (r: Option<u32>)
    requires
        start <= end <= v.len(),
    ensures
        r == radix16_u32(v@.subrange(start as int, end as int)),
{
    let ghost whole = v@.subrange(start as int, end as int);
    let mut i: usize = start;
    if i < end && v[i] == '+' {
        i = i + 1;
    }
    let first: usize = i;
    let ghost digits = v@.subrange(first as int, end as int);
    proof {
        if first > start {
            assert(whole[0] == '+');
            assert(whole.skip(1) =~= digits);
        } else {
            assert(whole =~= digits);
            if whole.len() > 0 {
                assert(whole[0] == v@[start as int]);
            }
        }
        assert(digits == unsigned_part(whole));
        assert(digits.take(0) =~= Seq::<char>::empty());
    }
    if first == end {
        return None;
    }
    let mut acc: u64 = 0;
    while i < end
        invariant
            first <= i <= end <= v.len(),
            digits == v@.subrange(first as int, end as int),
            whole == v@.subrange(start as int, end as int),
            digits == unsigned_part(whole),
            all_hex(digits.take(i - first)),
            acc == hex_value(digits.take(i - first)),
            acc <= u32::MAX,
        decreases end - i,
    {
        let ghost before = digits.take(i - first);
        let ghost after = digits.take(i - first + 1);
        proof {
            assert(after.drop_last() =~= before);
            assert(after.last() == v@[i as int]);
        }
        match hex_digit(v[i]) {
            None => {
                proof {
                    assert(digit_value(digits[i - first]) is None);
                }
                return None;
            },
            Some(d) => {
                acc = acc * 16 + d as u64;
                proof {
                    assert(acc == hex_value(after));
                    assert forall|k: int| 0 <= k < after.len() implies (#[trigger] digit_value(
                        after[k],
                    )) is Some by {
                        if k < before.len() {
                            assert(after[k] == before[k]);
                        }
                    }
                }
                if acc > u32::MAX as u64 {
                    proof {
                        lemma_hex_value_prefix(digits, i - first + 1);
                    }
                    return None;
                }
            },
        }
        i = i + 1;
    }
    proof {
        assert(digits.take(end - first) =~= digits);
    }
    Some(acc as u32)
}

/// Appends `n` in lower-case hexadecimal, padded with zeros to six digits.
pub fn push_lower_hex6(s: &mut String, n: u32)
    ensures
        final(s)@ == old(s)@ + lower_hex6(n),
{
    let width: usize = if n >= 0x1000_0000 {
        8
    } else if n >= 0x100_0000 {
        7
    } else {
        6
    };
    let mut d: u32 = if width == 8 {
        0x1000_0000
    } else if width == 7 {
        0x100_0000
    } else {
        0x10_0000
    };
    proof {
        reveal_with_fuel(pow16, 9);
    }
    let ghost start = s@;
    let mut k: usize = 0;
    assert(s@ =~= start + lower_hex6(n).take(0));
    while k < width
        invariant
            k <= width,
            width == padded_width(n),
            k < width ==> d == pow16((width - 1 - k) as nat),
            d > 0,
            s@ == start + lower_hex6(n).take(k as int),
        decreases width - k,
    {
        let digit: u8 = ((n / d) % 16) as u8;
        s.push(to_lower_digit(digit));
        proof {
            assert(lower_hex6(n)[k as int] == lower_digit(digit as int));
            assert(s@ =~= start + lower_hex6(n).take(k + 1));
        }
        k = k + 1;
        if k < width {
            d = d / 16;
        }
    }
    assert(lower_hex6(n).take(width as int) =~= lower_hex6(n));
}

} // verus!

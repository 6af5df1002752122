//! Hexadecimal numerals of a fixed width.
use vstd::prelude::*;

verus! {

/// The lower-case hexadecimal digit for `d`.
pub open spec fn digit(d: nat) -> char {
    if d < 10 {
        (d + 48) as char
    } else {
        (d + 87) as char
    }
}

/// Whether `c` is a lower-case hexadecimal digit.
pub open spec fn is_digit(c: char) -> bool {
    '0' <= c <= '9' || 'a' <= c <= 'f'
}

/// The number of numerals of `width` hexadecimal digits.
pub open spec fn limit(width: nat) -> nat
    decreases width,
{
    if width == 0 {
        1
    } else {
        16 * limit((width - 1) as nat)
    }
}

/// The last `width` digits of the lower-case hexadecimal numeral of `n`.
pub open spec fn digits(n: nat, width: nat) -> Seq<char>
    decreases width,
{
    if width == 0 {
        Seq::empty()
    } else {
        digits(n / 16, (width - 1) as nat).push(digit(n % 16))
    }
}

/// A numeral has as many characters as its width, all of them hexadecimal digits.
pub proof fn lemma_shape(n: nat, width: nat)
    ensures
        digits(n, width).len() == width,
        forall|i: int| 0 <= i < width ==> is_digit(#[trigger] digits(n, width)[i]),
    decreases width,
{
    if width > 0 {
        lemma_shape(n / 16, (width - 1) as nat);
    }
}

/// Two numbers below the limit of a width have the same numeral only if they are equal.
pub proof fn lemma_injective(a: nat, b: nat, width: nat)
    requires
        a < limit(width),
        b < limit(width),
        digits(a, width) == digits(b, width),
    ensures
        a == b,
    decreases width,
{
    if width > 0 {
        let rest = (width - 1) as nat;
        assert(digits(a / 16, rest) == digits(a, width).drop_last());
        assert(digits(b / 16, rest) == digits(b, width).drop_last());
        assert(digits(a, width).last() == digit(a % 16));
        assert(digits(b, width).last() == digit(b % 16));
        lemma_injective(a / 16, b / 16, rest);
    }
}

/// The digit at place `i` of a numeral stands for the multiple of the power of 16 that has its
/// place: `0` to `9` for 0 to 9, and `a` to `f` for 10 to 15.
pub proof fn digits_are_those_of_the_number(n: nat, width: nat, i: int)
    requires
        0 <= i < width,
    ensures
        digits(n, width).len() == width,
        ({
            let d = (n as int / vstd::arithmetic::power::pow(16, (width - 1 - i) as nat)) % 16;
            digits(n, width)[i] as int == if d < 10 {
                48 + d
            } else {
                87 + d
            }
        }),
    decreases width,
{
    lemma_shape(n, width);
    reveal(vstd::arithmetic::power::pow);
    if i < width - 1 {
        digits_are_those_of_the_number(n / 16, (width - 1) as nat, i);
        let p = vstd::arithmetic::power::pow(16, (width - 2 - i) as nat);
        vstd::arithmetic::power::lemma_pow_positive(16, (width - 2 - i) as nat);
        vstd::arithmetic::div_mod::lemma_div_denominator(n as int, 16, p);
    }
}

/// There are as many numerals of a width as the power of 16 to that width.
pub proof fn limit_is_a_power(width: nat)
    ensures
        limit(width) == vstd::arithmetic::power::pow(16, width),
    decreases width,
{
    reveal(vstd::arithmetic::power::pow);
    if width > 0 {
        limit_is_a_power((width - 1) as nat);
    }
}

/// The limits of the widths in use.
pub proof fn lemma_limits()
    ensures
        limit(8) == 0x1_0000_0000,
        limit(16) == 0x1_0000_0000_0000_0000,
        limit(32) == 0x1_0000_0000_0000_0000_0000_0000_0000_0000,
{
    reveal_with_fuel(limit, 33);
}

/// Appends the last `width` hexadecimal digits of `n` to `out`.
pub fn push_digits(out: &mut String, n: u64, width: u32)
    ensures
        final(out)@ == old(out)@ + digits(n as nat, width as nat),
    decreases width,
{
    if width > 0 {
        push_digits(out, n / 16, width - 1);
        let d: u8 = (n % 16) as u8;
        if d < 10 {
            out.push((d + 48) as char);
        } else {
            out.push((d + 87) as char);
        }
    }
}

/// The value of a hexadecimal digit.
fn value_of(c: char) -> (res: Option<u64>)
    ensures
        res matches Some(d) ==> d < 16 && digit(d as nat) == c,
        res is None <==> !is_digit(c),
{
    if '0' <= c && c <= '9' {
        Some(c as u64 - 48)
    } else if 'a' <= c && c <= 'f' {
        Some(c as u64 - 87)
    } else {
        None
    }
}

/// Reads the numeral of `width` hexadecimal digits that stands at `pos`, if there is one.
pub fn read_digits(chars: &Vec<char>, pos: usize, width: usize) -> (res: Option<u64>)
    requires
        pos <= chars.len(),
        width <= 16,
    ensures
        match res {
            Some(n) => {
                &&& pos + width <= chars.len()
                &&& n < limit(width as nat)
                &&& chars@.subrange(pos as int, pos + width) == digits(n as nat, width as nat)
            },
            None => forall|n: nat|
                pos + width <= chars.len() ==> chars@.subrange(pos as int, pos + width)
                    != #[trigger] digits(n, width as nat),
        },
{
    if width > chars.len() - pos {
        return None;
    }
    let mut value: u64 = 0;
    let mut k: usize = 0;
    while k < width
        invariant
            k <= width <= 16,
            pos + width <= chars.len(),
            value < limit(k as nat),
            chars@.subrange(pos as int, pos + k) == digits(value as nat, k as nat),
        decreases width - k,
    {
        match value_of(chars[pos + k]) {
            None => {
                assert forall|n: nat|
                    chars@.subrange(pos as int, pos + width) != #[trigger] digits(
                        n,
                        width as nat,
                    ) by {
                    lemma_shape(n, width as nat);
                    assert(chars@.subrange(pos as int, pos + width)[k as int] == chars@[pos + k]);
                }
                return None;
            },
            Some(d) => {
                proof {
                    lemma_limit_grows((k + 1) as nat, 16);
                    lemma_limits();
                    assert(chars@.subrange(pos as int, pos + k + 1) == chars@.subrange(
                        pos as int,
                        pos + k,
                    ).push(chars@[pos + k]));
                    assert((16 * value + d) / 16 == value);
                    assert((16 * value + d) % 16 == d);
                }
                value = 16 * value + d;
                k += 1;
            },
        }
    }
    Some(value)
}

/// A wider numeral has a higher limit.
proof fn lemma_limit_grows(a: nat, b: nat)
    requires
        a <= b,
    ensures
        limit(a) <= limit(b),
    decreases b,
{
    if a < b {
        lemma_limit_grows(a, (b - 1) as nat);
    }
}

} // verus!

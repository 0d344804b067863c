//! Writing numbers as digit strings, and appending characters to a `String`.
use vstd::prelude::*;

verus! {

/// The character for digit `d` (below 16); `upper` picks `A`-`F` over `a`-`f`.
pub open spec fn digit_char(d: nat, upper: bool) -> char {
    if d < 10 {
        ((48 + d) as u8) as char
    } else if upper {
        ((55 + d) as u8) as char
    } else {
        ((87 + d) as u8) as char
    }
}

/// `n` written in base `base`, most significant digit first, without leading zeros.
pub open spec fn radix(n: nat, base: nat, upper: bool) -> Seq<char>
    decreases n,
    via radix_decreases
{
    if base < 2 || n < base {
        seq![digit_char(n, upper)]
    } else {
        radix(n / base, base, upper).push(digit_char(n % base, upper))
    }
}

#[via_fn]
proof fn radix_decreases(n: nat, base: nat, upper: bool) {
    if !(base < 2 || n < base) {
        assert(n / base < n) by (nonlinear_arith)
            requires
                base >= 2,
                n >= base,
        ;
    }
}

/// `n` in decimal.
pub open spec fn decimal(n: nat) -> Seq<char> {
    radix(n, 10, false)
}

/// Relies on std's `String::push`: the character is appended.
#[verifier::external_body]
pub(crate) fn push_char(out: &mut String, c: char)
    ensures
        final(out)@ == old(out)@.push(c),
{
    out.push(c)
}

/// Appends `s` to `out`.
pub fn push_str(out: &mut String, s: &str)
    ensures
        final(out)@ == old(out)@ + s@,
{
    out.append(s);
}

/// The digit character for `d`.
pub fn digit(d: u64, upper: bool) -> (c: char)
    requires
        d < 16,
    ensures
        c == digit_char(d as nat, upper),
{
    if d < 10 {
        (48 + d as u8) as char
    } else if upper {
        (55 + d as u8) as char
    } else {
        (87 + d as u8) as char
    }
}

/// Appends `n` written in base `base`.
pub fn push_radix(out: &mut String, n: u64, base: u64, upper: bool)
    requires
        2 <= base <= 16,
    ensures
        final(out)@ == old(out)@ + radix(n as nat, base as nat, upper),
    decreases n,
{
    if n >= base {
        assert(n / base < n) by (nonlinear_arith)
            requires
                base >= 2,
                n >= base,
        ;
        push_radix(out, n / base, base, upper);
    }
    push_char(out, digit(n % base, upper));
    proof {
        if n < base {
            vstd::arithmetic::div_mod::lemma_small_mod(n as nat, base as nat);
        }
    }
    assert(final(out)@ =~= old(out)@ + radix(n as nat, base as nat, upper));
}

} // verus!

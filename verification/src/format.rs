//! Rendering numbers as text: decimal, and fixed-width lowercase hex.

use crate::encoding::hex_digit;
use crate::text::push_char;
use vstd::prelude::*;

verus! {

/// The decimal digits of `n`, most significant first, without leading
/// zeros (`0` is `"0"`).
pub open spec fn spec_decimal(n: nat) -> Seq<char>
    decreases n,
{
    if n < 10 {
        seq![hex_digit(n as int)]
    } else {
        spec_decimal(n / 10).push(hex_digit((n % 10) as int))
    }
}

/// The last `width` lowercase hex digits of `n`, zero-padded: for
/// `n < 16^width` this is `n` in hex, padded to `width` digits.
pub open spec fn spec_hex_fixed(n: nat, width: nat) -> Seq<char>
    decreases width,
{
    if width == 0 {
        Seq::empty()
    } else {
        spec_hex_fixed(n / 16, (width - 1) as nat).push(hex_digit((n % 16) as int))
    }
}

/// The character of a digit below 16.
fn digit_char(d: u8) -> (c: char)
    requires
        d < 16,
    ensures
        c == hex_digit(d as int),
{
    if d < 10 {
        (48u8 + d) as char
    } else {
        (87u8 + d) as char
    }
}

/// Append the decimal digits of `n`.
fn push_decimal(out: &mut String, n: u128)
    ensures
        final(out)@ == old(out)@ + spec_decimal(n as nat),
    decreases n,
{
    if n >= 10 {
        push_decimal(out, n / 10);
    }
    let d = (n % 10) as u8;
    push_char(out, digit_char(d));
    assert(final(out)@ =~= old(out)@ + spec_decimal(n as nat));
}

/// `n` in decimal, as `format!("{}", n)` renders it.
pub fn decimal(n: u128) -> (s: String)
    ensures
        s@ == spec_decimal(n as nat),
{
    let mut s = String::new();
    push_decimal(&mut s, n);
    assert(s@ =~= spec_decimal(n as nat));
    s
}

/// Append the last `width` hex digits of `n`.
fn push_hex_fixed(out: &mut String, n: u64, width: u32)
    ensures
        final(out)@ == old(out)@ + spec_hex_fixed(n as nat, width as nat),
    decreases width,
{
    if width > 0 {
        push_hex_fixed(out, n / 16, width - 1);
        let d = (n % 16) as u8;
        push_char(out, digit_char(d));
    }
    assert(final(out)@ =~= old(out)@ + spec_hex_fixed(n as nat, width as nat));
}

/// `n` as 16 lowercase hex digits, as `format!("{:016x}", n)` renders it.
pub fn hex16(n: u64) -> (s: String)
    ensures
        s@ == spec_hex_fixed(n as nat, 16),
{
    let mut s = String::new();
    push_hex_fixed(&mut s, n, 16);
    assert(s@ =~= spec_hex_fixed(n as nat, 16));
    s
}

} // verus!

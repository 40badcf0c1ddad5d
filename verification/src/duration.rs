//! Rendering a worked duration as `HH:MM`: total whole hours (no modulo, so
//! they may exceed 24) and the remaining whole minutes, both zero-padded to
//! at least two digits. Seconds are tracked for precision but not shown.
use crate::time::digit_byte;
use crate::time::COLON;
use crate::time::DIGIT_ZERO;
use vstd::arithmetic::div_mod::lemma_div_denominator;
use vstd::arithmetic::div_mod::lemma_fundamental_div_mod;
use vstd::arithmetic::div_mod::lemma_mod_bound;
use vstd::prelude::*;

verus! {

/// The decimal digits of a nonnegative number, most significant first, as
/// ASCII bytes, without padding.
pub open spec fn decimal_rep(n: int) -> Seq<u8>
    decreases n,
{
    if n < 10 {
        seq![digit_byte(n)]
    } else {
        decimal_rep(n / 10) + seq![digit_byte(n % 10)]
    }
}

/// The decimal digits of a nonnegative number, zero-padded on the left to at
/// least two digits.
pub open spec fn padded_decimal(n: int) -> Seq<u8> {
    if n < 10 {
        seq![DIGIT_ZERO] + decimal_rep(n)
    } else {
        decimal_rep(n)
    }
}

/// The `HH:MM` rendering of a duration given in seconds: the total whole
/// hours, then the whole minutes that remain after subtracting those hours.
pub open spec fn duration_display(secs: int) -> Seq<u8> {
    padded_decimal(secs / 3600) + seq![COLON] + padded_decimal(secs / 60 - (secs / 3600) * 60)
}

/// The decimal digits of `n`, most significant first, without padding.
fn decimal_bytes(n: u128) -> (r: Vec<u8>)
    ensures
        r@ == decimal_rep(n as int),
    decreases n,
{
    if n < 10 {
        let mut v: Vec<u8> = Vec::new();
        v.push(n as u8 + DIGIT_ZERO);
        proof {
            assert(v@ =~= decimal_rep(n as int));
        }
        v
    } else {
        let mut v = decimal_bytes(n / 10);
        v.push((n % 10) as u8 + DIGIT_ZERO);
        proof {
            assert(v@ =~= decimal_rep(n as int));
        }
        v
    }
}

/// The decimal digits of `n`, zero-padded on the left to at least two.
fn padded_decimal_bytes(n: u128) -> (r: Vec<u8>)
    ensures
        r@ == padded_decimal(n as int),
{
    if n < 10 {
        let mut v: Vec<u8> = Vec::new();
        v.push(DIGIT_ZERO);
        v.push(n as u8 + DIGIT_ZERO);
        proof {
            assert(v@ =~= padded_decimal(n as int));
        }
        v
    } else {
        decimal_bytes(n)
    }
}

/// Renders a duration, given as a count of seconds, as `HH:MM`: whole hours
/// (not reduced modulo 24), a colon, and the remaining whole minutes, both
/// zero-padded to at least two digits.
pub fn format_duration(total_secs: u128) -> (r: Vec<u8>)
    ensures
        r@ == duration_display(total_secs as int),
{
    proof {
        lemma_div_denominator(total_secs as int, 60, 60);
        lemma_fundamental_div_mod(total_secs as int / 60, 60);
        lemma_mod_bound(total_secs as int / 60, 60);
        assert(total_secs as int / 3600 == (total_secs as int / 60) / 60);
    }
    let total_minutes = total_secs / 60;
    let hours = total_secs / 3600;
    let minutes = total_minutes - hours * 60;
    let mut v = padded_decimal_bytes(hours);
    v.push(COLON);
    let mut tail = padded_decimal_bytes(minutes);
    v.append(&mut tail);
    proof {
        assert(v@ =~= duration_display(total_secs as int));
    }
    v
}

} // verus!

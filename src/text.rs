use vstd::prelude::*;

use crate::decimal::decimal;
use crate::expiration::Expiration;

verus! {

/// The decimal digits of `n` as characters.
pub open spec fn decimal_text(n: nat) -> Seq<char> {
    decimal(n).map_values(|c: u8| c as char)
}

/// How a deadline reads to a person: `expiration height: N`,
/// `expiration time: N` or `expiration: never`.
pub open spec fn description(e: Expiration) -> Seq<char> {
    match e {
        Expiration::AtHeight(h) => "expiration height: "@ + decimal_text(h as nat),
        Expiration::AtTime(t) => "expiration time: "@ + decimal_text(t as nat),
        Expiration::Never => "expiration: never"@,
    }
}

/// Deadlines of different variants read differently, so that a reader of
/// the text can tell them apart.
pub proof fn lemma_variants_read_differently(e1: Expiration, e2: Expiration)
    requires
        e1 is AtHeight != e2 is AtHeight || e1 is AtTime != e2 is AtTime,
    ensures
        description(e1) != description(e2),
{
    reveal_strlit("expiration height: ");
    reveal_strlit("expiration time: ");
    reveal_strlit("expiration: never");
    assert(description(e1)[10] != description(e2)[10] || description(e1)[11] != description(e2)[11]);
}

/// The one-character text of the digit `d`.
fn digit_text(d: u64) -> (r: &'static str)
    requires
        d < 10,
    ensures
        r@ == seq![(d + 48) as char],
{
    proof {
        reveal_strlit("0");
        reveal_strlit("1");
        reveal_strlit("2");
        reveal_strlit("3");
        reveal_strlit("4");
        reveal_strlit("5");
        reveal_strlit("6");
        reveal_strlit("7");
        reveal_strlit("8");
        reveal_strlit("9");
    }
    match d {
        0 => "0",
        1 => "1",
        2 => "2",
        3 => "3",
        4 => "4",
        5 => "5",
        6 => "6",
        7 => "7",
        8 => "8",
        _ => "9",
    }
}

/// Appends the decimal digits of `n` to `out`.
fn push_decimal_text(out: &mut String, n: u64)
    ensures
        final(out)@ == old(out)@ + decimal_text(n as nat),
    decreases n,
{
    if n >= 10 {
        push_decimal_text(out, n / 10);
    }
    out.append(digit_text(n % 10));
    proof {
        let c = seq![((n % 10) + 48) as char];
        if n >= 10 {
            let p = decimal((n / 10) as nat);
            assert(decimal(n as nat).map_values(|c: u8| c as char) =~= p.map_values(|c: u8| c as char) + c);
            assert(final(out)@ =~= old(out)@ + decimal_text(n as nat));
        } else {
            assert(decimal_text(n as nat) =~= c);
        }
    }
}

impl Expiration {
    /// The deadline as a person reads it, one distinct form per variant:
    /// `expiration height: N`, `expiration time: N` or `expiration: never`.
    pub fn describe(&self) -> (r: String)
        ensures
            r@ == description(*self),
    {
        match self {
            Expiration::AtHeight(h) => {
                let mut out = String::from_str("expiration height: ");
                push_decimal_text(&mut out, *h);
                out
            },
            Expiration::AtTime(t) => {
                let mut out = String::from_str("expiration time: ");
                push_decimal_text(&mut out, *t);
                out
            },
            Expiration::Never => String::from_str("expiration: never"),
        }
    }
}

} // verus!

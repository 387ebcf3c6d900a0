use vstd::prelude::*;

use crate::decimal::{decimal, lemma_decimal_canonical, parse_decimal, push_decimal};
use crate::expiration::Expiration;

verus! {

/// The text `{"at_height":` in ASCII.
pub open spec fn height_key() -> Seq<u8> {
    seq![123u8, 34, 97, 116, 95, 104, 101, 105, 103, 104, 116, 34, 58]
}

/// The text `{"at_time":` in ASCII.
pub open spec fn time_key() -> Seq<u8> {
    seq![123u8, 34, 97, 116, 95, 116, 105, 109, 101, 34, 58]
}

/// The text `"never"` in ASCII.
pub open spec fn never_token() -> Seq<u8> {
    seq![34u8, 110, 101, 118, 101, 114, 34]
}

/// The ASCII code of `}`.
pub const CLOSE_BRACE: u8 = 125;

/// The stored form of a deadline, as JSON text: `{"at_height":<digits>}`,
/// `{"at_time":<digits>}` or `"never"`, with no white space and the number
/// in decimal without leading zeros.
pub open spec fn wire(e: Expiration) -> Seq<u8> {
    match e {
        Expiration::AtHeight(h) => height_key() + decimal(h as nat) + seq![CLOSE_BRACE],
        Expiration::AtTime(t) => time_key() + decimal(t as nat) + seq![CLOSE_BRACE],
        Expiration::Never => never_token(),
    }
}

/// The deadline whose stored form is `s`, if there is one.
pub open spec fn read_wire(s: Seq<u8>) -> Option<Expiration> {
    if exists|e: Expiration| wire(e) == s {
        Some(choose|e: Expiration| wire(e) == s)
    } else {
        None
    }
}

fn height_key_bytes() -> (r: Vec<u8>)
    ensures
        r@ == height_key(),
{
    let r: Vec<u8> = vec![123u8, 34, 97, 116, 95, 104, 101, 105, 103, 104, 116, 34, 58];
    assert(r@ =~= height_key());
    r
}

fn time_key_bytes() -> (r: Vec<u8>)
    ensures
        r@ == time_key(),
{
    let r: Vec<u8> = vec![123u8, 34, 97, 116, 95, 116, 105, 109, 101, 34, 58];
    assert(r@ =~= time_key());
    r
}

fn never_bytes() -> (r: Vec<u8>)
    ensures
        r@ == never_token(),
{
    let r: Vec<u8> = vec![34u8, 110, 101, 118, 101, 114, 34];
    assert(r@ =~= never_token());
    r
}

/// The parts of each stored form: its key, its digits, and its closing brace.
proof fn lemma_wire_shape(e: Expiration)
    ensures
        match e {
            Expiration::AtHeight(h) => {
                &&& wire(e).len() == 14 + decimal(h as nat).len()
                &&& wire(e).subrange(0, 13) == height_key()
                &&& wire(e).subrange(13, wire(e).len() - 1) == decimal(h as nat)
                &&& wire(e)[wire(e).len() - 1] == CLOSE_BRACE
                &&& wire(e)[5] == 104
            },
            Expiration::AtTime(t) => {
                &&& wire(e).len() == 12 + decimal(t as nat).len()
                &&& wire(e).subrange(0, 11) == time_key()
                &&& wire(e).subrange(11, wire(e).len() - 1) == decimal(t as nat)
                &&& wire(e)[wire(e).len() - 1] == CLOSE_BRACE
                &&& wire(e)[5] == 116
            },
            Expiration::Never => wire(e) == never_token(),
        },
        wire(e).len() >= 7,
        wire(e)[0] == 123 <==> e != Expiration::Never,
{
    match e {
        Expiration::AtHeight(h) => {
            lemma_decimal_canonical(h as nat);
            let s = wire(e);
            assert(s.subrange(0, 13) =~= height_key());
            assert(s.subrange(13, s.len() - 1) =~= decimal(h as nat));
        },
        Expiration::AtTime(t) => {
            lemma_decimal_canonical(t as nat);
            let s = wire(e);
            assert(s.subrange(0, 11) =~= time_key());
            assert(s.subrange(11, s.len() - 1) =~= decimal(t as nat));
        },
        Expiration::Never => {},
    }
}

/// No two deadlines share a stored form.
pub proof fn lemma_wire_injective(e1: Expiration, e2: Expiration)
    requires
        wire(e1) == wire(e2),
    ensures
        e1 == e2,
{
    lemma_wire_shape(e1);
    lemma_wire_shape(e2);
    match (e1, e2) {
        (Expiration::AtHeight(x), Expiration::AtHeight(y)) => {
            lemma_decimal_canonical(x as nat);
            lemma_decimal_canonical(y as nat);
        },
        (Expiration::AtTime(x), Expiration::AtTime(y)) => {
            lemma_decimal_canonical(x as nat);
            lemma_decimal_canonical(y as nat);
        },
        _ => {},
    }
}

/// Reading back the stored form of a deadline gives that deadline, for
/// every variant and every payload, zero and `u64::MAX` included.
pub proof fn lemma_round_trip(e: Expiration)
    ensures
        read_wire(wire(e)) == Some(e),
{
    assert(exists|x: Expiration| wire(x) == wire(e));
    let c = choose|x: Expiration| wire(x) == wire(e);
    lemma_wire_injective(c, e);
}

/// Whether `key` stands in `b` from index `i` on.
fn matches_at(b: &[u8], i: usize, key: &[u8]) -> (r: bool)
    requires
        i <= b@.len(),
    ensures
        r == (i + key@.len() <= b@.len() && b@.subrange(i as int, i + key@.len()) == key@),
{
    let n = b.len();
    if key.len() > n - i {
        return false;
    }
    let mut k: usize = 0;
    while k < key.len()
        invariant
            k <= key@.len(),
            i + key@.len() <= b@.len(),
            n == b@.len(),
            forall|j: int| 0 <= j < k ==> b@[i + j] == key@[j],
        decreases key@.len() - k,
    {
        if b[i + k] != key[k] {
            assert(b@.subrange(i as int, i + key@.len())[k as int] != key@[k as int]);
            return false;
        }
        k = k + 1;
    }
    assert(b@.subrange(i as int, i + key@.len()) =~= key@);
    true
}

impl Expiration {
    /// The stored form of the deadline, as JSON text: `{"at_height":N}`,
    /// `{"at_time":N}` or `"never"`.
    pub fn encode(&self) -> (r: Vec<u8>)
        ensures
            r@ == wire(*self),
    {
        match self {
            Expiration::AtHeight(h) => {
                let mut out = height_key_bytes();
                push_decimal(&mut out, *h);
                out.push(CLOSE_BRACE);
                assert(out@ =~= wire(*self));
                out
            },
            Expiration::AtTime(t) => {
                let mut out = time_key_bytes();
                push_decimal(&mut out, *t);
                out.push(CLOSE_BRACE);
                assert(out@ =~= wire(*self));
                out
            },
            Expiration::Never => never_bytes(),
        }
    }

    /// Reads a deadline from its stored form, as `encode` writes it; `None`
    /// for any other text.
    pub fn decode(b: &[u8]) -> (r: Option<Expiration>)
        ensures
            r == read_wire(b@),
    {
        let n = b.len();
        let height = height_key_bytes();
        let time = time_key_bytes();
        let never = never_bytes();
        if matches_at(b, 0, height.as_slice()) && n >= 14 && b[n - 1] == CLOSE_BRACE {
            match parse_decimal(b, 13, n - 1) {
                Some(h) => {
                    assert(b@ =~= wire(Expiration::AtHeight(h)));
                    proof {
                        lemma_round_trip(Expiration::AtHeight(h));
                    }
                    return Some(Expiration::AtHeight(h));
                },
                None => {
                    assert forall|e: Expiration| wire(e) != b@ by {
                        lemma_wire_shape(e);
                        assert(b@.subrange(0, 13)[5] == b@[5]);
                    }
                    return None;
                },
            }
        }
        if matches_at(b, 0, time.as_slice()) && n >= 12 && b[n - 1] == CLOSE_BRACE {
            match parse_decimal(b, 11, n - 1) {
                Some(t) => {
                    assert(b@ =~= wire(Expiration::AtTime(t)));
                    proof {
                        lemma_round_trip(Expiration::AtTime(t));
                    }
                    return Some(Expiration::AtTime(t));
                },
                None => {
                    assert forall|e: Expiration| wire(e) != b@ by {
                        lemma_wire_shape(e);
                        assert(b@.subrange(0, 11)[5] == b@[5]);
                    }
                    return None;
                },
            }
        }
        if n == 7 && matches_at(b, 0, never.as_slice()) {
            assert(b@ =~= never_token());
            proof {
                lemma_round_trip(Expiration::Never);
            }
            return Some(Expiration::Never);
        }
        assert forall|e: Expiration| wire(e) != b@ by {
            lemma_wire_shape(e);
            if wire(e) == b@ {
                match e {
                    Expiration::AtHeight(h) => {},
                    Expiration::AtTime(t) => {},
                    Expiration::Never => {
                        assert(b@.subrange(0, 7) =~= b@);
                    },
                }
            }
        }
        None
    }
}

} // verus!

use vstd::prelude::*;

verus! {

/// Whether `c` is one of the ASCII digits `0` to `9`.
pub open spec fn is_digit(c: u8) -> bool {
    48 <= c <= 57
}

/// The ASCII digit for `d`, where `d < 10`.
pub open spec fn digit_byte(d: nat) -> u8 {
    (d + 48) as u8
}

/// The decimal digits of `n` in ASCII, most significant first, with no
/// leading zero.
pub open spec fn decimal(n: nat) -> Seq<u8>
    decreases n,
{
    if n < 10 {
        seq![digit_byte(n)]
    } else {
        decimal(n / 10).push(digit_byte(n % 10))
    }
}

/// The number that a run of ASCII digits stands for.
pub open spec fn digits_value(s: Seq<u8>) -> nat
    decreases s.len(),
{
    if s.len() == 0 {
        0
    } else {
        digits_value(s.drop_last()) * 10 + (s.last() - 48) as nat
    }
}

/// A run of ASCII digits as `decimal` writes it: not empty, and with no
/// leading zero unless it is the single digit `0`.
pub open spec fn is_canonical(s: Seq<u8>) -> bool {
    &&& s.len() >= 1
    &&& forall|i: int| 0 <= i < s.len() ==> is_digit(#[trigger] s[i])
    &&& s.len() > 1 ==> s[0] != 48
}

/// `decimal` writes canonical digits, which stand for the number written.
pub proof fn lemma_decimal_canonical(n: nat)
    ensures
        is_canonical(decimal(n)),
        digits_value(decimal(n)) == n,
        n >= 1 ==> decimal(n)[0] != 48,
    decreases n,
{
    if n < 10 {
        assert(decimal(n).drop_last() =~= Seq::<u8>::empty());
        assert(digits_value(Seq::<u8>::empty()) == 0);
    } else {
        lemma_decimal_canonical(n / 10);
        let p = decimal(n / 10);
        assert(decimal(n).drop_last() =~= p);
        assert(n == (n / 10) * 10 + n % 10) by (nonlinear_arith);
        assert(digits_value(decimal(n)) == digits_value(p) * 10 + n % 10);
        assert(decimal(n)[0] == p[0]);
        assert forall|i: int| 0 <= i < decimal(n).len() implies is_digit(#[trigger] decimal(n)[i]) by {
            if i < p.len() {
                assert(decimal(n)[i] == p[i]);
            }
        }
    }
}

/// Canonical digits are what `decimal` writes for the number they stand for.
pub proof fn lemma_canonical_decimal(s: Seq<u8>)
    requires
        is_canonical(s),
    ensures
        decimal(digits_value(s)) == s,
        s.len() > 1 ==> digits_value(s) >= 10,
    decreases s.len(),
{
    let p = s.drop_last();
    let d = (s.last() - 48) as nat;
    assert(is_digit(s[s.len() - 1]));
    if s.len() == 1 {
        assert(p =~= Seq::<u8>::empty());
        assert(digits_value(p) == 0);
        assert(digits_value(s) == d);
        assert(s =~= seq![s[0]]);
        assert(decimal(digits_value(s)) =~= s);
    } else {
        assert(p[0] == s[0]);
        assert forall|i: int| 0 <= i < p.len() implies is_digit(#[trigger] p[i]) by {
            assert(p[i] == s[i]);
        }
        lemma_canonical_decimal(p);
        let v = digits_value(s);
        let pv = digits_value(p);
        if p.len() == 1 {
            assert(p =~= seq![p[0]]);
            assert(p.drop_last() =~= Seq::<u8>::empty());
        }
        assert(pv >= 1);
        assert(v == pv * 10 + d);
        assert(v / 10 == pv && v % 10 == d) by (nonlinear_arith)
            requires
                v == pv * 10 + d,
                d < 10,
        ;
        assert(decimal(v) =~= s);
    }
}

/// The digits of a prefix stand for no more than the whole run does.
pub proof fn lemma_prefix_value_le(s: Seq<u8>, j: int)
    requires
        0 <= j <= s.len(),
        forall|i: int| 0 <= i < s.len() ==> is_digit(#[trigger] s[i]),
    ensures
        digits_value(s.take(j)) <= digits_value(s),
    decreases s.len(),
{
    if j < s.len() {
        let p = s.drop_last();
        assert forall|i: int| 0 <= i < p.len() implies is_digit(#[trigger] p[i]) by {
            assert(p[i] == s[i]);
        }
        lemma_prefix_value_le(p, j);
        assert(p.take(j) =~= s.take(j));
    } else {
        assert(s.take(j) =~= s);
    }
}

/// Appends the decimal digits of `n` to `out`.
pub fn push_decimal(out: &mut Vec<u8>, n: u64)
    ensures
        final(out)@ == old(out)@ + decimal(n as nat),
    decreases n,
{
    if n >= 10 {
        push_decimal(out, n / 10);
    }
    out.push((n % 10) as u8 + 48);
    proof {
        if n >= 10 {
            assert(old(out)@ + decimal(n as nat) =~= old(out)@ + decimal((n / 10) as nat) + seq![
                digit_byte((n % 10) as nat),
            ]);
        } else {
            assert(old(out)@ + decimal(n as nat) =~= old(out)@.push(digit_byte(n as nat)));
        }
    }
}

/// Reads `b[start..end]` as the decimal digits of a `u64`. Only digits as
/// `push_decimal` writes them are accepted: at least one, no leading zero,
/// and a value that fits in a `u64`.
pub fn parse_decimal(b: &[u8], start: usize, end: usize) -> (r: Option<u64>)
    requires
        start <= end <= b@.len(),
    ensures
        match r {
            Some(v) => b@.subrange(start as int, end as int) == decimal(v as nat),
            None => forall|n: u64| b@.subrange(start as int, end as int) != decimal(n as nat),
        },
{
    let ghost s = b@.subrange(start as int, end as int);
    proof {
        assert forall|n: u64| is_canonical(#[trigger] decimal(n as nat)) && digits_value(decimal(n as nat)) == n by {
            lemma_decimal_canonical(n as nat);
        }
    }
    if start == end {
        return None;
    }
    if end - start > 1 && b[start] == 48 {
        assert(s[0] == b@[start as int]);
        return None;
    }
    let mut acc: u64 = 0;
    let mut i: usize = start;
    while i < end
        invariant
            start <= i <= end <= b@.len(),
            s == b@.subrange(start as int, end as int),
            forall|k: int| start <= k < i ==> is_digit(#[trigger] b@[k]),
            acc == digits_value(b@.subrange(start as int, i as int)),
            forall|n: u64| is_canonical(#[trigger] decimal(n as nat)) && digits_value(decimal(n as nat)) == n,
        decreases end - i,
    {
        let c = b[i];
        if c < 48 || c > 57 {
            assert(s[i - start] == c);
            assert(!is_digit(c));
            return None;
        }
        let ghost prefix = b@.subrange(start as int, i + 1);
        assert(prefix.drop_last() =~= b@.subrange(start as int, i as int));
        assert(prefix =~= s.take(i + 1 - start));
        let ten = match acc.checked_mul(10) {
            Some(t) => t,
            None => {
                proof {
                    assert forall|n: u64| s != decimal(n as nat) by {
                        if s == decimal(n as nat) {
                            assert(is_canonical(s));
                            lemma_prefix_value_le(s, i + 1 - start);
                        }
                    }
                }
                return None;
            },
        };
        acc = match ten.checked_add((c - 48) as u64) {
            Some(v) => v,
            None => {
                proof {
                    assert forall|n: u64| s != decimal(n as nat) by {
                        if s == decimal(n as nat) {
                            assert(is_canonical(s));
                            lemma_prefix_value_le(s, i + 1 - start);
                        }
                    }
                }
                return None;
            },
        };
        i = i + 1;
    }
    proof {
        assert(s =~= b@.subrange(start as int, i as int));
        assert forall|k: int| 0 <= k < s.len() implies is_digit(#[trigger] s[k]) by {
            assert(s[k] == b@[start + k]);
        }
        if s.len() > 1 {
            assert(s[0] == b@[start as int]);
        }
        lemma_canonical_decimal(s);
    }
    Some(acc)
}

} // verus!

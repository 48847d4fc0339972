//! Decimal tokens: what a token denotes as an unsigned number, and
//! executable parsers proved against that model.
//!
//! A numeric token is an optional leading plus sign followed by one or
//! more ASCII digits.  `parse_u64_token` is exact and reports overflow;
//! `parse_count` is total and reads a malformed token as zero and an
//! oversized one as the cap, as the fragmentation sums need.

use vstd::prelude::*;

verus! {

use crate::arith::cap64;
use crate::arith::lemma_cap_add_cap;
use crate::arith::lemma_cap_mul_cap;
use crate::arith::sat_add64;
use crate::arith::sat_mul64;

/// An ASCII decimal digit.
pub open spec fn is_digit(b: u8) -> bool {
    48 <= b <= 57
}

/// The value of one digit byte.
pub open spec fn digit_val(b: u8) -> nat
    recommends
        is_digit(b),
{
    (b - 48) as nat
}

/// Every byte of `s` is a digit.
pub open spec fn all_digits(s: Seq<u8>) -> bool {
    forall|i: int| 0 <= i < s.len() ==> is_digit(#[trigger] s[i])
}

/// The decimal value of a digit run.
pub open spec fn digits_val(s: Seq<u8>) -> nat
    decreases s.len(),
{
    if s.len() == 0 {
        0
    } else {
        digits_val(s.drop_last()) * 10 + digit_val(s.last())
    }
}

/// The token without its optional leading plus sign.
pub open spec fn digits_part(s: Seq<u8>) -> Seq<u8> {
    if s.len() > 0 && s[0] == 43 {
        s.drop_first()
    } else {
        s
    }
}

/// The token is an unsigned decimal number.
pub open spec fn is_uint_token(s: Seq<u8>) -> bool {
    digits_part(s).len() > 0 && all_digits(digits_part(s))
}

/// The number a numeric token denotes.
pub open spec fn uint_val(s: Seq<u8>) -> nat {
    digits_val(digits_part(s))
}

/// A free-block count read from one table token: its number when the
/// token is numeric, zero otherwise.
pub open spec fn token_count(t: Seq<u8>) -> nat {
    if is_uint_token(t) {
        uint_val(t)
    } else {
        0
    }
}

/// A digit run is worth at least any of its prefixes.
proof fn lemma_digits_val_prefix(s: Seq<u8>, i: int)
    requires
        0 <= i <= s.len(),
    ensures
        digits_val(s.subrange(0, i)) <= digits_val(s),
    decreases s.len() - i,
{
    if i < s.len() {
        assert(s.subrange(0, i + 1).drop_last() =~= s.subrange(0, i));
        lemma_digits_val_prefix(s, i + 1);
    } else {
        assert(s.subrange(0, i) =~= s);
    }
}

/// Parses the digit run `t[from..to]` as a `u64`, exactly: `Some` holds
/// its value if and only if the range is a nonempty digit run whose
/// value fits.
pub fn parse_digits(t: &[u8], from: usize, to: usize) -> (r: Option<u64>)
    requires
        from <= to <= t@.len(),
    ensures
        ({
            let d = t@.subrange(from as int, to as int);
            match r {
                Some(v) => d.len() > 0 && all_digits(d) && v as nat == digits_val(d),
                None => d.len() == 0 || !all_digits(d) || digits_val(d) > u64::MAX,
            }
        }),
{
    if from == to {
        return None;
    }
    let ghost whole = t@.subrange(from as int, to as int);
    let mut acc: u64 = 0;
    let mut i: usize = from;
    proof {
        assert(t@.subrange(from as int, from as int) =~= Seq::<u8>::empty());
    }
    while i < to
        invariant
            from <= i <= to <= t@.len(),
            whole == t@.subrange(from as int, to as int),
            all_digits(t@.subrange(from as int, i as int)),
            acc as nat == digits_val(t@.subrange(from as int, i as int)),
        decreases to - i,
    {
        let b = t[i];
        proof {
            assert(t@.subrange(from as int, i as int + 1).drop_last() =~= t@.subrange(
                from as int,
                i as int,
            ));
            assert(t@.subrange(from as int, i as int + 1).last() == b);
        }
        if b < 48 || b > 57 {
            proof {
                assert(whole[i - from] == b);
            }
            return None;
        }
        let d = (b - 48) as u64;
        let next = match acc.checked_mul(10) {
            Some(m) => m.checked_add(d),
            None => None,
        };
        match next {
            Some(v) => {
                acc = v;
            },
            None => {
                proof {
                    assert(t@.subrange(from as int, i as int + 1) =~= whole.subrange(
                        0,
                        i as int + 1 - from,
                    ));
                    lemma_digits_val_prefix(whole, i as int + 1 - from);
                }
                return None;
            },
        }
        i += 1;
    }
    proof {
        assert(whole =~= t@.subrange(from as int, i as int));
    }
    Some(acc)
}

/// Parses a whole token as a `u64`, exactly: `Some` holds its value if
/// and only if the token is numeric and its value fits.
pub fn parse_u64_token(t: &[u8]) -> (r: Option<u64>)
    ensures
        match r {
            Some(v) => is_uint_token(t@) && v as nat == uint_val(t@),
            None => !is_uint_token(t@) || uint_val(t@) > u64::MAX,
        },
{
    let start: usize = if t.len() > 0 && t[0] == 43 {
        1
    } else {
        0
    };
    proof {
        assert(digits_part(t@) =~= t@.subrange(start as int, t@.len() as int));
    }
    parse_digits(t, start, t.len())
}

/// Reads a free-block count from a token: its value capped at
/// `u64::MAX` when the token is numeric, zero otherwise.  Never fails.
pub fn parse_count(t: &[u8]) -> (r: u64)
    ensures
        r as nat == cap64(token_count(t@)),
{
    let start: usize = if t.len() > 0 && t[0] == 43 {
        1
    } else {
        0
    };
    proof {
        assert(digits_part(t@) =~= t@.subrange(start as int, t@.len() as int));
    }
    if start == t.len() {
        return 0;
    }
    let ghost whole = t@.subrange(start as int, t@.len() as int);
    let mut acc: u64 = 0;
    let mut i: usize = start;
    proof {
        assert(t@.subrange(start as int, start as int) =~= Seq::<u8>::empty());
    }
    while i < t.len()
        invariant
            start <= i <= t@.len(),
            whole == t@.subrange(start as int, t@.len() as int),
            whole == digits_part(t@),
            all_digits(t@.subrange(start as int, i as int)),
            acc as nat == cap64(digits_val(t@.subrange(start as int, i as int))),
        decreases t@.len() - i,
    {
        let b = t[i];
        proof {
            assert(t@.subrange(start as int, i as int + 1).drop_last() =~= t@.subrange(
                start as int,
                i as int,
            ));
            assert(t@.subrange(start as int, i as int + 1).last() == b);
        }
        if b < 48 || b > 57 {
            proof {
                assert(whole[i - start] == b);
            }
            return 0;
        }
        let d = (b - 48) as u64;
        let ghost prefix_val = digits_val(t@.subrange(start as int, i as int));
        proof {
            lemma_cap_mul_cap(prefix_val, 10);
            lemma_cap_add_cap(prefix_val * 10, d as nat);
        }
        acc = sat_add64(sat_mul64(acc, 10), d);
        i += 1;
    }
    proof {
        assert(whole =~= t@.subrange(start as int, i as int));
    }
    acc
}

/// Splits a token at its first dot: the bytes before it, and the bytes
/// after it if there is one.
pub open spec fn dot_split(s: Seq<u8>) -> (Seq<u8>, Option<Seq<u8>>)
    decreases s.len(),
{
    if s.len() == 0 {
        (seq![], None::<Seq<u8>>)
    } else if s[0] == 46 {
        (seq![], Some(s.drop_first()))
    } else {
        let rest = dot_split(s.drop_first());
        (seq![s[0]] + rest.0, rest.1)
    }
}

/// The token is a non-negative decimal number with at most two
/// fractional digits: digits, optionally followed by a dot and up to two
/// more digits, after an optional leading plus sign.
pub open spec fn is_centi_token(s: Seq<u8>) -> bool {
    let sp = dot_split(digits_part(s));
    sp.0.len() > 0 && all_digits(sp.0) && (match sp.1 {
        Option::None => true,
        Option::Some(f) => f.len() <= 2 && all_digits(f),
    })
}

/// The value of the fractional digits, in hundredths.
pub open spec fn frac_centi(f: Seq<u8>) -> nat {
    if f.len() == 0 {
        0
    } else if f.len() == 1 {
        digit_val(f[0]) * 10
    } else {
        digit_val(f[0]) * 10 + digit_val(f[1])
    }
}

/// The number a fixed-point token denotes, in hundredths.
pub open spec fn centi_val(s: Seq<u8>) -> nat {
    let sp = dot_split(digits_part(s));
    digits_val(sp.0) * 100 + (match sp.1 {
        Option::None => 0,
        Option::Some(f) => frac_centi(f),
    })
}

/// A token without a dot splits into itself and no fraction.
proof fn lemma_dot_split_none(s: Seq<u8>)
    requires
        forall|m: int| 0 <= m < s.len() ==> s[m] != 46,
    ensures
        dot_split(s).0 == s,
        dot_split(s).1 is None,
    decreases s.len(),
{
    if s.len() > 0 {
        assert forall|m: int| 0 <= m < s.drop_first().len() implies s.drop_first()[m] != 46 by {
            assert(s.drop_first()[m] == s[m + 1]);
        }
        lemma_dot_split_none(s.drop_first());
        assert(dot_split(s).0 =~= s);
    } else {
        assert(dot_split(s).0 =~= s);
    }
}

/// A token whose first dot stands at `d` splits into the bytes before
/// and after that dot.
proof fn lemma_dot_split_at(s: Seq<u8>, d: int)
    requires
        0 <= d < s.len(),
        s[d] == 46,
        forall|m: int| 0 <= m < d ==> s[m] != 46,
    ensures
        dot_split(s).0 == s.subrange(0, d),
        dot_split(s).1 == Some(s.subrange(d + 1, s.len() as int)),
    decreases d,
{
    if d == 0 {
        assert(dot_split(s).0 =~= s.subrange(0, 0));
        assert(s.drop_first() =~= s.subrange(1, s.len() as int));
    } else {
        assert forall|m: int| 0 <= m < d - 1 implies s.drop_first()[m] != 46 by {
            assert(s.drop_first()[m] == s[m + 1]);
        }
        assert(s.drop_first()[d - 1] == s[d]);
        lemma_dot_split_at(s.drop_first(), d - 1);
        assert(dot_split(s).0 =~= s.subrange(0, d));
        assert(s.drop_first().subrange(d, s.drop_first().len() as int) =~= s.subrange(
            d + 1,
            s.len() as int,
        ));
    }
}

/// Parses a fixed-point token into hundredths, exactly: `Some` holds its
/// value if and only if the token fits the grammar and the value fits.
pub fn parse_centi_token(t: &[u8]) -> (r: Option<u64>)
    ensures
        match r {
            Some(v) => is_centi_token(t@) && v as nat == centi_val(t@),
            None => !is_centi_token(t@) || centi_val(t@) > u64::MAX,
        },
{
    let start: usize = if t.len() > 0 && t[0] == 43 {
        1
    } else {
        0
    };
    let ghost body = digits_part(t@);
    proof {
        assert(body =~= t@.subrange(start as int, t@.len() as int));
    }
    let mut j: usize = start;
    let mut dot: usize = 0;
    let mut found = false;
    while j < t.len() && !found
        invariant
            start <= j <= t@.len(),
            !found ==> forall|m: int| start <= m < j ==> t@[m] != 46,
            found ==> start <= dot < j <= t@.len() && t@[dot as int] == 46 && (forall|m: int|
                start <= m < dot ==> t@[m] != 46),
        decreases t@.len() - j + (if found {
            0int
        } else {
            1int
        }),
    {
        if t[j] == 46 {
            dot = j;
            found = true;
        }
        j += 1;
    }
    if !found {
        proof {
            assert forall|m: int| 0 <= m < body.len() implies body[m] != 46 by {
                assert(body[m] == t@[m + start]);
            }
            lemma_dot_split_none(body);
        }
        match parse_digits(t, start, t.len()) {
            Some(v) => match v.checked_mul(100) {
                Some(c) => Some(c),
                None => None,
            },
            None => None,
        }
    } else {
        proof {
            assert(body[dot - start] == t@[dot as int]);
            assert forall|m: int| 0 <= m < dot - start implies body[m] != 46 by {
                assert(body[m] == t@[m + start]);
            }
            lemma_dot_split_at(body, dot - start);
            assert(body.subrange(0, dot - start) =~= t@.subrange(start as int, dot as int));
            assert(body.subrange(dot - start + 1, body.len() as int) =~= t@.subrange(
                dot as int + 1,
                t@.len() as int,
            ));
        }
        let ghost frac_bytes = t@.subrange(dot as int + 1, t@.len() as int);
        let flen = t.len() - dot - 1;
        if flen > 2 {
            return None;
        }
        let mut frac: u64 = 0;
        if flen >= 1 {
            let b1 = t[dot + 1];
            proof {
                assert(frac_bytes[0] == b1);
            }
            if b1 < 48 || b1 > 57 {
                return None;
            }
            frac = ((b1 - 48) as u64) * 10;
        }
        if flen == 2 {
            let b2 = t[dot + 2];
            proof {
                assert(frac_bytes[1] == b2);
            }
            if b2 < 48 || b2 > 57 {
                return None;
            }
            frac = frac + ((b2 - 48) as u64);
        }
        match parse_digits(t, start, dot) {
            Some(v) => match v.checked_mul(100) {
                Some(c) => match c.checked_add(frac) {
                    Some(cv) => Some(cv),
                    None => None,
                },
                None => None,
            },
            None => None,
        }
    }
}

} // verus!

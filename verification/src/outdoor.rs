//! Parsing the outdoor dewpoint from a fetched response body.
//!
//! The outdoor source answers with a bare decimal number: an optional
//! sign, at least one integer digit, and optionally a dot followed by at
//! least one fractional digit. The value is carried in hundredths of a
//! degree, rounding the third fractional digit half away from zero. A
//! body of any other shape, or one of absurd magnitude, is a malformed
//! response; the fetch is not retried, a single failure is fatal to the
//! run.

use vstd::prelude::*;

use crate::decision::DEWPOINT_CENTI_BOUND;
use crate::digits::{dec_val, digit_val, is_digit, is_digit_exec};
use crate::errors::RunError;
use crate::text::{trim, trim_spec};

verus! {

pub open spec fn all_digits(s: Seq<char>) -> bool {
    forall|i: int| 0 <= i < s.len() ==> is_digit(#[trigger] s[i])
}

/// The body starts with an explicit sign.
pub open spec fn has_sign(t: Seq<char>) -> bool {
    t.len() > 0 && (t[0] == '-' || t[0] == '+')
}

/// The body denotes a negative number.
pub open spec fn is_negative(t: Seq<char>) -> bool {
    t.len() > 0 && t[0] == '-'
}

/// The body with its sign stripped.
pub open spec fn unsigned_part(t: Seq<char>) -> Seq<char> {
    if has_sign(t) {
        t.drop_first()
    } else {
        t
    }
}

pub open spec fn has_dot(u: Seq<char>) -> bool {
    exists|d: int| 0 <= d < u.len() && u[d] == '.'
}

pub open spec fn dot_pos(u: Seq<char>) -> int {
    choose|d: int| 0 <= d < u.len() && u[d] == '.'
}

/// The integer digits of the unsigned body.
pub open spec fn int_digits(u: Seq<char>) -> Seq<char> {
    if has_dot(u) {
        u.take(dot_pos(u))
    } else {
        u
    }
}

/// The fractional digits of the unsigned body.
pub open spec fn frac_digits(u: Seq<char>) -> Seq<char> {
    if has_dot(u) {
        u.subrange(dot_pos(u) + 1, u.len() as int)
    } else {
        Seq::empty()
    }
}

/// The trimmed body is a bare decimal number.
pub open spec fn number_matches(t: Seq<char>) -> bool {
    let u = unsigned_part(t);
    &&& int_digits(u).len() >= 1
    &&& all_digits(int_digits(u))
    &&& (has_dot(u) ==> frac_digits(u).len() >= 1 && all_digits(frac_digits(u)))
}

/// Hundredths contributed by the fractional digits, the third digit
/// rounding half away from zero.
pub open spec fn frac_centi(fp: Seq<char>) -> nat {
    ((if fp.len() >= 1 {
        digit_val(fp[0]) * 10
    } else {
        0nat
    }) + (if fp.len() >= 2 {
        digit_val(fp[1])
    } else {
        0nat
    }) + (if fp.len() >= 3 && digit_val(fp[2]) >= 5 {
        1nat
    } else {
        0nat
    })) as nat
}

/// Magnitude of the unsigned body, in hundredths.
pub open spec fn magnitude_centi(u: Seq<char>) -> nat {
    dec_val(int_digits(u)) * 100 + frac_centi(frac_digits(u))
}

/// What parsing a fetched body yields, after trimming.
pub open spec fn parse_dewpoint_spec(t: Seq<char>) -> Result<i64, RunError> {
    if !number_matches(t) {
        Err(RunError::MalformedResponse)
    } else if magnitude_centi(unsigned_part(t)) > DEWPOINT_CENTI_BOUND {
        Err(RunError::MalformedResponse)
    } else {
        Ok(
            (if is_negative(t) {
                -(magnitude_centi(unsigned_part(t)) as int)
            } else {
                magnitude_centi(unsigned_part(t)) as int
            }) as i64,
        )
    }
}

/// Read the integer digits as a value, reporting any value whose
/// hundredths would exceed the dewpoint bound.
fn dec_val_bounded(s: &Vec<char>) -> (r: Option<u64>)
    requires
        forall|i: int| 0 <= i < s@.len() ==> is_digit(#[trigger] s@[i]),
    ensures
        match r {
            Some(v) => v as nat == dec_val(s@) && v <= DEWPOINT_CENTI_BOUND,
            None => dec_val(s@) > DEWPOINT_CENTI_BOUND,
        },
{
    match crate::digits::parse_dec_u64(s) {
        None => None,
        Some(v) => {
            if v > 100_000_000 {
                None
            } else {
                Some(v)
            }
        },
    }
}

/// Parse a fetched body as a dewpoint in hundredths of a degree.
///
/// Returns `Ok` exactly on bodies that trim to a bare decimal number of
/// sane magnitude; every other body is a malformed response.
pub fn parse_dewpoint_centi(body: &str) -> (r: Result<i64, RunError>)
    ensures
        r == parse_dewpoint_spec(trim_spec(body@)),
{
    let t = trim(body);
    let n = t.unicode_len();
    let ghost tv = t@;
    let ghost u = unsigned_part(tv);
    if n == 0 {
        return Err(RunError::MalformedResponse);
    }
    let c0 = t.get_char(0);
    let start: usize = if c0 == '-' || c0 == '+' {
        1
    } else {
        0
    };
    let neg = c0 == '-';
    proof {
        assert(u =~= tv.subrange(start as int, n as int));
    }
    // Integer digits.
    let mut j: usize = start;
    let mut ip: Vec<char> = Vec::new();
    while j < n && is_digit_exec(t.get_char(j))
        invariant
            start <= j <= n,
            n == tv.len(),
            t@ == tv,
            ip@ =~= tv.subrange(start as int, j as int),
            forall|i: int| start <= i < j ==> is_digit(#[trigger] tv[i]),
        decreases n - j,
    {
        ip.push(t.get_char(j));
        proof {
            assert(tv.subrange(start as int, j as int).push(tv[j as int]) =~= tv.subrange(
                start as int,
                j + 1,
            ));
        }
        j = j + 1;
    }
    if j == start {
        // No integer digit: whatever the rest holds, no split can match.
        proof {
            assert(!number_matches(tv)) by {
                if number_matches(tv) {
                    if u.len() == 0 {
                        assert(int_digits(u).len() == 0);
                    } else {
                        assert(u[0] == tv[start as int]);
                        assert(!is_digit(u[0]));
                        if has_dot(u) {
                            let d = dot_pos(u);
                            if d == 0 {
                                assert(int_digits(u).len() == 0);
                            } else {
                                assert(is_digit(int_digits(u)[0]));
                                assert(int_digits(u)[0] == u[0]);
                            }
                        } else {
                            assert(is_digit(u[0]));
                        }
                    }
                }
            }
        }
        return Err(RunError::MalformedResponse);
    }
    if j == n {
        // Digits to the end: a whole number.
        proof {
            assert(!has_dot(u)) by {
                if has_dot(u) {
                    let d = choose|d: int| 0 <= d < u.len() && u[d] == '.';
                    assert(is_digit(tv[start + d]));
                }
            }
            assert(int_digits(u) =~= ip@);
            assert(all_digits(ip@));
            assert(number_matches(tv));
            assert(frac_digits(u) =~= Seq::<char>::empty());
        }
        return finish(&ip, 0, neg, Ghost(tv));
    }
    let cj = t.get_char(j);
    if cj != '.' {
        // A non-digit, non-dot character ends the number early: invalid.
        proof {
            assert(!number_matches(tv)) by {
                if number_matches(tv) {
                    if has_dot(u) {
                        let d = dot_pos(u);
                        assert(u[d] == '.');
                        if d < j - start {
                            assert(is_digit(tv[start + d]));
                        } else if d == j - start {
                            assert(u[d] == tv[j as int]);
                        } else {
                            assert(is_digit(int_digits(u)[j - start]));
                            assert(int_digits(u)[j - start] == tv[j as int]);
                        }
                    } else {
                        assert(is_digit(u[j - start]));
                        assert(u[j - start] == tv[j as int]);
                    }
                }
            }
        }
        return Err(RunError::MalformedResponse);
    }
    // A dot: there must be at least one fractional digit, and digits only.
    let ghost d0: int = j - start;
    proof {
        assert(u[d0] == '.');
        assert(has_dot(u));
    }
    let mut k: usize = j + 1;
    let mut fp: Vec<char> = Vec::new();
    while k < n && is_digit_exec(t.get_char(k))
        invariant
            j + 1 <= k <= n,
            n == tv.len(),
            t@ == tv,
            forall|i: int| j + 1 <= i < k ==> is_digit(#[trigger] tv[i]),
            fp@ =~= tv.subrange(j + 1, k as int),
        decreases n - k,
    {
        fp.push(t.get_char(k));
        proof {
            assert(tv.subrange(j + 1, k as int).push(tv[k as int]) =~= tv.subrange(j + 1, k + 1));
        }
        k = k + 1;
    }
    if k == j + 1 || k < n {
        // No fractional digit at all, or a stray character after them.
        proof {
            assert(!number_matches(tv)) by {
                if number_matches(tv) {
                    let d = dot_pos(u);
                    assert(u[d] == '.');
                    if d < d0 {
                        assert(is_digit(tv[start + d]));
                    } else if d > d0 {
                        assert(is_digit(int_digits(u)[d0]));
                        assert(int_digits(u)[d0] == u[d0]);
                    } else {
                        assert(frac_digits(u).len() >= 1 && all_digits(frac_digits(u)));
                        if k == j + 1 {
                            assert(frac_digits(u)[0] == tv[j + 1]);
                            assert(is_digit(tv[j + 1]));
                            assert(!is_digit(tv[j + 1]) || j + 1 == n);
                        } else {
                            assert(frac_digits(u)[k - (j + 1)] == tv[k as int]);
                            assert(is_digit(tv[k as int]));
                        }
                    }
                }
            }
        }
        return Err(RunError::MalformedResponse);
    }
    // The body is sign, digits, dot, digits: a bare decimal number.
    proof {
        assert(forall|d: int| 0 <= d < u.len() && u[d] == '.' ==> d == d0) by {
            assert forall|d: int| 0 <= d < u.len() && u[d] == '.' implies d == d0 by {
                if d < d0 {
                    assert(is_digit(tv[start + d]));
                } else if d > d0 {
                    assert(is_digit(tv[start + d]));
                }
            }
        }
        assert(dot_pos(u) == d0);
        assert(int_digits(u) =~= ip@);
        assert(frac_digits(u) =~= fp@);
        assert(number_matches(tv));
    }
    let f1 = if fp.len() >= 1 {
        (fp[0] as u32 - 48) as u64
    } else {
        0
    };
    let f2 = if fp.len() >= 2 {
        (fp[1] as u32 - 48) as u64
    } else {
        0
    };
    let f3up = if fp.len() >= 3 && (fp[2] as u32 - 48) >= 5 {
        1u64
    } else {
        0u64
    };
    finish(&ip, f1 * 10 + f2 + f3up, neg, Ghost(tv))
}

/// Assemble the signed centi value once the body's shape is settled.
fn finish(ip: &Vec<char>, frac: u64, neg: bool, Ghost(tv): Ghost<Seq<char>>) -> (r: Result<
    i64,
    RunError,
>)
    requires
        number_matches(tv),
        all_digits(ip@),
        ip@ == int_digits(unsigned_part(tv)),
        frac == frac_centi(frac_digits(unsigned_part(tv))),
        frac <= 111,
        neg == is_negative(tv),
    ensures
        r == parse_dewpoint_spec(tv),
{
    match dec_val_bounded(ip) {
        None => Err(RunError::MalformedResponse),
        Some(v) => {
            let m = v * 100 + frac;
            if m > 100_000_000 {
                proof {
                    assert(magnitude_centi(unsigned_part(tv)) > DEWPOINT_CENTI_BOUND);
                }
                Err(RunError::MalformedResponse)
            } else if neg {
                Ok(-(m as i64))
            } else {
                Ok(m as i64)
            }
        },
    }
}

} // verus!

//! Advisory throttling from rate-limit response headers.
//!
//! Every response carries, when the endpoint chooses, a remaining-call count
//! and a reset delay in fractional seconds. When the count is exactly zero
//! the next call must wait out the reset delay; any missing or unreadable
//! header means "no information" and the call may proceed at once. This is
//! distinct from the mandatory backoff of an explicit rate-limited response.

use vstd::prelude::*;

use crate::digits::{
    all_digits, digits_val, is_dec_digit, lemma_digits_val_prefix, parse_u64_digits, pow10,
};

verus! {

/// The index of the first `.` in `s`, or `-1` when there is none.
pub open spec fn first_dot(s: Seq<char>) -> int
    decreases s.len(),
{
    if s.len() == 0 {
        -1
    } else if s[0] == '.' {
        0
    } else {
        let r = first_dot(s.drop_first());
        if r == -1 {
            -1
        } else {
            1 + r
        }
    }
}

/// A prefix free of dots, up to the end or a dot, fixes `first_dot`.
proof fn lemma_first_dot(t: Seq<char>, k: int)
    requires
        0 <= k <= t.len(),
        forall|m: int| 0 <= m < k ==> #[trigger] t[m] != '.',
        k == t.len() || t[k] == '.',
    ensures
        first_dot(t) == (if k == t.len() {
            -1int
        } else {
            k
        }),
    decreases t.len(),
{
    if t.len() == 0 {
    } else if t[0] == '.' {
    } else {
        assert(k >= 1);
        assert(forall|m: int| 0 <= m < k - 1 ==> #[trigger] t.drop_first()[m] != '.') by {
            assert(forall|m: int|
                0 <= m < k - 1 ==> #[trigger] t.drop_first()[m] == t[m + 1] && t[m + 1] != '.');
        }
        if k < t.len() {
            assert(t.drop_first()[k - 1] == t[k]);
        }
        lemma_first_dot(t.drop_first(), k - 1);
    }
}

/// The milliseconds contributed by the fraction digits `f` of a seconds
/// value: the first three digits scaled to milliseconds, rounded up by one
/// whenever later digits hold anything nonzero, so a wait is never cut
/// short.
pub open spec fn frac_millis(f: Seq<char>) -> nat {
    let head = if f.len() >= 3 {
        f.take(3)
    } else {
        f
    };
    let base = digits_val(head) * pow10((3 - head.len()) as nat);
    if exists|i: int| 3 <= i < f.len() && f[i] != '0' {
        base + 1
    } else {
        base
    }
}

/// The reset delay named by the header text `s`, in milliseconds: either
/// whole seconds, or seconds and a fraction split by one dot, both parts
/// all digits. `None` when the text reads as neither.
pub open spec fn reset_millis(s: Seq<char>) -> Option<nat> {
    let d = first_dot(s);
    if d == -1 {
        if s.len() > 0 && all_digits(s) {
            Some(digits_val(s) * 1000)
        } else {
            None
        }
    } else {
        let ip = s.take(d);
        let fp = s.skip(d + 1);
        if d >= 1 && all_digits(ip) && all_digits(fp) {
            Some(digits_val(ip) * 1000 + frac_millis(fp))
        } else {
            None
        }
    }
}

/// An all-digit string reads below ten to the power of its length.
proof fn lemma_digits_val_bound(t: Seq<char>)
    requires
        all_digits(t),
    ensures
        digits_val(t) < pow10(t.len()),
    decreases t.len(),
{
    if t.len() == 0 {
    } else {
        assert(all_digits(t.drop_last())) by {
            assert(forall|m: int|
                0 <= m < t.len() - 1 ==> #[trigger] t.drop_last()[m] == t[m] && is_dec_digit(t[m]));
        }
        lemma_digits_val_bound(t.drop_last());
        assert(is_dec_digit(t.last()));
    }
}

/// Reads the reset-after header text as a millisecond count, rounded up to
/// the next millisecond. `None` when the text is not a plain decimal-seconds
/// value or the count does not fit.
pub fn parse_reset_after_millis(s: &str) -> (r: Option<u64>)
    ensures
        r is Some <==> reset_millis(s@) is Some && reset_millis(s@)->0 <= u64::MAX,
        r is Some ==> r->0 == reset_millis(s@)->0,
{
    let n = s.unicode_len();
    let mut i: usize = 0;
    while i < n && s.get_char(i) != '.'
        invariant
            0 <= i <= n,
            n == s@.len(),
            forall|m: int| 0 <= m < i ==> #[trigger] s@[m] != '.',
        decreases n - i,
    {
        i = i + 1;
    }
    proof {
        lemma_first_dot(s@, i as int);
    }
    if i == n {
        // no dot: whole seconds
        match parse_u64_digits(s) {
            Some(v) => {
                match v.checked_mul(1000) {
                    Some(m) => Some(m),
                    None => None,
                }
            },
            None => {
                proof {
                    if s@.len() > 0 && all_digits(s@) {
                        // the digits alone exceed the range, so the
                        // millisecond count does too
                        assert(digits_val(s@) * 1000 >= digits_val(s@)) by (nonlinear_arith);
                    }
                }
                None
            },
        }
    } else if i == 0 {
        None
    } else {
        let ip = s.substring_char(0, i);
        let fp = s.substring_char(i + 1, n);
        proof {
            assert(ip@ =~= s@.take(i as int));
            assert(fp@ =~= s@.skip(i as int + 1));
        }
        let fl = fp.unicode_len();
        // every fraction character must be a digit
        let mut m: usize = 0;
        while m < fl && fp.get_char(m) >= '0' && fp.get_char(m) <= '9'
            invariant
                0 <= m <= fl,
                fl == fp@.len(),
                forall|q: int| 0 <= q < m ==> is_dec_digit(#[trigger] fp@[q]),
            decreases fl - m,
        {
            m = m + 1;
        }
        if m < fl {
            proof {
                assert(!is_dec_digit(fp@[m as int]));
            }
            return None;
        }
        // the first three fraction digits, scaled to milliseconds
        let hl: usize = if fl >= 3 {
            3
        } else {
            fl
        };
        let ghost head = if fp@.len() >= 3 {
            fp@.take(3)
        } else {
            fp@
        };
        proof {
            assert(head =~= fp@.take(hl as int));
        }
        let mut hv: u64 = 0;
        let mut q: usize = 0;
        while q < hl
            invariant
                0 <= q <= hl,
                hl <= 3,
                hl <= fl,
                fl == fp@.len(),
                all_digits(fp@),
                hv == digits_val(fp@.take(q as int)),
                hv < pow10(q as nat),
            decreases hl - q,
        {
            let c = fp.get_char(q);
            proof {
                assert(pow10(0nat) == 1);
                assert(pow10(1nat) == 10);
                assert(pow10(2nat) == 100);
                assert(pow10(3nat) == 1000);
                assert(is_dec_digit(fp@[q as int]));
                assert(fp@.take(q as int + 1).drop_last() =~= fp@.take(q as int));
                assert(all_digits(fp@.take(q as int))) by {
                    assert(forall|x: int|
                        0 <= x < q ==> #[trigger] fp@.take(q as int)[x] == fp@[x] && is_dec_digit(
                            fp@[x],
                        ));
                }
            }
            let d: u64 = (c as u32 - '0' as u32) as u64;
            hv = hv * 10 + d;
            q = q + 1;
        }
        let scale: u64 = if hl == 0 {
            1000
        } else if hl == 1 {
            100
        } else if hl == 2 {
            10
        } else {
            1
        };
        proof {
            assert(pow10(0nat) == 1);
            assert(pow10(1nat) == 10);
            assert(pow10(2nat) == 100);
            assert(pow10(3nat) == 1000);
            assert(hv * scale <= 999 * 1000) by (nonlinear_arith)
                requires
                    hv < 1000,
                    scale <= 1000,
            ;
            assert(hv * scale == digits_val(head) * pow10((3 - head.len()) as nat));
        }
        let base: u64 = hv * scale;
        // any nonzero digit past the third rounds the wait up
        let mut extra = false;
        let mut t: usize = 3;
        if fl < 3 {
            t = fl;
        }
        while t < fl
            invariant
                3 <= t <= fl || (fl < 3 && t == fl),
                fl == fp@.len(),
                extra == exists|x: int| 3 <= x < t && fp@[x] != '0',
            decreases fl - t,
        {
            if fp.get_char(t) != '0' {
                extra = true;
            }
            t = t + 1;
        }
        let fm: u64 = if extra {
            base + 1
        } else {
            base
        };
        proof {
            assert(fm == frac_millis(fp@));
        }
        match parse_u64_digits(ip) {
            Some(v) => {
                match v.checked_mul(1000) {
                    Some(ms) => {
                        match ms.checked_add(fm) {
                            Some(total) => Some(total),
                            None => None,
                        }
                    },
                    None => {
                        proof {
                            assert(digits_val(ip@) * 1000 + frac_millis(fp@) > u64::MAX);
                        }
                        None
                    },
                }
            },
            None => {
                proof {
                    if ip@.len() > 0 && all_digits(ip@) {
                        assert(digits_val(ip@) * 1000 >= digits_val(ip@)) by (nonlinear_arith);
                        assert(digits_val(ip@) * 1000 + frac_millis(fp@) > u64::MAX);
                    }
                }
                None
            },
        }
    }
}

/// The numeric reading of a remaining-call-count header: a non-empty digit
/// string within range, else nothing.
pub open spec fn header_u64(s: Seq<char>) -> Option<nat> {
    if s.len() > 0 && all_digits(s) && digits_val(s) <= u64::MAX {
        Some(digits_val(s))
    } else {
        None
    }
}

/// How long the governor suspends, given already-parsed header values: the
/// reset delay exactly when the remaining count reads zero, else nothing.
pub fn governor_delay_millis(remaining: Option<u64>, reset_after_millis: Option<u64>) -> (d: u64)
    ensures
        d == (if remaining == Some(0u64) && reset_after_millis is Some {
            reset_after_millis->0
        } else {
            0u64
        }),
{
    match (remaining, reset_after_millis) {
        (Some(0u64), Some(r)) => r,
        _ => 0,
    }
}

/// The advisory suspension named by the raw headers of a response: the reset
/// delay in milliseconds exactly when both headers are present and readable
/// and the remaining count is zero; otherwise no suspension.
pub open spec fn advisory_delay_millis(remaining: Option<Seq<char>>, reset: Option<Seq<char>>) -> nat {
    match (remaining, reset) {
        (Some(rem), Some(rst)) => {
            if header_u64(rem) == Some(0nat) && reset_millis(rst) is Some && reset_millis(rst)->0
                <= u64::MAX {
                reset_millis(rst)->0
            } else {
                0
            }
        },
        _ => 0,
    }
}

/// How long to suspend before the next remote call, from the raw rate-limit
/// headers of the last response. A missing or unreadable header means no
/// information, and the call proceeds at once.
pub fn governor_delay_from_headers(remaining: &Option<String>, reset_after: &Option<String>) -> (d:
    u64)
    ensures
        d == advisory_delay_millis(remaining.deep_view(), reset_after.deep_view()),
{
    match (remaining, reset_after) {
        (Some(rem), Some(rst)) => {
            let rv = parse_u64_digits(rem.as_str());
            let dv = parse_reset_after_millis(rst.as_str());
            governor_delay_millis(rv, dv)
        },
        _ => 0,
    }
}

} // verus!

//! The rotator daemon's replies and the pointing-error rule. The daemon
//! answers a position query with two decimal lines, azimuth and elevation,
//! or an error line starting with "RPRT"; the socket I/O runs outside the
//! library and hands the trimmed reply lines in.

use vstd::prelude::*;

use crate::watcher::{digit_run, digits_value, is_digit, lemma_digit_run_bounds,
    lemma_digit_run_unique, lemma_digits_value_bound, lemma_pow10_le, pow10};

verus! {

/// The bytes of "RPRT", the daemon's error-reply marker.
pub open spec fn rprt_marker() -> Seq<u8> {
    seq![82u8, 80u8, 82u8, 84u8]
}

/// Whether a reply line reports a protocol-level error: it starts with
/// "RPRT".
pub fn reply_is_error(line: &[u8]) -> (r: bool)
    ensures
        r == (line@.len() >= 4 && line@.subrange(0, 4) =~= rprt_marker()),
{
    let n: usize = line.len();
    if n < 4 {
        return false;
    }
    let r = line[0] == 82 && line[1] == 80 && line[2] == 82 && line[3] == 84;
    proof {
        if r {
            assert(line@.subrange(0, 4) =~= rprt_marker());
        } else {
            if line@.subrange(0, 4) =~= rprt_marker() {
                assert(line@[0] == 82 && line@[1] == 80 && line@[2] == 82 && line@[3] == 84);
            }
        }
    }
    r
}

/// Where the digits of a decimal line start: after a leading sign, if any.
pub open spec fn digits_start(b: Seq<u8>) -> int {
    if b.len() > 0 && (b[0] == 43 || b[0] == 45) {
        1
    } else {
        0
    }
}

/// Whether `b` is a plain decimal number: an optional sign, one to fifteen
/// integer digits, and optionally a dot followed by fraction digits to the
/// end.
pub open spec fn decimal_shape(b: Seq<u8>) -> bool {
    let p = digits_start(b);
    let n = digit_run(b, p);
    &&& b.len() > 0
    &&& 1 <= n <= 15
    &&& (p + n == b.len() || (b[p + n] == 46 && p + n + 1 + digit_run(b, p + n + 1) == b.len()))
}

/// The value of a decimal line in thousandths, truncating fraction digits
/// beyond the third.
pub open spec fn spec_decimal_milli(b: Seq<u8>) -> int {
    let p = digits_start(b);
    let n = digit_run(b, p);
    let frac = digit_run(b, p + n + 1);
    let kept = if frac <= 3 {
        frac
    } else {
        3
    };
    let whole = digits_value(b, p, n) * 1000;
    let part = if p + n == b.len() {
        0int
    } else {
        digits_value(b, p + n + 1, kept) * pow10(3 - kept)
    };
    if b.len() > 0 && b[0] == 45 {
        -(whole + part)
    } else {
        whole + part
    }
}

/// Parse one trimmed reply line as a decimal number, in thousandths: the
/// line parses exactly when it is an optional sign, up to fifteen integer
/// digits, and an optional dot with fraction digits; fraction digits past
/// the third are ignored.
pub fn parse_decimal_milli(line: &[u8]) -> (r: Option<i64>)
    ensures
        r is Some <==> decimal_shape(line@),
        r matches Some(v) ==> v == spec_decimal_milli(line@),
{
    let n: usize = line.len();
    if n == 0 {
        return None;
    }
    let negative = line[0] == 45;
    let p: usize = if line[0] == 43 || line[0] == 45 {
        1
    } else {
        0
    };
    let mut q: usize = p;
    while q < n && 48 <= line[q] && line[q] <= 57
        invariant
            p <= q <= n == line@.len(),
            forall|t: int| p <= t < q ==> is_digit(line@[t]),
        decreases n - q,
    {
        q = q + 1;
    }
    proof {
        lemma_digit_run_unique(line@, p as int, q as int);
    }
    let run = q - p;
    if run < 1 || run > 15 {
        return None;
    }
    let mut kept_digits: usize = 0;
    let mut frac_milli: u64 = 0;
    if q < n {
        if line[q] != 46 {
            return None;
        }
        let f0 = q + 1;
        let mut f: usize = f0;
        while f < n && 48 <= line[f] && line[f] <= 57
            invariant
                f0 <= f <= n == line@.len(),
                forall|t: int| f0 <= t < f ==> is_digit(line@[t]),
                f0 == q + 1,
                q < n,
                kept_digits <= 3,
                kept_digits == if f - f0 <= 3 {
                    f - f0
                } else {
                    3
                },
                kept_digits < 3 ==> kept_digits == f - f0,
                frac_milli == digits_value(line@, f0 as int, kept_digits as int),
                frac_milli < 1000,
            decreases n - f,
        {
            if kept_digits < 3 {
                proof {
                    reveal_with_fuel(pow10, 5);
                    lemma_digits_value_bound(line@, f0 as int, kept_digits as int);
                    lemma_pow10_le(kept_digits as int, 2);
                }
                frac_milli = frac_milli * 10 + ((line[f] - 48) as u64);
                kept_digits = kept_digits + 1;
                proof {
                    reveal_with_fuel(pow10, 5);
                    lemma_digits_value_bound(line@, f0 as int, kept_digits as int);
                    lemma_pow10_le(kept_digits as int, 3);
                }
            }
            f = f + 1;
        }
        proof {
            lemma_digit_run_unique(line@, f0 as int, f as int);
        }
        if f < n {
            // something besides digits follows the dot
            return None;
        }
    }
    // scale the kept fraction digits up to thousandths
    proof {
        reveal_with_fuel(pow10, 5);
        if q < n {
            lemma_digits_value_bound(line@, q as int + 1, kept_digits as int);
        }
    }
    let scaled: u64 = if kept_digits == 0 {
        0
    } else if kept_digits == 1 {
        frac_milli * 100
    } else if kept_digits == 2 {
        frac_milli * 10
    } else {
        frac_milli
    };
    proof {
        if q < n {
            assert(scaled as int == digits_value(line@, q as int + 1, kept_digits as int)
                * pow10(3 - kept_digits as int));
        }
        assert(scaled < 1000);
    }
    let mut whole: u64 = 0;
    let mut d: usize = 0;
    proof {
        lemma_digit_run_bounds(line@, p as int);
        assert(pow10(15) == 1_000_000_000_000_000) by {
            reveal_with_fuel(pow10, 17);
        }
    }
    while d < run
        invariant
            0 <= d <= run <= 15,
            p + run <= n == line@.len(),
            forall|t: int| p <= t < p + run ==> is_digit(line@[t]),
            whole == digits_value(line@, p as int, d as int),
            whole < pow10(d as int),
            pow10(15) == 1_000_000_000_000_000,
        decreases run - d,
    {
        proof {
            lemma_pow10_le(d as int + 1, 15);
        }
        whole = whole * 10 + ((line[p + d] - 48) as u64);
        d = d + 1;
        proof {
            lemma_digits_value_bound(line@, p as int, d as int);
        }
    }
    proof {
        lemma_pow10_le(run as int, 15);
        assert(whole < 1_000_000_000_000_000);
    }
    let magnitude: i64 = (whole * 1000 + scaled) as i64;
    let value = if negative {
        -magnitude
    } else {
        magnitude
    };
    Some(value)
}

/// How far the rotator may point away from the tracked satellite before the
/// reading is flagged.
#[derive(Clone, Copy, Debug, PartialEq, Eq, Structural)]
pub enum PointingAlarm {
    /// Within the warning threshold.
    Aligned,
    /// At or past the warning threshold, within the error threshold.
    Warning,
    /// At or past the error threshold.
    Critical,
}

/// The larger of the azimuth and elevation pointing errors, in
/// milli-degrees, classified against the configured thresholds.
pub fn pointing_alarm(
    rotator_az_mdeg: i64,
    rotator_el_mdeg: i64,
    sat_az_mdeg: i64,
    sat_el_mdeg: i64,
    warn_mdeg: i64,
    error_mdeg: i64,
) -> (r: PointingAlarm)
    requires
        -1_000_000_000 <= rotator_az_mdeg <= 1_000_000_000,
        -1_000_000_000 <= rotator_el_mdeg <= 1_000_000_000,
        -1_000_000_000 <= sat_az_mdeg <= 1_000_000_000,
        -1_000_000_000 <= sat_el_mdeg <= 1_000_000_000,
    ensures
        ({
            let az_diff = if rotator_az_mdeg >= sat_az_mdeg {
                rotator_az_mdeg - sat_az_mdeg
            } else {
                sat_az_mdeg - rotator_az_mdeg
            };
            let el_diff = if rotator_el_mdeg >= sat_el_mdeg {
                rotator_el_mdeg - sat_el_mdeg
            } else {
                sat_el_mdeg - rotator_el_mdeg
            };
            let delta = if az_diff >= el_diff {
                az_diff
            } else {
                el_diff
            };
            r == (if delta < warn_mdeg {
                PointingAlarm::Aligned
            } else if delta < error_mdeg {
                PointingAlarm::Warning
            } else {
                PointingAlarm::Critical
            })
        }),
{
    let az_diff = if rotator_az_mdeg >= sat_az_mdeg {
        rotator_az_mdeg - sat_az_mdeg
    } else {
        sat_az_mdeg - rotator_az_mdeg
    };
    let el_diff = if rotator_el_mdeg >= sat_el_mdeg {
        rotator_el_mdeg - sat_el_mdeg
    } else {
        sat_el_mdeg - rotator_el_mdeg
    };
    let delta = if az_diff >= el_diff {
        az_diff
    } else {
        el_diff
    };
    if delta < warn_mdeg {
        PointingAlarm::Aligned
    } else if delta < error_mdeg {
        PointingAlarm::Warning
    } else {
        PointingAlarm::Critical
    }
}

} // verus!

//! Turns human rate rules ("100 requests per 5m") into bucket quotas. The
//! period grammar is one or more decimal digits followed by a unit letter:
//! `s` for seconds, `m` for minutes, `h` for hours.

use vstd::prelude::*;
use crate::config::LimitRule;

verus! {

/// Why a rule was rejected at configuration time.
#[derive(Clone, Copy, Debug, PartialEq, Eq, Structural)]
pub enum ConfigError {
    /// The period is empty or does not end in a known unit letter.
    BadPeriodUnit,
    /// The count before the unit is empty, non-numeric, zero, or too large.
    BadPeriodNumber,
    /// The rule asks for zero requests.
    ZeroRequests,
}

/// A parsed rule: a bucket of `burst` tokens refilling fully over
/// `period_secs` seconds.
#[derive(Clone, Copy, Debug, PartialEq, Eq, Structural)]
pub struct Quota {
    pub burst: u32,
    pub period_secs: u64,
}

pub open spec fn is_digit_char(c: char) -> bool {
    '0' <= c && c <= '9'
}

/// Value of a string of decimal digits, most significant first.
pub open spec fn digits_val(s: Seq<char>) -> int
    decreases s.len(),
{
    if s.len() == 0 {
        0
    } else {
        digits_val(s.drop_last()) * 10 + (s.last() as int - '0' as int)
    }
}

pub open spec fn all_digits(s: Seq<char>) -> bool {
    forall|i: int| 0 <= i < s.len() ==> is_digit_char(s[i])
}

/// Seconds per unit letter; 0 marks an unknown unit.
pub open spec fn unit_mult(c: char) -> int {
    if c == 's' {
        1
    } else if c == 'm' {
        60
    } else if c == 'h' {
        3600
    } else {
        0
    }
}

/// The period ends in a recognized unit letter.
pub open spec fn period_unit_ok(s: Seq<char>) -> bool {
    s.len() >= 1 && unit_mult(s.last()) != 0
}

pub open spec fn period_digits(s: Seq<char>) -> Seq<char> {
    s.drop_last()
}

/// The whole period is well formed, denotes at least one second, and its
/// second count fits the machine word.
pub open spec fn valid_period(s: Seq<char>) -> bool {
    &&& period_unit_ok(s)
    &&& period_digits(s).len() >= 1
    &&& all_digits(period_digits(s))
    &&& digits_val(period_digits(s)) >= 1
    &&& digits_val(period_digits(s)) * unit_mult(s.last()) <= u64::MAX
}

/// The number of seconds a valid period denotes.
pub open spec fn spec_period_secs(s: Seq<char>) -> int {
    digits_val(period_digits(s)) * unit_mult(s.last())
}

proof fn lemma_digits_val_nonneg(s: Seq<char>)
    requires
        all_digits(s),
    ensures
        digits_val(s) >= 0,
    decreases s.len(),
{
    if s.len() > 0 {
        assert(all_digits(s.drop_last())) by {
            assert(forall|i: int| 0 <= i < s.drop_last().len() ==> s.drop_last()[i] == s[i]);
        }
        lemma_digits_val_nonneg(s.drop_last());
        assert(is_digit_char(s.last()));
    }
}

/// A digit string is worth at least any of its prefixes.
proof fn lemma_digits_val_prefix(s: Seq<char>, i: int)
    requires
        all_digits(s),
        0 <= i <= s.len(),
    ensures
        digits_val(s) >= digits_val(s.take(i)),
    decreases s.len() - i,
{
    if i == s.len() {
        assert(s.take(i) =~= s);
    } else {
        lemma_digits_val_prefix(s, i + 1);
        assert(s.take(i + 1).drop_last() =~= s.take(i));
        assert(s.take(i + 1).last() == s[i]);
        assert(all_digits(s.take(i))) by {
            assert(forall|j: int| 0 <= j < i ==> s.take(i)[j] == s[j]);
        }
        lemma_digits_val_nonneg(s.take(i));
        assert(is_digit_char(s[i]));
        assert(digits_val(s.take(i + 1)) == digits_val(s.take(i)) * 10 + (s[i] as int
            - '0' as int));
    }
}

/// Parses a period such as "1s", "5m" or "2h" into whole seconds.
pub fn parse_duration(period: &str) -> (r: Result<u64, ConfigError>)
    ensures
        r is Ok <==> valid_period(period@),
        r matches Ok(secs) ==> secs == spec_period_secs(period@),
        r matches Err(e) ==> (e is BadPeriodUnit <==> !period_unit_ok(period@)) && (
        e is BadPeriodNumber <==> period_unit_ok(period@)),
{
    let n = period.unicode_len();
    if n == 0 {
        return Err(ConfigError::BadPeriodUnit);
    }
    let unit = period.get_char(n - 1);
    let mult: u64 = if unit == 's' {
        1
    } else if unit == 'm' {
        60
    } else if unit == 'h' {
        3600
    } else {
        return Err(ConfigError::BadPeriodUnit);
    };
    if n == 1 {
        return Err(ConfigError::BadPeriodNumber);
    }
    let mut val: u64 = 0;
    let mut i: usize = 0;
    while i < n - 1
        invariant
            2 <= n == period@.len(),
            0 <= i <= n - 1,
            period_unit_ok(period@),
            all_digits(period@.take(i as int)),
            val == digits_val(period@.take(i as int)),
        decreases n - 1 - i,
    {
        let c = period.get_char(i);
        let cv = c as u32;
        if cv < 48 || cv > 57 {
            proof {
                assert(!is_digit_char(period@[i as int]));
                assert(period_digits(period@)[i as int] == period@[i as int]);
                assert(!all_digits(period_digits(period@)));
            }
            return Err(ConfigError::BadPeriodNumber);
        }
        let d = (cv - 48) as u64;
        proof {
            assert(period@.take(i + 1).drop_last() =~= period@.take(i as int));
            assert(period@.take(i + 1).last() == period@[i as int]);
            assert(forall|j: int| 0 <= j < i + 1 ==> period@.take(i + 1)[j] == period@[j]);
        }
        if val > (u64::MAX - d) / 10 {
            // The count already exceeds the machine word; with digits still
            // to come it can only grow.
            proof {
                assert(digits_val(period@.take(i + 1)) > u64::MAX);
                if valid_period(period@) {
                    lemma_digits_val_prefix(period_digits(period@), i + 1);
                    assert(period_digits(period@).take(i + 1) =~= period@.take(i + 1));
                    lemma_digits_val_nonneg(period_digits(period@));
                    assert(unit_mult(period@.last()) >= 1);
                    assert(digits_val(period_digits(period@)) * unit_mult(period@.last())
                        >= digits_val(period_digits(period@)) * 1) by (nonlinear_arith)
                        requires
                            digits_val(period_digits(period@)) >= 0,
                            unit_mult(period@.last()) >= 1,
                    ;
                }
            }
            return Err(ConfigError::BadPeriodNumber);
        }
        val = val * 10 + d;
        i += 1;
    }
    proof {
        assert(period@.take(n - 1) =~= period_digits(period@));
    }
    if val == 0 {
        return Err(ConfigError::BadPeriodNumber);
    }
    if val > u64::MAX / mult {
        proof {
            assert(digits_val(period_digits(period@)) * unit_mult(period@.last()) > u64::MAX)
                by (nonlinear_arith)
                requires
                    digits_val(period_digits(period@)) == val as int,
                    unit_mult(period@.last()) == mult as int,
                    mult >= 1,
                    val > u64::MAX / mult,
            ;
        }
        return Err(ConfigError::BadPeriodNumber);
    }
    proof {
        assert(val * mult <= u64::MAX) by (nonlinear_arith)
            requires
                mult >= 1,
                val <= u64::MAX / mult,
                val >= 0,
        ;
    }
    Ok(val * mult)
}

/// Checks one rule and turns it into a quota: the period must parse and the
/// request count must be positive.
pub fn parse_limit_rule(rule: &LimitRule) -> (r: Result<Quota, ConfigError>)
    ensures
        r is Ok <==> valid_period(rule.period@) && rule.requests >= 1,
        r matches Ok(q) ==> q.burst == rule.requests && q.period_secs == spec_period_secs(
            rule.period@,
        ),
        !valid_period(rule.period@) ==> (r matches Err(e) && (e is BadPeriodUnit
            <==> !period_unit_ok(rule.period@)) && (e is BadPeriodNumber <==> period_unit_ok(
            rule.period@,
        ))),
        valid_period(rule.period@) && rule.requests == 0 ==> r == Result::<
            Quota,
            ConfigError,
        >::Err(ConfigError::ZeroRequests),
{
    let secs = match parse_duration(rule.period.as_str()) {
        Ok(s) => s,
        Err(e) => {
            return Err(e);
        },
    };
    if rule.requests == 0 {
        return Err(ConfigError::ZeroRequests);
    }
    Ok(Quota { burst: rule.requests, period_secs: secs })
}

} // verus!

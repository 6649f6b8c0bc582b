//! Outcome accounting: one monotonic counter per outcome class, a total,
//! and a duration histogram. At every point the total equals the sum of
//! the six outcome counters, and the histogram has observed exactly one
//! duration per counted request.

use vstd::prelude::*;
use vstd::string::StrSliceExecFns;
use vstd::string::StringExecFns;
use crate::identity::{hex_char, hex_digit_char, push_char};

verus! {

/// The single terminal classification of a processed request.
#[derive(Clone, Copy, Debug, PartialEq, Eq, Structural)]
pub enum Outcome {
    Allowed,
    RateLimited,
    Blocked,
    AuthFailed,
    UpstreamFail,
    InternalFail,
}

/// Upper bound, in nanoseconds, of histogram bucket `i` of 9; the buckets
/// cover one millisecond to ten seconds.
pub open spec fn bucket_bound_ns(i: int) -> int {
    if i == 0 {
        1_000_000
    } else if i == 1 {
        5_000_000
    } else if i == 2 {
        10_000_000
    } else if i == 3 {
        50_000_000
    } else if i == 4 {
        100_000_000
    } else if i == 5 {
        500_000_000
    } else if i == 6 {
        1_000_000_000
    } else if i == 7 {
        5_000_000_000
    } else {
        10_000_000_000
    }
}

fn bucket_bound(i: usize) -> (r: u64)
    requires
        i < 9,
    ensures
        r == bucket_bound_ns(i as int),
{
    if i == 0 {
        1_000_000
    } else if i == 1 {
        5_000_000
    } else if i == 2 {
        10_000_000
    } else if i == 3 {
        50_000_000
    } else if i == 4 {
        100_000_000
    } else if i == 5 {
        500_000_000
    } else if i == 6 {
        1_000_000_000
    } else if i == 7 {
        5_000_000_000
    } else {
        10_000_000_000
    }
}

/// The counters and the histogram. All process-lifetime, all monotonic.
pub struct Metrics {
    pub requests_total: u64,
    pub allowed_total: u64,
    pub rate_limited_total: u64,
    pub blocked_total: u64,
    pub auth_failed_total: u64,
    pub upstream_fail_total: u64,
    pub internal_fail_total: u64,
    /// Cumulative bucket counts: entry `i` counts observations of at most
    /// `bucket_bound_ns(i)` nanoseconds.
    pub duration_le: Vec<u64>,
    /// Sum of all observed durations, in nanoseconds.
    pub duration_sum_ns: u128,
}

impl Metrics {
    /// The accounting invariant: the total equals the sum of the six
    /// outcome counters, and the histogram counts one observation per
    /// request.
    pub open spec fn wf(&self) -> bool {
        &&& self.requests_total == self.allowed_total + self.rate_limited_total
            + self.blocked_total + self.auth_failed_total + self.upstream_fail_total
            + self.internal_fail_total
        &&& self.duration_le@.len() == 9
        &&& forall|i: int| 0 <= i < 9 ==> #[trigger] self.duration_le@[i] <= self.requests_total
        &&& self.duration_sum_ns <= self.requests_total * 0xFFFF_FFFF_FFFF_FFFF
    }

    /// All counters at zero.
    pub fn new() -> (m: Metrics)
        ensures
            m.wf(),
            m.requests_total == 0,
            m.allowed_total == 0,
            m.rate_limited_total == 0,
            m.blocked_total == 0,
            m.auth_failed_total == 0,
            m.upstream_fail_total == 0,
            m.internal_fail_total == 0,
            m.duration_sum_ns == 0,
            forall|i: int| 0 <= i < 9 ==> #[trigger] m.duration_le@[i] == 0,
    {
        let mut le: Vec<u64> = Vec::new();
        let mut i: usize = 0;
        while i < 9
            invariant
                i <= 9,
                le@.len() == i,
                forall|j: int| 0 <= j < i ==> #[trigger] le@[j] == 0,
            decreases 9 - i,
        {
            le.push(0);
            i += 1;
        }
        Metrics {
            requests_total: 0,
            allowed_total: 0,
            rate_limited_total: 0,
            blocked_total: 0,
            auth_failed_total: 0,
            upstream_fail_total: 0,
            internal_fail_total: 0,
            duration_le: le,
            duration_sum_ns: 0,
        }
    }

    /// Accounts one processed request: the total, the counter of its
    /// outcome, and one histogram observation of its duration.
    pub fn observe(&mut self, outcome: Outcome, duration_ns: u64)
        requires
            old(self).wf(),
            old(self).requests_total < u64::MAX,
        ensures
            final(self).wf(),
            final(self).requests_total == old(self).requests_total + 1,
            final(self).allowed_total == old(self).allowed_total + (if outcome is Allowed {
                1int
            } else {
                0int
            }),
            final(self).rate_limited_total == old(self).rate_limited_total + (
            if outcome is RateLimited {
                1int
            } else {
                0int
            }),
            final(self).blocked_total == old(self).blocked_total + (if outcome is Blocked {
                1int
            } else {
                0int
            }),
            final(self).auth_failed_total == old(self).auth_failed_total + (
            if outcome is AuthFailed {
                1int
            } else {
                0int
            }),
            final(self).upstream_fail_total == old(self).upstream_fail_total + (
            if outcome is UpstreamFail {
                1int
            } else {
                0int
            }),
            final(self).internal_fail_total == old(self).internal_fail_total + (
            if outcome is InternalFail {
                1int
            } else {
                0int
            }),
            final(self).duration_sum_ns == old(self).duration_sum_ns + duration_ns,
            final(self).duration_le@.len() == 9,
            forall|i: int| 0 <= i < 9 ==> #[trigger] final(self).duration_le@[i] == old(
                self,
            ).duration_le@[i] + (if duration_ns <= bucket_bound_ns(i) {
                1int
            } else {
                0int
            }),
    {
        self.requests_total = self.requests_total + 1;
        match outcome {
            Outcome::Allowed => {
                self.allowed_total = self.allowed_total + 1;
            },
            Outcome::RateLimited => {
                self.rate_limited_total = self.rate_limited_total + 1;
            },
            Outcome::Blocked => {
                self.blocked_total = self.blocked_total + 1;
            },
            Outcome::AuthFailed => {
                self.auth_failed_total = self.auth_failed_total + 1;
            },
            Outcome::UpstreamFail => {
                self.upstream_fail_total = self.upstream_fail_total + 1;
            },
            Outcome::InternalFail => {
                self.internal_fail_total = self.internal_fail_total + 1;
            },
        }
        proof {
            let ghost s = old(self).duration_sum_ns as int;
            let ghost t = old(self).requests_total as int;
            let ghost d = duration_ns as int;
            assert(s + d <= (t + 1) * 0xFFFF_FFFF_FFFF_FFFF) by (nonlinear_arith)
                requires
                    s <= t * 0xFFFF_FFFF_FFFF_FFFF,
                    d <= 0xFFFF_FFFF_FFFF_FFFF,
            ;
            assert((t + 1) * 0xFFFF_FFFF_FFFF_FFFF < u128::MAX) by (nonlinear_arith)
                requires
                    t + 1 <= 0xFFFF_FFFF_FFFF_FFFF,
            ;
        }
        self.duration_sum_ns = self.duration_sum_ns + (duration_ns as u128);
        let mut i: usize = 0;
        while i < 9
            invariant
                i <= 9,
                self.duration_le@.len() == 9,
                self.requests_total == old(self).requests_total + 1,
                forall|j: int| 0 <= j < 9 ==> #[trigger] old(self).duration_le@[j] <= old(
                    self,
                ).requests_total,
                forall|j: int| 0 <= j < i ==> #[trigger] self.duration_le@[j] == old(
                    self,
                ).duration_le@[j] + (if duration_ns <= bucket_bound_ns(j) {
                    1int
                } else {
                    0int
                }),
                forall|j: int| i <= j < 9 ==> #[trigger] self.duration_le@[j] == old(
                    self,
                ).duration_le@[j],
                self.allowed_total == old(self).allowed_total + (if outcome is Allowed {
                    1int
                } else {
                    0int
                }),
                self.rate_limited_total == old(self).rate_limited_total + (
                if outcome is RateLimited {
                    1int
                } else {
                    0int
                }),
                self.blocked_total == old(self).blocked_total + (if outcome is Blocked {
                    1int
                } else {
                    0int
                }),
                self.auth_failed_total == old(self).auth_failed_total + (
                if outcome is AuthFailed {
                    1int
                } else {
                    0int
                }),
                self.upstream_fail_total == old(self).upstream_fail_total + (
                if outcome is UpstreamFail {
                    1int
                } else {
                    0int
                }),
                self.internal_fail_total == old(self).internal_fail_total + (
                if outcome is InternalFail {
                    1int
                } else {
                    0int
                }),
                self.duration_sum_ns == old(self).duration_sum_ns + duration_ns,
                old(self).wf(),
                old(self).requests_total < u64::MAX,
            decreases 9 - i,
        {
            if duration_ns <= bucket_bound(i) {
                let cur = self.duration_le[i];
                self.duration_le[i] = cur + 1;
            }
            i += 1;
        }
    }
}

/// The decimal digits of a non-negative number, most significant first.
pub open spec fn decimal_chars(n: int) -> Seq<char>
    decreases n,
{
    if n < 10 {
        seq![hex_digit_char(n)]
    } else {
        decimal_chars(n / 10) + seq![hex_digit_char(n % 10)]
    }
}

pub open spec fn pow10(k: int) -> int
    decreases k,
{
    if k <= 0 {
        1
    } else {
        10 * pow10(k - 1)
    }
}

/// A number below `10^k` has at most `k` decimal digits.
proof fn lemma_decimal_chars_len(n: int, k: int)
    requires
        0 <= n,
        1 <= k,
        n < pow10(k),
    ensures
        decimal_chars(n).len() <= k,
    decreases k,
{
    if n >= 10 {
        assert(n / 10 < pow10(k - 1)) by (nonlinear_arith)
            requires
                n < 10 * pow10(k - 1),
                n >= 10,
        ;
        lemma_decimal_chars_len(n / 10, k - 1);
    }
}

/// Renders a counter value.
fn u64_to_dec(n: u64) -> (r: String)
    ensures
        r@ == decimal_chars(n as int),
    decreases n,
{
    if n < 10 {
        let mut s = String::new();
        push_char(&mut s, hex_char(n as u8));
        proof {
            assert(s@ =~= decimal_chars(n as int));
        }
        s
    } else {
        let mut s = u64_to_dec(n / 10);
        push_char(&mut s, hex_char((n % 10) as u8));
        proof {
            assert(s@ =~= decimal_chars(n as int));
        }
        s
    }
}

/// Renders the whole-second part of the duration sum.
fn u128_to_dec(n: u128) -> (r: String)
    ensures
        r@ == decimal_chars(n as int),
    decreases n,
{
    if n < 10 {
        let mut s = String::new();
        push_char(&mut s, hex_char(n as u8));
        proof {
            assert(s@ =~= decimal_chars(n as int));
        }
        s
    } else {
        let mut s = u128_to_dec(n / 10);
        push_char(&mut s, hex_char((n % 10) as u8));
        proof {
            assert(s@ =~= decimal_chars(n as int));
        }
        s
    }
}

pub open spec fn zero_chars(k: int) -> Seq<char>
    decreases k,
{
    if k <= 0 {
        Seq::empty()
    } else {
        zero_chars(k - 1) + seq!['0']
    }
}

/// A nanosecond remainder as nine zero-padded decimal digits.
pub open spec fn frac9_chars(n: int) -> Seq<char> {
    zero_chars(9 - decimal_chars(n).len()) + decimal_chars(n)
}

fn frac9(n: u64) -> (r: String)
    requires
        n < 1_000_000_000,
    ensures
        r@ == frac9_chars(n as int),
{
    proof {
        reveal_with_fuel(pow10, 10);
        assert(pow10(9) == 1_000_000_000);
        lemma_decimal_chars_len(n as int, 9);
    }
    let digits = u64_to_dec(n);
    let dlen = digits.as_str().unicode_len();
    let mut s = String::new();
    let mut i: usize = dlen;
    while i < 9
        invariant
            dlen <= i <= 9,
            s@ == zero_chars(i - dlen),
        decreases 9 - i,
    {
        push_char(&mut s, '0');
        proof {
            assert(s@ =~= zero_chars(i + 1 - dlen));
        }
        i += 1;
    }
    s.append(digits.as_str());
    s
}

/// One counter in the exposition text: its type line and its sample.
pub open spec fn counter_block(name: Seq<char>, value: int) -> Seq<char> {
    "# TYPE "@ + name + " counter\n"@ + name + " "@ + decimal_chars(value) + "\n"@
}

/// One cumulative histogram sample.
pub open spec fn bucket_line(label: Seq<char>, value: int) -> Seq<char> {
    "rpc_shield_request_duration_seconds_bucket{le=\""@ + label + "\"} "@ + decimal_chars(value)
        + "\n"@
}

/// The whole textual scrape page for a metrics snapshot.
pub open spec fn spec_render(m: Metrics) -> Seq<char> {
    counter_block("rpc_shield_requests_total"@, m.requests_total as int) + counter_block(
        "rpc_shield_requests_allowed_total"@,
        m.allowed_total as int,
    ) + counter_block("rpc_shield_requests_rate_limited_total"@, m.rate_limited_total as int)
        + counter_block("rpc_shield_requests_blocked_total"@, m.blocked_total as int)
        + counter_block("rpc_shield_requests_auth_failed_total"@, m.auth_failed_total as int)
        + counter_block("rpc_shield_requests_upstream_fail_total"@, m.upstream_fail_total as int)
        + counter_block("rpc_shield_requests_internal_fail_total"@, m.internal_fail_total as int)
        + "# TYPE rpc_shield_request_duration_seconds histogram\n"@ + bucket_line(
        "0.001"@,
        m.duration_le@[0] as int,
    ) + bucket_line("0.005"@, m.duration_le@[1] as int) + bucket_line(
        "0.01"@,
        m.duration_le@[2] as int,
    ) + bucket_line("0.05"@, m.duration_le@[3] as int) + bucket_line(
        "0.1"@,
        m.duration_le@[4] as int,
    ) + bucket_line("0.5"@, m.duration_le@[5] as int) + bucket_line(
        "1"@,
        m.duration_le@[6] as int,
    ) + bucket_line("5"@, m.duration_le@[7] as int) + bucket_line(
        "10"@,
        m.duration_le@[8] as int,
    ) + bucket_line("+Inf"@, m.requests_total as int)
        + "rpc_shield_request_duration_seconds_sum "@ + decimal_chars(
        m.duration_sum_ns as int / 1_000_000_000,
    ) + "."@ + frac9_chars(m.duration_sum_ns as int % 1_000_000_000) + "\n"@
        + "rpc_shield_request_duration_seconds_count "@ + decimal_chars(m.requests_total as int)
        + "\n"@
}

fn append_counter(out: &mut String, name: &str, value: u64)
    ensures
        final(out)@ == old(out)@ + counter_block(name@, value as int),
{
    out.append("# TYPE ");
    out.append(name);
    out.append(" counter\n");
    out.append(name);
    out.append(" ");
    let d = u64_to_dec(value);
    out.append(d.as_str());
    out.append("\n");
    proof {
        assert(out@ =~= old(out)@ + counter_block(name@, value as int));
    }
}

fn append_bucket(out: &mut String, label: &str, value: u64)
    ensures
        final(out)@ == old(out)@ + bucket_line(label@, value as int),
{
    out.append("rpc_shield_request_duration_seconds_bucket{le=\"");
    out.append(label);
    out.append("\"} ");
    let d = u64_to_dec(value);
    out.append(d.as_str());
    out.append("\n");
    proof {
        assert(out@ =~= old(out)@ + bucket_line(label@, value as int));
    }
}

impl Metrics {
    /// Renders the textual scrape page: one `counter` block per counter
    /// and the duration histogram with its cumulative buckets, sum in
    /// seconds, and count.
    pub fn render(&self) -> (r: String)
        requires
            self.wf(),
        ensures
            r@ == spec_render(*self),
    {
        let mut out = String::new();
        append_counter(&mut out, "rpc_shield_requests_total", self.requests_total);
        append_counter(&mut out, "rpc_shield_requests_allowed_total", self.allowed_total);
        append_counter(
            &mut out,
            "rpc_shield_requests_rate_limited_total",
            self.rate_limited_total,
        );
        append_counter(&mut out, "rpc_shield_requests_blocked_total", self.blocked_total);
        append_counter(&mut out, "rpc_shield_requests_auth_failed_total", self.auth_failed_total);
        append_counter(
            &mut out,
            "rpc_shield_requests_upstream_fail_total",
            self.upstream_fail_total,
        );
        append_counter(
            &mut out,
            "rpc_shield_requests_internal_fail_total",
            self.internal_fail_total,
        );
        out.append("# TYPE rpc_shield_request_duration_seconds histogram\n");
        append_bucket(&mut out, "0.001", self.duration_le[0]);
        append_bucket(&mut out, "0.005", self.duration_le[1]);
        append_bucket(&mut out, "0.01", self.duration_le[2]);
        append_bucket(&mut out, "0.05", self.duration_le[3]);
        append_bucket(&mut out, "0.1", self.duration_le[4]);
        append_bucket(&mut out, "0.5", self.duration_le[5]);
        append_bucket(&mut out, "1", self.duration_le[6]);
        append_bucket(&mut out, "5", self.duration_le[7]);
        append_bucket(&mut out, "10", self.duration_le[8]);
        append_bucket(&mut out, "+Inf", self.requests_total);
        out.append("rpc_shield_request_duration_seconds_sum ");
        let secs = u128_to_dec(self.duration_sum_ns / 1_000_000_000);
        out.append(secs.as_str());
        out.append(".");
        let frac = frac9((self.duration_sum_ns % 1_000_000_000) as u64);
        out.append(frac.as_str());
        out.append("\n");
        out.append("rpc_shield_request_duration_seconds_count ");
        let cnt = u64_to_dec(self.requests_total);
        out.append(cnt.as_str());
        out.append("\n");
        proof {
            assert(out@ =~= spec_render(*self));
        }
        out
    }
}

/// Accounts one processed request; see [`Metrics::observe`].
pub fn record(m: &mut Metrics, outcome: Outcome, duration_ns: u64)
    requires
        old(m).wf(),
        old(m).requests_total < u64::MAX,
    ensures
        final(m).wf(),
        final(m).requests_total == old(m).requests_total + 1,
        final(m).allowed_total == old(m).allowed_total + (if outcome is Allowed {
            1int
        } else {
            0int
        }),
        final(m).rate_limited_total == old(m).rate_limited_total + (if outcome is RateLimited {
            1int
        } else {
            0int
        }),
        final(m).blocked_total == old(m).blocked_total + (if outcome is Blocked {
            1int
        } else {
            0int
        }),
        final(m).auth_failed_total == old(m).auth_failed_total + (if outcome is AuthFailed {
            1int
        } else {
            0int
        }),
        final(m).upstream_fail_total == old(m).upstream_fail_total + (
        if outcome is UpstreamFail {
            1int
        } else {
            0int
        }),
        final(m).internal_fail_total == old(m).internal_fail_total + (
        if outcome is InternalFail {
            1int
        } else {
            0int
        }),
        final(m).duration_sum_ns == old(m).duration_sum_ns + duration_ns,
{
    m.observe(outcome, duration_ns);
}

} // verus!

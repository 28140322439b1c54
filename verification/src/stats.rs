//! Run-time counters for a stream of created games, latency percentiles
//! over the recorded samples, and the `HH:MM:SS` clock rendering of an
//! elapsed duration.
//!
//! Latencies are carried in microseconds throughout; the caller owns any
//! display conversion.

use vstd::prelude::*;
use vstd::multiset::Multiset;
use vstd::string::StringExecFns;

verus! {

broadcast use vstd::seq_lib::group_to_multiset_ensures;

/// Counters over every game a run has attempted, with one latency sample
/// per success.
pub struct Stats {
    pub total_games: u64,
    pub successful: u64,
    pub failed: u64,
    /// One sample per successful game, in microseconds, in arrival order.
    pub latencies_us: Vec<u64>,
}

impl Stats {
    /// Every attempt is either a success or a failure, and successes and
    /// samples correspond one to one.
    pub open spec fn wf(self) -> bool {
        &&& self.total_games == self.successful + self.failed
        &&& self.latencies_us@.len() == self.successful
    }

    /// Fresh counters: nothing attempted yet.
    pub fn new() -> (s: Stats)
        ensures
            s.total_games == 0,
            s.successful == 0,
            s.failed == 0,
            s.latencies_us@.len() == 0,
            s.wf(),
    {
        Stats { total_games: 0, successful: 0, failed: 0, latencies_us: Vec::new() }
    }

    /// Count one successful game and keep its latency sample.
    pub fn record_success(&mut self, latency_us: u64)
        requires
            old(self).wf(),
            old(self).total_games < u64::MAX,
        ensures
            final(self).total_games == old(self).total_games + 1,
            final(self).successful == old(self).successful + 1,
            final(self).failed == old(self).failed,
            final(self).latencies_us@ == old(self).latencies_us@.push(latency_us),
            final(self).wf(),
    {
        self.total_games += 1;
        self.successful += 1;
        self.latencies_us.push(latency_us);
    }

    /// Count one failed game; failures carry no latency.
    pub fn record_failure(&mut self)
        requires
            old(self).wf(),
            old(self).total_games < u64::MAX,
        ensures
            final(self).total_games == old(self).total_games + 1,
            final(self).successful == old(self).successful,
            final(self).failed == old(self).failed + 1,
            final(self).latencies_us@ == old(self).latencies_us@,
            final(self).wf(),
    {
        self.total_games += 1;
        self.failed += 1;
    }
}

/// Non-decreasing order.
pub open spec fn spec_is_sorted(s: Seq<u64>) -> bool {
    forall|i: int, j: int| 0 <= i < j < s.len() ==> s[i] <= s[j]
}

/// Sum of a sequence of samples.
pub open spec fn spec_sum(s: Seq<u64>) -> int
    decreases s.len(),
{
    if s.len() == 0 {
        0
    } else {
        spec_sum(s.drop_last()) + s.last()
    }
}

/// Sort latency samples ascending: the result holds exactly the input
/// samples, in non-decreasing order.
pub fn sort_latencies(samples: Vec<u64>) -> (sorted: Vec<u64>)
    ensures
        spec_is_sorted(sorted@),
        sorted@.to_multiset() == samples@.to_multiset(),
        sorted@.len() == samples@.len(),
{
    let ghost orig = samples@;
    let mut remaining = samples;
    let mut sorted: Vec<u64> = Vec::new();
    while remaining.len() > 0
        invariant
            spec_is_sorted(sorted@),
            forall|i: int, j: int|
                0 <= i < sorted@.len() && 0 <= j < remaining@.len() ==> sorted@[i]
                    <= remaining@[j],
            sorted@.to_multiset().add(remaining@.to_multiset()) =~= orig.to_multiset(),
            sorted@.len() + remaining@.len() == orig.len(),
        decreases remaining@.len(),
    {
        let mut min_p: usize = 0;
        let mut p: usize = 1;
        while p < remaining.len()
            invariant
                remaining@.len() > 0,
                0 <= min_p < remaining@.len(),
                1 <= p <= remaining@.len(),
                forall|q: int| 0 <= q < p ==> remaining@[min_p as int] <= remaining@[q],
            decreases remaining@.len() - p,
        {
            if remaining[p] < remaining[min_p] {
                min_p = p;
            }
            p += 1;
        }
        let ghost r_old = remaining@;
        let ghost s_old = sorted@;
        let x = remaining.remove(min_p);
        sorted.push(x);
        proof {
            assert(x == r_old[min_p as int]);
            assert(r_old.contains(x));
            assert(forall|j: int|
                0 <= j < remaining@.len() ==> remaining@[j] == (if j < min_p {
                    r_old[j]
                } else {
                    r_old[j + 1]
                }));
            assert(sorted@.to_multiset().add(remaining@.to_multiset()) =~= s_old.to_multiset().add(
                r_old.to_multiset(),
            ));
        }
    }
    proof {
        assert(remaining@.to_multiset() =~= Multiset::<u64>::empty());
        assert(sorted@.to_multiset() =~= orig.to_multiset());
    }
    sorted
}

/// Latency percentiles over sorted samples, all in microseconds: the mean
/// and the 50th, 95th and 99th percentile samples.
///
/// An empty input reports all zeroes. Percentile positions follow the
/// nearest-rank convention `len * p / 100`, with the 99th capped at the
/// last sample.
pub fn percentiles_micros(sorted: &Vec<u64>) -> (r: (u64, u64, u64, u64))
    requires
        spec_is_sorted(sorted@),
        sorted@.len() <= usize::MAX / 99,
    ensures
        sorted@.len() == 0 ==> r == (0u64, 0u64, 0u64, 0u64),
        sorted@.len() > 0 ==> {
            &&& r.0 == spec_sum(sorted@) / (sorted@.len() as int)
            &&& r.1 == sorted@[sorted@.len() as int * 50 / 100]
            &&& r.2 == sorted@[sorted@.len() as int * 95 / 100]
            &&& r.3 == sorted@[if sorted@.len() as int * 99 / 100 < sorted@.len() - 1 {
                sorted@.len() as int * 99 / 100
            } else {
                sorted@.len() - 1
            }]
        },
{
    let len = sorted.len();
    if len == 0 {
        return (0, 0, 0, 0);
    }
    let mut sum: u128 = 0;
    let mut i: usize = 0;
    while i < len
        invariant
            0 <= i <= len,
            len == sorted@.len(),
            sum == spec_sum(sorted@.subrange(0, i as int)),
            sum <= i * 0xffff_ffff_ffff_ffffu64,
        decreases len - i,
    {
        proof {
            assert(sorted@.subrange(0, i + 1).drop_last() =~= sorted@.subrange(0, i as int));
            assert(sorted@.subrange(0, i + 1).last() == sorted@[i as int]);
        }
        sum += sorted[i] as u128;
        i += 1;
    }
    proof {
        assert(sorted@.subrange(0, len as int) =~= sorted@);
    }
    proof {
        let max: int = 0xffff_ffff_ffff_ffff;
        vstd::arithmetic::div_mod::lemma_div_is_ordered(sum as int, len as int * max, len as int);
        vstd::arithmetic::div_mod::lemma_div_by_multiple(max, len as int);
        assert(len as int * max == max * len as int) by (nonlinear_arith);
        assert(sum as int / len as int <= max);
    }
    let avg = (sum / (len as u128)) as u64;
    let p50 = sorted[len * 50 / 100];
    let p95 = sorted[len * 95 / 100];
    let p99_idx = {
        let idx = len * 99 / 100;
        if idx < len - 1 {
            idx
        } else {
            len - 1
        }
    };
    let p99 = sorted[p99_idx];
    (avg, p50, p95, p99)
}

/// Relies on `String::push`: appends exactly the one character.
#[verifier::external_body]
fn push_char(s: &mut String, c: char)
    ensures
        final(s)@ == old(s)@.push(c),
{
    s.push(c);
}

/// The decimal digit character for a value below ten.
pub open spec fn spec_digit(d: int) -> char {
    ((48 + d) as u32) as char
}

/// The decimal rendering of a non-negative number, most significant digit
/// first, without leading zeroes (a lone zero for 0).
pub open spec fn spec_decimal(n: int) -> Seq<char>
    decreases n,
{
    if n < 10 {
        seq![spec_digit(n)]
    } else {
        spec_decimal(n / 10).push(spec_digit(n % 10))
    }
}

/// The decimal rendering padded with a leading zero to at least two
/// digits.
pub open spec fn spec_two_digits(n: int) -> Seq<char> {
    if n < 10 {
        seq!['0', spec_digit(n)]
    } else {
        spec_decimal(n)
    }
}

/// `HH:MM:SS` — hours, minutes and seconds, each zero-padded to two
/// digits; the hour field grows beyond two digits when needed.
pub open spec fn spec_format_duration(total_secs: int) -> Seq<char> {
    spec_two_digits(total_secs / 3600) + seq![':'] + spec_two_digits((total_secs % 3600) / 60)
        + seq![':'] + spec_two_digits(total_secs % 60)
}

/// Append the decimal rendering of `n`.
fn push_decimal(out: &mut String, n: u64)
    ensures
        final(out)@ == old(out)@ + spec_decimal(n as int),
    decreases n,
{
    if n < 10 {
        push_char(out, (48 + n as u8) as char);
        proof {
            assert(final(out)@ =~= old(out)@ + spec_decimal(n as int));
        }
    } else {
        proof {
            vstd::arithmetic::div_mod::lemma_div_is_strictly_smaller(n as int, 10);
        }
        push_decimal(out, n / 10);
        push_char(out, (48 + (n % 10) as u8) as char);
        proof {
            assert(final(out)@ =~= old(out)@ + spec_decimal(n as int));
        }
    }
}

/// Append the decimal rendering of `n`, zero-padded to two digits.
fn push_two_digits(out: &mut String, n: u64)
    ensures
        final(out)@ == old(out)@ + spec_two_digits(n as int),
{
    if n < 10 {
        push_char(out, '0');
        push_char(out, (48 + n as u8) as char);
        proof {
            assert(final(out)@ =~= old(out)@ + spec_two_digits(n as int));
        }
    } else {
        push_decimal(out, n);
    }
}

/// Render an elapsed duration as a wall clock would: `HH:MM:SS`, each
/// field zero-padded to two digits.
pub fn format_duration(total_secs: u64) -> (r: String)
    ensures
        r@ == spec_format_duration(total_secs as int),
{
    let hours = total_secs / 3600;
    let mins = (total_secs % 3600) / 60;
    let secs = total_secs % 60;
    let mut out = String::new();
    push_two_digits(&mut out, hours);
    push_char(&mut out, ':');
    push_two_digits(&mut out, mins);
    push_char(&mut out, ':');
    push_two_digits(&mut out, secs);
    proof {
        assert(out@ =~= spec_format_duration(total_secs as int));
    }
    out
}

} // verus!

//! The machine-wide CPU counters: how they are read from a line of text,
//! and how two successive readings give the busy share of an interval.

use crate::ratio::Ratio;
use crate::text::{parse_u64, parse_u64_spec, split_whitespace, split_whitespace_spec, to_chars};
use vstd::prelude::*;

verus! {

/// The value of the `k`-th word of `line` as a tick count. A word that is
/// missing, or that is no unsigned decimal number of 64 bits, counts as
/// zero.
pub open spec fn stat_field(line: Seq<char>, k: int) -> nat {
    let words = split_whitespace_spec(line);
    if 0 <= k < words.len() {
        match parse_u64_spec(words[k]) {
            Some(v) => v as nat,
            None => 0,
        }
    } else {
        0
    }
}

/// `n`, or the largest `u64` where `n` is larger.
pub open spec fn saturate_u64(n: nat) -> u64 {
    if n > u64::MAX {
        u64::MAX
    } else {
        n as u64
    }
}

/// The idle ticks that `line` reports: idle and iowait together.
pub open spec fn idle_ticks(line: Seq<char>) -> u64 {
    saturate_u64(stat_field(line, 3) + stat_field(line, 4))
}

/// The busy ticks that `line` reports: user, nice, system, irq, softirq
/// and steal together. Guest time is left out, as user and nice hold it
/// already.
pub open spec fn non_idle_ticks(line: Seq<char>) -> u64 {
    saturate_u64(
        stat_field(line, 0) + stat_field(line, 1) + stat_field(line, 2) + stat_field(line, 5)
            + stat_field(line, 6) + stat_field(line, 7),
    )
}

fn field_value(words: &Vec<&[char]>, k: usize, Ghost(line): Ghost<Seq<char>>) -> (v: u64)
    requires
        crate::text::slice_views(words@) == split_whitespace_spec(line),
    ensures
        v == stat_field(line, k as int),
{
    if k < words.len() {
        assert(crate::text::slice_views(words@)[k as int] == words@[k as int]@);
        match parse_u64(words[k]) {
            Some(v) => v,
            None => 0,
        }
    } else {
        0
    }
}

fn saturate(n: u128) -> (v: u64)
    ensures
        v == saturate_u64(n as nat),
{
    if n > u64::MAX as u128 {
        u64::MAX
    } else {
        n as u64
    }
}

/// Reads the idle and the busy tick counts off the counters of a CPU line:
/// the words of `line` are taken, in order, as user, nice, system, idle,
/// iowait, irq, softirq and steal. Sums that do not fit stay at the
/// largest `u64`.
pub fn fetch_cpu_usage(line: &str) -> (ticks: (u64, u64))
    ensures
        ticks == (idle_ticks(line@), non_idle_ticks(line@)),
{
    let chars = to_chars(line);
    let words = split_whitespace(chars.as_slice());
    let user = field_value(&words, 0, Ghost(line@));
    let nice = field_value(&words, 1, Ghost(line@));
    let system = field_value(&words, 2, Ghost(line@));
    let idle = field_value(&words, 3, Ghost(line@));
    let iowait = field_value(&words, 4, Ghost(line@));
    let irq = field_value(&words, 5, Ghost(line@));
    let softirq = field_value(&words, 6, Ghost(line@));
    let steal = field_value(&words, 7, Ghost(line@));

    let idle = saturate(idle as u128 + iowait as u128);
    let non_idle = saturate(
        user as u128 + nice as u128 + system as u128 + irq as u128 + softirq as u128
            + steal as u128,
    );
    (idle, non_idle)
}

/// What one interval of the machine's CPU counters amounts to.
#[derive(Clone, Copy, Debug)]
pub struct CpuUsage {
    /// The busy ticks of the interval: all ticks less the idle ones. Where
    /// that difference is zero, one stands in its place.
    pub cpu_usage: i128,
    /// All ticks of the interval, idle and busy.
    pub total_delta: i128,
    /// What the busy ticks are divided by before a process is measured
    /// against them: one, or the number of cores where percentages are not
    /// normalised over the cores.
    pub divisor: u32,
}

impl CpuUsage {
    /// The interval between the reading `(prev_idle, prev_non_idle)` and
    /// the reading `(idle, non_idle)`. Neither count need have grown.
    pub open spec fn between_spec(prev_idle: u64, prev_non_idle: u64, idle: u64, non_idle: u64) -> CpuUsage {
        let total_delta = (idle + non_idle) - (prev_idle + prev_non_idle);
        let idle_delta = idle - prev_idle;
        CpuUsage {
            cpu_usage: if total_delta - idle_delta != 0 {
                (total_delta - idle_delta) as i128
            } else {
                1
            },
            total_delta: total_delta as i128,
            divisor: 1,
        }
    }

    /// The share of the interval that was busy: the busy ticks over all
    /// ticks, and zero for an interval without ticks.
    pub open spec fn cpu_fraction_spec(self) -> Ratio {
        if self.total_delta != 0 {
            Ratio { num: self.cpu_usage, den: self.total_delta }
        } else {
            Ratio::zero_spec()
        }
    }

    /// The interval between two readings of the counters.
    #[verifier::when_used_as_spec(between_spec)]
    pub fn between(prev_idle: u64, prev_non_idle: u64, idle: u64, non_idle: u64) -> (usage: CpuUsage)
        ensures
            usage == CpuUsage::between_spec(prev_idle, prev_non_idle, idle, non_idle),
            usage.cpu_usage != 0,
    {
        let total: i128 = idle as i128 + non_idle as i128;
        let prev_total: i128 = prev_idle as i128 + prev_non_idle as i128;
        let total_delta: i128 = total - prev_total;
        let idle_delta: i128 = idle as i128 - prev_idle as i128;
        let cpu_usage: i128 = if total_delta - idle_delta != 0 {
            total_delta - idle_delta
        } else {
            1
        };
        CpuUsage { cpu_usage, total_delta, divisor: 1 }
    }

    /// The share of the interval that was busy.
    #[verifier::when_used_as_spec(cpu_fraction_spec)]
    pub fn cpu_fraction(self) -> (fraction: Ratio)
        ensures
            fraction == self.cpu_fraction_spec(),
            fraction.wf(),
    {
        if self.total_delta != 0 {
            Ratio { num: self.cpu_usage, den: self.total_delta }
        } else {
            Ratio::zero()
        }
    }

    /// The same interval with its busy ticks spread over `num_processors`
    /// cores, so that a process that fills one core reads as a hundred
    /// percent. The busy share of the interval stays as it is.
    pub fn per_core(self, num_processors: u32) -> (usage: CpuUsage)
        ensures
            usage == (CpuUsage { divisor: num_processors, ..self }),
    {
        CpuUsage { cpu_usage: self.cpu_usage, total_delta: self.total_delta, divisor: num_processors }
    }
}

/// Takes the counters of `first_line` as the new reading, and returns the
/// interval since the reading held in `prev_idle` and `prev_non_idle`,
/// which the new one replaces.
pub fn cpu_usage_calculation(prev_idle: &mut u64, prev_non_idle: &mut u64, first_line: &str) -> (usage:
    CpuUsage)
    ensures
        *final(prev_idle) == idle_ticks(first_line@),
        *final(prev_non_idle) == non_idle_ticks(first_line@),
        usage == CpuUsage::between_spec(
            *old(prev_idle),
            *old(prev_non_idle),
            idle_ticks(first_line@),
            non_idle_ticks(first_line@),
        ),
        usage.cpu_usage != 0,
{
    let (idle, non_idle) = fetch_cpu_usage(first_line);
    let usage = CpuUsage::between(*prev_idle, *prev_non_idle, idle, non_idle);
    *prev_idle = idle;
    *prev_non_idle = non_idle;
    usage
}

/// Two successive readings that are the same leave an interval without
/// ticks: its busy share is zero, and one stands for its busy ticks.
pub proof fn lemma_same_reading_has_zero_fraction(idle: u64, non_idle: u64)
    ensures
        CpuUsage::between_spec(idle, non_idle, idle, non_idle).total_delta == 0,
        CpuUsage::between_spec(idle, non_idle, idle, non_idle).cpu_usage == 1,
        CpuUsage::between_spec(idle, non_idle, idle, non_idle).cpu_fraction_spec()
            == Ratio::zero_spec(),
{
}

/// The busy ticks of an interval are the growth of the busy counter, and
/// the busy share is that growth over the growth of both counters.
pub proof fn lemma_busy_ticks(prev_idle: u64, prev_non_idle: u64, idle: u64, non_idle: u64)
    requires
        non_idle != prev_non_idle,
    ensures
        CpuUsage::between_spec(prev_idle, prev_non_idle, idle, non_idle).cpu_usage == non_idle
            - prev_non_idle,
        CpuUsage::between_spec(prev_idle, prev_non_idle, idle, non_idle).total_delta == (idle
            - prev_idle) + (non_idle - prev_non_idle),
{
}

} // verus!

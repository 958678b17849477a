//! The periodic report line: listener count, total kibibytes handed out,
//! and throughput since the previous tick.
//!
//! Throughput is the byte delta over the elapsed wall time of this tick
//! alone, not a cumulative average; the very first tick, having no
//! previous sample, reports zero.

use vstd::prelude::*;

verus! {

/// The sum of the per-listener byte counters in one stats snapshot.
pub open spec fn total_bytes_spec(stats: Seq<(usize, u64, u64)>) -> int
    decreases stats.len(),
{
    if stats.len() == 0 {
        0
    } else {
        total_bytes_spec(stats.drop_last()) + stats.last().1
    }
}

/// `total_bytes_spec`, capped at the counter's maximum.
pub open spec fn total_bytes_capped_spec(stats: Seq<(usize, u64, u64)>) -> u64 {
    if total_bytes_spec(stats) <= u64::MAX {
        total_bytes_spec(stats) as u64
    } else {
        u64::MAX
    }
}

/// Kibibytes per second moved since the previous sample: the byte delta
/// over this tick's elapsed time alone.  Zero on the first tick (no
/// previous sample) and while no time has elapsed.
pub open spec fn tick_kib_per_second_spec(
    prev_total: Option<u64>,
    total: u64,
    elapsed_micros: u64,
) -> u64 {
    match prev_total {
        Option::None => 0,
        Option::Some(prev) => {
            if elapsed_micros == 0 {
                0
            } else {
                let delta: int = if total >= prev {
                    total - prev
                } else {
                    0
                };
                let rate = delta * 1000000 / ((elapsed_micros as int) * 1024);
                if rate <= u64::MAX {
                    rate as u64
                } else {
                    u64::MAX
                }
            }
        },
    }
}

/// One emitted report line.
pub struct ReportLine {
    /// Connected listeners at this tick.
    pub clients: usize,
    /// Total bytes handed to listeners so far.
    pub total_bytes: u64,
    /// The same total in whole kibibytes.
    pub kib_sent: u64,
    /// Kibibytes per second since the previous tick.
    pub kib_per_second: u64,
}

/// Sum every listener's byte counter in one bandwidth-stats snapshot.
pub fn total_bytes(stats: &Vec<(usize, u64, u64)>) -> (total: u64)
    ensures
        total == total_bytes_capped_spec(stats@),
{
    let mut total: u64 = 0;
    let mut i: usize = 0;
    while i < stats.len()
        invariant
            i <= stats@.len(),
            total == total_bytes_capped_spec(stats@.take(i as int)),
            total_bytes_spec(stats@.take(i as int)) >= 0,
        decreases stats@.len() - i,
    {
        let b = stats[i].1;
        proof {
            let taken = stats@.take(i + 1);
            assert(taken.drop_last() =~= stats@.take(i as int));
            assert(taken.last() == stats@[i as int]);
        }
        total = if b <= u64::MAX - total {
            total + b
        } else {
            u64::MAX
        };
        i = i + 1;
    }
    proof {
        assert(stats@.take(i as int) =~= stats@);
    }
    total
}

/// Assemble one report line from a stats snapshot, the previous tick's
/// total (if any), and the time this tick spans.
pub fn report_tick(
    stats: &Vec<(usize, u64, u64)>,
    prev_total: Option<u64>,
    elapsed_micros: u64,
) -> (line: ReportLine)
    ensures
        line.clients == stats@.len(),
        line.total_bytes == total_bytes_capped_spec(stats@),
        line.kib_sent == line.total_bytes / 1024,
        line.kib_per_second == tick_kib_per_second_spec(
            prev_total,
            total_bytes_capped_spec(stats@),
            elapsed_micros,
        ),
{
    let total = total_bytes(stats);
    let kib_per_second: u64 = match prev_total {
        Option::None => 0,
        Option::Some(prev) => {
            if elapsed_micros == 0 {
                0
            } else {
                let delta: u64 = if total >= prev {
                    total - prev
                } else {
                    0
                };
                let wide: u128 = (delta as u128) * 1000000 / ((elapsed_micros as u128) * 1024);
                proof {
                    assert((delta as u128) * 1000000 == ((delta as int) * 1000000) as u128)
                        by (nonlinear_arith);
                    assert((elapsed_micros as u128) * 1024 == ((elapsed_micros as int) * 1024)
                        as u128) by (nonlinear_arith);
                }
                if wide > u64::MAX as u128 {
                    u64::MAX
                } else {
                    wide as u64
                }
            }
        },
    };
    ReportLine { clients: stats.len(), total_bytes: total, kib_sent: total / 1024, kib_per_second }
}

} // verus!

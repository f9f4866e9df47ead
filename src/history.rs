//! Session history entries and their summary statistics.

use vstd::prelude::*;
use crate::models::SessionStatus;

verus! {

/// One past session as the history shows it. Times and the duration are in seconds.
#[derive(Debug, Clone)]
pub struct HistoryEntry {
    pub connection_name: String,
    pub started_at: i64,
    pub ended_at: Option<i64>,
    pub status: SessionStatus,
    pub exit_code: Option<i32>,
    pub duration: Option<i64>,
}

/// Counts over a list of history entries. The success rate is
/// `successful / total`, left to the caller.
#[derive(Debug, Clone, Copy, PartialEq, Eq)]
pub struct HistoryStats {
    pub total: usize,
    pub successful: usize,
    pub failed: usize,
    /// The mean duration of the entries that have one, rounded toward zero;
    /// zero if none has.
    pub avg_duration: i64,
}

/// A session that ended normally with exit code 0.
pub open spec fn is_success(e: HistoryEntry) -> bool {
    e.status is Terminated && e.exit_code == Some(0i32)
}

/// A session that failed, or ended with an exit code other than 0.
pub open spec fn is_failure(e: HistoryEntry) -> bool {
    e.status is Error || (e.status is Terminated && e.exit_code != Some(0i32))
}

pub open spec fn count_successes(s: Seq<HistoryEntry>) -> nat
    decreases s.len(),
{
    if s.len() == 0 {
        0
    } else {
        count_successes(s.drop_last()) + if is_success(s.last()) {
            1nat
        } else {
            0
        }
    }
}

pub open spec fn count_failures(s: Seq<HistoryEntry>) -> nat
    decreases s.len(),
{
    if s.len() == 0 {
        0
    } else {
        count_failures(s.drop_last()) + if is_failure(s.last()) {
            1nat
        } else {
            0
        }
    }
}

/// The number of entries with a duration.
pub open spec fn count_timed(s: Seq<HistoryEntry>) -> nat
    decreases s.len(),
{
    if s.len() == 0 {
        0
    } else {
        count_timed(s.drop_last()) + if s.last().duration is Some {
            1nat
        } else {
            0
        }
    }
}

/// The sum of the durations that are present.
pub open spec fn duration_sum(s: Seq<HistoryEntry>) -> int
    decreases s.len(),
{
    if s.len() == 0 {
        0
    } else {
        duration_sum(s.drop_last()) + match s.last().duration {
            Some(d) => d as int,
            None => 0,
        }
    }
}

/// `a / b` rounded toward zero, for `b > 0`.
pub open spec fn div_toward_zero(a: int, b: int) -> int {
    if a >= 0 {
        a / b
    } else {
        -((-a) / b)
    }
}

/// The statistics of a list of entries.
pub open spec fn stats_spec(s: Seq<HistoryEntry>) -> HistoryStats {
    HistoryStats {
        total: s.len() as usize,
        successful: count_successes(s) as usize,
        failed: count_failures(s) as usize,
        avg_duration: if count_timed(s) > 0 {
            div_toward_zero(duration_sum(s), count_timed(s) as int) as i64
        } else {
            0
        },
    }
}

proof fn lemma_avg_in_range(sum: int, c: int)
    requires
        c >= 1,
        -c * 0x8000_0000_0000_0000 <= sum <= c * 0x7fff_ffff_ffff_ffff,
    ensures
        -0x8000_0000_0000_0000 <= div_toward_zero(sum, c) <= 0x7fff_ffff_ffff_ffff,
{
    if sum >= 0 {
        assert(sum / c <= 0x7fff_ffff_ffff_ffff) by (nonlinear_arith)
            requires
                c >= 1,
                0 <= sum <= c * 0x7fff_ffff_ffff_ffff,
        ;
        assert(sum / c >= 0) by (nonlinear_arith)
            requires
                c >= 1,
                0 <= sum,
        ;
    } else {
        assert((-sum) / c <= 0x8000_0000_0000_0000) by (nonlinear_arith)
            requires
                c >= 1,
                0 <= -sum <= c * 0x8000_0000_0000_0000,
        ;
        assert((-sum) / c >= 0) by (nonlinear_arith)
            requires
                c >= 1,
                0 <= -sum,
        ;
    }
}

/// Counts the sessions, the successful and the failed ones, and the mean
/// duration of those with a duration.
pub fn calculate_stats(sessions: &Vec<HistoryEntry>) -> (r: HistoryStats)
    ensures
        r == stats_spec(sessions@),
{
    let n = sessions.len();
    let mut successful: usize = 0;
    let mut failed: usize = 0;
    let mut timed: usize = 0;
    let mut sum: i128 = 0;
    let mut i: usize = 0;
    while i < n
        invariant
            n == sessions@.len(),
            i <= n,
            successful as nat == count_successes(sessions@.subrange(0, i as int)),
            failed as nat == count_failures(sessions@.subrange(0, i as int)),
            timed as nat == count_timed(sessions@.subrange(0, i as int)),
            sum as int == duration_sum(sessions@.subrange(0, i as int)),
            successful <= i,
            failed <= i,
            timed <= i,
            -(timed as int) * 0x8000_0000_0000_0000 <= sum as int <= (timed as int)
                * 0x7fff_ffff_ffff_ffff,
        decreases n - i,
    {
        let e = &sessions[i];
        assert(sessions@.subrange(0, i + 1).drop_last() =~= sessions@.subrange(0, i as int));
        assert(sessions@.subrange(0, i + 1).last() == *e);
        let success = match e.status {
            SessionStatus::Terminated => e.exit_code == Some(0i32),
            _ => false,
        };
        let failure = match e.status {
            SessionStatus::Error(_) => true,
            SessionStatus::Terminated => e.exit_code != Some(0i32),
            _ => false,
        };
        if success {
            successful += 1;
        }
        if failure {
            failed += 1;
        }
        match e.duration {
            Some(d) => {
                proof {
                    let t = timed as int;
                    assert(-(t + 1) * 0x8000_0000_0000_0000 <= sum as int + d as int <= (t + 1)
                        * 0x7fff_ffff_ffff_ffff) by (nonlinear_arith)
                        requires
                            -t * 0x8000_0000_0000_0000 <= sum as int <= t * 0x7fff_ffff_ffff_ffff,
                            -0x8000_0000_0000_0000 <= d as int <= 0x7fff_ffff_ffff_ffff,
                    ;
                    assert((t + 1) * 0x8000_0000_0000_0000 <= 0x8000_0000_0000_0000_0000_0000_0000_0000)
                        by (nonlinear_arith)
                        requires
                            t + 1 <= 0x1_0000_0000_0000_0000,
                    ;
                }
                sum = sum + d as i128;
                timed += 1;
            },
            None => {},
        }
        i += 1;
    }
    assert(sessions@.subrange(0, n as int) =~= sessions@);
    let avg: i64 = if timed > 0 {
        proof {
            lemma_avg_in_range(sum as int, timed as int);
        }
        if sum >= 0 {
            (sum as u128 / timed as u128) as i64
        } else {
            let m: u128 = (0 - sum) as u128;
            (0 - (m / timed as u128) as i128) as i64
        }
    } else {
        0
    };
    HistoryStats { total: n, successful, failed, avg_duration: avg }
}

} // verus!

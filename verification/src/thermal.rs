//! Thermal monitor: bounded temperature and CPU-utilisation histories, a
//! sticky spike latch, and a capped threat score.
//!
//! Temperatures are centi-degrees Celsius and CPU utilisation is
//! centi-percent, both as plain integers; readings come from a telemetry
//! collaborator outside this crate (which may synthesize a bounded estimate
//! when the real probe fails).  The score is computed in centi-points and
//! truncated once to whole points, mirroring the formulas: (avgTemp-60)*2
//! capped at 40, (avgCPU-80)*2 capped at 40, sample variance times 10 capped
//! at 20, and a flat 80 while the spike flag is latched.

use vstd::prelude::*;
use crate::history::History;
use crate::history::push_capped;
use crate::random::random_up_to;
use crate::spectral::seq_sum;

verus! {

/// Readings kept per history.
pub const THERMAL_HISTORY_CAP: usize = 10;

/// A spike is a rise of more than this many centi-degrees...
pub const SPIKE_DELTA_CENTI: i64 = 1000;

/// ...within less than this many milliseconds of the prior reading.
pub const SPIKE_WINDOW_MILLIS: u64 = 10_000;

/// Largest accepted temperature magnitude, in centi-degrees.
pub const TEMP_LIMIT_CENTI: i32 = 1_000_000;

/// Largest accepted CPU utilisation, in centi-percent.
pub const CPU_LIMIT_CENTI: u32 = 1_000_000;

/// Truncating division (towards zero), as executable `/` behaves on `i64`.
pub open spec fn tdiv(a: int, b: int) -> int {
    if a >= 0 {
        a / b
    } else {
        -((-a) / b)
    }
}

/// Sum of a sequence of centi-degree readings.
pub open spec fn sum_i32(s: Seq<i32>) -> int
    decreases s.len(),
{
    if s.len() == 0 {
        0
    } else {
        sum_i32(s.drop_last()) + s.last()
    }
}

/// Sum of squared deviations from `mean`.
pub open spec fn sq_dev_sum(s: Seq<i32>, mean: int) -> int
    decreases s.len(),
{
    if s.len() == 0 {
        0
    } else {
        sq_dev_sum(s.drop_last(), mean) + (s.last() - mean) * (s.last() - mean)
    }
}

/// Mean temperature of the history, in centi-degrees, truncated.
pub open spec fn avg_temp_centi(s: Seq<i32>) -> int {
    tdiv(sum_i32(s), s.len() as int)
}

/// Mean CPU utilisation of the history, in centi-percent, truncated.
pub open spec fn avg_cpu_centi(s: Seq<u32>) -> int {
    seq_sum(s) / s.len() as int
}

/// Sample variance of the temperature history (over n-1), in squared
/// centi-degrees, about the truncated mean.
pub open spec fn variance_centi2(s: Seq<i32>) -> int {
    sq_dev_sum(s, avg_temp_centi(s)) / (s.len() - 1)
}

/// How one recorded reading relates the monitor state after to the state
/// before: both histories gain the reading (bounded), the spike latch is
/// sticky and set exactly on a fast large rise, and the reading becomes the
/// new reference temperature.
pub open spec fn thermal_recorded(
    pre: ThermalMonitor,
    post: ThermalMonitor,
    temp_centi: i32,
    cpu_centi: u32,
    millis_since_last: u64,
) -> bool {
    &&& post.temperature_history@ == push_capped(
        pre.temperature_history@,
        temp_centi,
        THERMAL_HISTORY_CAP as nat,
    )
    &&& post.cpu_usage_history@ == push_capped(
        pre.cpu_usage_history@,
        cpu_centi,
        THERMAL_HISTORY_CAP as nat,
    )
    &&& post.spike_detected == (pre.spike_detected || (pre.last_temp > 0 && temp_centi
        - pre.last_temp > SPIKE_DELTA_CENTI && millis_since_last < SPIKE_WINDOW_MILLIS))
    &&& post.last_temp == temp_centi
}

/// Thermal monitor state.
pub struct ThermalMonitor {
    /// The previous temperature reading (zero until the first one).
    pub last_temp: i32,
    /// Sticky spike latch.
    pub spike_detected: bool,
    pub temperature_history: History<i32>,
    pub cpu_usage_history: History<u32>,
}

impl ThermalMonitor {
    pub open spec fn wf(&self) -> bool {
        &&& self.temperature_history.wf()
        &&& self.temperature_history.cap_spec() == THERMAL_HISTORY_CAP
        &&& self.cpu_usage_history.wf()
        &&& self.cpu_usage_history.cap_spec() == THERMAL_HISTORY_CAP
        &&& forall|i: int|
            0 <= i < self.temperature_history@.len()
                ==> -TEMP_LIMIT_CENTI <= #[trigger] self.temperature_history@[i]
                    <= TEMP_LIMIT_CENTI
        &&& forall|i: int|
            0 <= i < self.cpu_usage_history@.len()
                ==> #[trigger] self.cpu_usage_history@[i] <= CPU_LIMIT_CENTI
        &&& -TEMP_LIMIT_CENTI <= self.last_temp <= TEMP_LIMIT_CENTI
    }

    pub fn new() -> (r: ThermalMonitor)
        ensures
            r.wf(),
            r.last_temp == 0,
            !r.spike_detected,
            r.temperature_history@ == Seq::<i32>::empty(),
            r.cpu_usage_history@ == Seq::<u32>::empty(),
    {
        ThermalMonitor {
            last_temp: 0,
            spike_detected: false,
            temperature_history: History::new(THERMAL_HISTORY_CAP),
            cpu_usage_history: History::new(THERMAL_HISTORY_CAP),
        }
    }

    /// Record one reading pair.  Appends to both bounded histories, and
    /// latches the sticky spike flag when the temperature rose by more than
    /// `SPIKE_DELTA_CENTI` within less than `SPIKE_WINDOW_MILLIS` of the
    /// prior reading (the first reading, while `last_temp` is still zero,
    /// never latches).
    pub fn record_reading(&mut self, temp_centi: i32, cpu_centi: u32, millis_since_last: u64)
        requires
            old(self).wf(),
            -TEMP_LIMIT_CENTI <= temp_centi <= TEMP_LIMIT_CENTI,
            cpu_centi <= CPU_LIMIT_CENTI,
        ensures
            final(self).wf(),
            thermal_recorded(*old(self), *final(self), temp_centi, cpu_centi, millis_since_last),
    {
        self.temperature_history.push(temp_centi);
        self.cpu_usage_history.push(cpu_centi);
        if self.last_temp > 0 {
            let diff: i64 = temp_centi as i64 - self.last_temp as i64;
            if diff > SPIKE_DELTA_CENTI && millis_since_last < SPIKE_WINDOW_MILLIS {
                self.spike_detected = true;
            }
        }
        self.last_temp = temp_centi;
    }

    /// The thermal threat score, in whole points.
    pub open spec fn threat_score_spec(&self) -> int {
        if self.spike_detected {
            80
        } else if self.temperature_history@.len() == 0 || self.cpu_usage_history@.len() == 0 {
            0
        } else {
            let avg_t = avg_temp_centi(self.temperature_history@);
            let avg_c = avg_cpu_centi(self.cpu_usage_history@);
            let ts = if avg_t > 6000 {
                if (avg_t - 6000) * 2 > 4000 {
                    4000
                } else {
                    (avg_t - 6000) * 2
                }
            } else {
                0
            };
            let cs = if avg_c > 8000 {
                if (avg_c - 8000) * 2 > 4000 {
                    4000
                } else {
                    (avg_c - 8000) * 2
                }
            } else {
                0
            };
            let var = if self.temperature_history@.len() > 1 {
                variance_centi2(self.temperature_history@)
            } else {
                0
            };
            let vs = if var / 10 > 2000 {
                2000
            } else {
                var / 10
            };
            (ts + cs + vs) / 100
        }
    }

    /// The thermal threat score: a flat 80 while the spike flag is latched,
    /// whatever the histories hold; otherwise the sum of the three capped
    /// terms, truncated to whole points.
    pub fn get_threat_score(&self) -> (r: u8)
        requires
            self.wf(),
        ensures
            r == self.threat_score_spec(),
            self.spike_detected ==> r == 80,
            r <= 100,
    {
        if self.spike_detected {
            return 80;
        }
        let n: usize = self.temperature_history.len();
        let nc: usize = self.cpu_usage_history.len();
        if n == 0 || nc == 0 {
            return 0;
        }
        let ghost ts_seq = self.temperature_history@;
        let ghost cs_seq = self.cpu_usage_history@;
        proof {
            self.temperature_history.lemma_len_within_cap();
            self.cpu_usage_history.lemma_len_within_cap();
        }

        // Mean temperature.
        let mut sum_t: i64 = 0;
        let mut i: usize = 0;
        while i < n
            invariant
                i <= n,
                n <= THERMAL_HISTORY_CAP,
                n == ts_seq.len(),
                ts_seq == self.temperature_history@,
                self.temperature_history.wf(),
                forall|k: int|
                    0 <= k < ts_seq.len() ==> -TEMP_LIMIT_CENTI <= #[trigger] ts_seq[k]
                        <= TEMP_LIMIT_CENTI,
                sum_t == sum_i32(ts_seq.subrange(0, i as int)),
                -(i as int) * (TEMP_LIMIT_CENTI as int) <= sum_t <= (i as int) * (
                TEMP_LIMIT_CENTI as int),
            decreases n - i,
        {
            proof {
                assert(ts_seq.subrange(0, i as int + 1).drop_last() =~= ts_seq.subrange(
                    0,
                    i as int,
                ));
                assert((i as int) * (TEMP_LIMIT_CENTI as int) + TEMP_LIMIT_CENTI == (i as int + 1)
                    * (TEMP_LIMIT_CENTI as int)) by (nonlinear_arith);
            }
            sum_t = sum_t + (self.temperature_history.get(i) as i64);
            i = i + 1;
        }
        proof {
            assert(ts_seq.subrange(0, n as int) =~= ts_seq);
            assert((n as int) * (TEMP_LIMIT_CENTI as int) <= 10 * (TEMP_LIMIT_CENTI as int))
                by (nonlinear_arith)
                requires
                    0 <= n <= 10,
            ;
        }
        let avg_t: i64 = if sum_t >= 0 {
            sum_t / (n as i64)
        } else {
            -((-sum_t) / (n as i64))
        };
        assert(avg_t == avg_temp_centi(ts_seq));
        proof {
            assert(sum_t >= 0 ==> sum_t as int / (n as int) <= TEMP_LIMIT_CENTI) by (nonlinear_arith)
                requires
                    n >= 1,
                    sum_t <= (n as int) * (TEMP_LIMIT_CENTI as int),
            ;
            assert(sum_t < 0 ==> (-(sum_t as int)) / (n as int) <= TEMP_LIMIT_CENTI) by (nonlinear_arith)
                requires
                    n >= 1,
                    -((n as int) * (TEMP_LIMIT_CENTI as int)) <= sum_t,
            ;
        }

        // Mean CPU utilisation.
        let mut sum_c: u64 = 0;
        let mut j: usize = 0;
        while j < nc
            invariant
                j <= nc,
                nc <= THERMAL_HISTORY_CAP,
                nc == cs_seq.len(),
                cs_seq == self.cpu_usage_history@,
                self.cpu_usage_history.wf(),
                forall|k: int| 0 <= k < cs_seq.len() ==> #[trigger] cs_seq[k] <= CPU_LIMIT_CENTI,
                sum_c == seq_sum(cs_seq.subrange(0, j as int)),
                sum_c <= (j as int) * (CPU_LIMIT_CENTI as int),
            decreases nc - j,
        {
            proof {
                assert(cs_seq.subrange(0, j as int + 1).drop_last() =~= cs_seq.subrange(
                    0,
                    j as int,
                ));
                assert((j as int) * (CPU_LIMIT_CENTI as int) + CPU_LIMIT_CENTI == (j as int + 1) * (
                CPU_LIMIT_CENTI as int)) by (nonlinear_arith);
            }
            sum_c = sum_c + (self.cpu_usage_history.get(j) as u64);
            j = j + 1;
        }
        proof {
            assert(cs_seq.subrange(0, nc as int) =~= cs_seq);
            assert((nc as int) * (CPU_LIMIT_CENTI as int) <= 10 * (CPU_LIMIT_CENTI as int))
                by (nonlinear_arith)
                requires
                    0 <= nc <= 10,
            ;
        }
        let avg_c: u64 = sum_c / (nc as u64);
        assert(avg_c == avg_cpu_centi(cs_seq));
        proof {
            assert(sum_c as int / (nc as int) <= CPU_LIMIT_CENTI) by (nonlinear_arith)
                requires
                    nc >= 1,
                    sum_c <= (nc as int) * (CPU_LIMIT_CENTI as int),
            ;
        }

        // Capped temperature and CPU terms, in centi-points.
        let ts: i64 = if avg_t > 6000 {
            let t: i64 = (avg_t - 6000) * 2;
            if t > 4000 {
                4000
            } else {
                t
            }
        } else {
            0
        };
        let cs: u64 = if avg_c > 8000 {
            let c: u64 = (avg_c - 8000) * 2;
            if c > 4000 {
                4000
            } else {
                c
            }
        } else {
            0
        };

        // Sample variance of the temperature history, in squared
        // centi-degrees, about the truncated mean.
        let var: i64 = if n > 1 {
            let mut vsum: i64 = 0;
            let mut k: usize = 0;
            while k < n
                invariant
                    k <= n,
                    n <= THERMAL_HISTORY_CAP,
                    n == ts_seq.len(),
                    ts_seq == self.temperature_history@,
                    self.temperature_history.wf(),
                    forall|t: int|
                        0 <= t < ts_seq.len() ==> -TEMP_LIMIT_CENTI <= #[trigger] ts_seq[t]
                            <= TEMP_LIMIT_CENTI,
                    -TEMP_LIMIT_CENTI <= avg_t <= TEMP_LIMIT_CENTI,
                    vsum == sq_dev_sum(ts_seq.subrange(0, k as int), avg_t as int),
                    0 <= vsum <= (k as int) * 4_000_000_000_000,
                decreases n - k,
            {
                proof {
                    assert(ts_seq.subrange(0, k as int + 1).drop_last() =~= ts_seq.subrange(
                        0,
                        k as int,
                    ));
                    assert((k as int) * 4_000_000_000_000 + 4_000_000_000_000 == (k as int + 1)
                        * 4_000_000_000_000) by (nonlinear_arith);
                }
                let d: i64 = (self.temperature_history.get(k) as i64) - avg_t;
                assert(0 <= d * d <= 4_000_000_000_000) by (nonlinear_arith)
                    requires
                        -2_000_000 <= d <= 2_000_000,
                ;
                vsum = vsum + d * d;
                k = k + 1;
            }
            proof {
                assert(ts_seq.subrange(0, n as int) =~= ts_seq);
            }
            vsum / ((n - 1) as i64)
        } else {
            0
        };
        proof {
            if n > 1 {
                assert(var == variance_centi2(ts_seq));
                assert(var >= 0) by (nonlinear_arith)
                    requires
                        var == sq_dev_sum(ts_seq, avg_t as int) / (n as int - 1),
                        sq_dev_sum(ts_seq, avg_t as int) >= 0,
                        n as int - 1 >= 1,
                ;
            }
        }
        let vs: i64 = if var / 10 > 2000 {
            2000
        } else {
            var / 10
        };

        let total_centi: i64 = ts + (cs as i64) + vs;
        (total_centi / 100) as u8
    }
}

/// Synthetic temperature estimate when the probe fails: 45 to 50 degrees,
/// in centi-degrees.
pub fn fallback_temperature_centi() -> (r: i32)
    ensures
        4500 <= r <= 5000,
{
    let x: u32 = random_up_to(500);
    4500 + (x as i32)
}

/// Synthetic CPU utilisation estimate when the probe fails: 0 to 100
/// percent, in centi-percent.
pub fn fallback_cpu_centi() -> (r: u32)
    ensures
        r <= 10_000,
{
    random_up_to(10_000)
}

/// Temperature estimate from battery state, in centi-degrees: discharging
/// below half charge reads as 45 degrees plus a tenth of the missing charge.
pub fn temp_estimate_from_battery(battery_percent: u8, on_ac: bool) -> (r: Option<i32>)
    ensures
        r is Some <==> (!on_ac && battery_percent < 50),
        r matches Some(t) ==> t == 4500 + (100 - battery_percent) * 10,
    {
    if !on_ac && battery_percent < 50 {
        Some(4500 + (100 - battery_percent as i32) * 10)
    } else {
        None
    }
}

/// Temperature estimate from CPU utilisation, in centi-degrees: 40 degrees
/// plus a fifth of the utilisation percentage.
pub fn temp_estimate_from_cpu(cpu_centi: u32) -> (r: i32)
    requires
        cpu_centi <= CPU_LIMIT_CENTI,
    ensures
        r == 4000 + cpu_centi / 5,
{
    4000 + (cpu_centi / 5) as i32
}

} // verus!

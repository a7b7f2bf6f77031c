//! Fusion engine: owns the monitors, runs their lifecycles, keeps the
//! engine-level histories, and folds the current sensor scores into one
//! combined score.
//!
//! The coordinating loop outside this crate calls `tick` on a fast fixed
//! cadence with the latest thermal reading, and `mail_cycle` on a much
//! coarser cadence with the fetched message bodies (or `None` when the mail
//! collaborator failed, which leaves the published URL list and mail score
//! untouched).  The combined score is the truncated mean of the three
//! always-on sensor scores; the mail score is folded in as a fourth term
//! whenever a mail cycle succeeds.

use vstd::prelude::*;
use crate::email::max_url_score;
use crate::email::url_score_spec;
use crate::email::urls_of_all;
use crate::email::views_of;
use crate::email::EmailMonitor;
use crate::history::push_capped;
use crate::history::History;
use crate::kernel::proc_models;
use crate::kernel::usb_models;
use crate::kernel::KernelMonitor;
use crate::kernel::ProcessInfo;
use crate::kernel::UsbDeviceInfo;
use crate::lifecycle::Lifecycle;
use crate::mic::MicMonitor;
use crate::thermal::thermal_recorded;
use crate::thermal::ThermalMonitor;
use crate::thermal::CPU_LIMIT_CENTI;
use crate::thermal::TEMP_LIMIT_CENTI;

verus! {

/// Points kept in each engine-level history.
pub const ENGINE_HISTORY_CAP: usize = 100;

/// Truncated mean of the three always-on sensor scores.
pub open spec fn combined3_spec(mic: int, thermal: int, kernel: int) -> int {
    (mic + thermal + kernel) / 3
}

/// Truncated mean with the mail score folded in as a fourth term.
pub open spec fn combined4_spec(mic: int, thermal: int, kernel: int, mail: int) -> int {
    (mic + thermal + kernel + mail) / 4
}

/// Combined score over the three always-on sensors.
pub fn combined_score(mic: u8, thermal: u8, kernel: u8) -> (r: u8)
    ensures
        r == combined3_spec(mic as int, thermal as int, kernel as int),
{
    ((mic as u16 + thermal as u16 + kernel as u16) / 3) as u8
}

/// Combined score with the mail score folded in.
pub fn combined_score_with_mail(mic: u8, thermal: u8, kernel: u8, mail: u8) -> (r: u8)
    ensures
        r == combined4_spec(mic as int, thermal as int, kernel as int, mail as int),
{
    ((mic as u16 + thermal as u16 + kernel as u16 + mail as u16) / 4) as u8
}

/// The microphone power point appended per tick: the current band power, or
/// a stand-in derived from the score when the band power reads zero, or zero
/// while the audio score is zero.
pub open spec fn mic_power_point(m: MicMonitor) -> u32 {
    if m.analyzer.threat_score_spec() > 0 {
        if m.analyzer.band_power > 0 {
            m.analyzer.band_power
        } else {
            (m.analyzer.threat_score_spec() * 5000 + 50_000) as u32
        }
    } else {
        0
    }
}

/// The models of a scored URL list.
pub open spec fn url_models(s: Seq<(Vec<u8>, u8)>) -> Seq<(Seq<u8>, u8)> {
    s.map_values(|p: (Vec<u8>, u8)| (p.0@, p.1))
}

/// The scored URL list a successful mail cycle publishes for the given
/// extracted URLs.
pub open spec fn scored_urls_spec(us: Seq<Seq<u8>>) -> Seq<(Seq<u8>, u8)> {
    Seq::new(us.len(), |k: int| (us[k], url_score_spec(us[k]) as u8))
}

/// A read-only copy of everything the engine publishes.
pub struct FusedSnapshot {
    pub mic_score: u8,
    pub thermal_score: u8,
    pub kernel_score: u8,
    pub email_score: u8,
    pub combined_score: u8,
    /// Engine-level temperature history, centi-degrees, oldest first.
    pub temperature_history: Vec<i32>,
    /// Engine-level microphone power history, scaled, oldest first.
    pub mic_power_history: Vec<u32>,
    /// Tick timestamps, milliseconds since the engine started, oldest first.
    pub time_history: Vec<u64>,
    /// The latest published spectrum.
    pub spectrum: Vec<u32>,
    pub suspicious_processes: Vec<ProcessInfo>,
    pub new_usb_devices: Vec<UsbDeviceInfo>,
    /// The latest published scored URLs.
    pub urls: Vec<(Vec<u8>, u8)>,
}

/// The sensor-fusion engine: one instance per monitor variant plus the
/// aggregate state.
pub struct FusionEngine {
    pub lifecycle: Lifecycle,
    pub mic: MicMonitor,
    pub thermal: ThermalMonitor,
    pub kernel: KernelMonitor,
    pub email: EmailMonitor,
    pub email_score: u8,
    pub urls: Vec<(Vec<u8>, u8)>,
    pub temperature_history: History<i32>,
    pub mic_power_history: History<u32>,
    pub time_history: History<u64>,
    pub combined_score: u8,
}

impl FusionEngine {
    pub open spec fn wf(&self) -> bool {
        &&& self.mic.wf()
        &&& self.thermal.wf()
        &&& self.kernel.wf()
        &&& self.temperature_history.wf()
        &&& self.temperature_history.cap_spec() == ENGINE_HISTORY_CAP
        &&& self.mic_power_history.wf()
        &&& self.mic_power_history.cap_spec() == ENGINE_HISTORY_CAP
        &&& self.time_history.wf()
        &&& self.time_history.cap_spec() == ENGINE_HISTORY_CAP
        // The engine-level histories gain exactly one point per tick each,
        // so they stay length-synchronized.
        &&& self.temperature_history@.len() == self.time_history@.len()
        &&& self.mic_power_history@.len() == self.time_history@.len()
    }

    pub fn new(username: String, password: String, imap_server: String) -> (r: FusionEngine)
        ensures
            r.wf(),
            !r.lifecycle.is_running_spec(),
            r.lifecycle.epoch_spec() == 0,
            !r.mic.lifecycle.is_running_spec(),
            !r.kernel.lifecycle.is_running_spec(),
            r.email_score == 0,
            r.urls@ == Seq::<(Vec<u8>, u8)>::empty(),
            r.temperature_history@ == Seq::<i32>::empty(),
            r.mic_power_history@ == Seq::<u32>::empty(),
            r.time_history@ == Seq::<u64>::empty(),
            r.combined_score == 0,
            r.email.username@ == username@,
            r.email.password@ == password@,
            r.email.imap_server@ == imap_server@,
    {
        let r = FusionEngine {
            lifecycle: Lifecycle::new(),
            mic: MicMonitor::new(),
            thermal: ThermalMonitor::new(),
            kernel: KernelMonitor::new(),
            email: EmailMonitor::new(username, password, imap_server),
            email_score: 0,
            urls: Vec::new(),
            temperature_history: History::new(ENGINE_HISTORY_CAP),
            mic_power_history: History::new(ENGINE_HISTORY_CAP),
            time_history: History::new(ENGINE_HISTORY_CAP),
            combined_score: 0,
        };
        proof {
            assert(r.urls@ =~= Seq::<(Vec<u8>, u8)>::empty());
        }
        r
    }

    /// Start every monitor and the coordinating loop.  Idempotent: when the
    /// engine is already running nothing changes and no loop token is handed
    /// out, so no second loop is ever spawned.
    pub fn start_all(&mut self) -> (r: Option<u64>)
        requires
            old(self).wf(),
            old(self).lifecycle.epoch_spec() < u64::MAX,
            old(self).mic.lifecycle.epoch_spec() < u64::MAX,
            old(self).kernel.lifecycle.epoch_spec() < u64::MAX,
        ensures
            final(self).wf(),
            final(self).lifecycle.is_running_spec(),
            old(self).lifecycle.is_running_spec() ==> r is None && *final(self) == *old(self),
            !old(self).lifecycle.is_running_spec() ==> {
                &&& r == Some(final(self).lifecycle.epoch_spec())
                &&& final(self).lifecycle.epoch_spec() == old(self).lifecycle.epoch_spec() + 1
                &&& final(self).mic.lifecycle.is_running_spec()
                &&& final(self).kernel.lifecycle.is_running_spec()
            },
    {
        let token = self.lifecycle.start();
        match token {
            None => None,
            Some(t) => {
                let _ = self.mic.start_monitoring();
                let _ = self.kernel.start_monitoring();
                Some(t)
            },
        }
    }

    /// Flag every loop to stop, without blocking for completion.
    pub fn stop_all(&mut self)
        requires
            old(self).wf(),
        ensures
            final(self).wf(),
            !final(self).lifecycle.is_running_spec(),
            !final(self).mic.lifecycle.is_running_spec(),
            !final(self).kernel.lifecycle.is_running_spec(),
            final(self).lifecycle.epoch_spec() == old(self).lifecycle.epoch_spec(),
    {
        self.lifecycle.stop();
        self.mic.stop_monitoring();
        self.kernel.stop_monitoring();
    }

    pub fn is_running(&self) -> (r: bool)
        ensures
            r == self.lifecycle.is_running_spec(),
    {
        self.lifecycle.is_running()
    }

    /// Polled by the coordinating loop holding `token`.
    pub fn live(&self, token: u64) -> (r: bool)
        ensures
            r == self.lifecycle.live_spec(token),
    {
        self.lifecycle.live(token)
    }

    /// One coordinating iteration: record the thermal reading, append one
    /// point to each engine-level history (temperature, microphone power,
    /// time), and recompute the combined score as the truncated mean of the
    /// three always-on sensor scores.
    pub fn tick(&mut self, temp_centi: i32, cpu_centi: u32, millis_since_last: u64, now_millis: u64)
        requires
            old(self).wf(),
            -TEMP_LIMIT_CENTI <= temp_centi <= TEMP_LIMIT_CENTI,
            cpu_centi <= CPU_LIMIT_CENTI,
        ensures
            final(self).wf(),
            thermal_recorded(
                old(self).thermal,
                final(self).thermal,
                temp_centi,
                cpu_centi,
                millis_since_last,
            ),
            final(self).temperature_history@ == push_capped(
                old(self).temperature_history@,
                temp_centi,
                ENGINE_HISTORY_CAP as nat,
            ),
            final(self).mic_power_history@ == push_capped(
                old(self).mic_power_history@,
                mic_power_point(old(self).mic),
                ENGINE_HISTORY_CAP as nat,
            ),
            final(self).time_history@ == push_capped(
                old(self).time_history@,
                now_millis,
                ENGINE_HISTORY_CAP as nat,
            ),
            final(self).combined_score == combined3_spec(
                old(self).mic.analyzer.threat_score_spec(),
                final(self).thermal.threat_score_spec(),
                old(self).kernel.threat_score_spec(),
            ),
            final(self).mic == old(self).mic,
            final(self).kernel == old(self).kernel,
            final(self).email == old(self).email,
            final(self).email_score == old(self).email_score,
            final(self).urls@ == old(self).urls@,
            final(self).lifecycle == old(self).lifecycle,
    {
        self.thermal.record_reading(temp_centi, cpu_centi, millis_since_last);
        self.temperature_history.push(temp_centi);

        let mic_score: u8 = self.mic.get_threat_score();
        let power: u32 = if mic_score > 0 {
            let band: u32 = self.mic.get_ultrasonic_power();
            if band > 0 {
                band
            } else {
                (mic_score as u32) * 5000 + 50_000
            }
        } else {
            0
        };
        self.mic_power_history.push(power);
        self.time_history.push(now_millis);

        let thermal_score: u8 = self.thermal.get_threat_score();
        let kernel_score: u8 = self.kernel.get_threat_score();
        self.combined_score = combined_score(mic_score, thermal_score, kernel_score);
    }

    /// One mail cycle.  On a successful fetch, extract and score the URLs,
    /// publish them, take the largest score as the mail score, and fold it
    /// into the combined score as a fourth term.  On a failed fetch
    /// (`None`), nothing changes at all: the previously published URL list
    /// and mail score stay exactly as they were.
    pub fn mail_cycle(&mut self, fetched: Option<Vec<Vec<u8>>>)
        requires
            old(self).wf(),
        ensures
            final(self).wf(),
            fetched is None ==> *final(self) == *old(self),
            fetched matches Some(bodies) ==> {
                let us = urls_of_all(views_of(bodies@));
                &&& url_models(final(self).urls@) == scored_urls_spec(us)
                &&& final(self).email_score == max_url_score(url_models(final(self).urls@))
                &&& final(self).combined_score == combined4_spec(
                    old(self).mic.analyzer.threat_score_spec(),
                    old(self).thermal.threat_score_spec(),
                    old(self).kernel.threat_score_spec(),
                    final(self).email_score as int,
                )
                &&& final(self).mic == old(self).mic
                &&& final(self).thermal == old(self).thermal
                &&& final(self).kernel == old(self).kernel
                &&& final(self).email == old(self).email
                &&& final(self).lifecycle == old(self).lifecycle
                &&& final(self).temperature_history@ == old(self).temperature_history@
                &&& final(self).mic_power_history@ == old(self).mic_power_history@
                &&& final(self).time_history@ == old(self).time_history@
            },
    {
        match fetched {
            None => {},
            Some(bodies) => {
                let ghost us = urls_of_all(views_of(bodies@));
                let extracted = self.email.extract_urls(bodies);
                let scored = self.email.scan_urls(extracted);
                proof {
                    assert(url_models(scored@) =~= scored_urls_spec(us));
                }
                let mx = max_url_score_exec(&scored);
                self.urls = scored;
                self.email_score = mx;
                let mic_score: u8 = self.mic.get_threat_score();
                let thermal_score: u8 = self.thermal.get_threat_score();
                let kernel_score: u8 = self.kernel.get_threat_score();
                self.combined_score = combined_score_with_mail(
                    mic_score,
                    thermal_score,
                    kernel_score,
                    mx,
                );
            },
        }
    }

    /// A copy of everything the engine currently publishes, for display.
    pub fn snapshot(&self) -> (r: FusedSnapshot)
        requires
            self.wf(),
        ensures
            r.mic_score == self.mic.analyzer.threat_score_spec(),
            r.thermal_score == self.thermal.threat_score_spec(),
            r.kernel_score == self.kernel.threat_score_spec(),
            r.email_score == self.email_score,
            r.combined_score == self.combined_score,
            r.temperature_history@ == self.temperature_history@,
            r.mic_power_history@ == self.mic_power_history@,
            r.time_history@ == self.time_history@,
            r.spectrum@ == self.mic.analyzer.spectrum@,
            proc_models(r.suspicious_processes@) == proc_models(
                self.kernel.suspicious_processes@,
            ),
            usb_models(r.new_usb_devices@) == usb_models(self.kernel.new_usb_devices@),
            url_models(r.urls@) == url_models(self.urls@),
    {
        FusedSnapshot {
            mic_score: self.mic.get_threat_score(),
            thermal_score: self.thermal.get_threat_score(),
            kernel_score: self.kernel.get_threat_score(),
            email_score: self.email_score,
            combined_score: self.combined_score,
            temperature_history: self.temperature_history.snapshot(),
            mic_power_history: self.mic_power_history.snapshot(),
            time_history: self.time_history.snapshot(),
            spectrum: self.mic.get_fft_results(),
            suspicious_processes: self.kernel.get_suspicious_processes(),
            new_usb_devices: self.kernel.get_new_usb_devices(),
            urls: copy_urls(&self.urls),
        }
    }
}

/// The largest score among the published URLs (zero when there are none).
fn max_url_score_exec(urls: &Vec<(Vec<u8>, u8)>) -> (r: u8)
    ensures
        r == max_url_score(url_models(urls@)),
{
    let ghost m = url_models(urls@);
    let mut mx: u8 = 0;
    proof {
        assert(m.subrange(0, 0) =~= Seq::<(Seq<u8>, u8)>::empty());
    }
    let mut i: usize = 0;
    while i < urls.len()
        invariant
            i <= urls@.len(),
            m == url_models(urls@),
            mx == max_url_score(m.subrange(0, i as int)),
        decreases urls@.len() - i,
    {
        proof {
            assert(m.subrange(0, i as int + 1).drop_last() =~= m.subrange(0, i as int));
            assert(m.subrange(0, i as int + 1).last() == m[i as int]);
        }
        let sc: u8 = urls[i].1;
        if sc > mx {
            mx = sc;
        }
        i = i + 1;
    }
    proof {
        assert(m.subrange(0, m.len() as int) =~= m);
    }
    mx
}

/// A copy of a scored URL list.
fn copy_urls(urls: &Vec<(Vec<u8>, u8)>) -> (r: Vec<(Vec<u8>, u8)>)
    ensures
        url_models(r@) == url_models(urls@),
{
    let mut out: Vec<(Vec<u8>, u8)> = Vec::new();
    let mut i: usize = 0;
    while i < urls.len()
        invariant
            i <= urls@.len(),
            out@.len() == i,
            forall|k: int|
                0 <= k < i ==> (#[trigger] out@[k]).0@ == urls@[k].0@ && out@[k].1 == urls@[k].1,
        decreases urls@.len() - i,
    {
        let u = &urls[i];
        out.push((crate::text::copy_bytes(&u.0), u.1));
        i = i + 1;
    }
    proof {
        assert(url_models(out@) =~= url_models(urls@));
    }
    out
}

} // verus!

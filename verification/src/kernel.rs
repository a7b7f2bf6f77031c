//! Process and USB telemetry monitor.
//!
//! A process listing comes from an OS collaborator outside this crate as
//! plain records (name bytes, pid, CPU in centi-percent, memory in bytes).
//! Each cycle replaces the suspicious-process list wholesale: a process is
//! suspicious on high CPU, high memory, or a case-insensitive keyword match
//! against a fixed table of suspicious names.  USB listings are diffed
//! against a permanently remembered seen-set; newly inserted devices
//! accumulate in a bounded list.  The threat score is the larger of the
//! process score (maximum per-process score, scaled up with the count) and
//! the USB score (a base score scaled up with the count of new devices).

use vstd::prelude::*;
use crate::history::History;
use crate::history::push_capped;
use crate::lifecycle::Lifecycle;
use crate::text::bytes_eq;
use crate::text::contains_bytes;
use crate::text::contains_seq;
use crate::text::copy_bytes;
use crate::text::lower_seq;
use crate::text::to_ascii_lower;

verus! {

/// Bound on the accumulated new-USB-device list (drop-oldest).
pub const NEW_USB_CAP: usize = 1024;

/// A process is suspicious above this CPU utilisation, in centi-percent.
pub const SUSPICIOUS_CPU_CENTI: u32 = 7000;

/// A process is suspicious above this memory use, in bytes.
pub const SUSPICIOUS_MEMORY_BYTES: u64 = 500_000_000;

/// The keyword "miner".
pub open spec fn kw_miner() -> Seq<u8> {
    seq![109u8, 105u8, 110u8, 101u8, 114u8]
}
/// The keyword "xmrig".
pub open spec fn kw_xmrig() -> Seq<u8> {
    seq![120u8, 109u8, 114u8, 105u8, 103u8]
}
/// The keyword "cryptonight".
pub open spec fn kw_cryptonight() -> Seq<u8> {
    seq![99u8, 114u8, 121u8, 112u8, 116u8, 111u8, 110u8, 105u8, 103u8, 104u8, 116u8]
}
/// The keyword "monero".
pub open spec fn kw_monero() -> Seq<u8> {
    seq![109u8, 111u8, 110u8, 101u8, 114u8, 111u8]
}
/// The keyword "ethminer".
pub open spec fn kw_ethminer() -> Seq<u8> {
    seq![101u8, 116u8, 104u8, 109u8, 105u8, 110u8, 101u8, 114u8]
}
/// The keyword "cgminer".
pub open spec fn kw_cgminer() -> Seq<u8> {
    seq![99u8, 103u8, 109u8, 105u8, 110u8, 101u8, 114u8]
}
/// The keyword "bfgminer".
pub open spec fn kw_bfgminer() -> Seq<u8> {
    seq![98u8, 102u8, 103u8, 109u8, 105u8, 110u8, 101u8, 114u8]
}
/// The keyword "nicehash".
pub open spec fn kw_nicehash() -> Seq<u8> {
    seq![110u8, 105u8, 99u8, 101u8, 104u8, 97u8, 115u8, 104u8]
}
/// The keyword "backdoor".
pub open spec fn kw_backdoor() -> Seq<u8> {
    seq![98u8, 97u8, 99u8, 107u8, 100u8, 111u8, 111u8, 114u8]
}
/// The keyword "trojan".
pub open spec fn kw_trojan() -> Seq<u8> {
    seq![116u8, 114u8, 111u8, 106u8, 97u8, 110u8]
}
/// The keyword "keylogger".
pub open spec fn kw_keylogger() -> Seq<u8> {
    seq![107u8, 101u8, 121u8, 108u8, 111u8, 103u8, 103u8, 101u8, 114u8]
}
/// The keyword "spyware".
pub open spec fn kw_spyware() -> Seq<u8> {
    seq![115u8, 112u8, 121u8, 119u8, 97u8, 114u8, 101u8]
}
/// The keyword "malware".
pub open spec fn kw_malware() -> Seq<u8> {
    seq![109u8, 97u8, 108u8, 119u8, 97u8, 114u8, 101u8]
}
/// The keyword "virus".
pub open spec fn kw_virus() -> Seq<u8> {
    seq![118u8, 105u8, 114u8, 117u8, 115u8]
}
/// The keyword "rootkit".
pub open spec fn kw_rootkit() -> Seq<u8> {
    seq![114u8, 111u8, 111u8, 116u8, 107u8, 105u8, 116u8]
}
/// The keyword "exploit".
pub open spec fn kw_exploit() -> Seq<u8> {
    seq![101u8, 120u8, 112u8, 108u8, 111u8, 105u8, 116u8]
}

/// One keyword's floor: the score is raised to `floor` when `kw` occurs in
/// `name`, and never lowered.
pub open spec fn bump(score: int, name: Seq<u8>, kw: Seq<u8>, floor: int) -> int {
    if contains_seq(name, kw) && floor > score {
        floor
    } else {
        score
    }
}

/// The floor chain over the whole table, applied to `base` in table order:
/// each keyword that occurs in `name` raises the score to its floor, never
/// lowering it.
pub open spec fn keyword_floor(base: int, name: Seq<u8>) -> int {
    let s1 = bump(base, name, kw_miner(), 50);
    let s2 = bump(s1, name, kw_xmrig(), 70);
    let s3 = bump(s2, name, kw_cryptonight(), 60);
    let s4 = bump(s3, name, kw_monero(), 50);
    let s5 = bump(s4, name, kw_ethminer(), 60);
    let s6 = bump(s5, name, kw_cgminer(), 60);
    let s7 = bump(s6, name, kw_bfgminer(), 60);
    let s8 = bump(s7, name, kw_nicehash(), 50);
    let s9 = bump(s8, name, kw_backdoor(), 80);
    let s10 = bump(s9, name, kw_trojan(), 90);
    let s11 = bump(s10, name, kw_keylogger(), 90);
    let s12 = bump(s11, name, kw_spyware(), 80);
    let s13 = bump(s12, name, kw_malware(), 90);
    let s14 = bump(s13, name, kw_virus(), 90);
    let s15 = bump(s14, name, kw_rootkit(), 90);
    bump(s15, name, kw_exploit(), 70)
}

/// Score contribution of the CPU and memory bands.
pub open spec fn band_score(cpu_centi: u32, memory_bytes: u64) -> int {
    let c: int = if cpu_centi >= 9000 {
        40
    } else if cpu_centi >= 7000 {
        30
    } else if cpu_centi >= 5000 {
        20
    } else {
        0
    };
    let m: int = if memory_bytes >= 1_000_000_000 {
        30
    } else if memory_bytes >= 500_000_000 {
        20
    } else if memory_bytes >= 200_000_000 {
        10
    } else {
        0
    };
    c + m
}

/// The per-process suspicion score: CPU and memory bands, raised to the
/// keyword floors over the lower-cased name, clamped to [0, 100].
pub open spec fn process_score_spec(name: Seq<u8>, cpu_centi: u32, memory_bytes: u64) -> int {
    let s = keyword_floor(band_score(cpu_centi, memory_bytes), lower_seq(name));
    if s > 100 {
        100
    } else {
        s
    }
}

/// Whether a process is flagged: CPU above 70%, memory above 500 MB, or a
/// keyword of the table occurs in the lower-cased name (every floor in the
/// table is positive, so a positive floor from base zero is exactly a hit).
pub open spec fn process_suspicious_spec(name: Seq<u8>, cpu_centi: u32, memory_bytes: u64) -> bool {
    ||| cpu_centi > SUSPICIOUS_CPU_CENTI
    ||| memory_bytes > SUSPICIOUS_MEMORY_BYTES
    ||| keyword_floor(0, lower_seq(name)) > 0
}

fn bump_exec(score: u8, lower: &Vec<u8>, kw: &Vec<u8>, floor: u8) -> (r: u8)
    ensures
        r == bump(score as int, lower@, kw@, floor as int),
{
    if contains_bytes(lower, kw) && floor > score {
        floor
    } else {
        score
    }
}

fn kw_miner_vec() -> (r: Vec<u8>)
    ensures
        r@ == kw_miner(),
{
    let r: Vec<u8> = vec![109u8, 105u8, 110u8, 101u8, 114u8];
    proof {
        assert(r@ =~= kw_miner());
    }
    r
}
fn kw_xmrig_vec() -> (r: Vec<u8>)
    ensures
        r@ == kw_xmrig(),
{
    let r: Vec<u8> = vec![120u8, 109u8, 114u8, 105u8, 103u8];
    proof {
        assert(r@ =~= kw_xmrig());
    }
    r
}
fn kw_cryptonight_vec() -> (r: Vec<u8>)
    ensures
        r@ == kw_cryptonight(),
{
    let r: Vec<u8> = vec![99u8, 114u8, 121u8, 112u8, 116u8, 111u8, 110u8, 105u8, 103u8, 104u8, 116u8];
    proof {
        assert(r@ =~= kw_cryptonight());
    }
    r
}
fn kw_monero_vec() -> (r: Vec<u8>)
    ensures
        r@ == kw_monero(),
{
    let r: Vec<u8> = vec![109u8, 111u8, 110u8, 101u8, 114u8, 111u8];
    proof {
        assert(r@ =~= kw_monero());
    }
    r
}
fn kw_ethminer_vec() -> (r: Vec<u8>)
    ensures
        r@ == kw_ethminer(),
{
    let r: Vec<u8> = vec![101u8, 116u8, 104u8, 109u8, 105u8, 110u8, 101u8, 114u8];
    proof {
        assert(r@ =~= kw_ethminer());
    }
    r
}
fn kw_cgminer_vec() -> (r: Vec<u8>)
    ensures
        r@ == kw_cgminer(),
{
    let r: Vec<u8> = vec![99u8, 103u8, 109u8, 105u8, 110u8, 101u8, 114u8];
    proof {
        assert(r@ =~= kw_cgminer());
    }
    r
}
fn kw_bfgminer_vec() -> (r: Vec<u8>)
    ensures
        r@ == kw_bfgminer(),
{
    let r: Vec<u8> = vec![98u8, 102u8, 103u8, 109u8, 105u8, 110u8, 101u8, 114u8];
    proof {
        assert(r@ =~= kw_bfgminer());
    }
    r
}
fn kw_nicehash_vec() -> (r: Vec<u8>)
    ensures
        r@ == kw_nicehash(),
{
    let r: Vec<u8> = vec![110u8, 105u8, 99u8, 101u8, 104u8, 97u8, 115u8, 104u8];
    proof {
        assert(r@ =~= kw_nicehash());
    }
    r
}
fn kw_backdoor_vec() -> (r: Vec<u8>)
    ensures
        r@ == kw_backdoor(),
{
    let r: Vec<u8> = vec![98u8, 97u8, 99u8, 107u8, 100u8, 111u8, 111u8, 114u8];
    proof {
        assert(r@ =~= kw_backdoor());
    }
    r
}
fn kw_trojan_vec() -> (r: Vec<u8>)
    ensures
        r@ == kw_trojan(),
{
    let r: Vec<u8> = vec![116u8, 114u8, 111u8, 106u8, 97u8, 110u8];
    proof {
        assert(r@ =~= kw_trojan());
    }
    r
}
fn kw_keylogger_vec() -> (r: Vec<u8>)
    ensures
        r@ == kw_keylogger(),
{
    let r: Vec<u8> = vec![107u8, 101u8, 121u8, 108u8, 111u8, 103u8, 103u8, 101u8, 114u8];
    proof {
        assert(r@ =~= kw_keylogger());
    }
    r
}
fn kw_spyware_vec() -> (r: Vec<u8>)
    ensures
        r@ == kw_spyware(),
{
    let r: Vec<u8> = vec![115u8, 112u8, 121u8, 119u8, 97u8, 114u8, 101u8];
    proof {
        assert(r@ =~= kw_spyware());
    }
    r
}
fn kw_malware_vec() -> (r: Vec<u8>)
    ensures
        r@ == kw_malware(),
{
    let r: Vec<u8> = vec![109u8, 97u8, 108u8, 119u8, 97u8, 114u8, 101u8];
    proof {
        assert(r@ =~= kw_malware());
    }
    r
}
fn kw_virus_vec() -> (r: Vec<u8>)
    ensures
        r@ == kw_virus(),
{
    let r: Vec<u8> = vec![118u8, 105u8, 114u8, 117u8, 115u8];
    proof {
        assert(r@ =~= kw_virus());
    }
    r
}
fn kw_rootkit_vec() -> (r: Vec<u8>)
    ensures
        r@ == kw_rootkit(),
{
    let r: Vec<u8> = vec![114u8, 111u8, 111u8, 116u8, 107u8, 105u8, 116u8];
    proof {
        assert(r@ =~= kw_rootkit());
    }
    r
}
fn kw_exploit_vec() -> (r: Vec<u8>)
    ensures
        r@ == kw_exploit(),
{
    let r: Vec<u8> = vec![101u8, 120u8, 112u8, 108u8, 111u8, 105u8, 116u8];
    proof {
        assert(r@ =~= kw_exploit());
    }
    r
}

/// Apply every keyword floor of the table, in order, to `base`.
fn apply_keyword_floors(base: u8, lower: &Vec<u8>) -> (r: u8)
    ensures
        r == keyword_floor(base as int, lower@),
{
    let mut score: u8 = base;
    let kw0: Vec<u8> = kw_miner_vec();
    score = bump_exec(score, lower, &kw0, 50);
    let kw1: Vec<u8> = kw_xmrig_vec();
    score = bump_exec(score, lower, &kw1, 70);
    let kw2: Vec<u8> = kw_cryptonight_vec();
    score = bump_exec(score, lower, &kw2, 60);
    let kw3: Vec<u8> = kw_monero_vec();
    score = bump_exec(score, lower, &kw3, 50);
    let kw4: Vec<u8> = kw_ethminer_vec();
    score = bump_exec(score, lower, &kw4, 60);
    let kw5: Vec<u8> = kw_cgminer_vec();
    score = bump_exec(score, lower, &kw5, 60);
    let kw6: Vec<u8> = kw_bfgminer_vec();
    score = bump_exec(score, lower, &kw6, 60);
    let kw7: Vec<u8> = kw_nicehash_vec();
    score = bump_exec(score, lower, &kw7, 50);
    let kw8: Vec<u8> = kw_backdoor_vec();
    score = bump_exec(score, lower, &kw8, 80);
    let kw9: Vec<u8> = kw_trojan_vec();
    score = bump_exec(score, lower, &kw9, 90);
    let kw10: Vec<u8> = kw_keylogger_vec();
    score = bump_exec(score, lower, &kw10, 90);
    let kw11: Vec<u8> = kw_spyware_vec();
    score = bump_exec(score, lower, &kw11, 80);
    let kw12: Vec<u8> = kw_malware_vec();
    score = bump_exec(score, lower, &kw12, 90);
    let kw13: Vec<u8> = kw_virus_vec();
    score = bump_exec(score, lower, &kw13, 90);
    let kw14: Vec<u8> = kw_rootkit_vec();
    score = bump_exec(score, lower, &kw14, 90);
    let kw15: Vec<u8> = kw_exploit_vec();
    score = bump_exec(score, lower, &kw15, 70);
    score
}

/// Compute the suspicion score of one process record.
pub fn calculate_process_score(name: &Vec<u8>, cpu_centi: u32, memory_bytes: u64) -> (r: u8)
    ensures
        r == process_score_spec(name@, cpu_centi, memory_bytes),
        r <= 100,
{
    let mut score: u8 = 0;
    if cpu_centi >= 9000 {
        score = score + 40;
    } else if cpu_centi >= 7000 {
        score = score + 30;
    } else if cpu_centi >= 5000 {
        score = score + 20;
    }
    if memory_bytes >= 1_000_000_000 {
        score = score + 30;
    } else if memory_bytes >= 500_000_000 {
        score = score + 20;
    } else if memory_bytes >= 200_000_000 {
        score = score + 10;
    }
    let lower: Vec<u8> = to_ascii_lower(name);
    let s: u8 = apply_keyword_floors(score, &lower);
    if s > 100 {
        100
    } else {
        s
    }
}

/// One process record, as the process lister reports it, plus the computed
/// suspicion score.
pub struct ProcessInfo {
    /// Process name bytes.
    pub name: Vec<u8>,
    pub pid: u32,
    /// CPU utilisation in centi-percent.
    pub cpu_usage: u32,
    /// Memory use in bytes.
    pub memory_usage: u64,
    pub suspicious_score: u8,
}

impl ProcessInfo {
    /// The record as plain mathematical values.
    pub open spec fn model(&self) -> (Seq<u8>, u32, u32, u64, u8) {
        (self.name@, self.pid, self.cpu_usage, self.memory_usage, self.suspicious_score)
    }
}

/// One USB device record, as the USB lister reports it.
pub struct UsbDeviceInfo {
    pub device_id: Vec<u8>,
    pub description: Vec<u8>,
}

impl UsbDeviceInfo {
    /// The record as plain mathematical values.
    pub open spec fn model(&self) -> (Seq<u8>, Seq<u8>) {
        (self.device_id@, self.description@)
    }
}

pub open spec fn proc_models(s: Seq<ProcessInfo>) -> Seq<(Seq<u8>, u32, u32, u64, u8)> {
    s.map_values(|p: ProcessInfo| p.model())
}

pub open spec fn usb_models(s: Seq<UsbDeviceInfo>) -> Seq<(Seq<u8>, Seq<u8>)> {
    s.map_values(|d: UsbDeviceInfo| d.model())
}

pub open spec fn id_models(s: Seq<Vec<u8>>) -> Seq<Seq<u8>> {
    s.map_values(|v: Vec<u8>| v@)
}

/// The model of one listing element after scoring.
pub open spec fn scored_model(p: ProcessInfo) -> (Seq<u8>, u32, u32, u64, u8) {
    (
        p.name@,
        p.pid,
        p.cpu_usage,
        p.memory_usage,
        process_score_spec(p.name@, p.cpu_usage, p.memory_usage) as u8,
    )
}

/// The suspicious entries of a listing, in order, with their scores.
pub open spec fn suspicious_of(s: Seq<ProcessInfo>) -> Seq<(Seq<u8>, u32, u32, u64, u8)>
    decreases s.len(),
{
    if s.len() == 0 {
        Seq::empty()
    } else {
        let rest = suspicious_of(s.drop_last());
        let p = s.last();
        if process_suspicious_spec(p.name@, p.cpu_usage, p.memory_usage) {
            rest.push(scored_model(p))
        } else {
            rest
        }
    }
}

/// The seen-set and new-device list after merging one USB listing, front to
/// back: an unseen id joins the seen-set and its device joins the bounded
/// new-device list.
pub open spec fn usb_merge(
    known: Seq<Seq<u8>>,
    newly: Seq<(Seq<u8>, Seq<u8>)>,
    devs: Seq<(Seq<u8>, Seq<u8>)>,
) -> (Seq<Seq<u8>>, Seq<(Seq<u8>, Seq<u8>)>)
    decreases devs.len(),
{
    if devs.len() == 0 {
        (known, newly)
    } else {
        let d = devs[0];
        if known.contains(d.0) {
            usb_merge(known, newly, devs.drop_first())
        } else {
            usb_merge(known.push(d.0), push_capped(newly, d, NEW_USB_CAP as nat), devs.drop_first())
        }
    }
}

/// Largest suspicion score in a list (zero when empty).
pub open spec fn max_suspicious_score(s: Seq<ProcessInfo>) -> int
    decreases s.len(),
{
    if s.len() == 0 {
        0
    } else {
        let m = max_suspicious_score(s.drop_last());
        if s.last().suspicious_score > m {
            s.last().suspicious_score as int
        } else {
            m
        }
    }
}

/// Whether a process is flagged, over an executable record.
pub fn is_process_suspicious(p: &ProcessInfo) -> (r: bool)
    ensures
        r == process_suspicious_spec(p.name@, p.cpu_usage, p.memory_usage),
{
    if p.cpu_usage > SUSPICIOUS_CPU_CENTI {
        return true;
    }
    if p.memory_usage > SUSPICIOUS_MEMORY_BYTES {
        return true;
    }
    let lower: Vec<u8> = to_ascii_lower(&p.name);
    let fl: u8 = apply_keyword_floors(0, &lower);
    fl > 0
}

fn id_known(known: &Vec<Vec<u8>>, id: &Vec<u8>) -> (r: bool)
    ensures
        r == id_models(known@).contains(id@),
{
    let mut i: usize = 0;
    while i < known.len()
        invariant
            i <= known@.len(),
            forall|j: int| 0 <= j < i ==> #[trigger] id_models(known@)[j] != id@,
        decreases known@.len() - i,
    {
        if bytes_eq(&known[i], id) {
            proof {
                assert(id_models(known@)[i as int] == id@);
            }
            return true;
        }
        i = i + 1;
    }
    false
}

/// Process and USB telemetry monitor state.
pub struct KernelMonitor {
    pub lifecycle: Lifecycle,
    /// The suspicious entries of the latest processed listing.
    pub suspicious_processes: Vec<ProcessInfo>,
    /// Devices first seen after startup, oldest first, bounded.
    pub new_usb_devices: History<UsbDeviceInfo>,
    /// Every device id ever seen.
    pub known_usb_ids: Vec<Vec<u8>>,
}

impl KernelMonitor {
    pub open spec fn wf(&self) -> bool {
        &&& forall|i: int|
            0 <= i < self.suspicious_processes@.len()
                ==> #[trigger] self.suspicious_processes@[i].suspicious_score <= 100
        &&& self.new_usb_devices.wf()
        &&& self.new_usb_devices.cap_spec() == NEW_USB_CAP
    }

    pub fn new() -> (r: KernelMonitor)
        ensures
            r.wf(),
            !r.lifecycle.is_running_spec(),
            r.lifecycle.epoch_spec() == 0,
            r.suspicious_processes@ == Seq::<ProcessInfo>::empty(),
            r.new_usb_devices@ == Seq::<UsbDeviceInfo>::empty(),
            r.known_usb_ids@ == Seq::<Vec<u8>>::empty(),
    {
        let r = KernelMonitor {
            lifecycle: Lifecycle::new(),
            suspicious_processes: Vec::new(),
            new_usb_devices: History::new(NEW_USB_CAP),
            known_usb_ids: Vec::new(),
        };
        proof {
            assert(r.suspicious_processes@ =~= Seq::<ProcessInfo>::empty());
            assert(r.known_usb_ids@ =~= Seq::<Vec<u8>>::empty());
        }
        r
    }

    /// Start the monitor; idempotent, returns the new loop's token if one
    /// should be spawned.
    pub fn start_monitoring(&mut self) -> (r: Option<u64>)
        requires
            old(self).wf(),
            old(self).lifecycle.epoch_spec() < u64::MAX,
        ensures
            final(self).wf(),
            final(self).lifecycle.is_running_spec(),
            final(self).suspicious_processes@ == old(self).suspicious_processes@,
            final(self).new_usb_devices@ == old(self).new_usb_devices@,
            final(self).known_usb_ids@ == old(self).known_usb_ids@,
            old(self).lifecycle.is_running_spec() ==> r is None
                && final(self).lifecycle == old(self).lifecycle,
            !old(self).lifecycle.is_running_spec() ==> r == Some(
                final(self).lifecycle.epoch_spec(),
            ),
    {
        self.lifecycle.start()
    }

    /// Request the monitoring loop to stop at its next poll.
    pub fn stop_monitoring(&mut self)
        requires
            old(self).wf(),
        ensures
            final(self).wf(),
            !final(self).lifecycle.is_running_spec(),
            final(self).lifecycle.epoch_spec() == old(self).lifecycle.epoch_spec(),
            final(self).suspicious_processes@ == old(self).suspicious_processes@,
            final(self).new_usb_devices@ == old(self).new_usb_devices@,
            final(self).known_usb_ids@ == old(self).known_usb_ids@,
    {
        self.lifecycle.stop()
    }

    /// One process cycle: score the listing and replace the suspicious list
    /// wholesale with its flagged entries, in listing order.
    pub fn process_cycle(&mut self, listing: &Vec<ProcessInfo>)
        requires
            old(self).wf(),
        ensures
            final(self).wf(),
            proc_models(final(self).suspicious_processes@) == suspicious_of(listing@),
            final(self).lifecycle == old(self).lifecycle,
            final(self).new_usb_devices@ == old(self).new_usb_devices@,
            final(self).known_usb_ids@ == old(self).known_usb_ids@,
    {
        let mut sus: Vec<ProcessInfo> = Vec::new();
        proof {
            assert(proc_models(sus@) =~= suspicious_of(listing@.subrange(0, 0)));
        }
        let mut i: usize = 0;
        while i < listing.len()
            invariant
                i <= listing@.len(),
                proc_models(sus@) == suspicious_of(listing@.subrange(0, i as int)),
                forall|k: int|
                    0 <= k < sus@.len() ==> #[trigger] sus@[k].suspicious_score <= 100,
            decreases listing@.len() - i,
        {
            let p = &listing[i];
            if is_process_suspicious(p) {
                let scored = ProcessInfo {
                    name: copy_bytes(&p.name),
                    pid: p.pid,
                    cpu_usage: p.cpu_usage,
                    memory_usage: p.memory_usage,
                    suspicious_score: calculate_process_score(&p.name, p.cpu_usage, p.memory_usage),
                };
                let ghost sus_before = sus@;
                sus.push(scored);
                proof {
                    assert(proc_models(sus@) =~= proc_models(sus_before).push(scored.model()));
                    assert(scored.model() == scored_model(listing@[i as int]));
                }
            }
            proof {
                assert(listing@.subrange(0, i as int + 1).drop_last() =~= listing@.subrange(
                    0,
                    i as int,
                ));
                assert(listing@.subrange(0, i as int + 1).last() == listing@[i as int]);
            }
            i = i + 1;
        }
        proof {
            assert(listing@.subrange(0, listing@.len() as int) =~= listing@);
        }
        self.suspicious_processes = sus;
    }

    /// One USB cycle: diff the listing against the seen-set, remember every
    /// id, and append the newly inserted devices to the bounded list.
    pub fn usb_cycle(&mut self, devices: &Vec<UsbDeviceInfo>)
        requires
            old(self).wf(),
        ensures
            final(self).wf(),
            id_models(final(self).known_usb_ids@) == usb_merge(
                id_models(old(self).known_usb_ids@),
                usb_models(old(self).new_usb_devices@),
                usb_models(devices@),
            ).0,
            usb_models(final(self).new_usb_devices@) == usb_merge(
                id_models(old(self).known_usb_ids@),
                usb_models(old(self).new_usb_devices@),
                usb_models(devices@),
            ).1,
            final(self).lifecycle == old(self).lifecycle,
            final(self).suspicious_processes@ == old(self).suspicious_processes@,
    {
        let ghost devs_m = usb_models(devices@);
        let ghost k0 = id_models(old(self).known_usb_ids@);
        let ghost n0 = usb_models(old(self).new_usb_devices@);
        proof {
            assert(devs_m.skip(0) =~= devs_m);
        }
        let mut i: usize = 0;
        while i < devices.len()
            invariant
                i <= devices@.len(),
                devs_m == usb_models(devices@),
                usb_merge(k0, n0, devs_m) == usb_merge(
                    id_models(self.known_usb_ids@),
                    usb_models(self.new_usb_devices@),
                    devs_m.skip(i as int),
                ),
                self.wf(),
                self.lifecycle == old(self).lifecycle,
                self.suspicious_processes@ == old(self).suspicious_processes@,
            decreases devices@.len() - i,
        {
            let ghost k_cur = id_models(self.known_usb_ids@);
            let ghost n_cur = usb_models(self.new_usb_devices@);
            proof {
                assert(devs_m.skip(i as int)[0] == devs_m[i as int]);
                assert(devs_m[i as int] == devices@[i as int].model());
                assert(devs_m.skip(i as int).drop_first() =~= devs_m.skip(i as int + 1));
            }
            let d = &devices[i];
            if !id_known(&self.known_usb_ids, &d.device_id) {
                let ghost known_before = self.known_usb_ids@;
                let ghost new_before = self.new_usb_devices@;
                self.known_usb_ids.push(copy_bytes(&d.device_id));
                self.new_usb_devices.push(
                    UsbDeviceInfo {
                        device_id: copy_bytes(&d.device_id),
                        description: copy_bytes(&d.description),
                    },
                );
                proof {
                    assert(id_models(self.known_usb_ids@) =~= k_cur.push(devices@[i as int].device_id@));
                    assert(usb_models(self.new_usb_devices@) =~= push_capped(
                        n_cur,
                        devices@[i as int].model(),
                        NEW_USB_CAP as nat,
                    )) by {
                        assert(self.new_usb_devices@ == push_capped(
                            new_before,
                            self.new_usb_devices@.last(),
                            NEW_USB_CAP as nat,
                        ));
                        if new_before.len() < NEW_USB_CAP {
                            assert(usb_models(self.new_usb_devices@) =~= n_cur.push(
                                devices@[i as int].model(),
                            ));
                        } else {
                            assert(usb_models(self.new_usb_devices@) =~= n_cur.drop_first().push(
                                devices@[i as int].model(),
                            ));
                        }
                    }
                }
            }
            i = i + 1;
        }
        proof {
            assert(devs_m.skip(devices@.len() as int) =~= Seq::<(Seq<u8>, Seq<u8>)>::empty());
        }
    }

    /// Copies of the suspicious entries of the latest processed listing.
    pub fn get_suspicious_processes(&self) -> (r: Vec<ProcessInfo>)
        ensures
            proc_models(r@) == proc_models(self.suspicious_processes@),
    {
        let mut out: Vec<ProcessInfo> = Vec::new();
        let mut i: usize = 0;
        while i < self.suspicious_processes.len()
            invariant
                i <= self.suspicious_processes@.len(),
                out@.len() == i,
                forall|k: int|
                    0 <= k < i ==> #[trigger] out@[k].model()
                        == self.suspicious_processes@[k].model(),
            decreases self.suspicious_processes@.len() - i,
        {
            let p = &self.suspicious_processes[i];
            out.push(
                ProcessInfo {
                    name: copy_bytes(&p.name),
                    pid: p.pid,
                    cpu_usage: p.cpu_usage,
                    memory_usage: p.memory_usage,
                    suspicious_score: p.suspicious_score,
                },
            );
            i = i + 1;
        }
        proof {
            assert(proc_models(out@) =~= proc_models(self.suspicious_processes@));
        }
        out
    }

    /// Copies of the devices first seen after startup, oldest first.
    pub fn get_new_usb_devices(&self) -> (r: Vec<UsbDeviceInfo>)
        ensures
            usb_models(r@) == usb_models(self.new_usb_devices@),
    {
        let mut out: Vec<UsbDeviceInfo> = Vec::new();
        let mut i: usize = 0;
        let n: usize = self.new_usb_devices.len();
        while i < n
            invariant
                n == self.new_usb_devices@.len(),
                i <= n,
                out@.len() == i,
                forall|k: int|
                    0 <= k < i ==> #[trigger] out@[k].model() == self.new_usb_devices@[k].model(),
            decreases n - i,
        {
            let d = self.new_usb_devices.borrow(i);
            out.push(
                UsbDeviceInfo {
                    device_id: copy_bytes(&d.device_id),
                    description: copy_bytes(&d.description),
                },
            );
            i = i + 1;
        }
        proof {
            assert(usb_models(out@) =~= usb_models(self.new_usb_devices@));
        }
        out
    }

    /// The kernel-telemetry threat score.
    pub open spec fn threat_score_spec(&self) -> int {
        let sus = self.suspicious_processes@;
        let ps: int = if sus.len() == 0 {
            0
        } else {
            let c: int = if sus.len() < 5 {
                sus.len() as int
            } else {
                5
            };
            max_suspicious_score(sus) * (35 + 3 * c) / 50
        };
        let nu = self.new_usb_devices@;
        let us: int = if nu.len() == 0 {
            0
        } else {
            let c: int = if nu.len() < 3 {
                nu.len() as int
            } else {
                3
            };
            10 * (3 + c)
        };
        let comb: int = if ps > us {
            ps
        } else {
            us
        };
        if comb > 100 {
            100
        } else {
            comb
        }
    }

    /// The larger of the process score (maximum per-process score scaled by
    /// a factor rising from 0.7 at one process to 1.0 at five) and the USB
    /// score (30 scaled by a factor rising from 1.0+1/3 at one new device to
    /// 2.0 at three), capped at 100.
    pub fn get_threat_score(&self) -> (r: u8)
        requires
            self.wf(),
        ensures
            r == self.threat_score_spec(),
            r <= 100,
    {
        let ghost sus = self.suspicious_processes@;
        let ps: u64 = if self.suspicious_processes.len() == 0 {
            0
        } else {
            let mut mx: u8 = 0;
            let mut i: usize = 0;
            proof {
                assert(max_suspicious_score(sus.subrange(0, 0)) == 0);
            }
            while i < self.suspicious_processes.len()
                invariant
                    i <= sus.len(),
                    sus == self.suspicious_processes@,
                    forall|k: int|
                        0 <= k < sus.len() ==> #[trigger] sus[k].suspicious_score <= 100,
                    mx == max_suspicious_score(sus.subrange(0, i as int)),
                    mx <= 100,
                decreases sus.len() - i,
            {
                proof {
                    assert(sus.subrange(0, i as int + 1).drop_last() =~= sus.subrange(0, i as int));
                    assert(sus.subrange(0, i as int + 1).last() == sus[i as int]);
                }
                let sc: u8 = self.suspicious_processes[i].suspicious_score;
                if sc > mx {
                    mx = sc;
                }
                i = i + 1;
            }
            proof {
                assert(sus.subrange(0, sus.len() as int) =~= sus);
            }
            let count: u64 = if self.suspicious_processes.len() < 5 {
                self.suspicious_processes.len() as u64
            } else {
                5
            };
            assert(mx * (35 + 3 * count) <= 5000) by (nonlinear_arith)
                requires
                    0 <= mx <= 100,
                    0 <= count <= 5,
            ;
            let v: u64 = (mx as u64) * (35 + 3 * count) / 50;
            assert(mx * (35 + 3 * count) / 50 <= 100) by (nonlinear_arith)
                requires
                    0 <= mx <= 100,
                    0 <= count <= 5,
            ;
            v
        };
        let us: u64 = if self.new_usb_devices.len() == 0 {
            0
        } else {
            let count: u64 = if self.new_usb_devices.len() < 3 {
                self.new_usb_devices.len() as u64
            } else {
                3
            };
            10 * (3 + count)
        };
        let comb: u64 = if ps > us {
            ps
        } else {
            us
        };
        if comb > 100 {
            100
        } else {
            comb as u8
        }
    }
}

/// A process named "xmrig-miner" scores at least 70, whatever its CPU and
/// memory readings: the name carries the "xmrig" keyword, whose floor is 70,
/// and later floors never lower the score.
pub proof fn lemma_xmrig_miner_scores_at_least_70(name: Seq<u8>, cpu_centi: u32, memory_bytes: u64)
    requires
        name == seq![120u8, 109u8, 114u8, 105u8, 103u8, 45u8, 109u8, 105u8, 110u8, 101u8, 114u8],
    ensures
        process_score_spec(name, cpu_centi, memory_bytes) >= 70,
{
    assert(lower_seq(name) =~= name);
    assert(contains_seq(name, kw_xmrig())) by {
        assert(name.subrange(0, 0 + kw_xmrig().len() as int) =~= kw_xmrig());
    }
}

} // verus!

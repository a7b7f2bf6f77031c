use threat_sentry::kernel::calculate_process_score;
use threat_sentry::kernel::is_process_suspicious;
use threat_sentry::kernel::KernelMonitor;
use threat_sentry::kernel::ProcessInfo;
use threat_sentry::kernel::UsbDeviceInfo;

fn proc(name: &str, cpu_centi: u32, memory_bytes: u64) -> ProcessInfo {
    ProcessInfo {
        name: name.as_bytes().to_vec(),
        pid: 1234,
        cpu_usage: cpu_centi,
        memory_usage: memory_bytes,
        suspicious_score: 0,
    }
}

fn usb(id: &str, desc: &str) -> UsbDeviceInfo {
    UsbDeviceInfo {
        device_id: id.as_bytes().to_vec(),
        description: desc.as_bytes().to_vec(),
    }
}

#[test]
fn xmrig_miner_scores_at_least_70_with_idle_readings() {
    let score = calculate_process_score(&b"xmrig-miner".to_vec(), 0, 0);
    assert!(score >= 70, "got {}", score);
    assert_eq!(score, 70);
    assert!(is_process_suspicious(&proc("xmrig-miner", 0, 0)));
}

#[test]
fn keyword_match_is_case_insensitive() {
    assert!(is_process_suspicious(&proc("XMRig-Miner", 0, 0)));
    assert_eq!(calculate_process_score(&b"TROJAN.exe".to_vec(), 0, 0), 90);
}

#[test]
fn cpu_and_memory_bands_add_up() {
    // 95% CPU and 1.2 GB: 40 + 30 band points, no keyword.
    assert_eq!(calculate_process_score(&b"builder".to_vec(), 9500, 1_200_000_000), 70);
    // 75% CPU and 600 MB: 30 + 20.
    assert_eq!(calculate_process_score(&b"builder".to_vec(), 7500, 600_000_000), 50);
    // 55% CPU and 250 MB: 20 + 10.
    assert_eq!(calculate_process_score(&b"builder".to_vec(), 5500, 250_000_000), 30);
    // Idle and small: 0.
    assert_eq!(calculate_process_score(&b"builder".to_vec(), 100, 1_000_000), 0);
}

#[test]
fn keyword_floor_raises_but_never_lowers() {
    // Band score 70 beats the "miner" floor of 50.
    assert_eq!(calculate_process_score(&b"miner".to_vec(), 9500, 1_200_000_000), 70);
    // Band score 0 is raised to the floor.
    assert_eq!(calculate_process_score(&b"miner".to_vec(), 0, 0), 50);
    // "keylogger" floor 90 beats a band score of 30.
    assert_eq!(calculate_process_score(&b"keylogger".to_vec(), 7500, 0), 90);
}

#[test]
fn suspicious_list_is_replaced_wholesale() {
    let mut m = KernelMonitor::new();
    m.process_cycle(&vec![proc("virus-scan", 0, 0), proc("editor", 100, 1_000_000)]);
    let sus = m.get_suspicious_processes();
    assert_eq!(sus.len(), 1);
    assert_eq!(sus[0].name, b"virus-scan".to_vec());
    assert_eq!(sus[0].suspicious_score, 90);

    // A clean listing empties the list again.
    m.process_cycle(&vec![proc("editor", 100, 1_000_000)]);
    assert!(m.get_suspicious_processes().is_empty());
}

#[test]
fn high_cpu_alone_flags_a_process() {
    let mut m = KernelMonitor::new();
    m.process_cycle(&vec![proc("make", 8000, 1_000_000)]);
    let sus = m.get_suspicious_processes();
    assert_eq!(sus.len(), 1);
    // 80% CPU: band 30, no keyword.
    assert_eq!(sus[0].suspicious_score, 30);
}

#[test]
fn new_usb_devices_accumulate_and_the_seen_set_remembers() {
    let mut m = KernelMonitor::new();
    m.usb_cycle(&vec![usb("id-a", "stick"), usb("id-b", "mouse")]);
    assert_eq!(m.get_new_usb_devices().len(), 2);

    // The same devices again: nothing new.
    m.usb_cycle(&vec![usb("id-a", "stick"), usb("id-b", "mouse")]);
    assert_eq!(m.get_new_usb_devices().len(), 2);

    // One more appears: it accumulates; removal forgets nothing.
    m.usb_cycle(&vec![usb("id-c", "disk")]);
    let new = m.get_new_usb_devices();
    assert_eq!(new.len(), 3);
    assert_eq!(new[2].device_id, b"id-c".to_vec());

    // A re-insertion of a known device is not new.
    m.usb_cycle(&vec![usb("id-a", "stick")]);
    assert_eq!(m.get_new_usb_devices().len(), 3);
}

#[test]
fn threat_score_takes_the_larger_of_process_and_usb() {
    let mut m = KernelMonitor::new();
    assert_eq!(m.get_threat_score(), 0);

    // One process at score 90: 90 * (35 + 3) / 50 = 68.
    m.process_cycle(&vec![proc("trojan", 0, 0)]);
    assert_eq!(m.get_threat_score(), 68);

    // One new USB device scores 10 * (3 + 1) = 40: the process side wins.
    m.usb_cycle(&vec![usb("id-a", "stick")]);
    assert_eq!(m.get_threat_score(), 68);

    // Clear the process side: the USB score shows.
    m.process_cycle(&vec![]);
    assert_eq!(m.get_threat_score(), 40);

    // Three or more new devices: 10 * (3 + 3) = 60.
    m.usb_cycle(&vec![usb("id-b", "b"), usb("id-c", "c"), usb("id-d", "d")]);
    assert_eq!(m.get_threat_score(), 60);
}

#[test]
fn five_suspicious_processes_use_the_full_factor() {
    let mut m = KernelMonitor::new();
    let listing: Vec<ProcessInfo> =
        (0..6).map(|i| proc(&format!("malware-{}", i), 0, 0)).collect();
    m.process_cycle(&listing);
    // Max score 90, count capped at 5: 90 * (35 + 15) / 50 = 90.
    assert_eq!(m.get_threat_score(), 90);
}

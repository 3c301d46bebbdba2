use flasher::images::Update;
use flasher::mounts::{
    is_device_backed, is_mount_unit, is_runtime_mount, mount_point, scan_action, MountTracker,
    MountUpdate, ScanAction,
};

#[test]
fn only_device_mounts_under_run_count() {
    assert!(is_device_backed("/dev/sda1"));
    assert!(!is_device_backed("tmpfs"));
    assert!(is_runtime_mount("/run/media/usb"));
    assert!(!is_runtime_mount("/home"));
    assert_eq!(mount_point("/dev/sda1", "/run/media/usb"), Some("/run/media/usb".to_string()));
    assert_eq!(mount_point("tmpfs", "/run/user/0"), None);
    assert_eq!(mount_point("/dev/sda1", "/mnt/usb"), None);
    assert_eq!(mount_point("/dev", "/run/x"), None);
}

#[test]
fn mount_units_are_recognised_by_name() {
    assert!(is_mount_unit("run-media-usb.mount"));
    assert!(!is_mount_unit("sshd.service"));
    assert!(!is_mount_unit("mount"));
}

#[test]
fn removal_reports_the_announced_mount_point() {
    let mut seen = MountTracker::new();
    let unit = "/org/freedesktop/systemd1/unit/run_2dmedia_2eusb_2emount".to_string();
    match seen.mounted(unit.clone(), "/run/media/usb".to_string()) {
        MountUpdate::New(p) => assert_eq!(p, "/run/media/usb"),
        other => panic!("unexpected {:?}", other),
    }
    match seen.unmounted(&unit) {
        Some(MountUpdate::Removed(p)) => assert_eq!(p, "/run/media/usb"),
        other => panic!("unexpected {:?}", other),
    }
    assert!(seen.unmounted(&unit).is_none());
}

#[test]
fn unknown_units_vanish_silently() {
    let mut seen = MountTracker::new();
    seen.mounted("/u/a".to_string(), "/run/a".to_string());
    assert!(seen.unmounted(&"/u/b".to_string()).is_none());
    match seen.unmounted(&"/u/a".to_string()) {
        Some(MountUpdate::Removed(p)) => assert_eq!(p, "/run/a"),
        other => panic!("unexpected {:?}", other),
    }
}

#[test]
fn a_remount_replaces_the_mount_point() {
    let mut seen = MountTracker::new();
    seen.mounted("/u/a".to_string(), "/run/old".to_string());
    seen.mounted("/u/b".to_string(), "/run/b".to_string());
    seen.mounted("/u/a".to_string(), "/run/new".to_string());
    match seen.unmounted(&"/u/a".to_string()) {
        Some(MountUpdate::Removed(p)) => assert_eq!(p, "/run/new"),
        other => panic!("unexpected {:?}", other),
    }
    assert!(seen.unmounted(&"/u/a".to_string()).is_none());
    match seen.unmounted(&"/u/b".to_string()) {
        Some(MountUpdate::Removed(p)) => assert_eq!(p, "/run/b"),
        other => panic!("unexpected {:?}", other),
    }
}

#[test]
fn new_mounts_are_scanned_and_removals_forwarded() {
    match scan_action(MountUpdate::New("/run/x".to_string())) {
        ScanAction::Scan(p) => assert_eq!(p, "/run/x"),
        other => panic!("unexpected {:?}", other),
    }
    match scan_action(MountUpdate::Removed("/run/x".to_string())) {
        ScanAction::Forward(Update::Removed(p)) => assert_eq!(p, "/run/x"),
        other => panic!("unexpected {:?}", other),
    }
}

use flasher::text::{ends_with, has_extension, push_decimal, starts_with};

#[test]
fn starts_with_matches_prefixes() {
    assert!(starts_with("/dev/sda1", "/dev/"));
    assert!(starts_with("/dev/", "/dev/"));
    assert!(starts_with("anything", ""));
    assert!(!starts_with("/dev", "/dev/"));
    assert!(!starts_with("/devices/x", "/dev/"));
    assert!(!starts_with("", "/"));
}

#[test]
fn ends_with_matches_suffixes() {
    assert!(ends_with("run-media-usb.mount", ".mount"));
    assert!(ends_with(".mount", ".mount"));
    assert!(!ends_with("mount", ".mount"));
    assert!(!ends_with("foo.service", ".mount"));
    assert!(ends_with("x", ""));
}

#[test]
fn extension_follows_the_last_dot() {
    assert!(has_extension("image.zst", "zst"));
    assert!(has_extension("openwrt.img.zst", "zst"));
    assert!(has_extension("..zst", "zst"));
    assert!(!has_extension(".zst", "zst"));
    assert!(!has_extension("zst", "zst"));
    assert!(!has_extension("image.zst.bak", "zst"));
    assert!(!has_extension("image.ZST", "zst"));
    assert!(has_extension("image.", ""));
    assert!(!has_extension("..", ""));
    assert!(!has_extension("noext", ""));
}

#[test]
fn decimal_digits_are_written_out() {
    let mut s = String::from("n=");
    push_decimal(&mut s, 0);
    assert_eq!(s, "n=0");
    let mut s = String::new();
    push_decimal(&mut s, 99);
    assert_eq!(s, "99");
    let mut s = String::new();
    push_decimal(&mut s, 100);
    assert_eq!(s, "100");
    let mut s = String::new();
    push_decimal(&mut s, 18446744073709551615);
    assert_eq!(s, "18446744073709551615");
}

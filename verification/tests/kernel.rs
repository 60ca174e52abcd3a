use musl_compat_test::kernel::{decimal_string, KernelVersion};

#[test]
fn parse_rhel_style() {
    let v = KernelVersion::parse("5.14.0-362.8.1.el9.x86_64");
    assert_eq!(v, KernelVersion { major: 5, minor: 14, patch: 0 });
}

#[test]
fn parse_suse_style() {
    let v = KernelVersion::parse("3.12.49-11-default");
    assert_eq!(v, KernelVersion { major: 3, minor: 12, patch: 49 });
}

#[test]
fn ordering() {
    let old = KernelVersion::parse("3.12.0");
    let new = KernelVersion::parse("5.14.0");
    assert!(new > old);
    assert!(old.at_least(3, 12));
    assert!(!old.at_least(3, 17));
}

#[test]
fn parse_missing_parts_are_zero() {
    assert_eq!(KernelVersion::parse(""), KernelVersion { major: 0, minor: 0, patch: 0 });
    assert_eq!(KernelVersion::parse("abc"), KernelVersion { major: 0, minor: 0, patch: 0 });
    assert_eq!(KernelVersion::parse("6"), KernelVersion { major: 6, minor: 0, patch: 0 });
    assert_eq!(KernelVersion::parse("4.19"), KernelVersion { major: 4, minor: 19, patch: 0 });
}

#[test]
fn parse_skips_leading_and_repeated_separators() {
    assert_eq!(
        KernelVersion::parse("Linux--5..15...167-microsoft"),
        KernelVersion { major: 5, minor: 15, patch: 167 }
    );
    assert_eq!(KernelVersion::parse("v007.08.09"), KernelVersion { major: 7, minor: 8, patch: 9 });
}

#[test]
fn parse_non_ascii_characters_separate() {
    assert_eq!(KernelVersion::parse("5\u{e9}10\u{2014}3"), KernelVersion { major: 5, minor: 10, patch: 3 });
    // non-ASCII digits are not digits
    assert_eq!(KernelVersion::parse("4\u{661}2"), KernelVersion { major: 4, minor: 2, patch: 0 });
}

#[test]
fn parse_overflowing_part_is_zero() {
    assert_eq!(
        KernelVersion::parse("4294967296.4294967295.99999999999999999999"),
        KernelVersion { major: 0, minor: 4294967295, patch: 0 }
    );
}

#[test]
fn to_string_renders_dotted() {
    let v = KernelVersion { major: 5, minor: 15, patch: 167 };
    assert_eq!(v.to_string(), "5.15.167");
    assert_eq!(KernelVersion { major: 0, minor: 0, patch: 0 }.to_string(), "0.0.0");
}

#[test]
fn parse_inverts_to_string() {
    for v in [
        KernelVersion { major: 3, minor: 12, patch: 49 },
        KernelVersion { major: 0, minor: 10, patch: 100 },
        KernelVersion { major: u32::MAX, minor: 1, patch: u32::MAX },
    ] {
        assert_eq!(KernelVersion::parse(&v.to_string()), v);
    }
}

#[test]
fn decimal_string_values() {
    assert_eq!(decimal_string(0), "0");
    assert_eq!(decimal_string(9), "9");
    assert_eq!(decimal_string(10), "10");
    assert_eq!(decimal_string(4294967295), "4294967295");
}

#[test]
fn at_least_compares_major_then_minor() {
    let v = KernelVersion { major: 3, minor: 15, patch: 2 };
    assert!(v.at_least(3, 15));
    assert!(v.at_least(3, 0));
    assert!(v.at_least(2, 99));
    assert!(!v.at_least(3, 16));
    assert!(!v.at_least(4, 0));
}

#[test]
fn gate_is_monotone() {
    let older = KernelVersion { major: 3, minor: 17, patch: 0 };
    let newer = KernelVersion { major: 4, minor: 0, patch: 0 };
    assert!(older.at_least(3, 17));
    assert!(newer.at_least(3, 17));
    assert!(older.at_least(3, 15));
}

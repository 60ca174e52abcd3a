use musl_compat_test::security::{
    check_exec_location, AppArmorInfo, HostProbe, MacFramework, SeLinuxInfo,
};

fn some(s: &str) -> Option<String> {
    Some(s.to_string())
}

#[test]
fn selinux_unconfined_enforcing() {
    let info = SeLinuxInfo::from_contents(
        &some("1\n"),
        &some("unconfined_u:unconfined_r:unconfined_t:s0-s0:c0.c1023\0"),
    );
    assert!(info.enforcing);
    assert_eq!(info.context, "unconfined_u:unconfined_r:unconfined_t:s0-s0:c0.c1023");
    assert!(!info.confined);
}

#[test]
fn selinux_confined_permissive() {
    let info = SeLinuxInfo::from_contents(&some(" 0 \n"), &some("  system_u:system_r:httpd_t:s0 \0\0"));
    assert!(!info.enforcing);
    assert_eq!(info.context, "system_u:system_r:httpd_t:s0");
    assert!(info.confined);
}

#[test]
fn selinux_domain_is_the_third_field() {
    let info = SeLinuxInfo::from_contents(&some("1"), &some("system_u:system_r:unconfined_trans_t:s0"));
    assert!(info.confined);
    let info = SeLinuxInfo::from_contents(&some("1"), &some("unconfined_t:system_r:httpd_t:s0"));
    assert!(info.confined);
    let info = SeLinuxInfo::from_contents(&some("1"), &some("user_u:user_r:unconfined_t"));
    assert!(!info.confined);
    let info = SeLinuxInfo::from_contents(&some("1"), &some("a:b"));
    assert!(info.confined);
    let info = SeLinuxInfo::from_contents(&some("1"), &some("a::unconfined_t:s0"));
    assert!(!info.confined);
    let info = SeLinuxInfo::from_contents(&some("1"), &some(":b:unconfined_t:"));
    assert!(!info.confined);
}

#[test]
fn selinux_unreadable_files() {
    let info = SeLinuxInfo::from_contents(&None, &None);
    assert!(!info.enforcing);
    assert_eq!(info.context, "<unreadable>");
    assert!(info.confined);
}

#[test]
fn selinux_enforce_must_be_exactly_one() {
    assert!(!SeLinuxInfo::from_contents(&some("11"), &None).enforcing);
    assert!(SeLinuxInfo::from_contents(&some("\t1\u{a0}"), &None).enforcing);
}

#[test]
fn apparmor_profiles() {
    let un = AppArmorInfo::from_contents(&some("unconfined\n"));
    assert_eq!(un.profile, "unconfined");
    assert!(!un.confined);
    let conf = AppArmorInfo::from_contents(&some("/usr/bin/foo (enforce)\0"));
    assert_eq!(conf.profile, "/usr/bin/foo (enforce)");
    assert!(conf.confined);
    let gone = AppArmorInfo::from_contents(&None);
    assert_eq!(gone.profile, "<unreadable>");
    assert!(gone.confined);
}

#[test]
fn detect_prefers_selinux() {
    let probe = HostProbe {
        selinux_enforce_present: true,
        apparmor_present: true,
        selinux_enforce: some("1"),
        attr_current: some("user_u:user_r:user_t:s0"),
    };
    let mac = MacFramework::detect(&probe);
    assert!(matches!(mac, MacFramework::SeLinux(_)));
    assert!(mac.may_restrict());
    assert_eq!(mac.summary(), "SELinux enforcing | context: user_u:user_r:user_t:s0");
}

#[test]
fn detect_apparmor_and_none() {
    let probe = HostProbe {
        selinux_enforce_present: false,
        apparmor_present: true,
        selinux_enforce: None,
        attr_current: some("unconfined"),
    };
    let mac = MacFramework::detect(&probe);
    assert!(matches!(mac, MacFramework::AppArmor(_)));
    assert!(!mac.may_restrict());
    assert_eq!(mac.summary(), "AppArmor active | profile: unconfined");

    let probe = HostProbe {
        selinux_enforce_present: false,
        apparmor_present: false,
        selinux_enforce: None,
        attr_current: None,
    };
    let mac = MacFramework::detect(&probe);
    assert!(matches!(mac, MacFramework::NoneDetected));
    assert!(!mac.may_restrict());
    assert_eq!(mac.summary(), "none detected");
}

#[test]
fn permissive_selinux_does_not_restrict() {
    let probe = HostProbe {
        selinux_enforce_present: true,
        apparmor_present: false,
        selinux_enforce: some("0"),
        attr_current: some("user_u:user_r:user_t:s0"),
    };
    let mac = MacFramework::detect(&probe);
    assert!(!mac.may_restrict());
    assert_eq!(mac.summary(), "SELinux permissive | context: user_u:user_r:user_t:s0");
}

#[test]
fn exec_location_warning_only_for_tmp_on_selinux() {
    let w = check_exec_location(true, Some("/tmp/musl-compat-test")).unwrap();
    assert_eq!(
        w,
        "binary is running from /tmp/musl-compat-test \u{2014} SELinux may label this tmp_t which can prevent execution or restrict capabilities. Consider copying to ~/musl-compat-test or /usr/local/bin/ instead."
    );
    assert!(check_exec_location(false, Some("/tmp/x")).is_none());
    assert!(check_exec_location(true, Some("/home/u/x")).is_none());
    assert!(check_exec_location(true, None).is_none());
    assert!(check_exec_location(true, Some("/tmpfoo/x")).is_none());
    assert!(check_exec_location(true, Some("/tmp")).is_some());
    assert!(check_exec_location(true, Some("/tmp/sub/dir/bin")).is_some());
}

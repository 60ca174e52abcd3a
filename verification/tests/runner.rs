use musl_compat_test::kernel::KernelVersion;
use musl_compat_test::runner::{evaluate, is_mac_sensitive, judge, outcome_line, Outcome, Probe, Tally, Test};
use musl_compat_test::security::{AppArmorInfo, MacFramework};
use musl_compat_test::suite::all;

fn confined() -> MacFramework {
    MacFramework::AppArmor(AppArmorInfo { profile: "x".to_string(), confined: true })
}

fn kv(major: u32, minor: u32, patch: u32) -> KernelVersion {
    KernelVersion { major, minor, patch }
}

#[test]
fn mac_sensitive_names() {
    assert!(is_mac_sensitive("syscall: memfd_create(2)"));
    assert!(is_mac_sensitive("syscall: renameat2(2)"));
    assert!(!is_mac_sensitive("syscall: getrandom(2)"));
    assert!(!is_mac_sensitive("syscall: renameat2(2) "));
}

#[test]
fn kernel_gate_comes_first() {
    let t = Test {
        name: "syscall: memfd_create(2)",
        min_kernel: Some((3, 17)),
        reason: Some("SYS_memfd_create added in 3.17"),
        run: Probe::SyscallMemfdCreate,
    };
    match evaluate(&t, &kv(3, 12, 49), &confined()) {
        Some(Outcome::Skip { needs, reason }) => {
            assert_eq!(needs, (3, 17));
            assert_eq!(reason, "SYS_memfd_create added in 3.17");
        }
        other => panic!("unexpected {:?}", other),
    }
    match evaluate(&t, &kv(5, 15, 0), &confined()) {
        Some(Outcome::SkipSecurity(r)) => {
            assert_eq!(r, "test uses syscalls that are commonly denied in confined domains")
        }
        other => panic!("unexpected {:?}", other),
    }
    let none = MacFramework::NoneDetected;
    assert!(evaluate(&t, &kv(5, 15, 0), &none).is_none());
}

#[test]
fn default_skip_reason() {
    let t = Test { name: "x", min_kernel: Some((9, 0)), reason: None, run: Probe::EnvIterate };
    match evaluate(&t, &kv(5, 0, 0), &MacFramework::NoneDetected) {
        Some(Outcome::Skip { needs, reason }) => {
            assert_eq!(needs, (9, 0));
            assert_eq!(reason, "kernel version too old");
        }
        other => panic!("unexpected {:?}", other),
    }
}

#[test]
fn judge_results() {
    assert!(matches!(judge(Ok(())), Outcome::Pass));
    match judge(Err("boom".to_string())) {
        Outcome::Fail(m) => assert_eq!(m, "boom"),
        other => panic!("unexpected {:?}", other),
    }
}

#[test]
fn tally_and_exit_code() {
    let outcomes = vec![
        Outcome::Pass,
        Outcome::Skip { needs: (3, 17), reason: "r" },
        Outcome::SkipSecurity("s".to_string()),
        Outcome::Fail("f".to_string()),
        Outcome::Pass,
    ];
    let t = Tally::of(&outcomes);
    assert_eq!(t, Tally { passed: 2, skipped: 2, failed: 1 });
    assert_eq!(t.exit_code(), 1);
    assert_eq!(t.results_line(), "results: 2 passed, 2 skipped, 1 failed");
    let clean = Tally::of(&vec![Outcome::Pass]);
    assert_eq!(clean.exit_code(), 0);
    assert_eq!(Tally::of(&vec![]), Tally { passed: 0, skipped: 0, failed: 0 });
}

#[test]
fn report_lines() {
    assert_eq!(outcome_line("env: iterate environment", &Outcome::Pass), "  PASS  env: iterate environment");
    let name = "syscall: getrandom(2)";
    let padded = format!("{:<45}", name);
    assert_eq!(
        outcome_line(name, &Outcome::Skip { needs: (3, 17), reason: "SYS_getrandom added in 3.17" }),
        format!("  SKIP  {} (needs 3.17: SYS_getrandom added in 3.17)", padded)
    );
    assert_eq!(
        outcome_line(name, &Outcome::SkipSecurity("why".to_string())),
        format!("  SKIP  {} (security: why)", padded)
    );
    assert_eq!(
        outcome_line(name, &Outcome::Fail("bad".to_string())),
        format!("  FAIL  {}  \u{2192}  bad", padded)
    );
    let long = "x".repeat(50);
    assert_eq!(outcome_line(&long, &Outcome::Fail("m".to_string())), format!("  FAIL  {}  \u{2192}  m", long));
}

fn profile(kernel: KernelVersion, mac: &MacFramework) -> (u32, u32, u32) {
    let mut run = 0;
    let mut kernel_skips = 0;
    let mut security_skips = 0;
    for t in all() {
        match evaluate(&t, &kernel, mac) {
            None => run += 1,
            Some(Outcome::Skip { .. }) => kernel_skips += 1,
            Some(Outcome::SkipSecurity(_)) => security_skips += 1,
            Some(o) => panic!("unexpected {:?}", o),
        }
    }
    (run, kernel_skips, security_skips)
}

#[test]
fn suite_matches_expected_profiles() {
    let none = MacFramework::NoneDetected;
    assert_eq!(all().len(), 15);
    assert_eq!(profile(kv(3, 12, 49), &none), (12, 3, 0));
    assert_eq!(profile(kv(3, 15, 0), &none), (13, 2, 0));
    assert_eq!(profile(kv(3, 16, 9), &none), (13, 2, 0));
    assert_eq!(profile(kv(5, 15, 167), &none), (15, 0, 0));
    assert_eq!(profile(kv(5, 14, 0), &confined()), (13, 0, 2));
    assert_eq!(profile(kv(3, 15, 0), &confined()), (12, 2, 1));
}

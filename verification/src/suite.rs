use vstd::prelude::*;
use crate::kernel::KernelVersion;
use crate::runner::{kernel_too_old, mac_sensitive, security_skipped, Probe, Test};
use crate::security::MacFramework;

verus! {

/// A test that runs on every kernel.
pub open spec fn always_spec(name: &'static str, run: Probe) -> Test {
    Test { name, min_kernel: None, reason: None, run }
}

/// A test that needs kernel `major.minor` or newer, for the given reason.
pub open spec fn since_spec(name: &'static str, major: u32, minor: u32, why: &'static str, run: Probe) -> Test {
    Test { name, min_kernel: Some((major, minor)), reason: Some(why), run }
}

#[verifier::when_used_as_spec(always_spec)]
fn always(name: &'static str, run: Probe) -> (t: Test)
    ensures
        t == always_spec(name, run),
{
    Test { name, min_kernel: None, reason: None, run }
}

#[verifier::when_used_as_spec(since_spec)]
fn since(name: &'static str, major: u32, minor: u32, why: &'static str, run: Probe) -> (t: Test)
    ensures
        t == since_spec(name, major, minor, why, run),
{
    Test { name, min_kernel: Some((major, minor)), reason: Some(why), run }
}

/// The full ordered test suite: twelve tests that are safe on any kernel,
/// then three syscall tests gated on the kernel that introduced them.
pub open spec fn suite() -> Seq<Test> {
    seq![
        always_spec("env: set/get round-trip", Probe::EnvRoundTrip),
        always_spec("env: iterate environment", Probe::EnvIterate),
        always_spec("fs: create / write / read", Probe::FsReadWrite),
        always_spec("fs: symlink creation", Probe::FsSymlink),
        always_spec("fs: directory traversal", Probe::FsDirWalk),
        always_spec("thread: spawn + join", Probe::ThreadSpawnJoin),
        always_spec("thread: TLS isolation", Probe::ThreadTlsIsolation),
        always_spec("thread: barrier sync", Probe::ThreadBarrier),
        always_spec("net: TCP loopback", Probe::NetTcpLoopback),
        always_spec("time: monotonic clock", Probe::TimeMonotonic),
        always_spec("time: CLOCK_BOOTTIME", Probe::TimeBoottime),
        always_spec("proc: PID / /proc/self/exe", Probe::ProcSelf),
        since_spec("syscall: getrandom(2)", 3, 17, "SYS_getrandom added in 3.17", Probe::SyscallGetrandom),
        since_spec("syscall: memfd_create(2)", 3, 17, "SYS_memfd_create added in 3.17", Probe::SyscallMemfdCreate),
        since_spec("syscall: renameat2(2)", 3, 15, "SYS_renameat2 added in 3.15", Probe::SyscallRenameat2)
    ]
}

/// Returns the full ordered test suite.
pub fn all() -> (v: Vec<Test>)
    ensures
        v@ == suite(),
{
    let mut v: Vec<Test> = Vec::new();
    v.push(always("env: set/get round-trip", Probe::EnvRoundTrip));
    v.push(always("env: iterate environment", Probe::EnvIterate));
    v.push(always("fs: create / write / read", Probe::FsReadWrite));
    v.push(always("fs: symlink creation", Probe::FsSymlink));
    v.push(always("fs: directory traversal", Probe::FsDirWalk));
    v.push(always("thread: spawn + join", Probe::ThreadSpawnJoin));
    v.push(always("thread: TLS isolation", Probe::ThreadTlsIsolation));
    v.push(always("thread: barrier sync", Probe::ThreadBarrier));
    v.push(always("net: TCP loopback", Probe::NetTcpLoopback));
    v.push(always("time: monotonic clock", Probe::TimeMonotonic));
    v.push(always("time: CLOCK_BOOTTIME", Probe::TimeBoottime));
    v.push(always("proc: PID / /proc/self/exe", Probe::ProcSelf));
    v.push(since("syscall: getrandom(2)", 3, 17, "SYS_getrandom added in 3.17", Probe::SyscallGetrandom));
    v.push(since("syscall: memfd_create(2)", 3, 17, "SYS_memfd_create added in 3.17", Probe::SyscallMemfdCreate));
    v.push(since("syscall: renameat2(2)", 3, 15, "SYS_renameat2 added in 3.15", Probe::SyscallRenameat2));
    v
}

/// The kernel gates of the suite: `getrandom(2)` and `memfd_create(2)` are
/// skipped below 3.17, `renameat2(2)` below 3.15, and nothing else is ever
/// skipped for the kernel.
pub proof fn lemma_suite_kernel_gates(k: KernelVersion)
    ensures
        forall|i: int|
            0 <= i < suite().len() ==> (kernel_too_old(#[trigger] suite()[i], k) <==> (((i == 12
                || i == 13) && !(KernelVersion { major: 3, minor: 17, patch: 0 }).le(k)) || (i
                == 14 && !(KernelVersion { major: 3, minor: 15, patch: 0 }).le(k)))),
{
    assert(suite().len() == 15);
}

/// The security gates of the suite: under a confined context,
/// `memfd_create(2)` and `renameat2(2)` are skipped wherever the kernel would
/// run them, and no other test is ever skipped for security.
pub proof fn lemma_suite_security_gates(k: KernelVersion, mac: MacFramework)
    ensures
        forall|i: int|
            0 <= i < suite().len() ==> (security_skipped(#[trigger] suite()[i], k, mac) <==> (
            mac.restricts() && ((i == 13 && (KernelVersion { major: 3, minor: 17, patch: 0 }).le(
                k,
            )) || (i == 14 && (KernelVersion { major: 3, minor: 15, patch: 0 }).le(k))))),
{
    {
        reveal_strlit("env: set/get round-trip");
        reveal_strlit("env: iterate environment");
        reveal_strlit("fs: create / write / read");
        reveal_strlit("fs: symlink creation");
        reveal_strlit("fs: directory traversal");
        reveal_strlit("thread: spawn + join");
        reveal_strlit("thread: TLS isolation");
        reveal_strlit("thread: barrier sync");
        reveal_strlit("net: TCP loopback");
        reveal_strlit("time: monotonic clock");
        reveal_strlit("time: CLOCK_BOOTTIME");
        reveal_strlit("proc: PID / /proc/self/exe");
        reveal_strlit("syscall: getrandom(2)");
        reveal_strlit("syscall: memfd_create(2)");
        reveal_strlit("syscall: renameat2(2)");
    }
    assert(suite().len() == 15);
    let m = "syscall: memfd_create(2)"@;
    let r = "syscall: renameat2(2)"@;
    assert(m[0] == 's' && r[0] == 's' && m[9] == 'm' && r[9] == 'r');
    assert forall|i: int| 0 <= i < 12 implies (#[trigger] suite()[i]).name@[0] != 's' by {
    }
    assert(suite()[12].name@[9] == 'g');
    assert forall|i: int| 0 <= i < 13 implies !mac_sensitive(#[trigger] suite()[i].name@) by {
        if i < 12 {
            assert(suite()[i].name@[0] != m[0]);
        } else {
            assert(suite()[i].name@[9] != m[9]);
            assert(suite()[i].name@[9] != r[9]);
        }
    }
}

/// The name under which each check reports.
pub open spec fn probe_name(p: Probe) -> Seq<char> {
    match p {
        Probe::EnvRoundTrip => "env: set/get round-trip"@,
        Probe::EnvIterate => "env: iterate environment"@,
        Probe::FsReadWrite => "fs: create / write / read"@,
        Probe::FsSymlink => "fs: symlink creation"@,
        Probe::FsDirWalk => "fs: directory traversal"@,
        Probe::ThreadSpawnJoin => "thread: spawn + join"@,
        Probe::ThreadTlsIsolation => "thread: TLS isolation"@,
        Probe::ThreadBarrier => "thread: barrier sync"@,
        Probe::NetTcpLoopback => "net: TCP loopback"@,
        Probe::TimeMonotonic => "time: monotonic clock"@,
        Probe::TimeBoottime => "time: CLOCK_BOOTTIME"@,
        Probe::ProcSelf => "proc: PID / /proc/self/exe"@,
        Probe::SyscallGetrandom => "syscall: getrandom(2)"@,
        Probe::SyscallMemfdCreate => "syscall: memfd_create(2)"@,
        Probe::SyscallRenameat2 => "syscall: renameat2(2)"@,
    }
}

/// The kernel release that introduced what each check exercises, where it
/// is newer than the kernels the suite cares about.
pub open spec fn probe_requirement(p: Probe) -> Option<(u32, u32)> {
    match p {
        Probe::EnvRoundTrip => None,
        Probe::EnvIterate => None,
        Probe::FsReadWrite => None,
        Probe::FsSymlink => None,
        Probe::FsDirWalk => None,
        Probe::ThreadSpawnJoin => None,
        Probe::ThreadTlsIsolation => None,
        Probe::ThreadBarrier => None,
        Probe::NetTcpLoopback => None,
        Probe::TimeMonotonic => None,
        Probe::TimeBoottime => None,
        Probe::ProcSelf => None,
        Probe::SyscallGetrandom => Some((3, 17)),
        Probe::SyscallMemfdCreate => Some((3, 17)),
        Probe::SyscallRenameat2 => Some((3, 15)),
    }
}

/// Every check of the suite runs exactly once, under its own name and gated
/// on the kernel that introduced it.
pub proof fn lemma_suite_entries_match_probes()
    ensures
        suite().len() == 15,
        forall|i: int|
            0 <= i < suite().len() ==> (#[trigger] suite()[i]).name@ == probe_name(suite()[i].run)
                && suite()[i].min_kernel == probe_requirement(suite()[i].run),
        forall|i: int, j: int|
            0 <= i < j < suite().len() ==> (#[trigger] suite()[i]).run != (#[trigger] suite()[j]).run,
{
    assert(suite().len() == 15);
}

/// The three syscall tests, found by name: `getrandom(2)` and
/// `memfd_create(2)` need 3.17 and `renameat2(2)` needs 3.15, each runs its
/// own check and gives its own reason.
pub proof fn lemma_syscall_tests_by_name()
    ensures
        exists|i: int| 0 <= i < suite().len() && (#[trigger] suite()[i]).name@ == "syscall: getrandom(2)"@,
        exists|i: int| 0 <= i < suite().len() && (#[trigger] suite()[i]).name@ == "syscall: memfd_create(2)"@,
        exists|i: int| 0 <= i < suite().len() && (#[trigger] suite()[i]).name@ == "syscall: renameat2(2)"@,
        forall|i: int|
            0 <= i < suite().len() && (#[trigger] suite()[i]).name@ == "syscall: getrandom(2)"@ ==> (
            suite()[i].min_kernel == Some((3u32, 17u32)) && suite()[i].run == Probe::SyscallGetrandom
                && suite()[i].reason is Some && suite()[i].reason->0@ == "SYS_getrandom added in 3.17"@),
        forall|i: int|
            0 <= i < suite().len() && (#[trigger] suite()[i]).name@ == "syscall: memfd_create(2)"@ ==> (
            suite()[i].min_kernel == Some((3u32, 17u32)) && suite()[i].run == Probe::SyscallMemfdCreate
                && suite()[i].reason is Some && suite()[i].reason->0@ == "SYS_memfd_create added in 3.17"@),
        forall|i: int|
            0 <= i < suite().len() && (#[trigger] suite()[i]).name@ == "syscall: renameat2(2)"@ ==> (
            suite()[i].min_kernel == Some((3u32, 15u32)) && suite()[i].run == Probe::SyscallRenameat2
                && suite()[i].reason is Some && suite()[i].reason->0@ == "SYS_renameat2 added in 3.15"@),
{
    reveal_strlit("env: set/get round-trip");
    reveal_strlit("env: iterate environment");
    reveal_strlit("fs: create / write / read");
    reveal_strlit("fs: symlink creation");
    reveal_strlit("fs: directory traversal");
    reveal_strlit("thread: spawn + join");
    reveal_strlit("thread: TLS isolation");
    reveal_strlit("thread: barrier sync");
    reveal_strlit("net: TCP loopback");
    reveal_strlit("time: monotonic clock");
    reveal_strlit("time: CLOCK_BOOTTIME");
    reveal_strlit("proc: PID / /proc/self/exe");
    reveal_strlit("syscall: getrandom(2)");
    reveal_strlit("syscall: memfd_create(2)");
    reveal_strlit("syscall: renameat2(2)");
    let g = "syscall: getrandom(2)"@;
    let m = "syscall: memfd_create(2)"@;
    let r = "syscall: renameat2(2)"@;
    assert(suite().len() == 15);
    assert(g[0] == 's' && m[0] == 's' && r[0] == 's' && g[9] == 'g' && m[9] == 'm' && r[9] == 'r');
    assert forall|i: int| 0 <= i < 12 implies (#[trigger] suite()[i]).name@[0] != 's' by {
    }
    assert(suite()[12].name@[9] == 'g');
    assert(suite()[13].name@[9] == 'm');
    assert(suite()[14].name@[9] == 'r');
    assert(suite()[12].name@ == g);
    assert(suite()[13].name@ == m);
    assert(suite()[14].name@ == r);
    assert forall|i: int| 0 <= i < 15 && i != 12 implies (#[trigger] suite()[i]).name@ != g by {
        if i < 12 {
            assert(suite()[i].name@[0] != g[0]);
        } else {
            assert(suite()[i].name@[9] != g[9]);
        }
    }
    assert forall|i: int| 0 <= i < 15 && i != 13 implies (#[trigger] suite()[i]).name@ != m by {
        if i < 12 {
            assert(suite()[i].name@[0] != m[0]);
        } else {
            assert(suite()[i].name@[9] != m[9]);
        }
    }
    assert forall|i: int| 0 <= i < 15 && i != 14 implies (#[trigger] suite()[i]).name@ != r by {
        if i < 12 {
            assert(suite()[i].name@[0] != r[0]);
        } else {
            assert(suite()[i].name@[9] != r[9]);
        }
    }
}

} // verus!

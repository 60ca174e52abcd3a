use vstd::prelude::*;
use crate::kernel::{all_digits, decimal_digits, decimal_string, decimal_value, lemma_decimal_digits, KernelVersion};
use crate::security::MacFramework;
use crate::text::{occurs_at, str_eq};

verus! {

/// The host checks that the suite knows how to run.
#[derive(Debug, Clone, Copy, PartialEq, Eq)]
pub enum Probe {
    EnvRoundTrip,
    EnvIterate,
    FsReadWrite,
    FsSymlink,
    FsDirWalk,
    ThreadSpawnJoin,
    ThreadTlsIsolation,
    ThreadBarrier,
    NetTcpLoopback,
    TimeMonotonic,
    TimeBoottime,
    ProcSelf,
    SyscallGetrandom,
    SyscallMemfdCreate,
    SyscallRenameat2,
}

/// A single compatibility test entry.
#[derive(Debug, Clone, Copy)]
pub struct Test {
    pub name: &'static str,
    /// Minimum (major, minor) required to run this test.
    /// None means the test is safe on any kernel we care about.
    pub min_kernel: Option<(u32, u32)>,
    /// Human-readable explanation of why the minimum exists.
    pub reason: Option<&'static str>,
    /// The check that the test performs.
    pub run: Probe,
}

/// Outcome of a single test execution.
#[derive(Debug)]
pub enum Outcome {
    Pass,
    Skip { needs: (u32, u32), reason: &'static str },
    SkipSecurity(String),
    Fail(String),
}

/// Names of the tests that are skipped, rather than run, under a confined
/// MAC context.
pub open spec fn mac_sensitive(name: Seq<char>) -> bool {
    name == "syscall: memfd_create(2)"@ || name == "syscall: renameat2(2)"@
}

/// Tests we proactively skip under a confined MAC context rather than letting
/// them fail with a confusing error.
pub fn is_mac_sensitive(name: &str) -> (res: bool)
    ensures
        res == mac_sensitive(name@),
{
    str_eq(name, "syscall: memfd_create(2)") || str_eq(name, "syscall: renameat2(2)")
}

/// The test needs a newer kernel than `kernel`.
pub open spec fn kernel_too_old(t: Test, kernel: KernelVersion) -> bool {
    match t.min_kernel {
        Some((maj, min)) => !(KernelVersion { major: maj, minor: min, patch: 0 }).le(kernel),
        None => false,
    }
}

/// The test runs on `kernel` but is skipped under the security context `mac`.
pub open spec fn security_skipped(t: Test, kernel: KernelVersion, mac: MacFramework) -> bool {
    !kernel_too_old(t, kernel) && mac.restricts() && mac_sensitive(t.name@)
}

/// The reason given for a kernel skip.
pub open spec fn skip_reason(reason: Option<&'static str>) -> Seq<char> {
    match reason {
        Some(r) => r@,
        None => "kernel version too old"@,
    }
}

/// The reason given for a security skip.
pub open spec fn security_skip_reason() -> Seq<char> {
    "test uses syscalls that are commonly denied in confined domains"@
}

/// Decide what happens to a test before it runs. The kernel gate comes first:
/// a test whose minimum kernel is newer than `kernel` is skipped. Then the
/// security gate: under a confined context, tests known to be
/// policy-sensitive are skipped. `None` means that the test must run, and
/// `judge` then turns its result into the outcome.
pub fn evaluate(t: &Test, kernel: &KernelVersion, mac: &MacFramework) -> (res: Option<Outcome>)
    ensures
        kernel_too_old(*t, *kernel) ==> (res matches Some(Outcome::Skip { needs, reason })
            && needs == t.min_kernel->0 && reason@ == skip_reason(t.reason)),
        security_skipped(*t, *kernel, *mac) ==> (res matches Some(Outcome::SkipSecurity(r))
            && r@ == security_skip_reason()),
        !kernel_too_old(*t, *kernel) && !security_skipped(*t, *kernel, *mac) ==> res is None,
{
    if let Some((maj, min)) = t.min_kernel {
        if !kernel.at_least(maj, min) {
            let reason = match t.reason {
                Some(r) => r,
                None => "kernel version too old",
            };
            return Some(Outcome::Skip { needs: (maj, min), reason });
        }
    }
    if mac.may_restrict() && is_mac_sensitive(t.name) {
        return Some(
            Outcome::SkipSecurity(
                String::from_str("test uses syscalls that are commonly denied in confined domains"),
            ),
        );
    }
    None
}

/// The outcome of a test that ran: a pass, or a failure with its message.
pub fn judge(result: Result<(), String>) -> (res: Outcome)
    ensures
        result is Ok ==> res is Pass,
        result matches Err(m) ==> (res matches Outcome::Fail(f) && f == m),
{
    match result {
        Ok(()) => Outcome::Pass,
        Err(msg) => Outcome::Fail(msg),
    }
}

/// How many outcomes of each kind a run produced.
#[derive(Debug, Clone, Copy, PartialEq, Eq)]
pub struct Tally {
    pub passed: u32,
    pub skipped: u32,
    pub failed: u32,
}

/// The number of passes in `s`.
pub open spec fn count_passed(s: Seq<Outcome>) -> nat
    decreases s.len(),
{
    if s.len() == 0 {
        0
    } else {
        count_passed(s.drop_last()) + (if s.last() is Pass { 1nat } else { 0nat })
    }
}

/// The number of skips, for the kernel or for security, in `s`.
pub open spec fn count_skipped(s: Seq<Outcome>) -> nat
    decreases s.len(),
{
    if s.len() == 0 {
        0
    } else {
        count_skipped(s.drop_last()) + (if s.last() is Skip || s.last() is SkipSecurity {
            1nat
        } else {
            0nat
        })
    }
}

/// The number of failures in `s`.
pub open spec fn count_failed(s: Seq<Outcome>) -> nat
    decreases s.len(),
{
    if s.len() == 0 {
        0
    } else {
        count_failed(s.drop_last()) + (if s.last() is Fail { 1nat } else { 0nat })
    }
}

/// Every outcome falls under exactly one of the three counts.
pub proof fn lemma_counts_cover(s: Seq<Outcome>)
    ensures
        count_passed(s) + count_skipped(s) + count_failed(s) == s.len(),
    decreases s.len(),
{
    if s.len() > 0 {
        lemma_counts_cover(s.drop_last());
    }
}

impl Tally {
    /// Count the outcomes of a run. Every outcome is counted exactly once.
    pub fn of(outcomes: &Vec<Outcome>) -> (res: Tally)
        requires
            outcomes@.len() <= u32::MAX,
        ensures
            res.passed == count_passed(outcomes@),
            res.skipped == count_skipped(outcomes@),
            res.failed == count_failed(outcomes@),
            res.passed + res.skipped + res.failed == outcomes@.len(),
    {
        let n = outcomes.len();
        let mut passed: u32 = 0;
        let mut skipped: u32 = 0;
        let mut failed: u32 = 0;
        let mut i: usize = 0;
        while i < n
            invariant
                n == outcomes@.len(),
                n <= u32::MAX,
                0 <= i <= n,
                passed == count_passed(outcomes@.take(i as int)),
                skipped == count_skipped(outcomes@.take(i as int)),
                failed == count_failed(outcomes@.take(i as int)),
            decreases n - i,
        {
            proof {
                lemma_counts_cover(outcomes@.take(i as int));
                assert(outcomes@.take(i + 1).drop_last() =~= outcomes@.take(i as int));
            }
            match &outcomes[i] {
                Outcome::Pass => { passed = passed + 1; },
                Outcome::Skip { .. } => { skipped = skipped + 1; },
                Outcome::SkipSecurity(_) => { skipped = skipped + 1; },
                Outcome::Fail(_) => { failed = failed + 1; },
            }
            i = i + 1;
        }
        proof {
            assert(outcomes@.take(n as int) =~= outcomes@);
            lemma_counts_cover(outcomes@);
        }
        Tally { passed, skipped, failed }
    }

    /// The process exit code: 1 if any test failed, else 0.
    pub fn exit_code(&self) -> (code: i32)
        ensures
            code == (if self.failed > 0 { 1i32 } else { 0i32 }),
    {
        if self.failed > 0 {
            1
        } else {
            0
        }
    }

    /// The closing line of a report.
    pub open spec fn results_line_spec(self) -> Seq<char> {
        "results: "@ + decimal_digits(self.passed as nat) + " passed, "@ + decimal_digits(
            self.skipped as nat,
        ) + " skipped, "@ + decimal_digits(self.failed as nat) + " failed"@
    }

    /// `results: P passed, S skipped, F failed`.
    pub fn results_line(&self) -> (res: String)
        ensures
            res@ == self.results_line_spec(),
    {
        let mut s = String::from_str("results: ");
        s.append(decimal_string(self.passed).as_str());
        s.append(" passed, ");
        s.append(decimal_string(self.skipped).as_str());
        s.append(" skipped, ");
        s.append(decimal_string(self.failed).as_str());
        s.append(" failed");
        s
    }
}

/// `s` padded with spaces on the right to `width` characters.
pub open spec fn pad_right(s: Seq<char>, width: nat) -> Seq<char> {
    if s.len() < width {
        s + Seq::new((width - s.len()) as nat, |i: int| ' ')
    } else {
        s
    }
}

fn pad_right_exec(s: &str, width: usize) -> (res: String)
    ensures
        res@ == pad_right(s@, width as nat),
{
    let mut out = String::from_str(s);
    let n = s.unicode_len();
    let mut k = n;
    while k < width
        invariant
            n == s@.len(),
            n <= k,
            k < width ==> out@ == s@ + Seq::new((k - n) as nat, |i: int| ' '),
            k >= width ==> out@ == pad_right(s@, width as nat),
        decreases width - k,
    {
        proof {
            reveal_strlit(" ");
        }
        out.append(" ");
        k = k + 1;
        assert(" "@ =~= seq![' ']);
        assert(out@ =~= s@ + Seq::new((k - n) as nat, |i: int| ' '));
    }
    if n >= width {
        assert(out@ == s@);
    }
    out
}

/// The report line of a test: `PASS` with its name, or `SKIP`/`FAIL` with the
/// name padded to 45 characters and the reason or message.
pub open spec fn outcome_line_spec(name: Seq<char>, o: Outcome) -> Seq<char> {
    match o {
        Outcome::Pass => "  PASS  "@ + name,
        Outcome::Skip { needs, reason } => "  SKIP  "@ + pad_right(name, 45) + " (needs "@
            + decimal_digits(needs.0 as nat) + "."@ + decimal_digits(needs.1 as nat) + ": "@
            + reason@ + ")"@,
        Outcome::SkipSecurity(r) => "  SKIP  "@ + pad_right(name, 45) + " (security: "@ + r@
            + ")"@,
        Outcome::Fail(m) => "  FAIL  "@ + pad_right(name, 45) + "  →  "@ + m@,
    }
}

/// The report line of a test with the given outcome.
pub fn outcome_line(name: &str, o: &Outcome) -> (res: String)
    ensures
        res@ == outcome_line_spec(name@, *o),
{
    match o {
        Outcome::Pass => {
            let mut s = String::from_str("  PASS  ");
            s.append(name);
            s
        },
        Outcome::Skip { needs, reason } => {
            let mut s = String::from_str("  SKIP  ");
            s.append(pad_right_exec(name, 45).as_str());
            s.append(" (needs ");
            s.append(decimal_string(needs.0).as_str());
            s.append(".");
            s.append(decimal_string(needs.1).as_str());
            s.append(": ");
            s.append(reason);
            s.append(")");
            s
        },
        Outcome::SkipSecurity(r) => {
            let mut s = String::from_str("  SKIP  ");
            s.append(pad_right_exec(name, 45).as_str());
            s.append(" (security: ");
            s.append(r.as_str());
            s.append(")");
            s
        },
        Outcome::Fail(m) => {
            let mut s = String::from_str("  FAIL  ");
            s.append(pad_right_exec(name, 45).as_str());
            s.append("  →  ");
            s.append(m.as_str());
            s
        },
    }
}

/// Each outcome counts under its own kind: a pass as passed, a kernel or a
/// security skip as skipped, a failure as failed, and under no other count.
pub proof fn lemma_tally_classifies(s: Seq<Outcome>, o: Outcome)
    ensures
        o is Pass ==> count_passed(s.push(o)) == count_passed(s) + 1 && count_skipped(s.push(o))
            == count_skipped(s) && count_failed(s.push(o)) == count_failed(s),
        (o is Skip || o is SkipSecurity) ==> count_skipped(s.push(o)) == count_skipped(s) + 1
            && count_passed(s.push(o)) == count_passed(s) && count_failed(s.push(o)) == count_failed(s),
        o is Fail ==> count_failed(s.push(o)) == count_failed(s) + 1 && count_passed(s.push(o))
            == count_passed(s) && count_skipped(s.push(o)) == count_skipped(s),
{
    assert(s.push(o).drop_last() =~= s);
}

/// A run fails, by its exit code, exactly when one of its outcomes is a
/// failure.
pub proof fn lemma_exit_code_iff_failure(s: Seq<Outcome>)
    ensures
        count_failed(s) > 0 <==> exists|i: int| 0 <= i < s.len() && #[trigger] s[i] is Fail,
    decreases s.len(),
{
    if s.len() > 0 {
        let p = s.drop_last();
        lemma_exit_code_iff_failure(p);
        if exists|i: int| 0 <= i < p.len() && #[trigger] p[i] is Fail {
            let i = choose|i: int| 0 <= i < p.len() && #[trigger] p[i] is Fail;
            assert(s[i] == p[i]);
        }
        if exists|i: int| 0 <= i < s.len() && #[trigger] s[i] is Fail {
            let i = choose|i: int| 0 <= i < s.len() && #[trigger] s[i] is Fail;
            if i < p.len() {
                assert(p[i] == s[i]);
            }
        }
    }
}

/// A failure line starts with `  FAIL  ` and the test's name and ends with the
/// failure's message; a security-skip line starts with `  SKIP  ` and the
/// name and ends with the reason in brackets; a pass line is `  PASS  ` and
/// the name.
pub proof fn lemma_outcome_lines_show_name_and_message(name: Seq<char>, m: String)
    ensures
        ({
            let line = outcome_line_spec(name, Outcome::Fail(m));
            &&& occurs_at(line, "  FAIL  "@ + name, 0)
            &&& line.len() >= m@.len() && line.subrange(line.len() - m@.len(), line.len() as int) == m@
        }),
        ({
            let line = outcome_line_spec(name, Outcome::SkipSecurity(m));
            &&& occurs_at(line, "  SKIP  "@ + name, 0)
            &&& line.len() >= m@.len() + 1 && line.subrange(
                line.len() - m@.len() - 1,
                line.len() as int,
            ) == m@ + ")"@
        }),
        outcome_line_spec(name, Outcome::Pass) == "  PASS  "@ + name,
{
    reveal_strlit(")");
    let pre_f = "  FAIL  "@ + name;
    let fl = outcome_line_spec(name, Outcome::Fail(m));
    let pf = pad_right(name, 45);
    assert(fl == "  FAIL  "@ + pf + "  →  "@ + m@);
    assert(pf.subrange(0, name.len() as int) =~= name);
    assert(fl.subrange(0, pre_f.len() as int) =~= pre_f);
    assert(fl.subrange(fl.len() - m@.len(), fl.len() as int) =~= m@);
    let pre_s = "  SKIP  "@ + name;
    let sl = outcome_line_spec(name, Outcome::SkipSecurity(m));
    assert(sl == "  SKIP  "@ + pf + " (security: "@ + m@ + ")"@);
    assert(sl.subrange(0, pre_s.len() as int) =~= pre_s);
    assert(sl.subrange(sl.len() - m@.len() - 1, sl.len() as int) =~= m@ + ")"@);
}

/// A kernel skip gives the test's own reason where it has one, and
/// `kernel version too old` where it has none.
pub proof fn lemma_skip_reason_is_the_tests(reason: Option<&'static str>)
    ensures
        reason matches Some(r) ==> skip_reason(reason) == r@,
        reason is None ==> skip_reason(reason) == "kernel version too old"@,
{
}

/// `d` is a non-empty string of ASCII digits that denotes `n`.
pub open spec fn denotes(d: Seq<char>, n: nat) -> bool {
    d.len() > 0 && all_digits(d) && decimal_value(d) == n
}

/// The closing line reports each count under its own label: it reads
/// `results: P passed, S skipped, F failed`, where the number before
/// ` passed` is the pass count, the one before ` skipped` the skip count and
/// the one before ` failed` the failure count.
pub proof fn lemma_results_line_reports_counts(t: Tally)
    ensures
        exists|p: Seq<char>, s: Seq<char>, f: Seq<char>|
            #![trigger denotes(p, t.passed as nat), denotes(s, t.skipped as nat), denotes(f, t.failed as nat)]
            denotes(p, t.passed as nat) && denotes(s, t.skipped as nat) && denotes(f, t.failed as nat)
                && t.results_line_spec() == "results: "@ + p + " passed, "@ + s + " skipped, "@ + f
                + " failed"@,
{
    let p = decimal_digits(t.passed as nat);
    let s = decimal_digits(t.skipped as nat);
    let f = decimal_digits(t.failed as nat);
    lemma_decimal_digits(t.passed as nat);
    lemma_decimal_digits(t.skipped as nat);
    lemma_decimal_digits(t.failed as nat);
    assert(denotes(p, t.passed as nat) && denotes(s, t.skipped as nat) && denotes(f, t.failed as nat));
}

/// A kernel-skip line shows the test's name padded with spaces to 45
/// characters, then the skip's own requirement `(needs A.B: reason)`, where A
/// and B are the major and minor version the test needs.
pub proof fn lemma_skip_line_shows_requirement(name: Seq<char>, a: u32, b: u32, reason: &'static str)
    ensures
        exists|sp: Seq<char>, da: Seq<char>, db: Seq<char>|
            #![trigger denotes(da, a as nat), denotes(db, b as nat), sp.len()]
            denotes(da, a as nat) && denotes(db, b as nat)
                && sp.len() == (if name.len() < 45 { 45 - name.len() } else { 0 })
                && (forall|k: int| 0 <= k < sp.len() ==> sp[k] == ' ')
                && outcome_line_spec(name, Outcome::Skip { needs: (a, b), reason })
                == "  SKIP  "@ + name + sp + " (needs "@ + da + "."@ + db + ": "@ + reason@ + ")"@,
{
    let da = decimal_digits(a as nat);
    let db = decimal_digits(b as nat);
    lemma_decimal_digits(a as nat);
    lemma_decimal_digits(b as nat);
    let sp = if name.len() < 45 {
        Seq::new((45 - name.len()) as nat, |i: int| ' ')
    } else {
        Seq::<char>::empty()
    };
    assert(pad_right(name, 45) =~= name + sp);
    assert(denotes(da, a as nat) && denotes(db, b as nat));
    assert(outcome_line_spec(name, Outcome::Skip { needs: (a, b), reason })
        =~= "  SKIP  "@ + name + sp + " (needs "@ + da + "."@ + db + ": "@ + reason@ + ")"@);
}

} // verus!

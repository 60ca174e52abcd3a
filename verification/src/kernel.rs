use vstd::prelude::*;
use crate::text::chars_of;

verus! {

/// An ASCII decimal digit, `'0'..='9'`.
pub open spec fn is_digit(c: char) -> bool {
    '0' <= c && c <= '9'
}

/// The maximal runs of ASCII digits in `s`, in order: what splitting `s` at
/// every character that is not an ASCII digit, and dropping the empty pieces,
/// leaves.
pub open spec fn digit_runs(s: Seq<char>) -> Seq<Seq<char>>
    decreases s.len(),
{
    if s.len() == 0 {
        Seq::empty()
    } else {
        let prev = digit_runs(s.drop_last());
        let c = s.last();
        if !is_digit(c) {
            prev
        } else if s.len() >= 2 && is_digit(s[s.len() - 2]) {
            prev.update(prev.len() - 1, prev.last().push(c))
        } else {
            prev.push(seq![c])
        }
    }
}

/// The number that a string of decimal digits denotes.
pub open spec fn decimal_value(d: Seq<char>) -> nat
    decreases d.len(),
{
    if d.len() == 0 {
        0
    } else {
        decimal_value(d.drop_last()) * 10 + (d.last() as nat - '0' as nat) as nat
    }
}

/// What parsing a run of digits as a `u32` gives, with 0 where it does not fit.
pub open spec fn run_field(d: Seq<char>) -> u32 {
    if decimal_value(d) <= u32::MAX {
        decimal_value(d) as u32
    } else {
        0
    }
}

/// The value of the `i`-th run of digits, or 0 where there are fewer runs.
pub open spec fn nth_field(runs: Seq<Seq<char>>, i: int) -> u32 {
    if i < runs.len() {
        run_field(runs[i])
    } else {
        0
    }
}

/// The version that a release string denotes: its first three runs of
/// digits, each read as a `u32` (0 where it overflows), 0 for missing ones.
pub open spec fn parse_spec(s: Seq<char>) -> KernelVersion {
    let runs = digit_runs(s);
    KernelVersion { major: nth_field(runs, 0), minor: nth_field(runs, 1), patch: nth_field(runs, 2) }
}

/// A Linux kernel version, ordered by `(major, minor, patch)`.
#[derive(Debug, Clone, Copy, PartialEq, Eq, PartialOrd, Ord)]
pub struct KernelVersion {
    pub major: u32,
    pub minor: u32,
    pub patch: u32,
}

/// `(a1, b1, c1) <= (a2, b2, c2)` in lexicographic order.
pub open spec fn lex_le(a1: int, b1: int, c1: int, a2: int, b2: int, c2: int) -> bool {
    a1 < a2 || (a1 == a2 && (b1 < b2 || (b1 == b2 && c1 <= c2)))
}

/// The ASCII digit for `d < 10`.
pub open spec fn digit_char(d: nat) -> char {
    (d + '0' as nat) as char
}

/// The decimal representation of `n`, without leading zeros.
pub open spec fn decimal_digits(n: nat) -> Seq<char>
    decreases n,
{
    if n < 10 {
        seq![digit_char(n)]
    } else {
        decimal_digits(n / 10).push(digit_char(n % 10))
    }
}

/// `major.minor.patch`, each part in decimal.
pub open spec fn render_spec(v: KernelVersion) -> Seq<char> {
    decimal_digits(v.major as nat) + seq!['.'] + decimal_digits(v.minor as nat) + seq!['.']
        + decimal_digits(v.patch as nat)
}

/// The decimal representation of `n`.
pub fn decimal_string(n: u32) -> (s: String)
    ensures
        s@ == decimal_digits(n as nat),
    decreases n,
{
    let digits = "0123456789";
    proof {
        reveal_strlit("0123456789");
    }
    if n < 10 {
        let d = n as usize;
        String::from_str(digits.substring_char(d, d + 1))
    } else {
        let mut s = decimal_string(n / 10);
        let d = (n % 10) as usize;
        s.append(digits.substring_char(d, d + 1));
        s
    }
}

/// Every character of `d` is an ASCII digit.
pub open spec fn all_digits(d: Seq<char>) -> bool {
    forall|i: int| 0 <= i < d.len() ==> is_digit(#[trigger] d[i])
}

/// The decimal representation of `n` is a non-empty run of digits that denotes `n`.
pub proof fn lemma_decimal_digits(n: nat)
    ensures
        decimal_digits(n).len() > 0,
        all_digits(decimal_digits(n)),
        decimal_value(decimal_digits(n)) == n,
    decreases n,
{
    if n < 10 {
        assert(decimal_digits(n).drop_last() =~= Seq::<char>::empty());
        assert(decimal_value(Seq::<char>::empty()) == 0);
    } else {
        lemma_decimal_digits(n / 10);
        let prev = decimal_digits(n / 10);
        assert(prev.push(digit_char(n % 10)).drop_last() == prev);
    }
}

proof fn lemma_runs_nonempty(s: Seq<char>)
    requires
        s.len() > 0,
        is_digit(s.last()),
    ensures
        digit_runs(s).len() > 0,
    decreases s.len(),
{
    if s.len() >= 2 && is_digit(s[s.len() - 2]) {
        let p = s.drop_last();
        assert(p.last() == s[s.len() - 2]);
        lemma_runs_nonempty(p);
    }
}

proof fn lemma_runs_of_digits(d: Seq<char>)
    requires
        d.len() > 0,
        all_digits(d),
    ensures
        digit_runs(d) == seq![d],
    decreases d.len(),
{
    if d.len() == 1 {
        assert(d.drop_last() =~= Seq::<char>::empty());
        assert(digit_runs(d.drop_last()) =~= Seq::<Seq<char>>::empty());
        assert(is_digit(d.last()));
        assert(d =~= seq![d.last()]);
        assert(Seq::<Seq<char>>::empty().push(seq![d.last()]) =~= seq![d]);
    } else {
        let p = d.drop_last();
        assert(all_digits(p));
        lemma_runs_of_digits(p);
        assert(is_digit(d[d.len() - 2]));
        assert(p.push(d.last()) =~= d);
        assert(is_digit(d.last()));
        assert(seq![p].update(0, p.push(d.last())) =~= seq![d]);
    }
}

proof fn lemma_runs_concat(a: Seq<char>, b: Seq<char>)
    requires
        a.len() == 0 || !is_digit(a.last()),
    ensures
        digit_runs(a + b) == digit_runs(a) + digit_runs(b),
    decreases b.len(),
{
    if b.len() == 0 {
        assert(a + b =~= a);
        assert(digit_runs(b) =~= Seq::<Seq<char>>::empty());
        assert(digit_runs(a) + digit_runs(b) =~= digit_runs(a));
    } else {
        let bp = b.drop_last();
        let c = b.last();
        lemma_runs_concat(a, bp);
        let s = a + b;
        assert(s.drop_last() =~= a + bp);
        assert(s.last() == c);
        let ra = digit_runs(a);
        let rb = digit_runs(bp);
        if is_digit(c) {
            if bp.len() > 0 {
                assert(s[s.len() - 2] == bp.last());
                assert(b[b.len() - 2] == bp.last());
                if is_digit(bp.last()) {
                    lemma_runs_nonempty(bp);
                    assert((ra + rb).update((ra + rb).len() - 1, (ra + rb).last().push(c))
                        =~= ra + rb.update(rb.len() - 1, rb.last().push(c)));
                } else {
                    assert((ra + rb).push(seq![c]) =~= ra + rb.push(seq![c]));
                }
            } else {
                assert(bp =~= Seq::<char>::empty());
                assert(rb =~= Seq::<Seq<char>>::empty());
                if s.len() >= 2 {
                    assert(s[s.len() - 2] == a.last());
                }
                assert((ra + rb).push(seq![c]) =~= ra + rb.push(seq![c]));
            }
        }
    }
}

/// Parsing the rendering of a version gives the version back: `parse` is a
/// left inverse of `to_string`.
pub proof fn lemma_parse_render_roundtrip(v: KernelVersion)
    ensures
        parse_spec(render_spec(v)) == v,
{
    let d1 = decimal_digits(v.major as nat);
    let d2 = decimal_digits(v.minor as nat);
    let d3 = decimal_digits(v.patch as nat);
    lemma_decimal_digits(v.major as nat);
    lemma_decimal_digits(v.minor as nat);
    lemma_decimal_digits(v.patch as nat);
    lemma_runs_of_digits(d1);
    lemma_runs_of_digits(d2);
    lemma_runs_of_digits(d3);
    let dot = seq!['.'];
    assert(dot.last() == '.');
    assert(!is_digit('.'));
    assert(dot.drop_last() =~= Seq::<char>::empty());
    assert(digit_runs(dot.drop_last()) =~= Seq::<Seq<char>>::empty());
    assert(digit_runs(dot) == digit_runs(dot.drop_last()));
    let p1 = d1 + dot;
    assert(p1.drop_last() =~= d1);
    assert(p1.last() == '.');
    assert(digit_runs(p1) == seq![d1]);
    let p2 = p1 + d2;
    lemma_runs_concat(p1, d2);
    let p3 = p2 + dot;
    assert(p3.drop_last() =~= p2);
    assert(p3.last() == '.');
    assert(digit_runs(p3) == digit_runs(p2));
    let p4 = p3 + d3;
    lemma_runs_concat(p3, d3);
    assert(p4 == render_spec(v));
    assert(digit_runs(p4) =~= seq![d1, d2, d3]);
}

/// A version gate passed by one version is passed by every newer version, and
/// every lower gate is passed too.
pub proof fn lemma_gate_monotone(
    v: KernelVersion,
    w: KernelVersion,
    major: u32,
    minor: u32,
    lower_major: u32,
    lower_minor: u32,
)
    requires
        (KernelVersion { major, minor, patch: 0 }).le(v),
    ensures
        v.le(w) ==> (KernelVersion { major, minor, patch: 0 }).le(w),
        (KernelVersion { major: lower_major, minor: lower_minor, patch: 0 }).le(
            KernelVersion { major, minor, patch: 0 },
        ) ==> (KernelVersion { major: lower_major, minor: lower_minor, patch: 0 }).le(v),
{
}

impl KernelVersion {
    /// `self <= other` in the order of `(major, minor, patch)`.
    pub open spec fn le(self, other: KernelVersion) -> bool {
        lex_le(self.major as int, self.minor as int, self.patch as int,
            other.major as int, other.minor as int, other.patch as int)
    }

    /// Parse a version string like "5.14.0-362.el9" or "3.12.49-11-default".
    /// Splits on any non-digit character and takes the first three numeric tokens.
    pub fn parse(s: &str) -> (v: KernelVersion)
        ensures
            v == parse_spec(s@),
    {
        let cs = chars_of(s);
        let n = cs.len();
        let mut major: u32 = 0;
        let mut minor: u32 = 0;
        let mut patch: u32 = 0;
        let mut count: usize = 0;
        let mut in_run = false;
        let mut cur: u32 = 0;
        let mut fits = true;
        let mut i: usize = 0;
        while i < n
            invariant
                n == cs@.len(),
                cs@ == s@,
                0 <= i <= n,
                count <= i,
                count == digit_runs(cs@.take(i as int)).len(),
                in_run == (i > 0 && is_digit(cs@[i - 1])),
                in_run ==> count > 0,
                in_run && fits ==> cur == decimal_value(digit_runs(cs@.take(i as int))[count - 1]),
                in_run && !fits ==> decimal_value(digit_runs(cs@.take(i as int))[count - 1]) > u32::MAX,
                major == nth_field(digit_runs(cs@.take(i as int)), 0),
                minor == nth_field(digit_runs(cs@.take(i as int)), 1),
                patch == nth_field(digit_runs(cs@.take(i as int)), 2),
            decreases n - i,
        {
            let ghost prefix = cs@.take(i as int);
            let ghost runs = digit_runs(prefix);
            let c = cs[i];
            let ghost next = cs@.take(i + 1);
            assert(next.drop_last() == prefix);
            assert(next.last() == c);
            assert(i > 0 ==> next[i - 1] == cs@[i - 1]);
            if '0' <= c && c <= '9' {
                let d = (c as u32) - ('0' as u32);
                if in_run {
                    let ghost last = runs[count - 1];
                    assert(last.push(c).drop_last() == last);
                    assert(digit_runs(next) == runs.update(count - 1, last.push(c)));
                    assert(decimal_value(last.push(c)) == decimal_value(last) * 10 + d);
                    if fits {
                        match cur.checked_mul(10) {
                            Some(t) => match t.checked_add(d) {
                                Some(u) => { cur = u; },
                                None => { fits = false; },
                            },
                            None => { fits = false; },
                        }
                    }
                } else {
                    count = count + 1;
                    cur = d;
                    fits = true;
                    assert(seq![c].drop_last() =~= Seq::<char>::empty());
                    assert(digit_runs(next) == runs.push(seq![c]));
                    assert(decimal_value(Seq::<char>::empty()) == 0);
                    assert(decimal_value(seq![c]) == d);
                }
                let f = if fits { cur } else { 0 };
                if count == 1 {
                    major = f;
                } else if count == 2 {
                    minor = f;
                } else if count == 3 {
                    patch = f;
                }
                in_run = true;
            } else {
                in_run = false;
            }
            i = i + 1;
        }
        assert(cs@.take(n as int) == cs@);
        KernelVersion { major, minor, patch }
    }

    /// The version as `major.minor.patch`.
    pub fn to_string(&self) -> (s: String)
        ensures
            s@ == render_spec(*self),
    {
        let mut s = decimal_string(self.major);
        s.append(".");
        s.append(decimal_string(self.minor).as_str());
        s.append(".");
        s.append(decimal_string(self.patch).as_str());
        proof {
            reveal_strlit(".");
        }
        s
    }

    /// Returns true if the version is at least `major.minor`.
    pub fn at_least(&self, major: u32, minor: u32) -> (res: bool)
        ensures
            res == (KernelVersion { major, minor, patch: 0 }).le(*self),
    {
        self.major > major || (self.major == major && self.minor >= minor)
    }
}

} // verus!

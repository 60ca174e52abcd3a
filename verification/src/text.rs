use vstd::prelude::*;

verus! {

/// The characters of `s`, in order.
pub fn chars_of(s: &str) -> (v: Vec<char>)
    ensures
        v@ == s@,
{
    let mut v: Vec<char> = Vec::new();
    for c in it: s.chars()
        invariant
            it.seq() == s@,
            v@ == it.seq().take(it.index() as int),
    {
        v.push(c);
    }
    v
}

/// `p` occurs in `s` starting at index `i`.
pub open spec fn occurs_at(s: Seq<char>, p: Seq<char>, i: int) -> bool {
    0 <= i && i + p.len() <= s.len() && s.subrange(i, i + p.len()) == p
}

/// Whether `p` occurs in `s` at index `i`.
fn matches_at(s: &Vec<char>, p: &Vec<char>, i: usize) -> (res: bool)
    requires
        i + p@.len() <= s@.len(),
    ensures
        res == occurs_at(s@, p@, i as int),
{
    let n = p.len();
    let mut j: usize = 0;
    while j < n
        invariant
            n == p@.len(),
            i + n <= s.len(),
            0 <= j <= n,
            forall|k: int| 0 <= k < j ==> s@[i + k] == p@[k],
        decreases n - j,
    {
        if s[i + j] != p[j] {
            assert(s@.subrange(i as int, i + n)[j as int] != p@[j as int]);
            return false;
        }
        j = j + 1;
    }
    assert(s@.subrange(i as int, i + n) =~= p@);
    true
}

/// `s` starts with `p`.
pub fn starts_with(s: &str, p: &str) -> (res: bool)
    ensures
        res == occurs_at(s@, p@, 0),
{
    let sc = chars_of(s);
    let pc = chars_of(p);
    if pc.len() > sc.len() {
        false
    } else {
        matches_at(&sc, &pc, 0)
    }
}

/// `a` and `b` hold the same characters.
pub fn str_eq(a: &str, b: &str) -> (res: bool)
    ensures
        res == (a@ == b@),
{
    let ac = chars_of(a);
    let bc = chars_of(b);
    if ac.len() != bc.len() {
        false
    } else {
        let r = matches_at(&ac, &bc, 0);
        assert(ac@.subrange(0, ac@.len() as int) =~= ac@);
        r
    }
}

/// The `k`-th piece (counting from 0) of `s` split at every `:`, or `None`
/// where `s` has fewer than `k + 1` pieces.
pub open spec fn colon_field(s: Seq<char>, k: nat) -> Option<Seq<char>>
    decreases s.len(),
{
    if s.len() == 0 {
        if k == 0 {
            Some(Seq::empty())
        } else {
            None
        }
    } else if s[0] == ':' {
        if k == 0 {
            Some(Seq::empty())
        } else {
            colon_field(s.drop_first(), (k - 1) as nat)
        }
    } else if k == 0 {
        match colon_field(s.drop_first(), 0) {
            Some(f) => Some(seq![s[0]] + f),
            None => None,
        }
    } else {
        colon_field(s.drop_first(), k)
    }
}

/// The `k`-th piece (counting from 0) of `s` split at every `:`.
pub fn colon_field_of(s: &str, k: usize) -> (res: Option<String>)
    ensures
        res matches Some(f) ==> colon_field(s@, k as nat) == Some(f@),
        res is None ==> colon_field(s@, k as nat) is None,
{
    let cs = chars_of(s);
    let n = cs.len();
    let mut i: usize = 0;
    let mut c: usize = 0;
    assert(s@.skip(0) =~= s@);
    while i < n && c < k
        invariant
            cs@ == s@,
            n == cs@.len(),
            0 <= i <= n,
            c <= k,
            colon_field(s@, k as nat) == colon_field(s@.skip(i as int), (k - c) as nat),
        decreases n - i,
    {
        assert(s@.skip(i as int).drop_first() =~= s@.skip(i + 1));
        if cs[i] == ':' {
            c = c + 1;
        }
        i = i + 1;
    }
    if c < k {
        assert(s@.skip(n as int) =~= Seq::<char>::empty());
        return None;
    }
    let start = i;
    let mut j: usize = i;
    proof {
        lemma_colon_field_zero_some(s@.skip(start as int));
        let f = colon_field(s@.skip(start as int), 0)->0;
        assert(s@.subrange(start as int, start as int) + f =~= f);
    }
    while j < n && cs[j] != ':'
        invariant
            cs@ == s@,
            n == cs@.len(),
            0 <= start <= j <= n,
            colon_field(s@, k as nat) == colon_field(s@.skip(start as int), 0),
            colon_field(s@.skip(j as int), 0) is Some,
            colon_field(s@.skip(start as int), 0) == Some(
                s@.subrange(start as int, j as int) + colon_field(s@.skip(j as int), 0)->0,
            ),
        decreases n - j,
    {
        let ghost t = s@.skip(j as int);
        assert(t.drop_first() =~= s@.skip(j + 1));
        proof {
            lemma_colon_field_zero_some(s@.skip(j + 1));
        }
        assert(s@.subrange(start as int, j + 1) =~= s@.subrange(start as int, j as int) + seq![cs@[j as int]]);
        assert(s@.subrange(start as int, j + 1) + colon_field(s@.skip(j + 1), 0)->0
            =~= s@.subrange(start as int, j as int) + (seq![t[0]] + colon_field(t.drop_first(), 0)->0));
        j = j + 1;
    }
    if j == n {
        assert(s@.skip(n as int) =~= Seq::<char>::empty());
    }
    assert(s@.subrange(start as int, j as int) + Seq::<char>::empty() =~= s@.subrange(start as int, j as int));
    Some(String::from_str(s.substring_char(start, j)))
}

proof fn lemma_colon_field_zero_some(s: Seq<char>)
    ensures
        colon_field(s, 0) is Some,
    decreases s.len(),
{
    if s.len() > 0 && s[0] != ':' {
        lemma_colon_field_zero_some(s.drop_first());
    }
}

/// A character with the Unicode `White_Space` property.
pub open spec fn is_whitespace(c: char) -> bool {
    ||| ('\u{9}' <= c && c <= '\u{D}')
    ||| c == ' '
    ||| c == '\u{85}'
    ||| c == '\u{A0}'
    ||| c == '\u{1680}'
    ||| ('\u{2000}' <= c && c <= '\u{200A}')
    ||| c == '\u{2028}'
    ||| c == '\u{2029}'
    ||| c == '\u{202F}'
    ||| c == '\u{205F}'
    ||| c == '\u{3000}'
}

fn is_whitespace_exec(c: char) -> (res: bool)
    ensures
        res == is_whitespace(c),
{
    ('\u{9}' <= c && c <= '\u{D}') || c == ' ' || c == '\u{85}' || c == '\u{A0}'
        || c == '\u{1680}' || ('\u{2000}' <= c && c <= '\u{200A}') || c == '\u{2028}'
        || c == '\u{2029}' || c == '\u{202F}' || c == '\u{205F}' || c == '\u{3000}'
}

/// `s` without its leading whitespace.
pub open spec fn trim_start_ws(s: Seq<char>) -> Seq<char>
    decreases s.len(),
{
    if s.len() > 0 && is_whitespace(s[0]) {
        trim_start_ws(s.drop_first())
    } else {
        s
    }
}

/// `s` without its trailing whitespace.
pub open spec fn trim_end_ws(s: Seq<char>) -> Seq<char>
    decreases s.len(),
{
    if s.len() > 0 && is_whitespace(s.last()) {
        trim_end_ws(s.drop_last())
    } else {
        s
    }
}

/// `s` without leading and trailing whitespace.
pub open spec fn trim_ws(s: Seq<char>) -> Seq<char> {
    trim_end_ws(trim_start_ws(s))
}

/// `s` without its trailing NUL characters.
pub open spec fn trim_end_nul(s: Seq<char>) -> Seq<char>
    decreases s.len(),
{
    if s.len() > 0 && s.last() == '\0' {
        trim_end_nul(s.drop_last())
    } else {
        s
    }
}

/// `s` without leading and trailing whitespace.
pub fn trim(s: &str) -> (res: String)
    ensures
        res@ == trim_ws(s@),
{
    let cs = chars_of(s);
    let n = cs.len();
    let mut lo: usize = 0;
    assert(s@.subrange(0, n as int) =~= s@);
    while lo < n && is_whitespace_exec(cs[lo])
        invariant
            cs@ == s@,
            n == cs@.len(),
            0 <= lo <= n,
            trim_start_ws(s@) == trim_start_ws(s@.subrange(lo as int, n as int)),
        decreases n - lo,
    {
        let ghost t = s@.subrange(lo as int, n as int);
        assert(t.drop_first() =~= s@.subrange(lo + 1, n as int));
        lo = lo + 1;
    }
    assert(s@.subrange(0, n as int) =~= s@);
    let mut hi: usize = n;
    while hi > lo && is_whitespace_exec(cs[hi - 1])
        invariant
            cs@ == s@,
            n == cs@.len(),
            0 <= lo <= hi <= n,
            trim_start_ws(s@) == s@.subrange(lo as int, n as int),
            trim_ws(s@) == trim_end_ws(s@.subrange(lo as int, hi as int)),
        decreases hi - lo,
    {
        let ghost t = s@.subrange(lo as int, hi as int);
        assert(t.drop_last() =~= s@.subrange(lo as int, hi - 1));
        hi = hi - 1;
    }
    String::from_str(s.substring_char(lo, hi))
}

/// `s` without its trailing NUL characters.
pub fn trim_nul_end(s: &str) -> (res: String)
    ensures
        res@ == trim_end_nul(s@),
{
    let cs = chars_of(s);
    let n = cs.len();
    let mut hi: usize = n;
    assert(s@.subrange(0, n as int) =~= s@);
    while hi > 0 && cs[hi - 1] == '\0'
        invariant
            cs@ == s@,
            n == cs@.len(),
            0 <= hi <= n,
            trim_end_nul(s@) == trim_end_nul(s@.subrange(0, hi as int)),
        decreases hi,
    {
        let ghost t = s@.subrange(0, hi as int);
        assert(t.drop_last() =~= s@.subrange(0, hi - 1));
        hi = hi - 1;
    }
    String::from_str(s.substring_char(0, hi))
}

} // verus!

//! Character-level text helpers: comparison, prefixes and suffixes,
//! whitespace trimming, and line splitting. Everything here is pure string
//! logic with exact contracts; the parsing modules build on it.

use vstd::prelude::*;
use vstd::string::StrSliceExecFns;
use vstd::string::StringExecFns;

verus! {

/// Whether a character counts as whitespace here: space, tab, or a line
/// ending.
pub open spec fn is_space(c: char) -> bool {
    c == ' ' || c == '\t' || c == '\n' || c == '\r'
}

/// Whether two texts hold the same characters.
pub fn str_eq(a: &str, b: &str) -> (r: bool)
    ensures
        r == (a@ == b@),
{
    let n = a.unicode_len();
    if b.unicode_len() != n {
        return false;
    }
    let mut i: usize = 0;
    while i < n
        invariant
            i <= n,
            n == a@.len() == b@.len(),
            forall|j: int| 0 <= j < i ==> a@[j] == b@[j],
        decreases n - i,
    {
        if a.get_char(i) != b.get_char(i) {
            return false;
        }
        i += 1;
    }
    proof {
        assert(a@ =~= b@);
    }
    true
}

/// Whether `s` begins with `prefix`.
pub fn str_starts_with(s: &str, prefix: &str) -> (r: bool)
    ensures
        r == (s@.len() >= prefix@.len() && s@.take(prefix@.len() as int) == prefix@),
{
    let n = prefix.unicode_len();
    if s.unicode_len() < n {
        return false;
    }
    let mut i: usize = 0;
    while i < n
        invariant
            i <= n,
            n == prefix@.len() <= s@.len(),
            forall|j: int| 0 <= j < i ==> s@[j] == prefix@[j],
        decreases n - i,
    {
        if s.get_char(i) != prefix.get_char(i) {
            proof {
                assert(s@.take(n as int)[i as int] != prefix@[i as int]);
            }
            return false;
        }
        i += 1;
    }
    proof {
        assert(s@.take(n as int) =~= prefix@);
    }
    true
}

/// Whether `s` ends with `suffix`.
pub fn str_ends_with(s: &str, suffix: &str) -> (r: bool)
    ensures
        r == (s@.len() >= suffix@.len() && s@.skip(s@.len() - suffix@.len()) == suffix@),
{
    let n = suffix.unicode_len();
    let m = s.unicode_len();
    if m < n {
        return false;
    }
    let off = m - n;
    let mut i: usize = 0;
    while i < n
        invariant
            i <= n,
            n == suffix@.len(),
            m == s@.len(),
            n <= m,
            off == m - n,
            forall|j: int| 0 <= j < i ==> s@[off + j] == suffix@[j],
        decreases n - i,
    {
        if s.get_char(off + i) != suffix.get_char(i) {
            proof {
                assert(s@.skip(off as int)[i as int] != suffix@[i as int]);
            }
            return false;
        }
        i += 1;
    }
    proof {
        assert(s@.skip(off as int) =~= suffix@);
    }
    true
}

/// Concatenation of two texts.
pub fn str_concat(a: &str, b: &str) -> (r: String)
    ensures
        r@ == a@ + b@,
{
    let mut out = a.to_owned();
    out.append(b);
    out
}

/// A text with leading and trailing whitespace removed.
pub open spec fn trim_spec(s: Seq<char>) -> Seq<char>
    decreases s.len(),
{
    if s.len() == 0 {
        s
    } else if is_space(s[0]) {
        trim_spec(s.skip(1))
    } else if is_space(s[s.len() - 1]) {
        trim_spec(s.take(s.len() - 1))
    } else {
        s
    }
}

proof fn lemma_trim_skip(s: Seq<char>, i: int)
    requires
        0 <= i <= s.len(),
        forall|j: int| 0 <= j < i ==> is_space(s[j]),
    ensures
        trim_spec(s) == trim_spec(s.skip(i)),
    decreases i,
{
    if i > 0 {
        assert(is_space(s[0]));
        let t = s.skip(1);
        assert(forall|j: int| 0 <= j < i - 1 ==> is_space(t[j]));
        lemma_trim_skip(t, i - 1);
        assert(t.skip(i - 1) =~= s.skip(i));
    } else {
        assert(s.skip(0) =~= s);
    }
}

proof fn lemma_trim_take(s: Seq<char>, j: int)
    requires
        0 < j <= s.len(),
        !is_space(s[0]),
        !is_space(s[j - 1]),
        forall|k: int| j <= k < s.len() ==> is_space(s[k]),
    ensures
        trim_spec(s) == s.take(j),
    decreases s.len(),
{
    if j == s.len() {
        assert(s.take(j) =~= s);
    } else {
        assert(is_space(s[s.len() - 1]));
        let t = s.take(s.len() - 1);
        assert(forall|k: int| j <= k < t.len() ==> is_space(t[k]));
        lemma_trim_take(t, j);
        assert(t.take(j) =~= s.take(j));
    }
}

/// The text with leading and trailing whitespace removed.
pub fn trim(s: &str) -> (r: String)
    ensures
        r@ == trim_spec(s@),
{
    let n = s.unicode_len();
    let mut i: usize = 0;
    while i < n
        invariant_except_break
            i <= n,
            n == s@.len(),
            forall|j: int| 0 <= j < i ==> is_space(s@[j]),
        ensures
            i <= n,
            n == s@.len(),
            forall|j: int| 0 <= j < i ==> is_space(s@[j]),
            i == n || !is_space(s@[i as int]),
        decreases n - i,
    {
        let c = s.get_char(i);
        if !(c == ' ' || c == '\t' || c == '\n' || c == '\r') {
            break;
        }
        i += 1;
    }
    if i == n {
        proof {
            lemma_trim_skip(s@, n as int);
            assert(s@.skip(n as int) =~= Seq::<char>::empty());
        }
        return String::new();
    }
    let mut j: usize = n;
    while j > i + 1
        invariant_except_break
            i < j <= n,
            n == s@.len(),
            forall|k: int| j <= k < n ==> is_space(s@[k]),
        ensures
            i < j <= n,
            n == s@.len(),
            forall|k: int| j <= k < n ==> is_space(s@[k]),
            j == i + 1 || !is_space(s@[j - 1]),
        decreases j,
    {
        let c = s.get_char(j - 1);
        if !(c == ' ' || c == '\t' || c == '\n' || c == '\r') {
            break;
        }
        j -= 1;
    }
    let out = s.substring_char(i, j).to_owned();
    proof {
        lemma_trim_skip(s@, i as int);
        let t = s@.skip(i as int);
        assert(t[0] == s@[i as int]);
        assert(t[j - i - 1] == s@[j - 1]);
        assert(forall|k: int| (j - i) <= k < t.len() ==> is_space(t[k]));
        lemma_trim_take(t, j - i as int);
        assert(t.take(j - i as int) =~= s@.subrange(i as int, j as int));
    }
    out
}

/// The lines of a text, split at every newline character: one segment more
/// than there are newlines, so a trailing newline yields a final empty
/// segment.
pub open spec fn split_from(cur: Seq<char>, rest: Seq<char>) -> Seq<Seq<char>>
    decreases rest.len(),
{
    if rest.len() == 0 {
        seq![cur]
    } else if rest[0] == '\n' {
        seq![cur] + split_from(Seq::empty(), rest.skip(1))
    } else {
        split_from(cur.push(rest[0]), rest.skip(1))
    }
}

/// The lines of a text, split at every newline character.
pub open spec fn split_lines_spec(s: Seq<char>) -> Seq<Seq<char>> {
    split_from(Seq::empty(), s)
}

/// Split a text into its lines.
pub fn split_lines(s: &str) -> (r: Vec<String>)
    ensures
        r.deep_view() == split_lines_spec(s@),
{
    let n = s.unicode_len();
    let mut done: Vec<String> = Vec::new();
    let mut cur = String::new();
    let mut i: usize = 0;
    proof {
        assert(done.deep_view() =~= Seq::<Seq<char>>::empty());
        assert(s@.skip(0) =~= s@);
        assert(Seq::<Seq<char>>::empty() + split_from(Seq::<char>::empty(), s@)
            =~= split_from(Seq::<char>::empty(), s@));
    }
    while i < n
        invariant
            i <= n,
            n == s@.len(),
            split_lines_spec(s@) == done.deep_view() + split_from(cur@, s@.skip(i as int)),
        decreases n - i,
    {
        let c = s.get_char(i);
        let ghost rest = s@.skip(i as int);
        proof {
            assert(rest[0] == s@[i as int]);
            assert(rest.skip(1) =~= s@.skip(i + 1));
        }
        if c == '\n' {
            let ghost old_done = done.deep_view();
            let ghost old_cur = cur@;
            done.push(cur);
            cur = String::new();
            proof {
                assert(split_from(old_cur, rest)
                    == seq![old_cur] + split_from(Seq::<char>::empty(), rest.skip(1)));
                assert(done.deep_view() =~= old_done + seq![old_cur]);
                assert(old_done + (seq![old_cur] + split_from(Seq::<char>::empty(), rest.skip(1)))
                    =~= (old_done + seq![old_cur]) + split_from(Seq::<char>::empty(), rest.skip(1)));
            }
        } else {
            let ghost old_cur = cur@;
            cur.append(s.substring_char(i, i + 1));
            proof {
                assert(s@.subrange(i as int, i + 1) =~= seq![s@[i as int]]);
                assert(cur@ =~= old_cur.push(rest[0]));
            }
        }
        i += 1;
    }
    let ghost old_done = done.deep_view();
    let ghost last = cur@;
    proof {
        assert(s@.skip(n as int) =~= Seq::<char>::empty());
        assert(split_from(last, Seq::<char>::empty()) == seq![last]);
    }
    done.push(cur);
    proof {
        assert(done.deep_view() =~= old_done + seq![last]);
    }
    done
}

} // verus!

//! Character-level string operations, each stated over `Seq<char>`.

use vstd::prelude::*;

verus! {

// ------------------------------------------------------------------------
// std operations on strings that vstd leaves unspecified
// ------------------------------------------------------------------------

/// The characters of `s`, in order.
pub(crate) fn chars_of(s: &str) -> (r: Vec<char>)
    ensures
        r@ == s@,
{
    broadcast use vstd::string::group_string_axioms;

    let mut r: Vec<char> = Vec::new();
    for c in it: s.chars()
        invariant
            r@ == it.seq().take(it.index()),
            it.seq() == s@,
    {
        r.push(c);
        assert(r@ =~= it.seq().take(it.index() + 1));
    }
    assert(r@ =~= s@);
    r
}

/// `String::push`: claimed to append `c` at the end, as documented.
#[verifier::external_body]
pub(crate) fn push_char(s: &mut String, c: char)
    ensures
        final(s)@ == old(s)@.push(c),
{
    s.push(c);
}

/// A fresh `String` holding the characters of `s`.
pub fn owned(s: &str) -> (r: String)
    ensures
        r@ == s@,
{
    <String as StringExecFns>::from_str(s)
}

/// The views of a sequence of strings.
pub open spec fn views(v: Seq<String>) -> Seq<Seq<char>> {
    v.map_values(|s: String| s@)
}

/// The view of an optional string.
pub open spec fn opt_view(o: Option<String>) -> Option<Seq<char>> {
    match o {
        Some(s) => Some(s@),
        None => None,
    }
}

/// Moves the strings of `src` to the end of `dst`.
pub fn append_all(dst: &mut Vec<String>, src: Vec<String>)
    ensures
        views(final(dst)@) == views(old(dst)@) + views(src@),
{
    let mut src = src;
    let ghost sv = views(src@);
    let ghost dv = views(dst@);
    dst.append(&mut src);
    assert(views(dst@) =~= dv + sv);
}

/// The view of an optional string slice.
pub open spec fn opt_str(o: Option<&str>) -> Option<Seq<char>> {
    match o {
        Some(s) => Some(s@),
        None => None,
    }
}

// ------------------------------------------------------------------------
// joining
// ------------------------------------------------------------------------

/// `parts` separated by `sep`.
pub open spec fn joined(parts: Seq<Seq<char>>, sep: Seq<char>) -> Seq<char>
    decreases parts.len(),
{
    if parts.len() == 0 {
        seq![]
    } else if parts.len() == 1 {
        parts[0]
    } else {
        joined(parts.drop_last(), sep) + sep + parts.last()
    }
}

/// Joins `parts` with `sep` between consecutive parts.
pub fn join(parts: &Vec<String>, sep: &str) -> (r: String)
    ensures
        r@ == joined(views(parts@), sep@),
{
    let mut out = String::new();
    let n = parts.len();
    let mut i: usize = 0;
    while i < n
        invariant
            n == parts@.len(),
            0 <= i <= n,
            out@ == joined(views(parts@).take(i as int), sep@),
        decreases n - i,
    {
        let ghost before = views(parts@).take(i as int);
        assert(views(parts@).take(i + 1).drop_last() =~= before);
        if i != 0 {
            out.append(sep);
        } else {
            assert(views(parts@).take(1) =~= seq![parts@[0]@]);
        }
        out.append(parts[i].as_str());
        i = i + 1;
    }
    assert(views(parts@).take(n as int) =~= views(parts@));
    out
}

// ------------------------------------------------------------------------
// replacing one character by a string
// ------------------------------------------------------------------------

/// `s` with every occurrence of `c` replaced by `rep`.
pub open spec fn escape_char(s: Seq<char>, c: char, rep: Seq<char>) -> Seq<char>
    decreases s.len(),
{
    if s.len() == 0 {
        seq![]
    } else {
        escape_char(s.drop_last(), c, rep) + (if s.last() == c {
            rep
        } else {
            seq![s.last()]
        })
    }
}

/// Replaces every `c` in `s` by `rep`.
pub fn replace_char(s: &str, c: char, rep: &str) -> (r: String)
    ensures
        r@ == escape_char(s@, c, rep@),
{
    let cs = chars_of(s);
    let mut out = String::new();
    let mut i: usize = 0;
    while i < cs.len()
        invariant
            cs@ == s@,
            0 <= i <= cs@.len(),
            out@ == escape_char(s@.take(i as int), c, rep@),
        decreases cs.len() - i,
    {
        assert(s@.take(i + 1).drop_last() =~= s@.take(i as int));
        if cs[i] == c {
            out.append(rep);
        } else {
            push_char(&mut out, cs[i]);
            assert(out@ =~= escape_char(s@.take(i as int), c, rep@) + seq![cs@[i as int]]);
        }
        i = i + 1;
    }
    assert(s@.take(cs@.len() as int) =~= s@);
    out
}

// ------------------------------------------------------------------------
// replacing a pattern by a string, left to right
// ------------------------------------------------------------------------

/// `s` with the non-overlapping occurrences of `pat`, found from the left,
/// replaced by `rep` (the semantics of `str::replace` for a non-empty pattern).
pub open spec fn replaced(s: Seq<char>, pat: Seq<char>, rep: Seq<char>) -> Seq<char>
    decreases s.len(),
{
    if pat.len() == 0 || s.len() == 0 {
        s
    } else if s.len() >= pat.len() && s.take(pat.len() as int) == pat {
        rep + replaced(s.skip(pat.len() as int), pat, rep)
    } else {
        seq![s[0]] + replaced(s.skip(1), pat, rep)
    }
}

/// Whether `pat` occurs in `cs` at position `i`.
fn matches_at(cs: &Vec<char>, pat: &Vec<char>, i: usize) -> (r: bool)
    requires
        i + pat@.len() <= cs@.len(),
    ensures
        r == (cs@.subrange(i as int, i + pat@.len()) == pat@),
{
    let mut j: usize = 0;
    while j < pat.len()
        invariant
            i + pat.len() <= cs.len(),
            0 <= j <= pat@.len(),
            cs@.subrange(i as int, i + j) == pat@.take(j as int),
        decreases pat.len() - j,
    {
        if cs[i + j] != pat[j] {
            assert(cs@.subrange(i as int, i + pat@.len())[j as int] != pat@[j as int]);
            return false;
        }
        assert(cs@.subrange(i as int, i + j + 1) =~= pat@.take(j + 1));
        j = j + 1;
    }
    assert(pat@.take(pat@.len() as int) =~= pat@);
    true
}

/// Replaces the occurrences of `pat` in `s` by `rep`, as `str::replace`.
pub fn replace_all(s: &str, pat: &str, rep: &str) -> (r: String)
    requires
        pat@.len() > 0,
    ensures
        r@ == replaced(s@, pat@, rep@),
{
    let cs = chars_of(s);
    let ps = chars_of(pat);
    let mut out = String::new();
    let mut i: usize = 0;
    assert(s@.skip(0) =~= s@);
    while i < cs.len()
        invariant
            cs@ == s@,
            ps@ == pat@,
            pat@.len() > 0,
            0 <= i <= cs@.len(),
            out@ + replaced(s@.skip(i as int), pat@, rep@) == replaced(s@, pat@, rep@),
        decreases cs.len() - i,
    {
        let ghost t = s@.skip(i as int);
        if ps.len() <= cs.len() - i && matches_at(&cs, &ps, i) {
            assert(t.take(pat@.len() as int) =~= s@.subrange(i as int, i + pat@.len()));
            assert(t.skip(pat@.len() as int) =~= s@.skip(i + pat@.len()));
            assert(replaced(t, pat@, rep@) == rep@ + replaced(s@.skip(i + pat@.len()), pat@, rep@));
            let ghost prev = out@;
            out.append(rep);
            assert(out@ + replaced(s@.skip(i + pat@.len()), pat@, rep@) =~= prev + (rep@
                + replaced(s@.skip(i + pat@.len()), pat@, rep@)));
            i = i + ps.len();
        } else {
            if ps.len() <= cs.len() - i {
                assert(t.take(pat@.len() as int) =~= s@.subrange(i as int, i + pat@.len()));
            }
            assert(t.skip(1) =~= s@.skip(i + 1));
            assert(t[0] == s@[i as int]);
            assert(replaced(t, pat@, rep@) == seq![s@[i as int]] + replaced(
                s@.skip(i + 1),
                pat@,
                rep@,
            ));
            let ghost prev = out@;
            push_char(&mut out, cs[i]);
            assert(out@ + replaced(s@.skip(i + 1), pat@, rep@) =~= prev + (seq![s@[i as int]]
                + replaced(s@.skip(i + 1), pat@, rep@)));
            i = i + 1;
        }
    }
    assert(s@.skip(i as int).len() == 0);
    assert(out@ + s@.skip(i as int) =~= out@);
    out
}

// ------------------------------------------------------------------------
// finding a pattern
// ------------------------------------------------------------------------

/// The first position at or after `i` where `p` occurs in `s`.
pub open spec fn first_match_from(s: Seq<char>, p: Seq<char>, i: nat) -> Option<nat>
    decreases s.len() + 1 - i,
{
    if i + p.len() > s.len() {
        None
    } else if s.subrange(i as int, (i + p.len()) as int) == p {
        Some(i)
    } else {
        first_match_from(s, p, i + 1)
    }
}

/// The first position where `p` occurs in `s` (what `str::find` locates).
pub open spec fn first_match(s: Seq<char>, p: Seq<char>) -> Option<nat> {
    first_match_from(s, p, 0)
}

/// Whether `p` occurs in `s`.
pub open spec fn occurs(s: Seq<char>, p: Seq<char>) -> bool {
    first_match(s, p) is Some
}

/// The first position where `pat` occurs in `cs`.
pub fn find(cs: &Vec<char>, pat: &Vec<char>) -> (r: Option<usize>)
    ensures
        match r {
            Some(i) => first_match(cs@, pat@) == Some(i as nat) && i + pat@.len() <= cs@.len()
                && cs@.subrange(i as int, i + pat@.len()) == pat@,
            None => first_match(cs@, pat@) is None,
        },
{
    if pat.len() > cs.len() {
        return None;
    }
    let last = cs.len() - pat.len();
    let mut i: usize = 0;
    loop
        invariant
            pat@.len() <= cs@.len(),
            last == cs@.len() - pat@.len(),
            0 <= i <= last,
            first_match(cs@, pat@) == first_match_from(cs@, pat@, i as nat),
        decreases last - i,
    {
        if matches_at(cs, pat, i) {
            return Some(i);
        }
        if i == last {
            assert(first_match_from(cs@, pat@, (i + 1) as nat) is None);
            return None;
        }
        i = i + 1;
    }
}

// ------------------------------------------------------------------------
// whitespace-separated words
// ------------------------------------------------------------------------

/// Unicode `White_Space`, the set that `char::is_whitespace` tests.
pub open spec fn is_space(c: char) -> bool {
    ||| '\u{9}' <= c <= '\u{d}'
    ||| c == ' '
    ||| c == '\u{85}'
    ||| c == '\u{a0}'
    ||| c == '\u{1680}'
    ||| '\u{2000}' <= c <= '\u{200a}'
    ||| c == '\u{2028}'
    ||| c == '\u{2029}'
    ||| c == '\u{202f}'
    ||| c == '\u{205f}'
    ||| c == '\u{3000}'
}

/// Whether `c` is white space (`char::is_whitespace`).
pub fn is_space_char(c: char) -> (r: bool)
    ensures
        r == is_space(c),
{
    ('\u{9}' <= c && c <= '\u{d}') || c == ' ' || c == '\u{85}' || c == '\u{a0}' || c
        == '\u{1680}' || ('\u{2000}' <= c && c <= '\u{200a}') || c == '\u{2028}' || c
        == '\u{2029}' || c == '\u{202f}' || c == '\u{205f}' || c == '\u{3000}'
}

/// The length of the run of non-space characters that starts `s`.
pub open spec fn word_len(s: Seq<char>) -> nat
    decreases s.len(),
{
    if s.len() == 0 || is_space(s[0]) {
        0
    } else {
        1 + word_len(s.drop_first())
    }
}

pub proof fn lemma_word_len_bound(s: Seq<char>)
    ensures
        word_len(s) <= s.len(),
        s.len() > 0 && !is_space(s[0]) ==> word_len(s) >= 1,
    decreases s.len(),
{
    if s.len() > 0 && !is_space(s[0]) {
        lemma_word_len_bound(s.drop_first());
    }
}

/// The maximal runs of non-space characters of `s`, in order (what
/// `str::split_whitespace` yields).
pub open spec fn words(s: Seq<char>) -> Seq<Seq<char>>
    decreases s.len(),
{
    if s.len() == 0 {
        seq![]
    } else if is_space(s[0]) {
        words(s.drop_first())
    } else {
        proof {
            lemma_word_len_bound(s);
        }
        seq![s.take(word_len(s) as int)] + words(s.skip(word_len(s) as int))
    }
}

/// The whitespace-separated words of `s`.
pub fn split_whitespace(s: &str) -> (r: Vec<String>)
    ensures
        views(r@) == words(s@),
{
    let cs = chars_of(s);
    let n = cs.len();
    let mut out: Vec<String> = Vec::new();
    let mut i: usize = 0;
    assert(s@.skip(0) =~= s@);
    assert(views(out@) =~= seq![]);
    while i < n
        invariant
            cs@ == s@,
            n == cs@.len(),
            0 <= i <= n,
            views(out@) + words(s@.skip(i as int)) == words(s@),
        decreases n - i,
    {
        let ghost t = s@.skip(i as int);
        if is_space_char(cs[i]) {
            assert(t.drop_first() =~= s@.skip(i + 1));
            i = i + 1;
        } else {
            let mut word = String::new();
            let mut j: usize = i;
            assert(s@.skip(i as int) =~= s@.skip(j as int));
            while j < n && !is_space_char(cs[j])
                invariant
                    cs@ == s@,
                    n == cs@.len(),
                    i <= j <= n,
                    word@ == s@.subrange(i as int, j as int),
                    word_len(s@.skip(i as int)) == (j - i) + word_len(s@.skip(j as int)),
                decreases n - j,
            {
                assert(s@.skip(j as int).drop_first() =~= s@.skip(j + 1));
                push_char(&mut word, cs[j]);
                assert(word@ =~= s@.subrange(i as int, j + 1));
                j = j + 1;
            }
            assert(word_len(s@.skip(j as int)) == 0);
            assert(t.take(j - i) =~= s@.subrange(i as int, j as int));
            assert(t.skip(j - i) =~= s@.skip(j as int));
            assert(words(t) == seq![s@.subrange(i as int, j as int)] + words(s@.skip(j as int)));
            let ghost prev = views(out@);
            out.push(word);
            assert(views(out@) =~= prev.push(s@.subrange(i as int, j as int)));
            assert(views(out@) + words(s@.skip(j as int)) =~= prev + words(t));
            i = j;
        }
    }
    assert(s@.skip(n as int) =~= seq![]);
    assert(views(out@) + seq![] =~= views(out@));
    out
}

/// `s` without its leading white space.
pub open spec fn trim_start(s: Seq<char>) -> Seq<char>
    decreases s.len(),
{
    if s.len() > 0 && is_space(s[0]) {
        trim_start(s.drop_first())
    } else {
        s
    }
}

/// `s` without its trailing white space.
pub open spec fn trim_end(s: Seq<char>) -> Seq<char>
    decreases s.len(),
{
    if s.len() > 0 && is_space(s.last()) {
        trim_end(s.drop_last())
    } else {
        s
    }
}

/// `s` without leading and trailing white space (what `str::trim` gives).
pub open spec fn trimmed(s: Seq<char>) -> Seq<char> {
    trim_end(trim_start(s))
}

/// Removes leading and trailing white space.
pub fn trim(s: &str) -> (r: String)
    ensures
        r@ == trimmed(s@),
{
    let cs = chars_of(s);
    let n = cs.len();
    let mut i: usize = 0;
    assert(cs@.skip(0) =~= cs@);
    while i < n && is_space_char(cs[i])
        invariant
            cs@ == s@,
            n == cs@.len(),
            0 <= i <= n,
            trim_start(cs@.skip(i as int)) == trim_start(cs@),
        decreases n - i,
    {
        assert(cs@.skip(i as int).drop_first() =~= cs@.skip(i + 1));
        i = i + 1;
    }
    let ghost t = cs@.skip(i as int);
    assert(trim_start(t) == t);
    let mut j: usize = n;
    assert(cs@.subrange(i as int, n as int) =~= t);
    while j > i && is_space_char(cs[j - 1])
        invariant
            cs@ == s@,
            n == cs@.len(),
            0 <= i <= j <= n,
            t == cs@.skip(i as int),
            trim_end(t) == trim_end(cs@.subrange(i as int, j as int)),
        decreases j - i,
    {
        assert(cs@.subrange(i as int, j as int).drop_last() =~= cs@.subrange(i as int, j - 1));
        assert(cs@.subrange(i as int, j as int).last() == cs@[j - 1]);
        j = j - 1;
    }
    let ghost u = cs@.subrange(i as int, j as int);
    assert(trim_end(u) == u);
    let mut out = String::new();
    let mut k: usize = i;
    assert(cs@.subrange(i as int, i as int) =~= Seq::<char>::empty());
    while k < j
        invariant
            cs@ == s@,
            n == cs@.len(),
            0 <= i <= k <= j <= n,
            out@ == cs@.subrange(i as int, k as int),
        decreases j - k,
    {
        push_char(&mut out, cs[k]);
        assert(out@ =~= cs@.subrange(i as int, k + 1));
        k = k + 1;
    }
    out
}

} // verus!

//! Where a menu or a popup stands, and how a popup's geometry is written
//! down and read back.

use crate::text::{is_space, owned, push_char, split_whitespace, views, word_len, words};
use vstd::prelude::*;

verus! {

/// The tmux position of the right edge.
pub open spec fn right_spec() -> Seq<char> {
    seq!['R']
}

/// The tmux position of the bottom edge of the pane.
pub open spec fn bottom_spec() -> Seq<char> {
    seq!['P']
}

/// The default horizontal position: the right edge.
pub fn right() -> (r: String)
    ensures
        r@ == right_spec(),
{
    let mut r = String::new();
    push_char(&mut r, 'R');
    r
}

/// The default vertical position: the bottom of the pane.
pub fn bottom() -> (r: String)
    ensures
        r@ == bottom_spec(),
{
    let mut r = String::new();
    push_char(&mut r, 'P');
    r
}

/// A position (`x`, `y`) with an optional width and height, each in tmux's
/// notation.
#[derive(Debug, Clone)]
pub struct Position {
    pub x: String,
    pub y: String,
    pub w: Option<String>,
    pub h: Option<String>,
}

/// A copy of an optional string.
pub fn copy_opt(o: &Option<String>) -> (r: Option<String>)
    ensures
        r == *o,
{
    match o {
        Some(s) => Some(s.clone()),
        None => None,
    }
}

impl Position {
    /// Bottom right, with no size.
    pub fn new_xy() -> (r: Self)
        ensures
            r.x@ == right_spec(),
            r.y@ == bottom_spec(),
            r.w is None,
            r.h is None,
    {
        Self { x: right(), y: bottom(), w: None, h: None }
    }

    /// Bottom right, 100 by 100.
    pub fn new_xywh() -> (r: Self)
        ensures
            r.x@ == right_spec(),
            r.y@ == bottom_spec(),
            r.w matches Some(w) && w@ == "100"@,
            r.h matches Some(h) && h@ == "100"@,
    {
        Self { x: right(), y: bottom(), w: Some(owned("100")), h: Some(owned("100")) }
    }

    /// Bottom right, `w` by `h`.
    pub fn wh(w: i32, h: i32) -> (r: Self)
        ensures
            r.x@ == right_spec(),
            r.y@ == bottom_spec(),
            r.w matches Some(s) && s@ == crate::number::signed_decimal(w as int),
            r.h matches Some(s) && s@ == crate::number::signed_decimal(h as int),
    {
        Self {
            x: right(),
            y: bottom(),
            w: Some(crate::number::signed_decimal_string(w)),
            h: Some(crate::number::signed_decimal_string(h)),
        }
    }

    /// The options that hand this position on to another run of this
    /// program: `--w`, `--h` where there is a size, then `--x` and `--y`.
    pub open spec fn this_arguments(self) -> Seq<Seq<char>> {
        this_arguments_of(self.x@, self.y@, crate::text::opt_view(self.w), crate::text::opt_view(self.h))
    }

    /// The options that hand this position on to another run of this program.
    pub fn as_this_arguments(&self) -> (r: Vec<String>)
        ensures
            views(r@) == self.this_arguments(),
    {
        let mut arguments: Vec<String> = Vec::new();
        if let Some(w) = &self.w {
            arguments.push(owned("--w"));
            arguments.push(w.clone());
        }
        if let Some(h) = &self.h {
            arguments.push(owned("--h"));
            arguments.push(h.clone());
        }
        arguments.push(owned("--x"));
        arguments.push(self.x.clone());
        arguments.push(owned("--y"));
        arguments.push(self.y.clone());
        assert(views(arguments@) =~= self.this_arguments());
        arguments
    }
}

/// `--w`, `--h` where there is a size, then `--x` and `--y`.
pub open spec fn this_arguments_of(x: Seq<char>, y: Seq<char>, w: Option<Seq<char>>, h: Option<Seq<char>>) -> Seq<Seq<char>> {
    (match w {
        Some(w) => seq!["--w"@, w],
        None => seq![],
    }) + (match h {
        Some(h) => seq!["--h"@, h],
        None => seq![],
    }) + seq!["--x"@, x, "--y"@, y]
}

// ------------------------------------------------------------------------
// a popup's geometry as text
// ------------------------------------------------------------------------

/// What a geometry string is read as: exactly four whitespace-separated
/// words, taken as `x`, `y`, width and height.
pub open spec fn geometry_read(g: Seq<char>) -> Option<(Seq<char>, Seq<char>, Seq<char>, Seq<char>)> {
    let ws = words(g);
    if ws.len() == 4 {
        Some((ws[0], ws[1], ws[2], ws[3]))
    } else {
        None
    }
}

/// `p` stands at `x`, `y` with width `w` and height `h`.
pub open spec fn has_geometry(p: Position, x: Seq<char>, y: Seq<char>, w: Seq<char>, h: Seq<char>) -> bool {
    &&& p.x@ == x
    &&& p.y@ == y
    &&& p.w is Some && p.w->0@ == w
    &&& p.h is Some && p.h->0@ == h
}

/// Reads a position from four whitespace-separated words; `None` for any
/// other number of words.
pub fn position_from_geometry(geometry: &str) -> (r: Option<Position>)
    ensures
        match geometry_read(geometry@) {
            Some((x, y, w, h)) => r is Some && has_geometry(r->0, x, y, w, h),
            None => r is None,
        },
{
    let mut values = split_whitespace(geometry);
    if values.len() != 4 {
        return None;
    }
    assert(views(values@)[3] == values@[3]@);
    let h = values.pop().unwrap();
    let w = values.pop().unwrap();
    let y = values.pop().unwrap();
    let x = values.pop().unwrap();
    Some(Position { x, y, w: Some(w), h: Some(h) })
}

/// `x`, `y`, width and height separated by single spaces (an absent size
/// is written as nothing).
pub open spec fn geometry_text(p: Position) -> Seq<char> {
    p.x@ + seq![' '] + p.y@ + seq![' '] + (match p.w {
        Some(w) => w@,
        None => seq![],
    }) + seq![' '] + (match p.h {
        Some(h) => h@,
        None => seq![],
    })
}

/// Writes a position as its geometry text.
pub fn position_geometry(p: &Position) -> (r: String)
    ensures
        r@ == geometry_text(*p),
{
    let mut r = p.x.clone();
    push_char(&mut r, ' ');
    r.append(p.y.as_str());
    push_char(&mut r, ' ');
    if let Some(w) = &p.w {
        r.append(w.as_str());
    }
    push_char(&mut r, ' ');
    if let Some(h) = &p.h {
        r.append(h.as_str());
    }
    assert(r@ =~= geometry_text(*p));
    r
}

/// A word: not empty, and no white space in it.
pub open spec fn is_word(s: Seq<char>) -> bool {
    s.len() > 0 && forall|i: int| 0 <= i < s.len() ==> !is_space(#[trigger] s[i])
}

proof fn lemma_word_len_of_word(a: Seq<char>, rest: Seq<char>)
    requires
        forall|i: int| 0 <= i < a.len() ==> !is_space(#[trigger] a[i]),
    ensures
        word_len(a + rest) == a.len() + word_len(rest),
    decreases a.len(),
{
    if a.len() > 0 {
        assert((a + rest)[0] == a[0]);
        assert((a + rest).drop_first() =~= a.drop_first() + rest);
        lemma_word_len_of_word(a.drop_first(), rest);
    } else {
        assert(a + rest =~= rest);
    }
}

proof fn lemma_words_of_word_then(a: Seq<char>, rest: Seq<char>)
    requires
        is_word(a),
    ensures
        words(a + seq![' '] + rest) == seq![a] + words(rest),
{
    let s = a + seq![' '] + rest;
    lemma_word_len_of_word(a, seq![' '] + rest);
    assert(a + (seq![' '] + rest) =~= s);
    assert((seq![' '] + rest)[0] == ' ');
    assert(word_len(seq![' '] + rest) == 0);
    assert(s[0] == a[0]);
    assert(s.take(a.len() as int) =~= a);
    let t = s.skip(a.len() as int);
    assert(t =~= seq![' '] + rest);
    assert(t.drop_first() =~= rest);
    assert(words(t) == words(rest));
}

proof fn lemma_words_of_word(a: Seq<char>)
    requires
        is_word(a),
    ensures
        words(a) == seq![a],
{
    lemma_word_len_of_word(a, seq![]);
    assert(a + Seq::<char>::empty() =~= a);
    assert(a.take(a.len() as int) =~= a);
    assert(a.skip(a.len() as int) =~= Seq::<char>::empty());
    assert(words(Seq::<char>::empty()) =~= Seq::<Seq<char>>::empty());
    assert(seq![a] + Seq::<Seq<char>>::empty() =~= seq![a]);
}

/// A popup's geometry, written down as text, reads back as the same
/// position, when each of its four parts is a word.
pub proof fn geometry_reads_back(p: Position)
    requires
        is_word(p.x@),
        is_word(p.y@),
        p.w matches Some(w) && is_word(w@),
        p.h matches Some(h) && is_word(h@),
    ensures
        geometry_read(geometry_text(p)) == Some((p.x@, p.y@, p.w->0@, p.h->0@)),
{
    let (x, y, w, h) = (p.x@, p.y@, p.w->0@, p.h->0@);
    assert(geometry_text(p) =~= x + seq![' '] + (y + seq![' '] + (w + seq![' '] + h)));
    lemma_words_of_word(h);
    lemma_words_of_word_then(w, h);
    lemma_words_of_word_then(y, w + seq![' '] + h);
    lemma_words_of_word_then(x, y + seq![' '] + (w + seq![' '] + h));
    assert(y + seq![' '] + (w + seq![' '] + h) =~= y + seq![' '] + w + seq![' '] + h);
    assert(words(geometry_text(p)) =~= seq![x, y, w, h]);
}

} // verus!

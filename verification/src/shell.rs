//! Quoting words for `sh`: a quoting of our own (`shell_quote`) and the
//! quoting of the `shlex` crate (`shell_join`).

use crate::error::{text_result, MenuError, MenuErrorView};
use crate::text::{escape_char, join, joined, replace_char, views};
use vstd::prelude::*;

verus! {

// ------------------------------------------------------------------------
// how a POSIX shell reads a word
// ------------------------------------------------------------------------

/// Characters that stand for themselves outside quotes.
pub open spec fn plain_safe(c: char) -> bool {
    !crate::text::is_space(c) && !(c == '|' || c == '&' || c == ';' || c == '<' || c == '>' || c
        == '(' || c == ')' || c == '$' || c == '`' || c == '\\' || c == '"' || c == '\'' || c == '*'
        || c == '?' || c == '[' || c == '#' || c == '~' || c == '=' || c == '%')
}

/// `c` in front of a read word, if there is one.
pub open spec fn prepend(c: char, r: Option<Seq<char>>) -> Option<Seq<char>> {
    match r {
        Some(t) => Some(seq![c] + t),
        None => None,
    }
}

/// The single literal word that a POSIX shell reads from `s`, outside any
/// quotes; `None` where `s` is not read here as one literal word (an
/// unterminated quote, an expansion, an unquoted special character).
pub open spec fn read_word(s: Seq<char>) -> Option<Seq<char>>
    decreases s.len(),
{
    if s.len() == 0 {
        Some(seq![])
    } else if s[0] == '\'' {
        read_single_quoted(s.drop_first())
    } else if s[0] == '"' {
        read_double_quoted(s.drop_first())
    } else if s[0] == '\\' {
        if s.len() >= 2 && s[1] != '\n' {
            prepend(s[1], read_word(s.skip(2)))
        } else {
            None
        }
    } else if plain_safe(s[0]) {
        prepend(s[0], read_word(s.drop_first()))
    } else {
        None
    }
}

/// The rest of a word after an opening single quote.
pub open spec fn read_single_quoted(s: Seq<char>) -> Option<Seq<char>>
    decreases s.len(),
{
    if s.len() == 0 {
        None
    } else if s[0] == '\'' {
        read_word(s.drop_first())
    } else {
        prepend(s[0], read_single_quoted(s.drop_first()))
    }
}

/// The rest of a word after an opening double quote.
pub open spec fn read_double_quoted(s: Seq<char>) -> Option<Seq<char>>
    decreases s.len(),
{
    if s.len() == 0 {
        None
    } else if s[0] == '"' {
        read_word(s.drop_first())
    } else if s[0] == '$' || s[0] == '`' {
        None
    } else if s[0] == '\\' && s.len() >= 2 && (s[1] == '$' || s[1] == '`' || s[1] == '"' || s[1]
        == '\\') {
        prepend(s[1], read_double_quoted(s.skip(2)))
    } else if s[0] == '\\' && s.len() >= 2 && s[1] == '\n' {
        None
    } else {
        prepend(s[0], read_double_quoted(s.drop_first()))
    }
}

// ------------------------------------------------------------------------
// shell_quote
// ------------------------------------------------------------------------

/// What replaces a single quote inside single quotes: close the quote, a
/// double-quoted single quote, open the quote again.
pub open spec fn quote_break() -> Seq<char> {
    seq!['\'', '"', '\'', '"', '\'']
}

/// `value` between single quotes, each inner single quote written `'"'"'`.
pub open spec fn shell_quoted(value: Seq<char>) -> Seq<char> {
    seq!['\''] + escape_char(value, '\'', quote_break()) + seq!['\'']
}

/// Quotes `value` as one `sh` word.
pub fn shell_quote(value: &str) -> (r: String)
    ensures
        r@ == shell_quoted(value@),
{
    proof {
        reveal_strlit("'\"'\"'");
    }
    assert("'\"'\"'"@ == quote_break());
    let mut out = crate::text::owned("'");
    proof {
        reveal_strlit("'");
    }
    let body = replace_char(value, '\'', "'\"'\"'");
    out.append(body.as_str());
    crate::text::push_char(&mut out, '\'');
    assert(out@ =~= shell_quoted(value@));
    out
}

/// Escaping distributes over concatenation.
pub proof fn lemma_escape_char_add(a: Seq<char>, b: Seq<char>, c: char, rep: Seq<char>)
    ensures
        escape_char(a + b, c, rep) == escape_char(a, c, rep) + escape_char(b, c, rep),
    decreases b.len(),
{
    if b.len() == 0 {
        assert(a + b =~= a);
        assert(escape_char(a, c, rep) + escape_char(b, c, rep) =~= escape_char(a, c, rep));
    } else {
        lemma_escape_char_add(a, b.drop_last(), c, rep);
        assert((a + b).drop_last() =~= a + b.drop_last());
        assert((a + b).last() == b.last());
        assert(escape_char(a + b, c, rep) =~= escape_char(a, c, rep) + escape_char(b, c, rep));
    }
}

/// Escaping seen from the front: the first character's piece, then the rest.
pub proof fn lemma_escape_char_front(v: Seq<char>, c: char, rep: Seq<char>)
    requires
        v.len() > 0,
    ensures
        escape_char(v, c, rep) == (if v[0] == c {
            rep
        } else {
            seq![v[0]]
        }) + escape_char(v.drop_first(), c, rep),
{
    lemma_escape_char_add(seq![v[0]], v.drop_first(), c, rep);
    assert(seq![v[0]] + v.drop_first() =~= v);
    let p = if v[0] == c {
        rep
    } else {
        seq![v[0]]
    };
    assert(seq![v[0]].last() == v[0]);
    assert(seq![v[0]].drop_last() =~= seq![]);
    assert(escape_char(seq![v[0]].drop_last(), c, rep) =~= seq![]);
    assert(escape_char(seq![v[0]], c, rep) =~= p);
}

proof fn lemma_single_quoted_body(v: Seq<char>)
    ensures
        read_single_quoted(escape_char(v, '\'', quote_break()) + seq!['\'']) == Some(v),
    decreases v.len(),
{
    let q = quote_break();
    if v.len() == 0 {
        let s = escape_char(v, '\'', q) + seq!['\''];
        assert(escape_char(v, '\'', q) =~= seq![]);
        assert(s =~= seq!['\'']);
        assert(s.drop_first() =~= seq![]);
        assert(s[0] == '\'');
        assert(read_word(s.drop_first()) == Some(Seq::<char>::empty()));
        assert(v =~= seq![]);
        assert(read_single_quoted(s) == Some(v));
    } else {
        let rest = v.drop_first();
        let t = escape_char(rest, '\'', q) + seq!['\''];
        lemma_single_quoted_body(rest);
        lemma_escape_char_front(v, '\'', q);
        if v[0] == '\'' {
            let s = q + t;
            assert(escape_char(v, '\'', q) + seq!['\''] =~= s);
            assert(s[0] == '\'');
            let s1 = s.drop_first();
            assert(s1 =~= seq!['"', '\'', '"', '\''] + t);
            assert(s1[0] == '"');
            let s2 = s1.drop_first();
            assert(s2 =~= seq!['\'', '"', '\''] + t);
            assert(s2[0] == '\'');
            let s3 = s2.drop_first();
            assert(s3 =~= seq!['"', '\''] + t);
            assert(s3[0] == '"');
            let s4 = s3.drop_first();
            assert(s4 =~= seq!['\''] + t);
            assert(s4[0] == '\'');
            assert(s4.drop_first() =~= t);
            assert(read_word(s4) == read_single_quoted(t));
            assert(read_double_quoted(s3) == read_word(s4));
            assert(read_double_quoted(s2) == prepend('\'', read_double_quoted(s3)));
            assert(read_word(s1) == read_double_quoted(s2));
            assert(read_single_quoted(s) == read_word(s1));
            assert(seq!['\''] + rest =~= v);
            assert(read_single_quoted(s) == Some(v));
        } else {
            let s = seq![v[0]] + t;
            assert(escape_char(v, '\'', q) + seq!['\''] =~= s);
            assert(s.drop_first() =~= t);
            assert(s[0] == v[0]);
            assert(seq![v[0]] + rest =~= v);
            assert(read_single_quoted(s) == prepend(v[0], read_single_quoted(t)));
            assert(read_single_quoted(s) == Some(v));
        }
    }
}

/// Whatever `value` holds, the shell reads `shell_quote(value)` back as
/// exactly `value`, one word with nothing expanded.
pub proof fn shell_quote_reads_back(value: Seq<char>)
    ensures
        read_word(shell_quoted(value)) == Some(value),
{
    let s = shell_quoted(value);
    lemma_single_quoted_body(value);
    assert(s[0] == '\'');
    assert(s.drop_first() =~= escape_char(value, '\'', quote_break()) + seq!['\'']);
}

// ------------------------------------------------------------------------
// how a command line divides into words
// ------------------------------------------------------------------------

/// The blanks that separate words outside quotes.
pub open spec fn is_blank(c: char) -> bool {
    c == ' ' || c == '\t' || c == '\n'
}

/// `w` in front of the words that follow it, if they could be read.
pub open spec fn word_then(w: Seq<char>, r: Option<Seq<Seq<char>>>) -> Option<Seq<Seq<char>>> {
    match r {
        Some(ws) => Some(seq![w] + ws),
        None => None,
    }
}

/// The words of the command line `s`, read between words: blanks separate
/// words, single quotes take everything up to the next single quote, double
/// quotes take everything but `\$`, `` \` ``, `\"`, `\\` (one character)
/// and a backslash before a newline (nothing), a backslash outside quotes
/// takes the next character, and `#` at the start of a word comments out
/// the rest of the line. Nothing is expanded. `None` for an unterminated
/// quote or a trailing backslash. This is the syntax of `shlex::split`, and
/// that of `sh` for quotes and blanks.
pub open spec fn split_words(s: Seq<char>) -> Option<Seq<Seq<char>>>
    decreases s.len(), 1int,
{
    if s.len() == 0 {
        Some(seq![])
    } else if is_blank(s[0]) {
        split_words(s.drop_first())
    } else if s[0] == '#' {
        split_comment(s.drop_first())
    } else {
        split_in_word(s, seq![])
    }
}

/// The words after a comment that began before `s`.
pub open spec fn split_comment(s: Seq<char>) -> Option<Seq<Seq<char>>>
    decreases s.len(), 0int,
{
    if s.len() == 0 {
        Some(seq![])
    } else if s[0] == '\n' {
        split_words(s.drop_first())
    } else {
        split_comment(s.drop_first())
    }
}

/// The words of `s`, read inside a word that holds `acc` so far.
pub open spec fn split_in_word(s: Seq<char>, acc: Seq<char>) -> Option<Seq<Seq<char>>>
    decreases s.len(), 0int,
{
    if s.len() == 0 {
        Some(seq![acc])
    } else if is_blank(s[0]) {
        word_then(acc, split_words(s.drop_first()))
    } else if s[0] == '\'' {
        split_single(s.drop_first(), acc)
    } else if s[0] == '"' {
        split_double(s.drop_first(), acc)
    } else if s[0] == '\\' {
        if s.len() < 2 {
            None
        } else if s[1] == '\n' {
            split_in_word(s.skip(2), acc)
        } else {
            split_in_word(s.skip(2), acc.push(s[1]))
        }
    } else {
        split_in_word(s.drop_first(), acc.push(s[0]))
    }
}

/// The words of `s`, read inside single quotes in a word that holds `acc`.
pub open spec fn split_single(s: Seq<char>, acc: Seq<char>) -> Option<Seq<Seq<char>>>
    decreases s.len(), 0int,
{
    if s.len() == 0 {
        None
    } else if s[0] == '\'' {
        split_in_word(s.drop_first(), acc)
    } else {
        split_single(s.drop_first(), acc.push(s[0]))
    }
}

/// The words of `s`, read inside double quotes in a word that holds `acc`.
pub open spec fn split_double(s: Seq<char>, acc: Seq<char>) -> Option<Seq<Seq<char>>>
    decreases s.len(), 0int,
{
    if s.len() == 0 {
        None
    } else if s[0] == '"' {
        split_in_word(s.drop_first(), acc)
    } else if s[0] == '\\' {
        if s.len() < 2 {
            None
        } else if s[1] == '$' || s[1] == '`' || s[1] == '"' || s[1] == '\\' {
            split_double(s.skip(2), acc.push(s[1]))
        } else if s[1] == '\n' {
            split_double(s.skip(2), acc)
        } else {
            split_double(s.skip(2), acc.push('\\').push(s[1]))
        }
    } else {
        split_double(s.drop_first(), acc.push(s[0]))
    }
}

/// `q` reads as exactly the word `w`: it starts a word where words start,
/// and read inside any word it adds `w` to it and leaves the reading inside
/// that word, whatever follows.
pub open spec fn reads_as_word(q: Seq<char>, w: Seq<char>) -> bool {
    &&& q.len() > 0
    &&& !is_blank(q[0])
    &&& q[0] != '#'
    &&& forall|rest: Seq<char>, acc: Seq<char>| #[trigger]
        split_in_word(q + rest, acc) == split_in_word(rest, acc + w)
}

proof fn lemma_single_body_splits(v: Seq<char>, rest: Seq<char>, acc: Seq<char>)
    ensures
        split_single(escape_char(v, '\'', quote_break()) + seq!['\''] + rest, acc)
            == split_in_word(rest, acc + v),
    decreases v.len(),
{
    let q = quote_break();
    if v.len() == 0 {
        let s = escape_char(v, '\'', q) + seq!['\''] + rest;
        assert(escape_char(v, '\'', q) =~= seq![]);
        assert(s[0] == '\'');
        assert(s.drop_first() =~= rest);
        assert(acc + v =~= acc);
    } else {
        let v1 = v.drop_first();
        let t = escape_char(v1, '\'', q) + seq!['\''] + rest;
        lemma_escape_char_front(v, '\'', q);
        if v[0] == '\'' {
            let a1 = acc.push('\'');
            lemma_single_body_splits(v1, rest, a1);
            let s = q + t;
            assert(escape_char(v, '\'', q) + seq!['\''] + rest =~= s);
            let s1 = s.drop_first();
            assert(s1 =~= seq!['"', '\'', '"', '\''] + t);
            let s2 = s1.drop_first();
            assert(s2 =~= seq!['\'', '"', '\''] + t);
            let s3 = s2.drop_first();
            assert(s3 =~= seq!['"', '\''] + t);
            let s4 = s3.drop_first();
            assert(s4 =~= seq!['\''] + t);
            assert(s4.drop_first() =~= t);
            assert(split_in_word(s4, a1) == split_single(t, a1));
            assert(split_double(s3, a1) == split_in_word(s4, a1));
            assert(split_double(s2, acc) == split_double(s3, a1));
            assert(split_in_word(s1, acc) == split_double(s2, acc));
            assert(split_single(s, acc) == split_in_word(s1, acc));
            assert(a1 + v1 =~= acc + v);
        } else {
            let a1 = acc.push(v[0]);
            lemma_single_body_splits(v1, rest, a1);
            let s = seq![v[0]] + t;
            assert(escape_char(v, '\'', q) + seq!['\''] + rest =~= s);
            assert(s.drop_first() =~= t);
            assert(a1 + v1 =~= acc + v);
        }
    }
}

/// Whatever `value` holds, `shell_quote(value)` reads as exactly the one
/// word `value` in a command line, wherever it stands.
pub proof fn shell_quoted_splits(value: Seq<char>)
    ensures
        reads_as_word(shell_quoted(value), value),
{
    let sq = shell_quoted(value);
    assert(sq[0] == '\'');
    assert forall|rest: Seq<char>, acc: Seq<char>| #[trigger]
        split_in_word(sq + rest, acc) == split_in_word(rest, acc + value) by {
        let s = sq + rest;
        assert(s[0] == '\'');
        assert(s.drop_first() =~= escape_char(value, '\'', quote_break()) + seq!['\''] + rest);
        lemma_single_body_splits(value, rest, acc);
    }
}

/// Joining seen from the front: the first part, the separator, the rest.
pub proof fn lemma_joined_front(parts: Seq<Seq<char>>, sep: Seq<char>)
    requires
        parts.len() >= 2,
    ensures
        joined(parts, sep) == parts[0] + sep + joined(parts.drop_first(), sep),
    decreases parts.len(),
{
    if parts.len() == 2 {
        assert(parts.drop_last().len() == 1);
        assert(parts.drop_first().len() == 1);
        assert(joined(parts.drop_last(), sep) == parts[0]);
        assert(joined(parts.drop_first(), sep) == parts[1]);
    } else {
        lemma_joined_front(parts.drop_last(), sep);
        assert(parts.drop_last().drop_first() =~= parts.drop_first().drop_last());
        assert(parts.drop_first().last() == parts.last());
        assert(joined(parts.drop_first(), sep) == joined(parts.drop_first().drop_last(), sep) + sep
            + parts.last());
        assert(joined(parts, sep) =~= parts[0] + sep + joined(parts.drop_first(), sep));
    }
}

/// Words that each read as one word, joined by single spaces, read back as
/// those words.
pub proof fn lemma_split_joined(qs: Seq<Seq<char>>, ws: Seq<Seq<char>>)
    requires
        qs.len() == ws.len(),
        forall|k: int| 0 <= k < qs.len() ==> reads_as_word(#[trigger] qs[k], ws[k]),
    ensures
        split_words(joined(qs, seq![' '])) == Some(ws),
    decreases qs.len(),
{
    if qs.len() == 0 {
        assert(joined(qs, seq![' ']) =~= seq![]);
        assert(ws =~= seq![]);
    } else {
        let q = qs[0];
        assert(reads_as_word(q, ws[0]));
        let tail = if qs.len() == 1 {
            Seq::<char>::empty()
        } else {
            seq![' '] + joined(qs.drop_first(), seq![' '])
        };
        if qs.len() == 1 {
            assert(joined(qs, seq![' ']) == q);
        } else {
            lemma_joined_front(qs, seq![' ']);
        }
        let s = q + tail;
        assert(joined(qs, seq![' ']) =~= s);
        assert(s[0] == q[0]);
        assert(split_words(s) == split_in_word(s, seq![]));
        assert(split_in_word(q + tail, seq![]) == split_in_word(tail, seq![] + ws[0]));
        assert(seq![] + ws[0] =~= ws[0]);
        if qs.len() == 1 {
            assert(ws =~= seq![ws[0]]);
        } else {
            lemma_split_joined(qs.drop_first(), ws.drop_first());
            assert(tail[0] == ' ');
            assert(tail.drop_first() =~= joined(qs.drop_first(), seq![' ']));
            assert(seq![ws[0]] + ws.drop_first() =~= ws);
        }
    }
}

// ------------------------------------------------------------------------
// shell_join, through the shlex crate
// ------------------------------------------------------------------------

#[verifier::external_type_specification]
#[verifier::external_body]
pub struct ExQuoteError(shlex::QuoteError);

/// Characters that `shlex` leaves unquoted.
pub open spec fn shlex_plain(c: char) -> bool {
    ('a' <= c <= 'z') || ('A' <= c <= 'Z') || ('0' <= c <= '9') || c == '+' || c == '-' || c
        == '.' || c == '/' || c == ':' || c == '@' || c == ']' || c == '_'
}

/// A non-empty word of characters that `shlex` leaves unquoted.
pub open spec fn shlex_plain_word(w: Seq<char>) -> bool {
    w.len() > 0 && forall|i: int| 0 <= i < w.len() ==> shlex_plain(#[trigger] w[i])
}

/// What `shlex::try_quote` gives for a string without nul characters.
pub uninterp spec fn shlex_quoted(s: Seq<char>) -> Seq<char>;

/// `shlex::try_quote`. Claimed: it fails exactly when `s` holds a nul
/// character (its only error, `QuoteError::Nul`, which the source returns
/// after testing for a zero byte), and otherwise gives `shlex_quoted(s)`, a
/// function of `s` alone, that reads as exactly the word `s` ("a byte
/// string suitable to encode it as a shell argument", in its words): the
/// source gives `''` for the empty string and otherwise a run of chunks,
/// each plain characters (letters, digits, `+-./:@]_`), a single-quoted
/// run without `'` or `\`, or a double-quoted run with `"` and `\` escaped
/// by a backslash. A non-empty word of plain characters comes back as it
/// is. Which chunks it picks otherwise is left unsaid.
#[verifier::external_body]
fn shlex_try_quote(s: &str) -> (r: Result<String, shlex::QuoteError>)
    ensures
        r is Err <==> s@.contains('\0'),
        r matches Ok(q) ==> q@ == shlex_quoted(s@) && reads_as_word(q@, s@),
        r matches Ok(q) ==> (shlex_plain_word(s@) ==> q@ == s@),
{
    match shlex::try_quote(s) {
        Ok(q) => Ok(q.into_owned()),
        Err(e) => Err(e),
    }
}

/// Whether some argument holds a nul character.
pub open spec fn some_nul(args: Seq<Seq<char>>) -> bool {
    exists|i: int| 0 <= i < args.len() && #[trigger] args[i].contains('\0')
}

/// What `shell_join` gives: each argument quoted by `shlex`, separated by
/// single spaces; refused when an argument holds a nul character.
pub open spec fn shell_joined(args: Seq<Seq<char>>) -> Result<Seq<char>, MenuErrorView> {
    if some_nul(args) {
        Err(MenuErrorView::ShellQuote)
    } else {
        Ok(joined(args.map_values(|a: Seq<char>| shlex_quoted(a)), seq![' ']))
    }
}

/// Every word is a non-empty word of characters that `shlex` leaves unquoted.
pub open spec fn all_plain_words(words: Seq<Seq<char>>) -> bool {
    forall|k: int| 0 <= k < words.len() ==> shlex_plain_word(#[trigger] words[k])
}

/// Quotes each argument for `sh` and joins them with spaces; the line
/// splits back into exactly the arguments, each one word.
pub fn shell_join(args: &Vec<String>) -> (r: Result<String, MenuError>)
    ensures
        text_result(r) == shell_joined(views(args@)),
        r matches Ok(j) ==> split_words(j@) == Some(views(args@)),
        r matches Ok(j) ==> (all_plain_words(views(args@)) ==> j@ == joined(views(args@), seq![' '])),
{
    let mut quoted: Vec<String> = Vec::new();
    let n = args.len();
    let mut i: usize = 0;
    while i < n
        invariant
            n == args@.len(),
            0 <= i <= n,
            quoted@.len() == i,
            forall|k: int| 0 <= k < i ==> !(#[trigger] args@[k]@).contains('\0'),
            forall|k: int| 0 <= k < i ==> (#[trigger] quoted@[k])@ == shlex_quoted(args@[k]@),
            forall|k: int| 0 <= k < i ==> reads_as_word((#[trigger] quoted@[k])@, args@[k]@),
            forall|k: int| 0 <= k < i ==> shlex_plain_word(args@[k]@) ==> (#[trigger] quoted@[k])@
                == args@[k]@,
        decreases n - i,
    {
        match shlex_try_quote(args[i].as_str()) {
            Ok(q) => {
                quoted.push(q);
            },
            Err(_) => {
                assert(views(args@)[i as int] == args@[i as int]@);
                return Err(MenuError::ShellQuote);
            },
        }
        i = i + 1;
    }
    let r = join(&quoted, " ");
    proof {
        reveal_strlit(" ");
        assert(views(quoted@) =~= views(args@).map_values(|a: Seq<char>| shlex_quoted(a)));
        assert(!some_nul(views(args@)));
        assert(" "@ =~= seq![' ']);
        assert(r@ == joined(views(args@).map_values(|a: Seq<char>| shlex_quoted(a)), seq![' ']));
        assert forall|k: int| 0 <= k < views(quoted@).len() implies reads_as_word(
            #[trigger] views(quoted@)[k],
            views(args@)[k],
        ) by {
            assert(reads_as_word(quoted@[k]@, args@[k]@));
        }
        lemma_split_joined(views(quoted@), views(args@));
        if all_plain_words(views(args@)) {
            assert forall|k: int| 0 <= k < n implies views(quoted@)[k] == views(args@)[k] by {
                assert(shlex_plain_word(views(args@)[k]));
            }
            assert(views(quoted@) =~= views(args@));
        }
    }
    Ok(r)
}

} // verus!

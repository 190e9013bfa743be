//! The shell command that runs this program again with given arguments.

use crate::error::{text_result, MenuError, MenuErrorView};
use crate::shell::{
    all_plain_words, shell_join, shell_joined, shell_quote, shell_quoted, shell_quoted_splits,
    split_in_word, split_words, word_then,
};
use crate::text::joined;
use crate::text::{owned, views};
use vstd::prelude::*;

verus! {

/// `cd` into `on_dir`, then run `this_binary` with `args`, every word
/// quoted; refused where a word holds a nul character.
pub open spec fn this_invocation(on_dir: Seq<char>, this_binary: Seq<char>, args: Seq<Seq<char>>) -> Result<Seq<char>, MenuErrorView> {
    match shell_joined(seq![this_binary] + args) {
        Ok(joined) => Ok("cd "@ + shell_quoted(on_dir) + " && "@ + joined),
        Err(e) => Err(e),
    }
}

/// The words of `cd <on_dir> && <words>`.
pub open spec fn invocation_words(on_dir: Seq<char>, words: Seq<Seq<char>>) -> Seq<Seq<char>> {
    seq!["cd"@, on_dir, "&&"@] + words
}

proof fn lemma_invocation_splits(on_dir: Seq<char>, line: Seq<char>, words: Seq<Seq<char>>)
    requires
        split_words(line) == Some(words),
    ensures
        split_words("cd "@ + shell_quoted(on_dir) + " && "@ + line) == Some(
            invocation_words(on_dir, words),
        ),
{
    reveal_strlit("cd ");
    reveal_strlit(" && ");
    reveal_strlit("cd");
    reveal_strlit("&&");
    let sq = shell_quoted(on_dir);
    shell_quoted_splits(on_dir);
    let e = Seq::<char>::empty();
    let c1 = e.push('c');
    let c2 = c1.push('d');
    let a1 = e.push('&');
    let a2 = a1.push('&');
    let blank_line = seq![' '] + line;
    let amp2 = seq!['&'] + blank_line;
    let amp = seq!['&'] + amp2;
    let after = seq![' '] + amp;
    let l3 = sq + after;
    let blank_l3 = seq![' '] + l3;
    let d_l3 = seq!['d'] + blank_l3;
    let l = seq!['c'] + d_l3;
    assert("cd "@ + sq + " && "@ + line =~= l);
    // "cd", then a blank
    assert(l.drop_first() =~= d_l3);
    assert(d_l3.drop_first() =~= blank_l3);
    assert(blank_l3.drop_first() =~= l3);
    assert(split_words(l) == split_in_word(l, e));
    assert(split_in_word(l, e) == split_in_word(d_l3, c1));
    assert(split_in_word(d_l3, c1) == split_in_word(blank_l3, c2));
    assert(split_in_word(blank_l3, c2) == word_then(c2, split_words(l3)));
    // the quoted directory, then a blank
    assert(l3[0] == sq[0]);
    assert(split_words(l3) == split_in_word(l3, e));
    assert(split_in_word(sq + after, e) == split_in_word(after, e + on_dir));
    assert(e + on_dir =~= on_dir);
    assert(after.drop_first() =~= amp);
    assert(split_in_word(after, on_dir) == word_then(on_dir, split_words(amp)));
    // "&&", then a blank
    assert(amp.drop_first() =~= amp2);
    assert(amp2.drop_first() =~= blank_line);
    assert(blank_line.drop_first() =~= line);
    assert(split_words(amp) == split_in_word(amp, e));
    assert(split_in_word(amp, e) == split_in_word(amp2, a1));
    assert(split_in_word(amp2, a1) == split_in_word(blank_line, a2));
    assert(split_in_word(blank_line, a2) == word_then(a2, split_words(line)));
    assert("cd"@ =~= c2);
    assert("&&"@ =~= a2);
    assert(seq![c2] + (seq![on_dir] + (seq![a2] + words)) =~= invocation_words(on_dir, words));
}

/// The shell command that runs `this_binary` with `args` in `on_dir`; it
/// splits into `cd`, the directory, `&&`, this program and the arguments,
/// each one word.
pub fn run_this_binary_with(on_dir: &str, this_binary: &str, args: Vec<String>) -> (r: Result<String, MenuError>)
    ensures
        text_result(r) == this_invocation(on_dir@, this_binary@, views(args@)),
        r matches Ok(c) ==> split_words(c@) == Some(
            invocation_words(on_dir@, seq![this_binary@] + views(args@)),
        ),
        r matches Ok(c) ==> (all_plain_words(seq![this_binary@] + views(args@)) ==> c@ == "cd "@
            + shell_quoted(on_dir@) + " && "@ + joined(seq![this_binary@] + views(args@), seq![' '])),
{
    let mut command: Vec<String> = Vec::new();
    command.push(owned(this_binary));
    let n = args.len();
    let mut i: usize = 0;
    while i < n
        invariant
            n == args@.len(),
            0 <= i <= n,
            views(command@) == seq![this_binary@] + views(args@).take(i as int),
        decreases n - i,
    {
        let ghost before = command@;
        let a = args[i].clone();
        assert(a@ == views(args@)[i as int]);
        command.push(a);
        assert(command@ == before.push(a));
        assert(views(command@) =~= views(before).push(a@));
        assert(views(command@) =~= seq![this_binary@] + views(args@).take(i + 1));
        i = i + 1;
    }
    assert(views(args@).take(n as int) =~= views(args@));
    let joined = match shell_join(&command) {
        Ok(j) => j,
        Err(e) => {
            return Err(e);
        },
    };
    let mut out = owned("cd ");
    out.append(shell_quote(on_dir).as_str());
    out.append(" && ");
    out.append(joined.as_str());
    proof {
        reveal_strlit("cd ");
        reveal_strlit(" && ");
        assert(views(command@) == seq![this_binary@] + views(args@));
        lemma_invocation_splits(on_dir@, joined@, views(command@));
    }
    Ok(out)
}

} // verus!

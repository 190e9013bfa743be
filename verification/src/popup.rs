//! What the `popup` command works out before and after it shows a popup:
//! where a popup of a session was last placed, the tmux state it leaves for
//! moving the popup, and the command it finally runs.

use crate::position::{geometry_text, position_geometry, Position};
use crate::shell::{shell_quote, shell_quoted};
use crate::text::{chars_of, owned, push_char, replace_all, replaced};
use vstd::prelude::*;

verus! {

/// Whether `c` is an ASCII letter or digit.
pub open spec fn is_ascii_alphanumeric(c: char) -> bool {
    ('0' <= c <= '9') || ('A' <= c <= 'Z') || ('a' <= c <= 'z')
}

/// A session name made into a tmux option name: every character that is
/// not an ASCII letter or digit becomes `_`.
pub open spec fn option_key(s: Seq<char>) -> Seq<char> {
    s.map_values(|c: char| if is_ascii_alphanumeric(c) { c } else { '_' })
}

/// The tmux command that prints the saved geometry of a session's popup;
/// none without a session.
pub open spec fn saved_geometry_query(session_name: Option<Seq<char>>) -> Option<Seq<char>> {
    match session_name {
        Some(n) => Some("tmux show-options -gqv @popup_geom_"@ + option_key(n)),
        None => None,
    }
}

/// The tmux command that prints where the popup of `session_name` was last
/// placed; `None` without a session name.
pub fn saved_popup_position_query(session_name: &Option<String>) -> (r: Option<String>)
    ensures
        match r {
            Some(q) => saved_geometry_query(crate::text::opt_view(*session_name)) == Some(q@),
            None => saved_geometry_query(crate::text::opt_view(*session_name)) is None,
        },
{
    let name = match session_name {
        Some(n) => n,
        None => {
            return None;
        },
    };
    let cs = chars_of(name.as_str());
    let mut key = String::new();
    let mut i: usize = 0;
    while i < cs.len()
        invariant
            cs@ == name@,
            0 <= i <= cs@.len(),
            key@ == option_key(name@.take(i as int)),
        decreases cs.len() - i,
    {
        let c = cs[i];
        let d = if ('0' <= c && c <= '9') || ('A' <= c && c <= 'Z') || ('a' <= c && c <= 'z') {
            c
        } else {
            '_'
        };
        push_char(&mut key, d);
        assert(key@ =~= option_key(name@.take(i + 1)));
        i = i + 1;
    }
    assert(name@.take(cs@.len() as int) =~= name@);
    let mut query = owned("tmux show-options -gqv @popup_geom_");
    query.append(key.as_str());
    Some(query)
}

/// The tmux command that records, for the key binding that moves popups,
/// the client, the popup's geometry and its border.
pub open spec fn pending_state_command(p: Position, border: Seq<char>) -> Seq<char> {
    "tmux set -g @popup_client \"$(tmux display-message -p '#{client_name}')\"; tmux set -g @popup_pending_geom "@
        + shell_quoted(geometry_text(p)) + "; tmux set -g @popup_pending_border "@ + shell_quoted(
        border,
    )
}

/// The tmux command that records the popup's client, geometry and border.
pub fn popup_pending_command(position: &Position, border: &str) -> (r: String)
    ensures
        r@ == pending_state_command(*position, border@),
{
    let mut r = owned(
        "tmux set -g @popup_client \"$(tmux display-message -p '#{client_name}')\"; tmux set -g @popup_pending_geom ",
    );
    r.append(shell_quote(position_geometry(position).as_str()).as_str());
    r.append("; tmux set -g @popup_pending_border ");
    r.append(shell_quote(border).as_str());
    r
}

/// Input answers (name, value), by views.
pub open spec fn answers_view(a: Seq<(String, String)>) -> Seq<(Seq<char>, Seq<char>)> {
    a.map_values(|kv: (String, String)| (kv.0@, kv.1@))
}

/// `command` with `%%name%%` replaced by each answer's value, answer after
/// answer.
pub open spec fn inputs_substituted(command: Seq<char>, answers: Seq<(Seq<char>, Seq<char>)>) -> Seq<char>
    decreases answers.len(),
{
    if answers.len() == 0 {
        command
    } else {
        replaced(
            inputs_substituted(command, answers.drop_last()),
            "%%"@ + answers.last().0 + "%%"@,
            answers.last().1,
        )
    }
}

/// Replaces `%%name%%` in `command` by the value typed for `name`; each
/// name is answered once.
pub fn substitute_inputs(command: &str, answers: &Vec<(String, String)>) -> (r: String)
    requires
        crate::menu::names_distinct(answers@),
    ensures
        r@ == inputs_substituted(command@, answers_view(answers@)),
{
    let mut out = owned(command);
    let n = answers.len();
    let mut i: usize = 0;
    assert(answers_view(answers@).take(0) =~= Seq::<(Seq<char>, Seq<char>)>::empty());
    while i < n
        invariant
            n == answers@.len(),
            0 <= i <= n,
            out@ == inputs_substituted(command@, answers_view(answers@).take(i as int)),
        decreases n - i,
    {
        proof {
            reveal_strlit("%%");
        }
        let mut pattern = owned("%%");
        pattern.append(answers[i].0.as_str());
        pattern.append("%%");
        out = replace_all(out.as_str(), pattern.as_str(), answers[i].1.as_str());
        let ghost prefix = answers_view(answers@).take(i + 1);
        assert(prefix.drop_last() =~= answers_view(answers@).take(i as int));
        assert(prefix.last() == (answers@[i as int].0@, answers@[i as int].1@));
        i = i + 1;
    }
    assert(answers_view(answers@).take(n as int) =~= answers_view(answers@));
    out
}

/// The popup's final command: `cd` into the quoted directory, then `command`.
pub fn popup_command_in(working_dir: &str, command: &str) -> (r: String)
    ensures
        r@ == "cd "@ + shell_quoted(working_dir@) + " && "@ + command@,
{
    let mut r = owned("cd ");
    r.append(shell_quote(working_dir).as_str());
    r.append(" && ");
    r.append(command);
    r
}

#[verifier::external_type_specification]
#[verifier::external_body]
pub struct ExYamlError(serde_yaml::Error);

/// The map from strings to strings that a YAML text holds; `None` where it
/// holds none (not YAML, not a map, or a key or value that is no string).
pub uninterp spec fn yaml_string_map(text: Seq<char>) -> Option<Map<Seq<char>, Seq<char>>>;

/// The pairs hold exactly the entries of `m`.
pub open spec fn pairs_of_map(pairs: Seq<(String, String)>, m: Map<Seq<char>, Seq<char>>) -> bool {
    &&& forall|i: int|
        0 <= i < pairs.len() ==> m.contains_key((#[trigger] pairs[i]).0@) && m[pairs[i].0@]
            == pairs[i].1@
    &&& forall|k: Seq<char>|
        #[trigger] m.contains_key(k) ==> exists|i: int| 0 <= i < pairs.len() && (#[trigger] pairs[i]).0@ == k
}

/// `serde_yaml::from_str` into a `HashMap<String, String>`, whose entries
/// are handed out as pairs. Claimed: it fails exactly when the text holds no
/// such map, and otherwise the pairs are the entries of
/// `yaml_string_map(text)`, a function of the text alone, each name once
/// (the keys of a map). The order of the pairs is the order in which the
/// map is walked, and is left unsaid.
#[verifier::external_body]
fn yaml_answers(text: &str) -> (r: Result<Vec<(String, String)>, serde_yaml::Error>)
    ensures
        r is Err <==> yaml_string_map(text@) is None,
        r matches Ok(v) ==> crate::menu::names_distinct(v@) && pairs_of_map(
            v@,
            yaml_string_map(text@)->0,
        ),
{
    match serde_yaml::from_str::<std::collections::HashMap<String, String>>(text) {
        Ok(m) => Ok(m.into_iter().collect()),
        Err(e) => Err(e),
    }
}

/// The message of a `serde_yaml::Error` (its `Display`). Nothing is claimed
/// of the text.
#[verifier::external_body]
fn yaml_error_message(e: serde_yaml::Error) -> String {
    e.to_string()
}

/// Replaces `%%name%%` in `command` by the value typed for `name`, the
/// answers read from the YAML map `answers`. Refused, with what the YAML
/// reader said, exactly where `answers` holds no map of strings; otherwise
/// the answers are put in one after the other in some order of the map's
/// entries.
pub fn substitute_yaml_inputs(command: &str, answers: &str) -> (r: Result<String, crate::error::MenuError>)
    ensures
        r is Err <==> yaml_string_map(answers@) is None,
        r matches Err(e) ==> e is AnswersUnreadable,
        r matches Ok(s) ==> exists|pairs: Seq<(String, String)>|
            crate::menu::names_distinct(pairs) && pairs_of_map(pairs, yaml_string_map(answers@)->0)
                && s@ == inputs_substituted(command@, answers_view(pairs)),
{
    match yaml_answers(answers) {
        Ok(pairs) => {
            let s = substitute_inputs(command, &pairs);
            Ok(s)
        },
        Err(e) => Err(crate::error::MenuError::AnswersUnreadable(yaml_error_message(e))),
    }
}

/// The answers typed for `keys`, one line each, as a map: each key's value
/// is the last line typed for it, trimmed.
pub open spec fn typed_map(keys: Seq<Seq<char>>, lines: Seq<Seq<char>>) -> Map<Seq<char>, Seq<char>>
    decreases keys.len(),
{
    if keys.len() == 0 || lines.len() == 0 {
        Map::empty()
    } else {
        typed_map(keys.drop_last(), lines.drop_last()).insert(
            keys.last(),
            crate::text::trimmed(lines.last()),
        )
    }
}

/// The index of the pair named `key`, if there is one.
fn index_of_name(pairs: &Vec<(String, String)>, key: &String) -> (r: Option<usize>)
    ensures
        match r {
            Some(i) => i < pairs@.len() && pairs@[i as int].0@ == key@,
            None => forall|i: int| 0 <= i < pairs@.len() ==> (#[trigger] pairs@[i]).0@ != key@,
        },
{
    let n = pairs.len();
    let mut i: usize = 0;
    while i < n
        invariant
            n == pairs@.len(),
            0 <= i <= n,
            forall|k: int| 0 <= k < i ==> (#[trigger] pairs@[k]).0@ != key@,
        decreases n - i,
    {
        if pairs[i].0 == *key {
            return Some(i);
        }
        i = i + 1;
    }
    None
}

/// The answers typed for the popup's inputs: the line typed for each key,
/// trimmed, each key once with the last line typed for it.
pub fn typed_answers(keys: &Vec<String>, lines: &Vec<String>) -> (r: Vec<(String, String)>)
    requires
        keys@.len() == lines@.len(),
    ensures
        crate::menu::names_distinct(r@),
        pairs_of_map(r@, typed_map(crate::text::views(keys@), crate::text::views(lines@))),
{
    let ghost kv = crate::text::views(keys@);
    let ghost lv = crate::text::views(lines@);
    let mut r: Vec<(String, String)> = Vec::new();
    let n = keys.len();
    let mut j: usize = 0;
    assert(kv.take(0).len() == 0);
    while j < n
        invariant
            n == keys@.len(),
            n == lines@.len(),
            kv == crate::text::views(keys@),
            lv == crate::text::views(lines@),
            0 <= j <= n,
            crate::menu::names_distinct(r@),
            pairs_of_map(r@, typed_map(kv.take(j as int), lv.take(j as int))),
        decreases n - j,
    {
        let ghost m = typed_map(kv.take(j as int), lv.take(j as int));
        let ghost old_r = r@;
        let key = keys[j].clone();
        let value = crate::text::trim(lines[j].as_str());
        assert(kv.take(j + 1).drop_last() =~= kv.take(j as int));
        assert(lv.take(j + 1).drop_last() =~= lv.take(j as int));
        assert(kv.take(j + 1).last() == key@);
        assert(lv.take(j + 1).last() == lines@[j as int]@);
        let ghost m2 = m.insert(key@, value@);
        assert(typed_map(kv.take(j + 1), lv.take(j + 1)) == m2);
        match index_of_name(&r, &key) {
            Some(idx) => {
                r.set(idx, (key, value));
                assert forall|a: int, b: int| 0 <= a < b < r@.len() implies (#[trigger] r@[a]).0@
                    != (#[trigger] r@[b]).0@ by {
                    assert(old_r[a].0@ != old_r[b].0@);
                }
                assert forall|i: int| 0 <= i < r@.len() implies m2.contains_key(
                    (#[trigger] r@[i]).0@,
                ) && m2[r@[i].0@] == r@[i].1@ by {
                    if i != idx {
                        assert(old_r[i].0@ != old_r[idx as int].0@);
                        assert(m.contains_key(old_r[i].0@));
                    }
                }
                assert forall|k: Seq<char>| #[trigger] m2.contains_key(k) implies exists|i: int|
                    0 <= i < r@.len() && (#[trigger] r@[i]).0@ == k by {
                    if k == key@ {
                        assert(r@[idx as int].0@ == k);
                    } else {
                        assert(m.contains_key(k));
                        let i = choose|i: int| 0 <= i < old_r.len() && (#[trigger] old_r[i]).0@ == k;
                        assert(r@[i].0@ == k);
                    }
                }
            },
            None => {
                r.push((key, value));
                assert forall|a: int, b: int| 0 <= a < b < r@.len() implies (#[trigger] r@[a]).0@
                    != (#[trigger] r@[b]).0@ by {
                    if b < old_r.len() {
                        assert(old_r[a].0@ != old_r[b].0@);
                    } else {
                        assert(old_r[a].0@ != key@);
                    }
                }
                assert forall|i: int| 0 <= i < r@.len() implies m2.contains_key(
                    (#[trigger] r@[i]).0@,
                ) && m2[r@[i].0@] == r@[i].1@ by {
                    if i < old_r.len() {
                        assert(old_r[i].0@ != key@);
                        assert(m.contains_key(old_r[i].0@));
                    }
                }
                assert forall|k: Seq<char>| #[trigger] m2.contains_key(k) implies exists|i: int|
                    0 <= i < r@.len() && (#[trigger] r@[i]).0@ == k by {
                    if k == key@ {
                        assert(r@[old_r.len() as int].0@ == k);
                    } else {
                        assert(m.contains_key(k));
                        let i = choose|i: int| 0 <= i < old_r.len() && (#[trigger] old_r[i]).0@ == k;
                        assert(r@[i].0@ == k);
                    }
                }
            },
        }
        j = j + 1;
    }
    assert(kv.take(n as int) =~= kv);
    assert(lv.take(n as int) =~= lv);
    r
}

/// `serde_yaml::to_string` of the answers collected into a
/// `HashMap<String, String>`. Nothing is claimed of the text: the map is
/// written in the order it is walked, which depends on the hasher's seed.
#[verifier::external_body]
fn yaml_of_answers(answers: &Vec<(String, String)>) -> (r: Result<String, serde_yaml::Error>)
    requires
        crate::menu::names_distinct(answers@),
{
    serde_yaml::to_string(
        &answers.iter().cloned().collect::<std::collections::HashMap<String, String>>(),
    )
}

/// The YAML text that hands the typed answers to the popup: the answers of
/// [`typed_answers`], written by `serde_yaml`; refused with what the YAML
/// writer said.
pub fn answers_yaml(keys: &Vec<String>, lines: &Vec<String>) -> (r: Result<String, crate::error::MenuError>)
    requires
        keys@.len() == lines@.len(),
    ensures
        r matches Err(e) ==> e is AnswersUnwritable,
{
    let answers = typed_answers(keys, lines);
    match yaml_of_answers(&answers) {
        Ok(text) => Ok(text),
        Err(e) => Err(crate::error::MenuError::AnswersUnwritable(yaml_error_message(e))),
    }
}

/// The arguments with which this program asks for the popup's inputs.
pub fn input_arguments(keys: Vec<String>) -> (r: Vec<String>)
    ensures
        crate::text::views(r@) == seq!["input"@, "--key"@] + crate::text::views(keys@),
{
    let mut r: Vec<String> = Vec::new();
    r.push(owned("input"));
    r.push(owned("--key"));
    assert(crate::text::views(r@) =~= seq!["input"@, "--key"@]);
    crate::text::append_all(&mut r, keys);
    r
}

} // verus!

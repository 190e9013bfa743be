//! Menu files as loaded: the rows of a menu, and the commands embedded in
//! row names (`$(...)`), which are replaced by what they print.

use crate::position::{copy_opt, Position};
use crate::text::{chars_of, first_match, find, occurs, opt_view, owned, push_char};
use vstd::prelude::*;

verus! {

/// One row of a menu.
#[derive(Debug)]
pub enum MenuType {
    /// A selectable row that runs a command or opens another menu.
    Menu {
        name: String,
        shortcut: String,
        command: Option<String>,
        next_menu: Option<String>,
        close_after_command: bool,
        session: bool,
        session_name: Option<String>,
        key_table: Option<String>,
        session_on_dir: bool,
        run_on_git_root: bool,
        background: bool,
        as_floating_pane: bool,
        inputs: Vec<String>,
        position: Position,
        border: Option<String>,
        /// Variables set for the command, in the order they are exported.
        environment: Vec<(String, String)>,
    },
    /// A row that is shown but cannot be selected.
    NoDim { name: String },
    /// A separating line.
    Seperate {},
}

/// A menu file, loaded.
#[derive(Debug)]
pub struct Menus {
    /// The path of the menu file.
    pub conf_path: String,
    /// The directory that commands run in.
    pub cwd: String,
    /// A horizontal position given on the command line.
    pub cli_x: Option<String>,
    /// A vertical position given on the command line.
    pub cli_y: Option<String>,
    pub position: Position,
    pub title: String,
    pub items: Vec<MenuType>,
    pub border: String,
}

/// No name occurs twice among the pairs, as in a map from names to values.
pub open spec fn names_distinct(pairs: Seq<(String, String)>) -> bool {
    forall|i: int, j: int| 0 <= i < j < pairs.len() ==> (#[trigger] pairs[i]).0@ != (
    #[trigger] pairs[j]).0@
}

/// Whether no name occurs twice among the pairs.
pub fn distinct_names(pairs: &Vec<(String, String)>) -> (r: bool)
    ensures
        r == names_distinct(pairs@),
{
    let n = pairs.len();
    let mut i: usize = 0;
    while i < n
        invariant
            n == pairs@.len(),
            0 <= i <= n,
            forall|a: int, b: int|
                0 <= a < i && a < b < n ==> (#[trigger] pairs@[a]).0@ != (#[trigger] pairs@[b]).0@,
        decreases n - i,
    {
        let mut j: usize = i + 1;
        while j < n
            invariant
                n == pairs@.len(),
                0 <= i < n,
                i < j <= n,
                forall|a: int, b: int|
                    0 <= a < i && a < b < n ==> (#[trigger] pairs@[a]).0@ != (
                    #[trigger] pairs@[b]).0@,
                forall|b: int| i < b < j ==> pairs@[i as int].0@ != (#[trigger] pairs@[b]).0@,
            decreases n - j,
        {
            if pairs[i].0 == pairs[j].0 {
                return false;
            }
            j = j + 1;
        }
        i = i + 1;
    }
    true
}

/// The border of menus that name none.
pub fn default_border() -> (r: String)
    ensures
        r@ == "single"@,
{
    owned("single")
}

/// Rows run their commands in a popup that closes afterwards unless told otherwise.
pub fn default_true() -> (r: bool)
    ensures
        r,
{
    true
}

impl MenuType {
    /// The name of a row that has one.
    pub open spec fn name_of(self) -> Option<Seq<char>> {
        match self {
            MenuType::Menu { name, .. } => Some(name@),
            MenuType::NoDim { name } => Some(name@),
            MenuType::Seperate {  } => None,
        }
    }

    /// The row with its name replaced, where it has one.
    pub open spec fn renamed(self, new_name: String) -> MenuType {
        match self {
            MenuType::Menu {
                name,
                shortcut,
                command,
                next_menu,
                close_after_command,
                session,
                session_name,
                key_table,
                session_on_dir,
                run_on_git_root,
                background,
                as_floating_pane,
                inputs,
                position,
                border,
                environment,
            } => MenuType::Menu {
                name: new_name,
                shortcut,
                command,
                next_menu,
                close_after_command,
                session,
                session_name,
                key_table,
                session_on_dir,
                run_on_git_root,
                background,
                as_floating_pane,
                inputs,
                position,
                border,
                environment,
            },
            MenuType::NoDim { name } => MenuType::NoDim { name: new_name },
            MenuType::Seperate {  } => MenuType::Seperate {  },
        }
    }

    /// The row with `border` as its border where it is selectable and names none.
    pub open spec fn bordered(self, default: String) -> MenuType {
        match self {
            MenuType::Menu {
                name,
                shortcut,
                command,
                next_menu,
                close_after_command,
                session,
                session_name,
                key_table,
                session_on_dir,
                run_on_git_root,
                background,
                as_floating_pane,
                inputs,
                position,
                border,
                environment,
            } => MenuType::Menu {
                name,
                shortcut,
                command,
                next_menu,
                close_after_command,
                session,
                session_name,
                key_table,
                session_on_dir,
                run_on_git_root,
                background,
                as_floating_pane,
                inputs,
                position,
                border: if border is None {
                    Some(default)
                } else {
                    border
                },
                environment,
            },
            _ => self,
        }
    }

    /// A selectable row sets each environment variable once.
    pub open spec fn well_formed(self) -> bool {
        match self {
            MenuType::Menu { environment, .. } => names_distinct(environment@),
            _ => true,
        }
    }

    /// Whether a selectable row sets each environment variable once.
    pub fn is_well_formed(&self) -> (r: bool)
        ensures
            r == self.well_formed(),
    {
        match self {
            MenuType::Menu { environment, .. } => distinct_names(environment),
            _ => true,
        }
    }

    /// A selectable row names its border; other rows need none.
    pub open spec fn has_border(self) -> bool {
        match self {
            MenuType::Menu { border, .. } => border is Some,
            _ => true,
        }
    }

    /// The row is `other` with another name: the same kind of row, every
    /// field but the name the same.
    pub open spec fn same_but_name(self, other: MenuType) -> bool {
        match other {
            MenuType::Menu { name, .. } => self.renamed(name) == other,
            MenuType::NoDim { name } => self.renamed(name) == other,
            MenuType::Seperate {  } => self == other,
        }
    }

    /// Replaces the name of a row that has one.
    pub fn set_name(&mut self, name: String)
        ensures
            *final(self) == old(self).renamed(name),
    {
        match self {
            MenuType::Menu { name: n, .. } => {
                *n = name;
            },
            MenuType::NoDim { name: n } => {
                *n = name;
            },
            MenuType::Seperate {  } => {},
        }
    }

    /// Gives a selectable row that names no border the menu's border.
    pub fn with_default_border(self, default: &String) -> (r: MenuType)
        ensures
            r == self.bordered(*default),
    {
        match self {
            MenuType::Menu {
                name,
                shortcut,
                command,
                next_menu,
                close_after_command,
                session,
                session_name,
                key_table,
                session_on_dir,
                run_on_git_root,
                background,
                as_floating_pane,
                inputs,
                position,
                border,
                environment,
            } => MenuType::Menu {
                name,
                shortcut,
                command,
                next_menu,
                close_after_command,
                session,
                session_name,
                key_table,
                session_on_dir,
                run_on_git_root,
                background,
                as_floating_pane,
                inputs,
                position,
                border: if border.is_none() {
                    Some(default.clone())
                } else {
                    border
                },
                environment,
            },
            other => other,
        }
    }

    /// The commands written `$(...)` in this row's name, in order, for
    /// their output to replace them; none where the name holds no `$(`.
    pub fn eval_name_commands(&self) -> (r: Vec<String>)
        ensures
            crate::text::views(r@) == name_commands(self.name_of()),
    {
        let name = match self {
            MenuType::Menu { name, .. } => name,
            MenuType::NoDim { name } => name,
            MenuType::Seperate {  } => {
                return Vec::new();
            },
        };
        let cs = chars_of(name.as_str());
        let opener = chars_of("$(");
        if find(&cs, &opener).is_none() {
            return Vec::new();
        }
        let captures = match regex_captures(COMMAND_PATTERN, name.as_str()) {
            Ok(c) => c,
            Err(_) => {
                assert(false);
                return Vec::new();
            },
        };
        let ghost texts = command_texts(name@);
        assert(captured_views(captures@) == command_groups(name@));
        assert(captured_views(captures@).len() == captures@.len());
        assert(command_groups(name@).len() == texts.len());
        let mut commands: Vec<String> = Vec::new();
        let n = captures.len();
        let mut i: usize = 0;
        while i < n
            invariant
                texts == command_texts(name@),
                captured_views(captures@) == command_groups(name@),
                n == captures@.len(),
                n == texts.len(),
                0 <= i <= n,
                crate::text::views(commands@) == texts.take(i as int),
            decreases n - i,
        {
            assert(captured_views(captures@)[i as int] == opt_view(captures@[i as int]));
            assert(command_groups(name@)[i as int] == Some(texts[i as int]));
            let ghost before = commands@;
            match &captures[i] {
                Some(c) => {
                    let c2 = c.clone();
                    assert(c2@ == texts[i as int]);
                    commands.push(c2);
                    assert(commands@ == before.push(c2));
                    assert(crate::text::views(commands@) =~= crate::text::views(before).push(c2@));
                    assert(crate::text::views(commands@) =~= texts.take(i + 1));
                },
                None => {
                    assert(false);
                },
            }
            i = i + 1;
        }
        assert(texts.take(n as int) =~= texts);
        commands
    }
}

// ------------------------------------------------------------------------
// commands in names
// ------------------------------------------------------------------------

/// The expression that marks a command in a row name: `$(` and the
/// shortest text up to the next `)`.
pub const COMMAND_PATTERN: &'static str = "\\$\\((.*?)\\)";

/// Where the first `)` of `s` stands, when no newline comes before it.
pub open spec fn closing_paren(s: Seq<char>) -> Option<nat>
    decreases s.len(),
{
    if s.len() == 0 {
        None
    } else if s[0] == ')' {
        Some(0)
    } else if s[0] == '\n' {
        None
    } else {
        match closing_paren(s.drop_first()) {
            Some(k) => Some(k + 1),
            None => None,
        }
    }
}

/// A closing parenthesis is found inside the text.
pub proof fn lemma_closing_paren_inside(s: Seq<char>)
    ensures
        closing_paren(s) matches Some(k) ==> k < s.len() && s[k as int] == ')'
            && forall|j: int| 0 <= j < k ==> s[j] != ')' && s[j] != '\n',
    decreases s.len(),
{
    if s.len() > 0 && s[0] != ')' && s[0] != '\n' {
        lemma_closing_paren_inside(s.drop_first());
        if let Some(k) = closing_paren(s.drop_first()) {
            assert forall|j: int| 0 <= j < k + 1 implies s[j] != ')' && s[j] != '\n' by {
                if j > 0 {
                    assert(s[j] == s.drop_first()[j - 1]);
                }
            }
        }
    }
}

/// The texts between `$(` and the next `)` on the same line, from left to
/// right, each search starting after the last `)` taken: the successive
/// first groups of [`COMMAND_PATTERN`] (`.` takes any character but a
/// newline, `*?` as few as it can).
pub open spec fn command_texts(s: Seq<char>) -> Seq<Seq<char>>
    decreases s.len(),
{
    if s.len() < 2 {
        seq![]
    } else if s[0] == '$' && s[1] == '(' && closing_paren(s.skip(2)) is Some {
        let k: int = closing_paren(s.skip(2))->0 as int;
        proof {
            lemma_closing_paren_inside(s.skip(2));
        }
        seq![s.subrange(2, 2 + k)] + command_texts(s.skip(2 + k + 1))
    } else {
        command_texts(s.drop_first())
    }
}

/// The texts of [`command_texts`], each as a group that took part.
pub open spec fn command_groups(s: Seq<char>) -> Seq<Option<Seq<char>>> {
    command_texts(s).map_values(|t: Seq<char>| Some(t))
}

#[verifier::external_type_specification]
#[verifier::external_body]
pub struct ExRegexError(regex::Error);

/// The first-group texts of the successive matches of a regular expression
/// in a text, as the `regex` crate finds them (`None` for a match in which
/// the group took no part); `None` when the expression does not compile.
pub uninterp spec fn regex_group_one(pattern: Seq<char>, text: Seq<char>) -> Option<Seq<Option<Seq<char>>>>;

/// The views of optional captures.
pub open spec fn captured_views(v: Seq<Option<String>>) -> Seq<Option<Seq<char>>> {
    v.map_values(|c: Option<String>| opt_view(c))
}

/// `regex::Regex::new`, then `Regex::captures_iter`, keeping group 1 of
/// each match. Claimed: the compile error comes exactly when
/// `regex_group_one` has none, and the texts are `regex_group_one` of the
/// pattern and the text, a function of the two alone. For
/// [`COMMAND_PATTERN`] the crate's documented semantics fix them: it
/// compiles, matches are leftmost-first and do not overlap, `.` takes any
/// character but `\n` and `*?` as few as it can, so the group always takes
/// part and the texts are [`command_texts`].
#[verifier::external_body]
fn regex_captures(pattern: &str, text: &str) -> (r: Result<Vec<Option<String>>, regex::Error>)
    ensures
        r is Err <==> regex_group_one(pattern@, text@) is None,
        r matches Ok(v) ==> regex_group_one(pattern@, text@) == Some(captured_views(v@)),
        r is Err ==> pattern@ != COMMAND_PATTERN@,
        r matches Ok(v) ==> (pattern@ == COMMAND_PATTERN@ ==> captured_views(v@) == command_groups(
            text@,
        )),
{
    match regex::Regex::new(pattern) {
        Ok(re) => Ok(re.captures_iter(text).map(|c| c.get(1).map(|m| m.as_str().to_string())).collect()),
        Err(e) => Err(e),
    }
}

/// The commands of a name: none without `$(`; else the first group of each
/// match of [`COMMAND_PATTERN`].
pub open spec fn name_commands(name: Option<Seq<char>>) -> Seq<Seq<char>> {
    match name {
        None => seq![],
        Some(n) => if !occurs(n, "$("@) {
            seq![]
        } else {
            command_texts(n)
        },
    }
}

/// How many bytes UTF-8 takes for `c`.
pub open spec fn utf8_width(c: char) -> nat {
    if (c as u32) < 0x80 {
        1
    } else if (c as u32) < 0x800 {
        2
    } else if (c as u32) < 0x10000 {
        3
    } else {
        4
    }
}

/// `name` with the first occurrence of `command`, widened by the two bytes
/// before it and the one byte after it (the `$(` and `)` that normally
/// surround it), replaced by `output`. Defined only where those bytes lie in
/// the name and the widened range starts and ends between characters.
pub open spec fn output_substituted(name: Seq<char>, command: Seq<char>, output: Seq<char>) -> Option<Seq<char>> {
    match first_match(name, command) {
        None => None,
        Some(i) => {
            let start: int = if i >= 1 && utf8_width(name[i - 1]) == 2 {
                i - 1
            } else if i >= 2 && utf8_width(name[i - 1]) == 1 && utf8_width(name[i - 2]) == 1 {
                i - 2
            } else {
                -1
            };
            let j: int = (i + command.len()) as int;
            if start < 0 || j >= name.len() || utf8_width(name[j]) != 1 {
                None
            } else {
                Some(name.take(start) + output + name.skip(j + 1))
            }
        },
    }
}

fn utf8_width_of(c: char) -> (r: u32)
    ensures
        r == utf8_width(c),
{
    let v = c as u32;
    if v < 0x80 {
        1
    } else if v < 0x800 {
        2
    } else if v < 0x10000 {
        3
    } else {
        4
    }
}

/// Replaces the command `command`, with its `$(` and `)`, by `output` in
/// `name`; `None` where the name has no room for them (see
/// [`output_substituted`]).
pub fn apply_command_output(name: &str, command: &str, output: &str) -> (r: Option<String>)
    ensures
        match r {
            Some(s) => output_substituted(name@, command@, output@) == Some(s@),
            None => output_substituted(name@, command@, output@) is None,
        },
{
    let cs = chars_of(name);
    let ps = chars_of(command);
    let i = match find(&cs, &ps) {
        Some(i) => i,
        None => {
            return None;
        },
    };
    let start: usize = if i >= 1 && utf8_width_of(cs[i - 1]) == 2 {
        i - 1
    } else if i >= 2 && utf8_width_of(cs[i - 1]) == 1 && utf8_width_of(cs[i - 2]) == 1 {
        i - 2
    } else {
        return None;
    };
    assert(i + ps@.len() <= cs@.len());
    let j = i + ps.len();
    if j >= cs.len() || utf8_width_of(cs[j]) != 1 {
        return None;
    }
    let mut out = String::new();
    let mut k: usize = 0;
    while k < start
        invariant
            cs@ == name@,
            start <= cs@.len(),
            0 <= k <= start,
            out@ == name@.take(k as int),
        decreases start - k,
    {
        push_char(&mut out, cs[k]);
        assert(out@ =~= name@.take(k + 1));
        k = k + 1;
    }
    out.append(output);
    let ghost mid = out@;
    let mut k: usize = j + 1;
    while k < cs.len()
        invariant
            cs@ == name@,
            j + 1 <= k <= cs@.len(),
            out@ == mid + name@.subrange(j + 1, k as int),
        decreases cs.len() - k,
    {
        push_char(&mut out, cs[k]);
        assert(out@ =~= mid + name@.subrange(j + 1, k + 1));
        k = k + 1;
    }
    assert(out@ =~= name@.take(start as int) + output@ + name@.skip(j + 1));
    Some(out)
}

/// A name with the outputs of its first `outputs.len()` commands put in,
/// one after the other (see [`output_substituted`]); `None` from the first
/// command that has no room in the name.
pub open spec fn outputs_applied(name: Seq<char>, commands: Seq<Seq<char>>, outputs: Seq<Seq<char>>) -> Option<Seq<char>>
    decreases outputs.len(),
{
    if outputs.len() == 0 {
        Some(name)
    } else {
        match outputs_applied(name, commands, outputs.drop_last()) {
            None => None,
            Some(n) => output_substituted(n, commands[outputs.len() - 1], outputs.last()),
        }
    }
}

/// Puts the outputs of the first `outputs.len()` commands of a name into
/// it, in order; `None` where one of them has no room (see
/// [`output_substituted`]). Whether a command has room does not depend on
/// its own output, so after running each command in turn, calling this with
/// the outputs so far refuses exactly where replacing that command fails.
pub fn apply_command_outputs(name: &str, commands: &Vec<String>, outputs: &Vec<String>) -> (r: Option<String>)
    requires
        outputs@.len() <= commands@.len(),
    ensures
        match r {
            Some(s) => outputs_applied(
                name@,
                crate::text::views(commands@),
                crate::text::views(outputs@),
            ) == Some(s@),
            None => outputs_applied(
                name@,
                crate::text::views(commands@),
                crate::text::views(outputs@),
            ) is None,
        },
{
    let ghost cv = crate::text::views(commands@);
    let ghost ov = crate::text::views(outputs@);
    let mut current = owned(name);
    let n = outputs.len();
    let mut i: usize = 0;
    assert(ov.take(0) =~= Seq::<Seq<char>>::empty());
    while i < n
        invariant
            n == outputs@.len(),
            n <= commands@.len(),
            cv == crate::text::views(commands@),
            ov == crate::text::views(outputs@),
            0 <= i <= n,
            outputs_applied(name@, cv, ov.take(i as int)) == Some(current@),
        decreases n - i,
    {
        let ghost prefix = ov.take(i + 1);
        assert(prefix.drop_last() =~= ov.take(i as int));
        assert(prefix.last() == outputs@[i as int]@);
        assert(cv[i as int] == commands@[i as int]@);
        current = match apply_command_output(current.as_str(), commands[i].as_str(), outputs[i].as_str()) {
            Some(next) => next,
            None => {
                proof {
                    lemma_outputs_applied_refusal_stays(name@, cv, ov, (i + 1) as nat);
                    assert(ov.take(n as int) =~= ov);
                }
                return None;
            },
        };
        i = i + 1;
    }
    assert(ov.take(n as int) =~= ov);
    Some(current)
}

/// Once a command has no room in the name, the later outputs change nothing.
proof fn lemma_outputs_applied_refusal_stays(
    name: Seq<char>,
    commands: Seq<Seq<char>>,
    outputs: Seq<Seq<char>>,
    k: nat,
)
    requires
        k <= outputs.len(),
        outputs_applied(name, commands, outputs.take(k as int)) is None,
    ensures
        outputs_applied(name, commands, outputs) is None,
    decreases outputs.len() - k,
{
    if k < outputs.len() {
        assert(outputs.take((k + 1) as int).drop_last() =~= outputs.take(k as int));
        lemma_outputs_applied_refusal_stays(name, commands, outputs, k + 1);
    } else {
        assert(outputs.take(k as int) =~= outputs);
    }
}

/// Whether a command has room in the name does not depend on its output:
/// putting in the outputs of the first `k + 1` commands succeeds exactly
/// when the first `k` succeed and command `k` has room, whatever it printed.
pub proof fn command_room_ignores_output(
    name: Seq<char>,
    commands: Seq<Seq<char>>,
    outputs: Seq<Seq<char>>,
    other: Seq<char>,
)
    requires
        0 < outputs.len() <= commands.len(),
    ensures
        (outputs_applied(name, commands, outputs) is Some) == (outputs_applied(
            name,
            commands,
            outputs.drop_last().push(other),
        ) is Some),
{
    assert(outputs.drop_last().push(other).drop_last() =~= outputs.drop_last());
}

/// A command written `$(command)` in a name, where the first occurrence of
/// its text is that one, is replaced by its output, `$(` and `)` included.
pub proof fn command_expression_replaced(
    before: Seq<char>,
    command: Seq<char>,
    after: Seq<char>,
    output: Seq<char>,
)
    requires
        first_match(before + "$("@ + command + ")"@ + after, command) == Some(
            (before.len() + 2) as nat,
        ),
    ensures
        output_substituted(before + "$("@ + command + ")"@ + after, command, output) == Some(
            before + output + after,
        ),
{
    reveal_strlit("$(");
    reveal_strlit(")");
    let name = before + "$("@ + command + ")"@ + after;
    let i: int = before.len() + 2int;
    assert(name[i - 1] == '(');
    assert(name[i - 2] == '$');
    assert(name[i + command.len()] == ')');
    assert(name.take(before.len() as int) =~= before);
    assert(name.skip(i + command.len() + 1) =~= after);
}

// ------------------------------------------------------------------------
// loading
// ------------------------------------------------------------------------

/// The name of `row` once its commands have printed `outputs`, one output
/// for each command, in order; the name unchanged where it holds no
/// command. `None` where the outputs do not match the commands or one has
/// no room in the name (see [`output_substituted`]).
pub open spec fn evaluated_name(row: MenuType, outputs: Seq<Seq<char>>) -> Option<Option<Seq<char>>> {
    let commands = name_commands(row.name_of());
    if outputs.len() != commands.len() {
        None
    } else if commands.len() == 0 {
        Some(row.name_of())
    } else {
        match outputs_applied(row.name_of()->0, commands, outputs) {
            Some(n) => Some(Some(n)),
            None => None,
        }
    }
}

/// The rows of a menu file as loaded for select: each selectable row that
/// names no border gets the menu's border.
pub open spec fn select_rows(parsed: Menus) -> Seq<MenuType> {
    parsed.items@.map_values(|m: MenuType| m.bordered(parsed.border))
}

/// Bordering keeps a renaming, and the name.
proof fn lemma_bordered_same_but_name(a: MenuType, b: MenuType, border: String)
    requires
        a.same_but_name(b),
    ensures
        a.bordered(border).same_but_name(b.bordered(border)),
        a.bordered(border).name_of() == a.name_of(),
{
}

impl Menus {
    /// Every row of the menu is well formed.
    pub open spec fn well_formed(self) -> bool {
        forall|i: int| 0 <= i < self.items@.len() ==> (#[trigger] self.items@[i]).well_formed()
    }

    /// Whether every row of the menu is well formed.
    pub fn is_well_formed(&self) -> (r: bool)
        ensures
            r == self.well_formed(),
    {
        let n = self.items.len();
        let mut i: usize = 0;
        while i < n
            invariant
                n == self.items@.len(),
                0 <= i <= n,
                forall|k: int| 0 <= k < i ==> (#[trigger] self.items@[k]).well_formed(),
            decreases n - i,
        {
            if !self.items[i].is_well_formed() {
                return false;
            }
            i = i + 1;
        }
        true
    }

    /// The row at `index`, refused past the last row.
    pub fn item_at(&self, index: usize) -> (r: Result<&MenuType, crate::error::MenuError>)
        ensures
            index < self.items@.len() ==> (r matches Ok(m) && *m == self.items@[index as int]),
            index >= self.items@.len() ==> r == Err::<&MenuType, crate::error::MenuError>(
                crate::error::MenuError::IndexOutOfRange(index),
            ),
    {
        if index < self.items.len() {
            Ok(&self.items[index])
        } else {
            Err(crate::error::MenuError::IndexOutOfRange(index))
        }
    }

    /// A menu file just read (`parsed`), from `path`, for commands run in
    /// `cwd`: no position from the command line yet, and every selectable
    /// row that names no border gets the menu's border.
    pub fn load_for_select(parsed: Menus, path: String, cwd: String) -> (r: Menus)
        requires
            parsed.well_formed(),
        ensures
            r.well_formed(),
            r.conf_path == path,
            r.cwd == cwd,
            r.cli_x is None,
            r.cli_y is None,
            r.position == parsed.position,
            r.title == parsed.title,
            r.border == parsed.border,
            r.items@.len() == parsed.items@.len(),
            forall|i: int|
                0 <= i < r.items@.len() ==> #[trigger] r.items@[i] == parsed.items@[i].bordered(
                    parsed.border,
                ),
            forall|i: int| 0 <= i < r.items@.len() ==> (#[trigger] r.items@[i]).has_border(),
            r.items@ == select_rows(parsed),
    {
        let Menus { position, title, items, border, .. } = parsed;
        let ghost original = items@;
        let mut rest = items;
        let mut done: Vec<MenuType> = Vec::new();
        while rest.len() > 0
            invariant
                rest@ == original.skip(done@.len() as int),
                done@.len() <= original.len(),
                forall|i: int| 0 <= i < original.len() ==> (#[trigger] original[i]).well_formed(),
                forall|i: int|
                    0 <= i < done@.len() ==> #[trigger] done@[i] == original[i].bordered(border),
            decreases rest@.len(),
        {
            let item = rest.remove(0);
            assert(item == original[done@.len() as int]);
            assert(item.well_formed());
            done.push(item.with_default_border(&border));
            assert(rest@ =~= original.skip(done@.len() as int));
        }
        let r = Menus {
            conf_path: path,
            cwd,
            cli_x: None,
            cli_y: None,
            position,
            title,
            items: done,
            border,
        };
        assert(r.items@ =~= select_rows(parsed));
        r
    }

    /// A menu file just read (`parsed`), from `path`, for commands run in
    /// `cwd`, with the commands in its row names replaced by what they
    /// printed: `outputs[i]` holds the outputs of the commands of row `i`,
    /// in order. `None` where the outputs do not match the commands or one
    /// has no room in its name. Each row is the row that
    /// [`Menus::load_for_select`] gives ([`select_rows`]) but for its name,
    /// and a name without `$(` is kept, so that an index means the same row
    /// in both.
    pub fn load(parsed: Menus, outputs: &Vec<Vec<String>>, path: String, cwd: String) -> (r: Option<Menus>)
        requires
            parsed.well_formed(),
        ensures
            r is Some <==> (outputs@.len() == parsed.items@.len() && forall|i: int|
                0 <= i < parsed.items@.len() ==> evaluated_name(
                    #[trigger] parsed.items@[i],
                    crate::text::views(outputs@[i]@),
                ) is Some),
            r matches Some(m) ==> m.well_formed() && m.conf_path == path && m.cwd == cwd
                && m.cli_x is None && m.cli_y is None && m.position == parsed.position && m.title
                == parsed.title && m.border == parsed.border && m.items@.len()
                == parsed.items@.len(),
            r matches Some(m) ==> forall|i: int|
                0 <= i < m.items@.len() ==> (#[trigger] m.items@[i]).same_but_name(
                    select_rows(parsed)[i],
                ),
            r matches Some(m) ==> forall|i: int|
                0 <= i < m.items@.len() ==> (#[trigger] m.items@[i]).name_of() == evaluated_name(
                    parsed.items@[i],
                    crate::text::views(outputs@[i]@),
                )->0,
            r matches Some(m) ==> forall|i: int|
                0 <= i < m.items@.len() && (parsed.items@[i].name_of() matches Some(n) && !occurs(
                    n,
                    "$("@,
                )) ==> (#[trigger] m.items@[i]).name_of() == parsed.items@[i].name_of(),
    {
        if outputs.len() != parsed.items.len() {
            return None;
        }
        let ghost parsed_items = parsed.items@;
        let Menus { conf_path, cwd: parsed_cwd, cli_x, cli_y, position, title, items, border } =
            parsed;
        let ghost original = items@;
        let mut rest = items;
        let mut done: Vec<MenuType> = Vec::new();
        while rest.len() > 0
            invariant
                rest@ == original.skip(done@.len() as int),
                done@.len() <= original.len(),
                original.len() == outputs@.len(),
                original == parsed_items,
                parsed_items == parsed.items@,
                forall|i: int| 0 <= i < original.len() ==> (#[trigger] original[i]).well_formed(),
                forall|i: int|
                    0 <= i < done@.len() ==> evaluated_name(
                        #[trigger] original[i],
                        crate::text::views(outputs@[i]@),
                    ) is Some,
                forall|i: int|
                    0 <= i < done@.len() ==> (#[trigger] done@[i]).same_but_name(original[i])
                        && done@[i].well_formed() && done@[i].name_of() == evaluated_name(
                        original[i],
                        crate::text::views(outputs@[i]@),
                    )->0,
            decreases rest@.len(),
        {
            let i = done.len();
            assert(rest@.len() == original.len() - i);
            assert(0 <= i < parsed_items.len());
            let mut item = rest.remove(0);
            assert(item == original[i as int]);
            let commands = item.eval_name_commands();
            let outs = &outputs[i];
            let ghost cv = crate::text::views(commands@);
            let ghost ov = crate::text::views(outs@);
            assert(ov == crate::text::views(outputs@[i as int]@));
            if outs.len() != commands.len() {
                assert(evaluated_name(parsed_items[i as int], ov) is None);
                return None;
            }
            if commands.len() > 0 {
                let name = match &item {
                    MenuType::Menu { name, .. } => name.clone(),
                    MenuType::NoDim { name } => name.clone(),
                    MenuType::Seperate {  } => {
                        assert(false);
                        String::new()
                    },
                };
                assert(item.name_of() == Some(name@));
                match apply_command_outputs(name.as_str(), &commands, outs) {
                    Some(n) => {
                        let ghost before = item;
                        item.set_name(n);
                        assert(item.same_but_name(before));
                    },
                    None => {
                        assert(evaluated_name(parsed_items[i as int], ov) is None);
                                return None;
                    },
                }
            } else {
                assert(item.same_but_name(item));
            }
            done.push(item);
            assert(rest@ =~= original.skip(done@.len() as int));
        }
        assert(done@.len() == original.len());
        let evaluated = Menus {
            conf_path,
            cwd: parsed_cwd,
            cli_x,
            cli_y,
            position,
            title,
            items: done,
            border,
        };
        let ghost evaluated_items = evaluated.items@;
        let ghost b = evaluated.border;
        let m = Self::load_for_select(evaluated, path, cwd);
        proof {
            assert forall|i: int| 0 <= i < m.items@.len() implies (#[trigger] m.items@[i]).same_but_name(
                select_rows(parsed)[i],
            ) && m.items@[i].name_of() == evaluated_name(
                parsed.items@[i],
                crate::text::views(outputs@[i]@),
            )->0 by {
                lemma_bordered_same_but_name(evaluated_items[i], original[i], b);
            }
        }
        Some(m)
    }
}

/// Takes a position given on the command line: it replaces the menu's
/// own, and is handed on to the commands the menu runs.
pub fn apply_cli_position(menus: &mut Menus, x: Option<String>, y: Option<String>)
    ensures
        final(menus).position.x == (match x {
            Some(v) => v,
            None => old(menus).position.x,
        }),
        final(menus).position.y == (match y {
            Some(v) => v,
            None => old(menus).position.y,
        }),
        final(menus).position.w == old(menus).position.w,
        final(menus).position.h == old(menus).position.h,
        final(menus).cli_x == (match x {
            Some(v) => Some(v),
            None => old(menus).cli_x,
        }),
        final(menus).cli_y == (match y {
            Some(v) => Some(v),
            None => old(menus).cli_y,
        }),
        final(menus).conf_path == old(menus).conf_path,
        final(menus).cwd == old(menus).cwd,
        final(menus).title == old(menus).title,
        final(menus).items == old(menus).items,
        final(menus).border == old(menus).border,
{
    if let Some(x) = x {
        menus.position.x = x.clone();
        menus.cli_x = Some(x);
    }
    if let Some(y) = y {
        menus.position.y = y.clone();
        menus.cli_y = Some(y);
    }
}

/// A text with no `)` and no newline, then `)`: its first `)` closes it.
proof fn lemma_closing_paren_after(c: Seq<char>, rest: Seq<char>)
    requires
        forall|i: int| 0 <= i < c.len() ==> c[i] != ')' && c[i] != '\n',
    ensures
        closing_paren(c + seq![')'] + rest) == Some(c.len()),
    decreases c.len(),
{
    let s = c + seq![')'] + rest;
    if c.len() > 0 {
        lemma_closing_paren_after(c.drop_first(), rest);
        assert(s.drop_first() =~= c.drop_first() + seq![')'] + rest);
    }
}

/// A name holding `$(command)`, with the command on one line and without
/// `)`, has at least one command.
proof fn lemma_command_texts_found(before: Seq<char>, command: Seq<char>, after: Seq<char>)
    requires
        forall|i: int| 0 <= i < command.len() ==> command[i] != ')' && command[i] != '\n',
    ensures
        command_texts(before + seq!['$', '('] + command + seq![')'] + after).len() > 0,
    decreases before.len(),
{
    let s = before + seq!['$', '('] + command + seq![')'] + after;
    if before.len() == 0 {
        assert(s.skip(2) =~= command + seq![')'] + after);
        lemma_closing_paren_after(command, after);
    } else if s[0] == '$' && s[1] == '(' && closing_paren(s.skip(2)) is Some {
    } else {
        lemma_command_texts_found(before.drop_first(), command, after);
        assert(s.drop_first() =~= before.drop_first() + seq!['$', '('] + command + seq![')'] + after);
    }
}

/// Where `p` stands at `j`, a search from `i <= j` finds it.
proof fn lemma_first_match_found(s: Seq<char>, p: Seq<char>, i: nat, j: nat)
    requires
        i <= j,
        j + p.len() <= s.len(),
        s.subrange(j as int, (j + p.len()) as int) == p,
    ensures
        crate::text::first_match_from(s, p, i) is Some,
    decreases j - i,
{
    if i < j {
        lemma_first_match_found(s, p, i + 1, j);
    }
}

/// Whatever the kind of row (selectable or not), a name holding commands
/// whose outputs all have room becomes the name with the outputs put in.
pub proof fn evaluated_name_puts_outputs_in(row: MenuType, outputs: Seq<Seq<char>>)
    requires
        row.name_of() is Some,
        name_commands(row.name_of()).len() > 0,
        outputs.len() == name_commands(row.name_of()).len(),
        outputs_applied(row.name_of()->0, name_commands(row.name_of()), outputs) is Some,
    ensures
        evaluated_name(row, outputs) == Some(
            Some(outputs_applied(row.name_of()->0, name_commands(row.name_of()), outputs)->0),
        ),
{
}

/// A row, of whatever kind, whose name holds `$(command)` with the command
/// on one line and without `)` has commands to run, and where their outputs
/// have room its name becomes the name with the outputs put in.
pub proof fn command_in_name_is_evaluated(
    row: MenuType,
    before: Seq<char>,
    command: Seq<char>,
    after: Seq<char>,
    outputs: Seq<Seq<char>>,
)
    requires
        row.name_of() == Some(before + "$("@ + command + ")"@ + after),
        forall|i: int| 0 <= i < command.len() ==> command[i] != ')' && command[i] != '\n',
        outputs.len() == name_commands(row.name_of()).len(),
        outputs_applied(row.name_of()->0, name_commands(row.name_of()), outputs) is Some,
    ensures
        name_commands(row.name_of()).len() > 0,
        evaluated_name(row, outputs) == Some(
            Some(outputs_applied(row.name_of()->0, name_commands(row.name_of()), outputs)->0),
        ),
{
    reveal_strlit("$(");
    reveal_strlit(")");
    let n = before + "$("@ + command + ")"@ + after;
    assert(n =~= before + seq!['$', '('] + command + seq![')'] + after);
    lemma_command_texts_found(before, command, after);
    assert(n.subrange(before.len() as int, before.len() + 2int) =~= "$("@);
    lemma_first_match_found(n, "$("@, 0, before.len());
    evaluated_name_puts_outputs_in(row, outputs);
}

} // verus!

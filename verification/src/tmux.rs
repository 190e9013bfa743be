//! The argument lists of the tmux commands that show menus, popups and panes.

use crate::error::{list_result, text_result, MenuError, MenuErrorView};
use crate::number::{decimal, decimal_reads_back, parse_u16, parsed_u16, parsed_usize, push_decimal};
use crate::menu::{MenuType, Menus};
use crate::position::Position;
use crate::text::{append_all, opt_view};
use crate::this::{run_this_binary_with, this_invocation};
use crate::shell::{lemma_escape_char_front, prepend, read_word};
use crate::text::{escape_char, owned, push_char, replace_char, views};
use vstd::prelude::*;

verus! {

/// The tmux client that the commands are for.
pub struct Tmux {
    binary: String,
}

impl Tmux {
    /// The program that runs the commands.
    pub closed spec fn program(self) -> Seq<char> {
        self.binary@
    }

    /// The `tmux` program.
    pub fn new() -> (r: Self)
        ensures
            r.program() == "tmux"@,
    {
        Self { binary: owned("tmux") }
    }

    /// The program that runs the commands.
    pub fn binary(&self) -> (r: &String)
        ensures
            r@ == self.program(),
    {
        &self.binary
    }

    /// `-b border`.
    pub fn construct_border_arguments(border: &str) -> (r: Vec<String>)
        ensures
            views(r@) == seq!["-b"@, border@],
    {
        let mut r: Vec<String> = Vec::new();
        r.push(owned("-b"));
        r.push(owned(border));
        assert(views(r@) =~= seq!["-b"@, border@]);
        r
    }

    /// `-x`, `-y`, and `-w`, `-h` when the position has both sizes.
    pub fn construct_position_arguments(position: &Position) -> (r: Vec<String>)
        ensures
            views(r@) == position_arguments(*position),
    {
        let mut r: Vec<String> = Vec::new();
        r.push(owned("-x"));
        r.push(position.x.clone());
        r.push(owned("-y"));
        r.push(position.y.clone());
        if let (Some(w), Some(h)) = (&position.w, &position.h) {
            r.push(owned("-w"));
            r.push(w.clone());
            r.push(owned("-h"));
            r.push(h.clone());
        }
        assert(views(r@) =~= position_arguments(*position));
        r
    }

    /// `value` between single quotes, each inner single quote written `'\''`.
    pub fn tmux_single_quote(value: &str) -> (r: String)
        ensures
            r@ == tmux_quoted(value@),
    {
        proof {
            reveal_strlit("'\\''");
        }
        assert("'\\''"@ == quote_escape());
        let mut out = String::new();
        push_char(&mut out, '\'');
        out.append(replace_char(value, '\'', "'\\''").as_str());
        push_char(&mut out, '\'');
        assert(out@ =~= tmux_quoted(value@));
        out
    }

    /// `value` with every `#` doubled, so that tmux takes it literally.
    pub fn tmux_format_escape(value: &str) -> (r: String)
        ensures
            r@ == format_escaped(value@),
    {
        proof {
            reveal_strlit("##");
        }
        assert("##"@ == seq!['#', '#']);
        replace_char(value, '#', "##")
    }

    /// The menu action that runs `command` in the background.
    pub fn run_shell_action(command: &str) -> (r: String)
        ensures
            r@ == format_escaped("run-shell -b -- "@ + tmux_quoted(command@)),
    {
        let mut action = owned("run-shell -b -- ");
        action.append(Self::tmux_single_quote(command).as_str());
        Self::tmux_format_escape(action.as_str())
    }

    /// `-T` and the title, centred in yellow.
    pub fn construct_title_arguments(title: &str) -> (r: Vec<String>)
        ensures
            views(r@) == seq!["-T"@, "#[align=centre fg=yellow]"@ + title@],
    {
        let mut r: Vec<String> = Vec::new();
        r.push(owned("-T"));
        let mut t = owned("#[align=centre fg=yellow]");
        t.append(title);
        r.push(t);
        assert(views(r@) =~= seq!["-T"@, "#[align=centre fg=yellow]"@ + title@]);
        r
    }

    /// The arguments of `tmux display-popup` running `command`.
    pub fn display_popup_arguments(command: String, position: &Position, border: &str, exit: bool) -> (r: Vec<String>)
        ensures
            views(r@) == popup_arguments(command@, *position, border@, exit),
    {
        let mut arguments: Vec<String> = Vec::new();
        arguments.push(owned("display-popup"));
        let mut b = Self::construct_border_arguments(border);
        let ghost bv = views(b@);
        arguments.append(&mut b);
        assert(views(arguments@) =~= seq!["display-popup"@] + bv);
        let mut p = Self::construct_position_arguments(position);
        let ghost pv = views(p@);
        let ghost before = views(arguments@);
        arguments.append(&mut p);
        assert(views(arguments@) =~= before + pv);
        if exit {
            arguments.push(owned("-E"));
        }
        arguments.push(command);
        assert(views(arguments@) =~= popup_arguments(command@, *position, border@, exit));
        arguments
    }

    /// The `-x -y -X -Y` arguments of `tmux new-pane` for a position.
    pub fn construct_pane_arguments(position: &Position) -> (r: Result<Vec<String>, MenuError>)
        ensures
            list_result(r) == pane_arguments(*position),
    {
        let width = match &position.w {
            Some(w) => w,
            None => {
                return Err(MenuError::PaneWidthRequired);
            },
        };
        let height = match &position.h {
            Some(h) => h,
            None => {
                return Err(MenuError::PaneHeightRequired);
            },
        };
        let x = if is_single(position.x.as_str(), 'C') {
            match centered_position(width.as_str(), "window_width") {
                Ok(v) => v,
                Err(e) => {
                    return Err(e);
                },
            }
        } else if is_single(position.x.as_str(), 'R') {
            match edge_position(width.as_str(), "window_width") {
                Ok(v) => v,
                Err(e) => {
                    return Err(e);
                },
            }
        } else {
            position.x.clone()
        };
        let y = if is_single(position.y.as_str(), 'C') {
            match centered_position(height.as_str(), "window_height") {
                Ok(v) => v,
                Err(e) => {
                    return Err(e);
                },
            }
        } else if is_single(position.y.as_str(), 'P') {
            match edge_position(height.as_str(), "window_height") {
                Ok(v) => v,
                Err(e) => {
                    return Err(e);
                },
            }
        } else {
            position.y.clone()
        };
        let ghost xs = if position.x@ == seq!['C'] {
            centered(width@, "window_width"@)
        } else if position.x@ == seq!['R'] {
            edge(width@, "window_width"@)
        } else {
            Ok(position.x@)
        };
        let ghost ys = if position.y@ == seq!['C'] {
            centered(height@, "window_height"@)
        } else if position.y@ == seq!['P'] {
            edge(height@, "window_height"@)
        } else {
            Ok(position.y@)
        };
        assert(xs == Ok::<Seq<char>, MenuErrorView>(x@));
        assert(ys == Ok::<Seq<char>, MenuErrorView>(y@));
        let mut r: Vec<String> = Vec::new();
        r.push(owned("-x"));
        r.push(width.clone());
        r.push(owned("-y"));
        r.push(height.clone());
        r.push(owned("-X"));
        r.push(x);
        r.push(owned("-Y"));
        r.push(y);
        assert(views(r@) =~= seq!["-x"@, width@, "-y"@, height@, "-X"@, x@, "-Y"@, y@]);
        Ok(r)
    }

    /// The arguments of `tmux new-pane` running `command`.
    pub fn new_pane_arguments(command: String, position: &Position, close_after_command: bool) -> (r: Result<Vec<String>, MenuError>)
        ensures
            list_result(r) == match pane_arguments(*position) {
                Ok(p) => Ok(seq!["new-pane"@] + p + (if close_after_command {
                    seq![]
                } else {
                    seq!["-k"@]
                }) + seq![command@]),
                Err(e) => Err(e),
            },
    {
        let mut arguments: Vec<String> = Vec::new();
        arguments.push(owned("new-pane"));
        let mut p = match Self::construct_pane_arguments(position) {
            Ok(p) => p,
            Err(e) => {
                return Err(e);
            },
        };
        let ghost pv = views(p@);
        arguments.append(&mut p);
        assert(views(arguments@) =~= seq!["new-pane"@] + pv);
        if !close_after_command {
            arguments.push(owned("-k"));
        }
        arguments.push(command);
        proof {
            let pa = pane_arguments(*position)->Ok_0;
            assert(views(arguments@) =~= seq!["new-pane"@] + pa + (if close_after_command {
                seq![]
            } else {
                seq!["-k"@]
            }) + seq![command@]);
        }
        Ok(arguments)
    }
}

/// `-x x -y y`, then `-w w -h h` when both sizes are there.
pub open spec fn position_arguments(p: Position) -> Seq<Seq<char>> {
    if p.w is Some && p.h is Some {
        seq!["-x"@, p.x@, "-y"@, p.y@, "-w"@, p.w->0@, "-h"@, p.h->0@]
    } else {
        seq!["-x"@, p.x@, "-y"@, p.y@]
    }
}

/// What replaces a single quote inside single quotes for tmux.
pub open spec fn quote_escape() -> Seq<char> {
    seq!['\'', '\\', '\'', '\'']
}

/// `value` between single quotes, each inner single quote written `'\''`.
pub open spec fn tmux_quoted(value: Seq<char>) -> Seq<char> {
    seq!['\''] + escape_char(value, '\'', quote_escape()) + seq!['\'']
}

/// `value` with every `#` doubled.
pub open spec fn format_escaped(value: Seq<char>) -> Seq<char> {
    escape_char(value, '#', seq!['#', '#'])
}

/// `display-popup -b border`, the position, `-E` when asked, the command.
pub open spec fn popup_arguments(command: Seq<char>, p: Position, border: Seq<char>, exit: bool) -> Seq<Seq<char>> {
    seq!["display-popup"@, "-b"@, border] + position_arguments(p) + (if exit {
        seq!["-E"@]
    } else {
        seq![]
    }) + seq![command]
}

// ------------------------------------------------------------------------
// tmux formats
// ------------------------------------------------------------------------

/// The literal text tmux makes of a format string where `##` stands for `#`;
/// `None` where some other `#` directive occurs.
pub open spec fn format_literal(s: Seq<char>) -> Option<Seq<char>>
    decreases s.len(),
{
    if s.len() == 0 {
        Some(seq![])
    } else if s[0] == '#' {
        if s.len() >= 2 && s[1] == '#' {
            prepend('#', format_literal(s.skip(2)))
        } else {
            None
        }
    } else {
        prepend(s[0], format_literal(s.drop_first()))
    }
}

/// Any text, escaped, is read back by tmux as exactly that text.
pub proof fn format_escape_reads_back(value: Seq<char>)
    ensures
        format_literal(format_escaped(value)) == Some(value),
    decreases value.len(),
{
    if value.len() == 0 {
        assert(format_escaped(value) =~= seq![]);
        assert(value =~= seq![]);
    } else {
        let rest = value.drop_first();
        format_escape_reads_back(rest);
        lemma_escape_char_front(value, '#', seq!['#', '#']);
        let e = format_escaped(value);
        if value[0] == '#' {
            assert(e =~= seq!['#', '#'] + format_escaped(rest));
            assert(e.skip(2) =~= format_escaped(rest));
        } else {
            assert(e =~= seq![value[0]] + format_escaped(rest));
            assert(e.drop_first() =~= format_escaped(rest));
        }
        assert(seq![value[0]] + rest =~= value);
    }
}

proof fn lemma_tmux_single_quoted_body(v: Seq<char>)
    ensures
        crate::shell::read_single_quoted(escape_char(v, '\'', quote_escape()) + seq!['\''])
            == Some(v),
    decreases v.len(),
{
    let q = quote_escape();
    if v.len() == 0 {
        let s = escape_char(v, '\'', q) + seq!['\''];
        assert(escape_char(v, '\'', q) =~= seq![]);
        assert(s =~= seq!['\'']);
        assert(s[0] == '\'');
        assert(s.drop_first() =~= seq![]);
        assert(read_word(s.drop_first()) == Some(Seq::<char>::empty()));
        assert(v =~= seq![]);
    } else {
        let rest = v.drop_first();
        let t = escape_char(rest, '\'', q) + seq!['\''];
        lemma_tmux_single_quoted_body(rest);
        lemma_escape_char_front(v, '\'', q);
        if v[0] == '\'' {
            let s = q + t;
            assert(escape_char(v, '\'', q) + seq!['\''] =~= s);
            assert(s[0] == '\'');
            let s1 = s.drop_first();
            assert(s1 =~= seq!['\\', '\'', '\''] + t);
            assert(s1[0] == '\\' && s1[1] == '\'');
            let s2 = s1.skip(2);
            assert(s2 =~= seq!['\''] + t);
            assert(s2[0] == '\'');
            assert(s2.drop_first() =~= t);
            assert(read_word(s2) == crate::shell::read_single_quoted(t));
            assert(read_word(s1) == prepend('\'', read_word(s2)));
            assert(seq!['\''] + rest =~= v);
        } else {
            let s = seq![v[0]] + t;
            assert(escape_char(v, '\'', q) + seq!['\''] =~= s);
            assert(s.drop_first() =~= t);
            assert(s[0] == v[0]);
            assert(seq![v[0]] + rest =~= v);
        }
    }
}

/// Whatever `value` holds, the shell reads `tmux_single_quote(value)` back
/// as exactly `value`.
pub proof fn tmux_single_quote_reads_back(value: Seq<char>)
    ensures
        read_word(tmux_quoted(value)) == Some(value),
{
    let s = tmux_quoted(value);
    lemma_tmux_single_quoted_body(value);
    assert(s[0] == '\'');
    assert(s.drop_first() =~= escape_char(value, '\'', quote_escape()) + seq!['\'']);
}

/// The action a menu row runs: tmux reads it as `run-shell -b -- ` and one
/// shell word, and the shell reads that word as exactly `command`.
pub proof fn run_shell_action_runs_command(command: Seq<char>)
    ensures
        format_literal(format_escaped("run-shell -b -- "@ + tmux_quoted(command))) == Some(
            "run-shell -b -- "@ + tmux_quoted(command),
        ),
        read_word(tmux_quoted(command)) == Some(command),
{
    format_escape_reads_back("run-shell -b -- "@ + tmux_quoted(command));
    tmux_single_quote_reads_back(command);
}

// ------------------------------------------------------------------------
// pane geometry
// ------------------------------------------------------------------------

/// Whether `s` is the single character `c`.
fn is_single(s: &str, c: char) -> (r: bool)
    ensures
        r == (s@ == seq![c]),
{
    let cs = crate::text::chars_of(s);
    let r = cs.len() == 1 && cs[0] == c;
    if cs.len() == 1 {
        assert(cs@ =~= seq![cs@[0]] );
    }
    r
}

/// The size without its trailing `%`, when it has one.
pub open spec fn percent_of(size: Seq<char>) -> Option<Seq<char>> {
    if size.len() > 0 && size.last() == '%' {
        Some(size.drop_last())
    } else {
        None
    }
}

/// Where a pane of `size` starts so that it is centred along `dimension`.
pub open spec fn centered(size: Seq<char>, dimension: Seq<char>) -> Result<Seq<char>, MenuErrorView> {
    match percent_of(size) {
        Some(p) => match parsed_u16(p) {
            None => Err(MenuErrorView::InvalidPaneSize(size)),
            Some(v) => if 1 <= v <= 100 {
                Ok(decimal(((100 - v) / 2) as nat).push('%'))
            } else {
                Err(MenuErrorView::PanePercentOutOfRange(size))
            },
        },
        None => match parsed_u16(size) {
            None => Err(MenuErrorView::InvalidPaneSize(size)),
            Some(v) => if v == 0 {
                Err(MenuErrorView::PaneSizeZero(size))
            } else {
                Ok("#{e|/:#{e|-:#{"@ + dimension + "},"@ + size + "},2}"@)
            },
        },
    }
}

/// Where a pane of `size` starts so that it ends at the far edge of `dimension`.
pub open spec fn edge(size: Seq<char>, dimension: Seq<char>) -> Result<Seq<char>, MenuErrorView> {
    match percent_of(size) {
        Some(p) => match parsed_u16(p) {
            None => Err(MenuErrorView::InvalidPaneSize(size)),
            Some(v) => if 1 <= v <= 100 {
                Ok(decimal((100 - v) as nat).push('%'))
            } else {
                Err(MenuErrorView::PanePercentOutOfRange(size))
            },
        },
        None => match parsed_u16(size) {
            None => Err(MenuErrorView::InvalidPaneSize(size)),
            Some(v) => Ok("#{e|-:#{"@ + dimension + "},"@ + size + "}"@),
        },
    }
}

/// The pane's arguments: its size, and its place, where `C` centres it and
/// `R` (across) or `P` (down) puts it against the far edge.
pub open spec fn pane_arguments(p: Position) -> Result<Seq<Seq<char>>, MenuErrorView> {
    if p.w is None {
        Err(MenuErrorView::PaneWidthRequired)
    } else if p.h is None {
        Err(MenuErrorView::PaneHeightRequired)
    } else {
        let w = p.w->0@;
        let h = p.h->0@;
        let x = if p.x@ == seq!['C'] {
            centered(w, "window_width"@)
        } else if p.x@ == seq!['R'] {
            edge(w, "window_width"@)
        } else {
            Ok(p.x@)
        };
        let y = if p.y@ == seq!['C'] {
            centered(h, "window_height"@)
        } else if p.y@ == seq!['P'] {
            edge(h, "window_height"@)
        } else {
            Ok(p.y@)
        };
        match x {
            Err(e) => Err(e),
            Ok(xv) => match y {
                Err(e) => Err(e),
                Ok(yv) => Ok(seq!["-x"@, w, "-y"@, h, "-X"@, xv, "-Y"@, yv]),
            },
        }
    }
}

/// Reads a percentage (`size` ends in `%`), in `1..=100`.
fn read_percent(size: &str) -> (r: Result<u16, MenuError>)
    requires
        percent_of(size@) is Some,
    ensures
        match parsed_u16(percent_of(size@)->0) {
            None => r matches Err(e) && e@ == MenuErrorView::InvalidPaneSize(size@),
            Some(v) => if 1 <= v <= 100 {
                r == Ok::<u16, MenuError>(v)
            } else {
                r matches Err(e) && e@ == MenuErrorView::PanePercentOutOfRange(size@)
            },
        },
{
    let cs = crate::text::chars_of(size);
    let mut digits = String::new();
    let mut i: usize = 0;
    while i + 1 < cs.len()
        invariant
            cs@ == size@,
            cs@.len() > 0,
            0 <= i < cs@.len(),
            digits@ == size@.take(i as int),
        decreases cs.len() - i,
    {
        push_char(&mut digits, cs[i]);
        assert(digits@ =~= size@.take(i + 1));
        i = i + 1;
    }
    assert(digits@ =~= size@.drop_last());
    match parse_u16(digits.as_str()) {
        None => Err(MenuError::InvalidPaneSize(owned(size))),
        Some(v) => if 1 <= v && v <= 100 {
            Ok(v)
        } else {
            Err(MenuError::PanePercentOutOfRange(owned(size)))
        },
    }
}

/// Whether `size` ends in `%`.
fn ends_with_percent(size: &str) -> (r: bool)
    ensures
        r == (percent_of(size@) is Some),
{
    let cs = crate::text::chars_of(size);
    cs.len() > 0 && cs[cs.len() - 1] == '%'
}

/// `#{e|...}` around a dimension and a size, as tmux formats compute.
fn dimension_format(head: &str, dimension: &str, size: &str, tail: &str) -> (r: String)
    ensures
        r@ == head@ + dimension@ + "},"@ + size@ + tail@,
{
    let mut r = owned(head);
    r.append(dimension);
    r.append("},");
    r.append(size);
    r.append(tail);
    r
}

/// Where a pane of `size` starts so that it is centred along `dimension`:
/// half the free percentage, or a tmux format that halves the free cells.
pub fn centered_position(size: &str, dimension: &str) -> (r: Result<String, MenuError>)
    ensures
        text_result(r) == centered(size@, dimension@),
{
    if ends_with_percent(size) {
        let percent = match read_percent(size) {
            Ok(p) => p,
            Err(e) => {
                return Err(e);
            },
        };
        let mut r = String::new();
        push_decimal(&mut r, ((100 - percent) / 2) as u64);
        push_char(&mut r, '%');
        assert(r@ =~= decimal(((100 - percent) / 2) as nat).push('%'));
        return Ok(r);
    }
    match parse_u16(size) {
        None => Err(MenuError::InvalidPaneSize(owned(size))),
        Some(cells) => if cells == 0 {
            Err(MenuError::PaneSizeZero(owned(size)))
        } else {
            Ok(dimension_format("#{e|/:#{e|-:#{", dimension, size, "},2}"))
        },
    }
}

/// Where a pane of `size` starts so that it ends at the far edge of
/// `dimension`: the free percentage, or a tmux format for the free cells.
pub fn edge_position(size: &str, dimension: &str) -> (r: Result<String, MenuError>)
    ensures
        text_result(r) == edge(size@, dimension@),
{
    if ends_with_percent(size) {
        let percent = match read_percent(size) {
            Ok(p) => p,
            Err(e) => {
                return Err(e);
            },
        };
        let mut r = String::new();
        push_decimal(&mut r, (100 - percent) as u64);
        push_char(&mut r, '%');
        assert(r@ =~= decimal((100 - percent) as nat).push('%'));
        return Ok(r);
    }
    match parse_u16(size) {
        None => Err(MenuError::InvalidPaneSize(owned(size))),
        Some(_) => Ok(dimension_format("#{e|-:#{", dimension, size, "}")),
    }
}

// ------------------------------------------------------------------------
// menus
// ------------------------------------------------------------------------

/// The arguments with which this program runs row `index` of the menu file
/// `prev_path`.
pub open spec fn select_arguments(
    prev_path: Seq<char>,
    index: nat,
    cwd: Seq<char>,
    cli_x: Option<Seq<char>>,
    cli_y: Option<Seq<char>>,
) -> Seq<Seq<char>> {
    seq!["select"@, "--menu"@, prev_path, "--index"@, decimal(index), "--working_dir"@, cwd] + (
    match cli_x {
        Some(x) => seq!["--x"@, x],
        None => seq![],
    }) + (match cli_y {
        Some(y) => seq!["--y"@, y],
        None => seq![],
    })
}

/// The `display-menu` arguments of one row: name, shortcut and the action
/// that runs it through this program; a greyed name for a row that cannot
/// be selected; an empty argument for a separator.
pub open spec fn item_arguments(
    item: MenuType,
    index: nat,
    prev_path: Seq<char>,
    cwd: Seq<char>,
    cli_x: Option<Seq<char>>,
    cli_y: Option<Seq<char>>,
    this_binary: Seq<char>,
) -> Result<Seq<Seq<char>>, MenuErrorView> {
    match item {
        MenuType::Menu { name, shortcut, .. } => match this_invocation(
            cwd,
            this_binary,
            select_arguments(prev_path, index, cwd, cli_x, cli_y),
        ) {
            Ok(c) => Ok(seq![name@, shortcut@, format_escaped("run-shell -b -- "@ + tmux_quoted(c))]),
            Err(e) => Err(e),
        },
        MenuType::NoDim { name } => Ok(seq!["-#[nodim]"@ + name@, seq![], seq![]]),
        MenuType::Seperate {  } => Ok(seq![seq![]]),
    }
}

/// The `display-menu` arguments of the rows, in order; the first refusal
/// if a row's action cannot be written.
pub open spec fn menu_arguments(
    items: Seq<MenuType>,
    prev_path: Seq<char>,
    cwd: Seq<char>,
    cli_x: Option<Seq<char>>,
    cli_y: Option<Seq<char>>,
    this_binary: Seq<char>,
) -> Result<Seq<Seq<char>>, MenuErrorView>
    decreases items.len(),
{
    if items.len() == 0 {
        Ok(seq![])
    } else {
        match menu_arguments(items.drop_last(), prev_path, cwd, cli_x, cli_y, this_binary) {
            Err(e) => Err(e),
            Ok(a) => match item_arguments(
                items.last(),
                (items.len() - 1) as nat,
                prev_path,
                cwd,
                cli_x,
                cli_y,
                this_binary,
            ) {
                Err(e) => Err(e),
                Ok(b) => Ok(a + b),
            },
        }
    }
}

/// The arguments of `tmux display-menu` for a loaded menu.
pub open spec fn display_menu_spec(menu: Menus, this_binary: Seq<char>) -> Result<Seq<Seq<char>>, MenuErrorView> {
    match menu_arguments(
        menu.items@,
        menu.conf_path@,
        menu.cwd@,
        opt_view(menu.cli_x),
        opt_view(menu.cli_y),
        this_binary,
    ) {
        Err(e) => Err(e),
        Ok(rows) => Ok(seq!["display-menu"@] + position_arguments(menu.position) + seq![
            "-T"@,
            "#[align=centre fg=yellow]"@ + menu.title@,
        ] + seq!["-b"@, menu.border@] + seq![seq![]] + rows),
    }
}

/// Once a row is refused, the rows after it change nothing.
proof fn lemma_menu_arguments_refusal_stays(
    items: Seq<MenuType>,
    k: nat,
    j: nat,
    prev_path: Seq<char>,
    cwd: Seq<char>,
    cli_x: Option<Seq<char>>,
    cli_y: Option<Seq<char>>,
    this_binary: Seq<char>,
)
    requires
        k <= j <= items.len(),
        menu_arguments(items.take(k as int), prev_path, cwd, cli_x, cli_y, this_binary) is Err,
    ensures
        menu_arguments(items.take(j as int), prev_path, cwd, cli_x, cli_y, this_binary)
            == menu_arguments(items.take(k as int), prev_path, cwd, cli_x, cli_y, this_binary),
    decreases j - k,
{
    if j > k {
        lemma_menu_arguments_refusal_stays(
            items,
            k,
            (j - 1) as nat,
            prev_path,
            cwd,
            cli_x,
            cli_y,
            this_binary,
        );
        assert(items.take(j as int).drop_last() =~= items.take(j - 1));
    }
}

fn optional_pair(flag: &str, value: &Option<String>) -> (r: Vec<String>)
    ensures
        views(r@) == match opt_view(*value) {
            Some(v) => seq![flag@, v],
            None => seq![],
        },
{
    let mut r: Vec<String> = Vec::new();
    if let Some(v) = value {
        r.push(owned(flag));
        r.push(v.clone());
    }
    assert(views(r@) =~= match opt_view(*value) {
        Some(v) => seq![flag@, v],
        None => seq![],
    });
    r
}

impl Tmux {
    fn item_args(
        item: &MenuType,
        index: usize,
        prev_path: &str,
        cwd: &str,
        cli_x: &Option<String>,
        cli_y: &Option<String>,
        this_binary: &str,
    ) -> (r: Result<Vec<String>, MenuError>)
        ensures
            list_result(r) == item_arguments(
                *item,
                index as nat,
                prev_path@,
                cwd@,
                opt_view(*cli_x),
                opt_view(*cli_y),
                this_binary@,
            ),
    {
        let mut r: Vec<String> = Vec::new();
        match item {
            MenuType::Menu { name, shortcut, .. } => {
                let mut command: Vec<String> = Vec::new();
                command.push(owned("select"));
                command.push(owned("--menu"));
                command.push(owned(prev_path));
                command.push(owned("--index"));
                command.push(crate::number::decimal_string(index as u64));
                command.push(owned("--working_dir"));
                command.push(owned(cwd));
                append_all(&mut command, optional_pair("--x", cli_x));
                append_all(&mut command, optional_pair("--y", cli_y));
                assert(views(command@) =~= select_arguments(
                    prev_path@,
                    index as nat,
                    cwd@,
                    opt_view(*cli_x),
                    opt_view(*cli_y),
                ));
                let action = match run_this_binary_with(cwd, this_binary, command) {
                    Ok(c) => c,
                    Err(e) => {
                        return Err(e);
                    },
                };
                r.push(name.clone());
                r.push(shortcut.clone());
                r.push(Self::run_shell_action(action.as_str()));
            },
            MenuType::NoDim { name } => {
                let mut n = owned("-#[nodim]");
                n.append(name.as_str());
                r.push(n);
                r.push(String::new());
                r.push(String::new());
            },
            MenuType::Seperate {  } => {
                r.push(String::new());
            },
        }
        assert(list_result(Ok::<Vec<String>, MenuError>(r)) == Ok::<
            Seq<Seq<char>>,
            MenuErrorView,
        >(views(r@)));
        assert(views(r@) =~= item_arguments(
            *item,
            index as nat,
            prev_path@,
            cwd@,
            opt_view(*cli_x),
            opt_view(*cli_y),
            this_binary@,
        )->Ok_0);
        Ok(r)
    }

    /// The `display-menu` arguments of the rows of the menu file
    /// `prev_path`, each selectable row running this program
    /// (`this_binary`) in `cwd` to run it.
    pub fn construct_menu_arguments(
        menu_items: &Vec<MenuType>,
        prev_path: &str,
        cwd: &str,
        cli_x: &Option<String>,
        cli_y: &Option<String>,
        this_binary: &str,
    ) -> (r: Result<Vec<String>, MenuError>)
        ensures
            list_result(r) == menu_arguments(
                menu_items@,
                prev_path@,
                cwd@,
                opt_view(*cli_x),
                opt_view(*cli_y),
                this_binary@,
            ),
    {
        let mut arguments: Vec<String> = Vec::new();
        let n = menu_items.len();
        let mut i: usize = 0;
        assert(menu_items@.take(0) =~= Seq::<MenuType>::empty());
        assert(views(arguments@) =~= Seq::<Seq<char>>::empty());
        while i < n
            invariant
                n == menu_items@.len(),
                0 <= i <= n,
                menu_arguments(
                    menu_items@.take(i as int),
                    prev_path@,
                    cwd@,
                    opt_view(*cli_x),
                    opt_view(*cli_y),
                    this_binary@,
                ) == Ok::<Seq<Seq<char>>, MenuErrorView>(views(arguments@)),
            decreases n - i,
        {
            let ghost items = menu_items@.take(i + 1);
            assert(items.drop_last() =~= menu_items@.take(i as int));
            assert(items.last() == menu_items@[i as int]);
            let row = match Self::item_args(&menu_items[i], i, prev_path, cwd, cli_x, cli_y, this_binary) {
                Ok(row) => row,
                Err(e) => {
                    proof {
                        lemma_menu_arguments_refusal_stays(
                            menu_items@,
                            (i + 1) as nat,
                            n as nat,
                            prev_path@,
                            cwd@,
                            opt_view(*cli_x),
                            opt_view(*cli_y),
                            this_binary@,
                        );
                        assert(menu_items@.take(n as int) =~= menu_items@);
                    }
                    return Err(e);
                },
            };
            append_all(&mut arguments, row);
            i = i + 1;
        }
        assert(menu_items@.take(n as int) =~= menu_items@);
        Ok(arguments)
    }

    /// The arguments of `tmux display-menu` for a loaded menu: its position,
    /// title, border, and its rows, each selectable one running this program
    /// (`this_binary`).
    pub fn display_menu_arguments(menu: &Menus, this_binary: &str) -> (r: Result<Vec<String>, MenuError>)
        ensures
            list_result(r) == display_menu_spec(*menu, this_binary@),
    {
        let mut arguments: Vec<String> = Vec::new();
        arguments.push(owned("display-menu"));
        assert(views(arguments@) =~= seq!["display-menu"@]);
        append_all(&mut arguments, Self::construct_position_arguments(&menu.position));
        append_all(&mut arguments, Self::construct_title_arguments(menu.title.as_str()));
        append_all(&mut arguments, Self::construct_border_arguments(menu.border.as_str()));
        let ghost before = views(arguments@);
        let empty = String::new();
        assert(empty@ =~= Seq::<char>::empty());
        arguments.push(empty);
        assert(views(arguments@) =~= before.push(Seq::<char>::empty()));
        let rows = match Self::construct_menu_arguments(
            &menu.items,
            menu.conf_path.as_str(),
            menu.cwd.as_str(),
            &menu.cli_x,
            &menu.cli_y,
            this_binary,
        ) {
            Ok(rows) => rows,
            Err(e) => {
                return Err(e);
            },
        };
        let ghost head = views(arguments@);
        append_all(&mut arguments, rows);
        assert(head =~= seq!["display-menu"@] + position_arguments(menu.position) + seq![
            "-T"@,
            "#[align=centre fg=yellow]"@ + menu.title@,
        ] + seq!["-b"@, menu.border@] + seq![seq![]]);
        Ok(arguments)
    }
}

/// A pane sized by a percentage and put against the far edge starts at the
/// rest of the percentage, so that it ends at the edge; centred, it starts
/// at half of the rest.
pub proof fn percent_pane_positions(p: nat, dimension: Seq<char>)
    requires
        1 <= p <= 100,
    ensures
        edge(decimal(p).push('%'), dimension) == Ok::<Seq<char>, MenuErrorView>(
            decimal((100 - p) as nat).push('%'),
        ),
        centered(decimal(p).push('%'), dimension) == Ok::<Seq<char>, MenuErrorView>(
            decimal(((100 - p) / 2) as nat).push('%'),
        ),
{
    let size = decimal(p).push('%');
    assert(size.drop_last() =~= decimal(p));
    decimal_reads_back(p, 65535);
}

/// The row that a menu action selects is the row it was made for: the
/// index it writes reads back as that index.
pub proof fn select_index_reads_back(
    prev_path: Seq<char>,
    index: usize,
    cwd: Seq<char>,
    cli_x: Option<Seq<char>>,
    cli_y: Option<Seq<char>>,
)
    ensures
        parsed_usize(select_arguments(prev_path, index as nat, cwd, cli_x, cli_y)[4]) == Some(index),
{
    decimal_reads_back(index as nat, usize::MAX as nat);
}

/// A row's action hands this program its menu, index and directory, then
/// the position given on the command line: it ends with `--x x` where a
/// horizontal position was given, then with `--y y` where a vertical one was.
pub proof fn select_keeps_command_line_position(
    prev_path: Seq<char>,
    index: nat,
    cwd: Seq<char>,
    cli_x: Option<Seq<char>>,
    cli_y: Option<Seq<char>>,
)
    ensures
        ({
            let a = select_arguments(prev_path, index, cwd, cli_x, cli_y);
            let ny: int = if cli_y is Some {
                2
            } else {
                0
            };
            let nx: int = if cli_x is Some {
                2
            } else {
                0
            };
            &&& a.len() == 7 + nx + ny
            &&& a[2] == prev_path && a[4] == decimal(index) && a[6] == cwd
            &&& (cli_y matches Some(y) ==> a[a.len() - 2] == "--y"@ && a[a.len() - 1] == y)
            &&& (cli_x matches Some(x) ==> a[a.len() - ny - 2] == "--x"@ && a[a.len() - ny - 1]
                == x)
        }),
{
}

/// A pane centred both ways, with its size in cells, is placed across by
/// the window's width and down by the window's height.
pub proof fn centred_pane_places(p: Position)
    requires
        p.x@ == seq!['C'],
        p.y@ == seq!['C'],
        p.w is Some,
        percent_of(p.w->0@) is None,
        parsed_u16(p.w->0@) is Some,
        parsed_u16(p.w->0@)->0 > 0,
        p.h is Some,
        percent_of(p.h->0@) is None,
        parsed_u16(p.h->0@) is Some,
        parsed_u16(p.h->0@)->0 > 0,
    ensures
        pane_arguments(p) == Ok::<Seq<Seq<char>>, MenuErrorView>(
            seq![
                "-x"@,
                p.w->0@,
                "-y"@,
                p.h->0@,
                "-X"@,
                "#{e|/:#{e|-:#{window_width},"@ + p.w->0@ + "},2}"@,
                "-Y"@,
                "#{e|/:#{e|-:#{window_height},"@ + p.h->0@ + "},2}"@,
            ],
        ),
{
    reveal_strlit("#{e|/:#{e|-:#{");
    reveal_strlit("window_width");
    reveal_strlit("window_height");
    reveal_strlit("},");
    reveal_strlit("},2}");
    reveal_strlit("#{e|/:#{e|-:#{window_width},");
    reveal_strlit("#{e|/:#{e|-:#{window_height},");
    let w = p.w->0@;
    let h = p.h->0@;
    assert(centered(w, "window_width"@) == Ok::<Seq<char>, MenuErrorView>(
        "#{e|/:#{e|-:#{"@ + "window_width"@ + "},"@ + w + "},2}"@,
    ));
    assert("#{e|/:#{e|-:#{"@ + "window_width"@ + "},"@ + w + "},2}"@
        =~= "#{e|/:#{e|-:#{window_width},"@ + w + "},2}"@);
    assert(centered(h, "window_height"@) == Ok::<Seq<char>, MenuErrorView>(
        "#{e|/:#{e|-:#{"@ + "window_height"@ + "},"@ + h + "},2}"@,
    ));
    assert("#{e|/:#{e|-:#{"@ + "window_height"@ + "},"@ + h + "},2}"@
        =~= "#{e|/:#{e|-:#{window_height},"@ + h + "},2}"@);
}

/// A pane put against the far edges, with its size in cells, ends at the
/// window's right edge across and at its bottom edge down.
pub proof fn edge_pane_places(p: Position)
    requires
        p.x@ == seq!['R'],
        p.y@ == seq!['P'],
        p.w is Some,
        percent_of(p.w->0@) is None,
        parsed_u16(p.w->0@) is Some,
        p.h is Some,
        percent_of(p.h->0@) is None,
        parsed_u16(p.h->0@) is Some,
    ensures
        pane_arguments(p) == Ok::<Seq<Seq<char>>, MenuErrorView>(
            seq![
                "-x"@,
                p.w->0@,
                "-y"@,
                p.h->0@,
                "-X"@,
                "#{e|-:#{window_width},"@ + p.w->0@ + "}"@,
                "-Y"@,
                "#{e|-:#{window_height},"@ + p.h->0@ + "}"@,
            ],
        ),
{
    reveal_strlit("#{e|-:#{");
    reveal_strlit("window_width");
    reveal_strlit("window_height");
    reveal_strlit("},");
    reveal_strlit("}");
    reveal_strlit("#{e|-:#{window_width},");
    reveal_strlit("#{e|-:#{window_height},");
    let w = p.w->0@;
    let h = p.h->0@;
    assert(p.x@ != seq!['C']) by {
        assert(p.x@[0] != seq!['C'][0]);
    }
    assert(p.y@ != seq!['C']) by {
        assert(p.y@[0] != seq!['C'][0]);
    }
    assert("#{e|-:#{"@ + "window_width"@ + "},"@ + w + "}"@ =~= "#{e|-:#{window_width},"@ + w
        + "}"@);
    assert("#{e|-:#{"@ + "window_height"@ + "},"@ + h + "}"@ =~= "#{e|-:#{window_height},"@ + h
        + "}"@);
}

} // verus!

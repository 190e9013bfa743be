//! The shell command that a selected menu row runs.

use crate::error::{text_result, MenuError, MenuErrorView};
use crate::menu::MenuType;
use crate::number::{hexadecimal, push_hexadecimal};
use crate::position::this_arguments_of;
use crate::shell::{shell_quote, shell_quoted, split_words};
use crate::text::{
    append_all, chars_of, join, joined, opt_str, opt_view, owned, push_char, replace_all, replaced,
    views,
};
use crate::this::{invocation_words, run_this_binary_with, this_invocation};
use vstd::prelude::*;

verus! {

// ------------------------------------------------------------------------
// environment variables
// ------------------------------------------------------------------------

/// Name and value pairs, by views.
pub open spec fn env_view(e: Seq<(String, String)>) -> Seq<(Seq<char>, Seq<char>)> {
    e.map_values(|kv: (String, String)| (kv.0@, kv.1@))
}

/// Sets one variable in tmux's environment and exports it.
pub open spec fn export_step(kv: (Seq<char>, Seq<char>)) -> Seq<char> {
    "tmux set-environment "@ + kv.0 + " "@ + shell_quoted(kv.1) + " && export "@ + kv.0 + "="@
        + shell_quoted(kv.1)
}

/// Sets and exports every variable, in order.
pub open spec fn env_exports(env: Seq<(Seq<char>, Seq<char>)>) -> Seq<char> {
    joined(env.map_values(|kv: (Seq<char>, Seq<char>)| export_step(kv)), " && "@)
}

/// The `-e` option of `tmux new-session` for one variable.
pub open spec fn env_flag(kv: (Seq<char>, Seq<char>)) -> Seq<char> {
    "-e "@ + kv.0 + "="@ + shell_quoted(kv.1)
}

/// The `-e` options for every variable, each followed by a space.
pub open spec fn env_flags(env: Seq<(Seq<char>, Seq<char>)>) -> Seq<char> {
    if env.len() == 0 {
        seq![]
    } else {
        joined(env.map_values(|kv: (Seq<char>, Seq<char>)| env_flag(kv)), " "@) + " "@
    }
}

/// Runs `command` in the (quoted) directory, after exporting the variables.
pub open spec fn in_dir(quoted_dir: Seq<char>, command: Seq<char>, env: Seq<(Seq<char>, Seq<char>)>) -> Seq<char> {
    if env.len() == 0 {
        "cd "@ + quoted_dir + " && "@ + command
    } else {
        env_exports(env) + " && cd "@ + quoted_dir + " && "@ + command
    }
}

fn export_step_text(k: &str, v: &str) -> (r: String)
    ensures
        r@ == export_step((k@, v@)),
{
    let quoted = shell_quote(v);
    let mut part = owned("tmux set-environment ");
    part.append(k);
    part.append(" ");
    part.append(quoted.as_str());
    part.append(" && export ");
    part.append(k);
    part.append("=");
    part.append(quoted.as_str());
    part
}

fn env_flag_text(k: &str, v: &str) -> (r: String)
    ensures
        r@ == env_flag((k@, v@)),
{
    let mut part = owned("-e ");
    part.append(k);
    part.append("=");
    part.append(shell_quote(v).as_str());
    part
}

/// The text of each variable: its `-e` option (`flags`) or its export.
pub open spec fn env_piece(kv: (Seq<char>, Seq<char>), flags: bool) -> Seq<char> {
    if flags {
        env_flag(kv)
    } else {
        export_step(kv)
    }
}

fn env_parts(env: &Vec<(String, String)>, flags: bool) -> (r: Vec<String>)
    ensures
        views(r@) == env_view(env@).map_values(|kv: (Seq<char>, Seq<char>)| env_piece(kv, flags)),
{
    let mut parts: Vec<String> = Vec::new();
    let n = env.len();
    let mut i: usize = 0;
    while i < n
        invariant
            n == env@.len(),
            0 <= i <= n,
            views(parts@) == env_view(env@).take(i as int).map_values(
                |kv: (Seq<char>, Seq<char>)| env_piece(kv, flags),
            ),
        decreases n - i,
    {
        let k = env[i].0.as_str();
        let v = env[i].1.as_str();
        let part = if flags {
            env_flag_text(k, v)
        } else {
            export_step_text(k, v)
        };
        assert(env_view(env@)[i as int] == (k@, v@));
        assert(part@ == env_piece(env_view(env@)[i as int], flags));
        let ghost before = views(parts@);
        parts.push(part);
        assert(views(parts@) =~= before.push(part@));
        assert(env_view(env@).take(i + 1) =~= env_view(env@).take(i as int).push(
            env_view(env@)[i as int],
        ));
        assert(views(parts@) =~= env_view(env@).take(i + 1).map_values(
            |kv: (Seq<char>, Seq<char>)| env_piece(kv, flags),
        ));
        i = i + 1;
    }
    assert(env_view(env@).take(n as int) =~= env_view(env@));
    parts
}

/// Runs `command` in the (quoted) directory, after exporting the variables.
pub fn in_dir_command(quoted_dir: &str, command: &str, environment: &Vec<(String, String)>) -> (r: String)
    ensures
        r@ == in_dir(quoted_dir@, command@, env_view(environment@)),
{
    let mut out = String::new();
    if environment.len() == 0 {
        out.append("cd ");
    } else {
        let parts = env_parts(environment, false);
        out.append(join(&parts, " && ").as_str());
        out.append(" && cd ");
    }
    out.append(quoted_dir);
    out.append(" && ");
    out.append(command);
    proof {
        reveal_strlit("cd ");
        reveal_strlit(" && cd ");
        reveal_strlit(" && ");
        if environment@.len() != 0 {
            assert(env_view(environment@).map_values(
                |kv: (Seq<char>, Seq<char>)| env_piece(kv, false),
            ) =~= env_view(environment@).map_values(
                |kv: (Seq<char>, Seq<char>)| export_step(kv),
            ));
        }
        assert(out@ =~= in_dir(quoted_dir@, command@, env_view(environment@)));
    }
    out
}

/// The `-e` options for every variable, each followed by a space.
fn env_flags_text(environment: &Vec<(String, String)>) -> (r: String)
    ensures
        r@ == env_flags(env_view(environment@)),
{
    if environment.len() == 0 {
        return String::new();
    }
    let parts = env_parts(environment, true);
    let mut out = join(&parts, " ");
    out.append(" ");
    proof {
        assert(env_view(environment@).map_values(
            |kv: (Seq<char>, Seq<char>)| env_piece(kv, true),
        ) =~= env_view(environment@).map_values(|kv: (Seq<char>, Seq<char>)| env_flag(kv)));
    }
    out
}

// ------------------------------------------------------------------------
// popup sessions
// ------------------------------------------------------------------------

/// `c`, made an underscore where it is a space or (with `all_separators`)
/// one of `/`, `.`, `:`.
pub open spec fn underscore_char(c: char, all_separators: bool) -> char {
    if c == ' ' || (all_separators && (c == '/' || c == '.' || c == ':')) {
        '_'
    } else {
        c
    }
}

/// `s` with its spaces made underscores.
pub open spec fn underscored(s: Seq<char>) -> Seq<char> {
    s.map_values(|c: char| underscore_char(c, false))
}

/// A path made into a name: `/`, space, `.` and `:` become underscores.
pub open spec fn path_label(s: Seq<char>) -> Seq<char> {
    s.map_values(|c: char| underscore_char(c, true))
}

/// The session a row's popup runs in: its own `session_name`, or one made
/// of its command; with the directory when `session_on_dir`; marked when
/// the command runs at the git root.
pub open spec fn session_label(
    session_name: Option<Seq<char>>,
    command: Seq<char>,
    session_on_dir: bool,
    run_on_git_root: bool,
    working_dir: Seq<char>,
    on_dir: Seq<char>,
) -> Seq<char> {
    let part = match session_name {
        Some(n) => n,
        None => "session_"@ + underscored(command),
    };
    let base = if session_on_dir {
        part + "_"@ + path_label(
            if run_on_git_root {
                working_dir
            } else {
                on_dir
            },
        )
    } else {
        part
    };
    if run_on_git_root {
        "git_root_"@ + base
    } else {
        base
    }
}

/// What std's `DefaultHasher` (built by `new`, the same in every run of
/// one build) makes of a string.
pub uninterp spec fn default_hash(s: Seq<char>) -> u64;

/// `BuildHasher::hash_one` with `BuildHasherDefault<DefaultHasher>`, which
/// hashes `s` as a fresh `DefaultHasher::new()` would. Claimed: the result is
/// `default_hash(s)`, a function of `s` alone; its value is left unsaid.
#[verifier::external_body]
fn hash_of(s: &str) -> (h: u64)
    ensures
        h == default_hash(s@),
{
    std::hash::BuildHasher::hash_one(
        &std::hash::BuildHasherDefault::<std::collections::hash_map::DefaultHasher>::default(),
        s,
    )
}

/// The tmux session name of a popup: `_popup_`, a short hash of the label
/// in hexadecimal, `_`, the label.
pub open spec fn popup_session(label: Seq<char>) -> Seq<char> {
    "_popup_"@ + hexadecimal((default_hash(label) % 0xFFFF) as nat) + "_"@ + label
}

/// The tmux session name of a popup for `label`.
pub fn popup_session_name(label: &str) -> (r: String)
    ensures
        r@ == popup_session(label@),
{
    let mut out = owned("_popup_");
    push_hexadecimal(&mut out, hash_of(label) % 0xFFFF);
    out.append("_");
    out.append(label);
    out
}

fn map_underscore(s: &str, all_separators: bool) -> (r: String)
    ensures
        r@ == s@.map_values(|c: char| underscore_char(c, all_separators)),
{
    let cs = chars_of(s);
    let mut out = String::new();
    let mut i: usize = 0;
    while i < cs.len()
        invariant
            cs@ == s@,
            0 <= i <= cs@.len(),
            out@ == s@.take(i as int).map_values(|c: char| underscore_char(c, all_separators)),
        decreases cs.len() - i,
    {
        let c = cs[i];
        let d = if c == ' ' || (all_separators && (c == '/' || c == '.' || c == ':')) {
            '_'
        } else {
            c
        };
        push_char(&mut out, d);
        assert(out@ =~= s@.take(i + 1).map_values(|c: char| underscore_char(c, all_separators)));
        i = i + 1;
    }
    assert(s@.take(cs@.len() as int) =~= s@);
    out
}

/// The session a row's popup runs in (see [`session_label`]).
pub fn session_label_text(
    session_name: &Option<String>,
    command: &str,
    session_on_dir: bool,
    run_on_git_root: bool,
    working_dir: &str,
    on_dir: &str,
) -> (r: String)
    ensures
        r@ == session_label(
            opt_view(*session_name),
            command@,
            session_on_dir,
            run_on_git_root,
            working_dir@,
            on_dir@,
        ),
{
    let part = match session_name {
        Some(n) => n.clone(),
        None => {
            let mut p = owned("session_");
            p.append(map_underscore(command, false).as_str());
            p
        },
    };
    let base = if session_on_dir {
        let dir = if run_on_git_root {
            working_dir
        } else {
            on_dir
        };
        let mut b = part;
        b.append("_");
        b.append(map_underscore(dir, true).as_str());
        b
    } else {
        part
    };
    if run_on_git_root {
        let mut f = owned("git_root_");
        f.append(base.as_str());
        f
    } else {
        base
    }
}

/// How the popup attaches to its session: through the outer tmux server's
/// socket for a floating pane.
pub open spec fn attach_command(floating: bool) -> Seq<char> {
    if floating {
        "TMUX= tmux -S \"$(tmux display-message -p '#{socket_path}')\" attach"@
    } else {
        "tmux attach"@
    }
}

/// Switches the session to a key table first, when the row names one.
pub open spec fn key_table_setup(quoted_session: Seq<char>, key_table: Option<Seq<char>>) -> Seq<char> {
    match key_table {
        Some(k) => "tmux set-option -t "@ + quoted_session + " key-table "@ + shell_quoted(k)
            + " 2>/dev/null && "@,
        None => seq![],
    }
}

/// Attaches to the popup's session, or makes it (in the directory, with the
/// variables, running `command`, without a status line) and then attaches.
pub open spec fn session_command(
    quoted_session: Seq<char>,
    quoted_dir: Seq<char>,
    command: Seq<char>,
    key_table: Option<Seq<char>>,
    env: Seq<(Seq<char>, Seq<char>)>,
    floating: bool,
) -> Seq<char> {
    let set_key_table = key_table_setup(quoted_session, key_table);
    let attach = attach_command(floating);
    set_key_table + attach + " -t "@ + quoted_session + " 2>/dev/null || (cd "@ + quoted_dir
        + " && tmux new-session -d -s "@ + quoted_session + " "@ + env_flags(env) + shell_quoted(
        command,
    ) + " 2>/dev/null && tmux set-option -t "@ + quoted_session + " status off 2>/dev/null && "@
        + set_key_table + attach + " -t "@ + quoted_session + ")"@
}

/// The command that attaches to, or makes, the popup's session.
pub fn session_command_text(
    quoted_session: &str,
    quoted_dir: &str,
    command: &str,
    key_table: &Option<String>,
    environment: &Vec<(String, String)>,
    floating: bool,
) -> (r: String)
    ensures
        r@ == session_command(
            quoted_session@,
            quoted_dir@,
            command@,
            opt_view(*key_table),
            env_view(environment@),
            floating,
        ),
{
    let set_key_table = match key_table {
        Some(k) => {
            let mut s = owned("tmux set-option -t ");
            s.append(quoted_session);
            s.append(" key-table ");
            s.append(shell_quote(k.as_str()).as_str());
            s.append(" 2>/dev/null && ");
            s
        },
        None => String::new(),
    };
    let attach = if floating {
        owned("TMUX= tmux -S \"$(tmux display-message -p '#{socket_path}')\" attach")
    } else {
        owned("tmux attach")
    };
    let mut out = set_key_table.clone();
    out.append(attach.as_str());
    out.append(" -t ");
    out.append(quoted_session);
    out.append(" 2>/dev/null || (cd ");
    out.append(quoted_dir);
    out.append(" && tmux new-session -d -s ");
    out.append(quoted_session);
    out.append(" ");
    out.append(env_flags_text(environment).as_str());
    out.append(shell_quote(command).as_str());
    out.append(" 2>/dev/null && tmux set-option -t ");
    out.append(quoted_session);
    out.append(" status off 2>/dev/null && ");
    out.append(set_key_table.as_str());
    out.append(attach.as_str());
    out.append(" -t ");
    out.append(quoted_session);
    out.append(")");
    out
}

// ------------------------------------------------------------------------
// the command of a row
// ------------------------------------------------------------------------

/// The arguments that open the next menu with this program.
pub open spec fn next_menu_arguments(
    next_path: Seq<char>,
    on_dir: Seq<char>,
    cli_x: Option<Seq<char>>,
    cli_y: Option<Seq<char>>,
) -> Seq<Seq<char>> {
    seq!["show"@, "--menu"@, next_path, "--working_dir"@, on_dir] + (match cli_x {
        Some(x) => seq!["--x"@, x],
        None => seq![],
    }) + (match cli_y {
        Some(y) => seq!["--y"@, y],
        None => seq![],
    })
}

/// The directory a row's command runs in: the git root, when the row asks
/// for it and one was found, else `on_dir`.
pub open spec fn working_dir_of(run_on_git_root: bool, on_dir: Seq<char>, git_root: Option<Seq<char>>) -> Seq<char> {
    if run_on_git_root && git_root is Some {
        git_root->0
    } else {
        on_dir
    }
}

/// `value` or its default.
pub open spec fn or_default(value: Option<Seq<char>>, default: Seq<char>) -> Seq<char> {
    match value {
        Some(v) => v,
        None => default,
    }
}

/// The popup's own options: floating, its key table, its directory.
pub open spec fn popup_head(m: MenuType, working_dir: Seq<char>) -> Seq<Seq<char>> {
    match m {
        MenuType::Menu { key_table, as_floating_pane, .. } => seq!["popup"@] + (if as_floating_pane {
            seq!["--as_floating_pane"@]
        } else {
            seq![]
        }) + (match key_table {
            Some(k) => seq!["--key_table"@, k@],
            None => seq![],
        }) + seq!["--working_dir"@, working_dir, "--cmd"@],
        _ => seq![],
    }
}

/// The popup's command: in a session of its own (with the session's name)
/// when the row asks for one, else run in its directory.
pub open spec fn popup_command_args(m: MenuType, working_dir: Seq<char>, command: Seq<char>, on_dir: Seq<char>) -> Seq<Seq<char>> {
    match m {
        MenuType::Menu {
            session,
            session_name,
            key_table,
            session_on_dir,
            run_on_git_root,
            as_floating_pane,
            environment,
            ..
        } => {
            let env = env_view(environment@);
            let quoted_dir = shell_quoted(working_dir);
            let popup_name = popup_session(
                session_label(
                    opt_view(session_name),
                    command,
                    session_on_dir,
                    run_on_git_root,
                    working_dir,
                    on_dir,
                ),
            );
            if session {
                seq![
                    session_command(
                        shell_quoted(popup_name),
                        quoted_dir,
                        command,
                        opt_view(key_table),
                        env,
                        as_floating_pane,
                    ),
                    "--session_name"@,
                    popup_name,
                ]
            } else {
                seq![in_dir(quoted_dir, command, env)]
            }
        },
        _ => seq![],
    }
}

/// The popup's position (the command line's `x`, `y` first), border
/// (`simple` by default), `-E` to close after the command, and the inputs to
/// ask for.
pub open spec fn popup_tail(m: MenuType, cli_x: Option<Seq<char>>, cli_y: Option<Seq<char>>) -> Seq<Seq<char>> {
    match m {
        MenuType::Menu { close_after_command, inputs, position, border, .. } => this_arguments_of(
            or_default(cli_x, position.x@),
            or_default(cli_y, position.y@),
            opt_view(position.w),
            opt_view(position.h),
        ) + seq!["--border"@, or_default(opt_view(border), "simple"@)] + (if close_after_command {
            seq!["-E"@]
        } else {
            seq![]
        }) + (if inputs@.len() > 0 {
            seq!["--key"@] + views(inputs@)
        } else {
            seq![]
        }),
        _ => seq![],
    }
}

/// The arguments that show a row's command in a popup with this program.
pub open spec fn popup_invocation(
    m: MenuType,
    working_dir: Seq<char>,
    command: Seq<char>,
    on_dir: Seq<char>,
    cli_x: Option<Seq<char>>,
    cli_y: Option<Seq<char>>,
) -> Seq<Seq<char>> {
    popup_head(m, working_dir) + popup_command_args(m, working_dir, command, on_dir) + popup_tail(
        m,
        cli_x,
        cli_y,
    )
}

/// What a selected row runs, as a shell command. A row that is not
/// selectable has none. A row with a next menu runs this program to show
/// it; a row with a command runs it (with `%%PWD` replaced by its
/// directory) directly when in the background, else in a popup shown by
/// this program; a row with neither runs this program with no arguments.
pub open spec fn execute_command(
    m: MenuType,
    this_binary: Seq<char>,
    on_dir: Seq<char>,
    next_path: Option<Seq<char>>,
    git_root: Option<Seq<char>>,
    cli_x: Option<Seq<char>>,
    cli_y: Option<Seq<char>>,
) -> Result<Seq<char>, MenuErrorView> {
    match m {
        MenuType::Menu { command, next_menu, run_on_git_root, background, environment, .. } => {
            if next_menu is Some {
                this_invocation(
                    on_dir,
                    this_binary,
                    next_menu_arguments(next_path->0, on_dir, cli_x, cli_y),
                )
            } else if command is Some {
                let working_dir = working_dir_of(run_on_git_root, on_dir, git_root);
                let cmd = replaced(command->0@, "%%PWD"@, working_dir);
                if background {
                    Ok(in_dir(shell_quoted(working_dir), cmd, env_view(environment@)))
                } else {
                    this_invocation(
                        on_dir,
                        this_binary,
                        popup_invocation(m, working_dir, cmd, on_dir, cli_x, cli_y),
                    )
                }
            } else {
                this_invocation(on_dir, this_binary, seq![])
            }
        },
        _ => Err(MenuErrorView::NotAMenu),
    }
}

/// The arguments that the command of a selectable row hands to this
/// program; `None` where the row runs its command in the background, or is
/// no selectable row.
pub open spec fn handed_arguments(
    m: MenuType,
    on_dir: Seq<char>,
    next_path: Option<Seq<char>>,
    git_root: Option<Seq<char>>,
    cli_x: Option<Seq<char>>,
    cli_y: Option<Seq<char>>,
) -> Option<Seq<Seq<char>>> {
    match m {
        MenuType::Menu { command, next_menu, run_on_git_root, background, .. } => {
            if next_menu is Some {
                Some(next_menu_arguments(next_path->0, on_dir, cli_x, cli_y))
            } else if command is Some {
                let working_dir = working_dir_of(run_on_git_root, on_dir, git_root);
                let cmd = replaced(command->0@, "%%PWD"@, working_dir);
                if background {
                    None
                } else {
                    Some(popup_invocation(m, working_dir, cmd, on_dir, cli_x, cli_y))
                }
            } else {
                Some(seq![])
            }
        },
        _ => None,
    }
}

fn option_pair(flag: &str, value: Option<&str>) -> (r: Vec<String>)
    ensures
        views(r@) == match opt_str(value) {
            Some(v) => seq![flag@, v],
            None => seq![],
        },
{
    let mut r: Vec<String> = Vec::new();
    if let Some(v) = value {
        r.push(owned(flag));
        r.push(owned(v));
    }
    assert(views(r@) =~= match opt_str(value) {
        Some(v) => seq![flag@, v],
        None => seq![],
    });
    r
}

fn next_menu_args(next_path: &str, on_dir: &str, cli_x: Option<&str>, cli_y: Option<&str>) -> (r: Vec<String>)
    ensures
        views(r@) == next_menu_arguments(next_path@, on_dir@, opt_str(cli_x), opt_str(cli_y)),
{
    let mut r: Vec<String> = Vec::new();
    r.push(owned("show"));
    r.push(owned("--menu"));
    r.push(owned(next_path));
    r.push(owned("--working_dir"));
    r.push(owned(on_dir));
    assert(views(r@) =~= seq!["show"@, "--menu"@, next_path@, "--working_dir"@, on_dir@]);
    append_all(&mut r, option_pair("--x", cli_x));
    append_all(&mut r, option_pair("--y", cli_y));
    r
}

impl MenuType {
    fn popup_head_args(&self, working_dir: &str) -> (r: Vec<String>)
        ensures
            views(r@) == popup_head(*self, working_dir@),
    {
        let mut r: Vec<String> = Vec::new();
        if let MenuType::Menu { key_table, as_floating_pane, .. } = self {
            r.push(owned("popup"));
            if *as_floating_pane {
                r.push(owned("--as_floating_pane"));
            }
            if let Some(k) = key_table {
                r.push(owned("--key_table"));
                r.push(k.clone());
            }
            r.push(owned("--working_dir"));
            r.push(owned(working_dir));
            r.push(owned("--cmd"));
        }
        assert(views(r@) =~= popup_head(*self, working_dir@));
        r
    }

    fn popup_command_part(&self, working_dir: &str, command: &str, on_dir: &str) -> (r: Vec<String>)
        ensures
            views(r@) == popup_command_args(*self, working_dir@, command@, on_dir@),
    {
        let mut r: Vec<String> = Vec::new();
        if let MenuType::Menu {
            session,
            session_name,
            key_table,
            session_on_dir,
            run_on_git_root,
            as_floating_pane,
            environment,
            ..
        } = self {
            let quoted_dir = shell_quote(working_dir);
            if *session {
                let label = session_label_text(
                    session_name,
                    command,
                    *session_on_dir,
                    *run_on_git_root,
                    working_dir,
                    on_dir,
                );
                let popup_name = popup_session_name(label.as_str());
                let quoted_session = shell_quote(popup_name.as_str());
                r.push(
                    session_command_text(
                        quoted_session.as_str(),
                        quoted_dir.as_str(),
                        command,
                        key_table,
                        environment,
                        *as_floating_pane,
                    ),
                );
                r.push(owned("--session_name"));
                r.push(popup_name);
            } else {
                r.push(in_dir_command(quoted_dir.as_str(), command, environment));
            }
        }
        assert(views(r@) =~= popup_command_args(*self, working_dir@, command@, on_dir@));
        r
    }

    fn popup_tail_args(&self, cli_x: Option<&str>, cli_y: Option<&str>) -> (r: Vec<String>)
        ensures
            views(r@) == popup_tail(*self, opt_str(cli_x), opt_str(cli_y)),
    {
        let mut r: Vec<String> = Vec::new();
        if let MenuType::Menu { close_after_command, inputs, position, border, .. } = self {
            let x = match cli_x {
                Some(x) => owned(x),
                None => position.x.clone(),
            };
            let y = match cli_y {
                Some(y) => owned(y),
                None => position.y.clone(),
            };
            let effective = crate::position::Position {
                x,
                y,
                w: crate::position::copy_opt(&position.w),
                h: crate::position::copy_opt(&position.h),
            };
            let ghost position_args = this_arguments_of(
                or_default(opt_str(cli_x), position.x@),
                or_default(opt_str(cli_y), position.y@),
                opt_view(position.w),
                opt_view(position.h),
            );
            assert(effective.this_arguments() == position_args);
            append_all(&mut r, effective.as_this_arguments());
            r.push(owned("--border"));
            match border {
                Some(b) => r.push(b.clone()),
                None => r.push(owned("simple")),
            }
            if *close_after_command {
                r.push(owned("-E"));
            }
            let ghost before_inputs = views(r@);
            assert(before_inputs =~= position_args + seq![
                "--border"@,
                or_default(opt_view(*border), "simple"@),
            ] + (if *close_after_command {
                seq!["-E"@]
            } else {
                seq![]
            }));
            if inputs.len() > 0 {
                r.push(owned("--key"));
                let mut i: usize = 0;
                let ghost start = views(r@);
                assert(start =~= before_inputs + seq!["--key"@]);
                while i < inputs.len()
                    invariant
                        start == before_inputs + seq!["--key"@],
                        0 <= i <= inputs@.len(),
                        views(r@) == start + views(inputs@).take(i as int),
                    decreases inputs.len() - i,
                {
                    let ghost prev = views(r@);
                    r.push(inputs[i].clone());
                    assert(views(r@) =~= prev.push(inputs@[i as int]@));
                    assert(views(inputs@).take(i + 1) =~= views(inputs@).take(i as int).push(
                        inputs@[i as int]@,
                    ));
                    i = i + 1;
                }
                assert(views(inputs@).take(inputs@.len() as int) =~= views(inputs@));
                assert(views(r@) =~= before_inputs + (seq!["--key"@] + views(inputs@)));
            } else {
                assert(views(r@) =~= before_inputs + Seq::<Seq<char>>::empty());
            }
        }
        assert(views(r@) =~= popup_tail(*self, opt_str(cli_x), opt_str(cli_y)));
        r
    }

    fn popup_args(
        &self,
        working_dir: &str,
        command: &str,
        on_dir: &str,
        cli_x: Option<&str>,
        cli_y: Option<&str>,
    ) -> (r: Vec<String>)
        ensures
            views(r@) == popup_invocation(
                *self,
                working_dir@,
                command@,
                on_dir@,
                opt_str(cli_x),
                opt_str(cli_y),
            ),
    {
        let mut r = self.popup_head_args(working_dir);
        append_all(&mut r, self.popup_command_part(working_dir, command, on_dir));
        append_all(&mut r, self.popup_tail_args(cli_x, cli_y));
        r
    }

    /// The shell command that runs this row when it is selected (see
    /// [`execute_command`]). `on_dir` is the directory commands run in;
    /// `next_menu_path` is where the row's next menu file is, resolved
    /// against the directory of the menu file; `git_root` is the repository
    /// root above `on_dir`, if there is one; `cli_x` and `cli_y` are the
    /// position given on the command line. Where the row runs this program
    /// again, the command splits into `cd`, `on_dir`, `&&`, this program and
    /// the arguments it hands over, each one word.
    pub fn get_execute_command(
        &self,
        this_binary: &str,
        on_dir: &str,
        next_menu_path: Option<&str>,
        git_root: Option<&str>,
        cli_x: Option<&str>,
        cli_y: Option<&str>,
    ) -> (r: Result<String, MenuError>)
        requires
            self.well_formed(),
            self.next_menu_of() is Some ==> next_menu_path is Some,
        ensures
            text_result(r) == execute_command(
                *self,
                this_binary@,
                on_dir@,
                opt_str(next_menu_path),
                opt_str(git_root),
                opt_str(cli_x),
                opt_str(cli_y),
            ),
            r is Ok && handed_arguments(
                *self,
                on_dir@,
                opt_str(next_menu_path),
                opt_str(git_root),
                opt_str(cli_x),
                opt_str(cli_y),
            ) is Some ==> split_words(r->Ok_0@) == Some(
                invocation_words(
                    on_dir@,
                    seq![this_binary@] + handed_arguments(
                        *self,
                        on_dir@,
                        opt_str(next_menu_path),
                        opt_str(git_root),
                        opt_str(cli_x),
                        opt_str(cli_y),
                    )->0,
                ),
            ),
    {
        match self {
            MenuType::Menu { command, next_menu, run_on_git_root, background, environment, .. } => {
                let mut wrapped: Vec<String> = Vec::new();
                if next_menu.is_some() {
                    let next = match next_menu_path {
                        Some(p) => p,
                        None => "",
                    };
                    wrapped = next_menu_args(next, on_dir, cli_x, cli_y);
                } else if let Some(command) = command {
                    let working_dir: &str = if *run_on_git_root {
                        match git_root {
                            Some(g) => g,
                            None => on_dir,
                        }
                    } else {
                        on_dir
                    };
                    proof {
                        reveal_strlit("%%PWD");
                    }
                    let command = replace_all(command.as_str(), "%%PWD", working_dir);
                    if *background {
                        let quoted_dir = shell_quote(working_dir);
                        return Ok(in_dir_command(quoted_dir.as_str(), command.as_str(), environment));
                    }
                    wrapped = self.popup_args(working_dir, command.as_str(), on_dir, cli_x, cli_y);
                } else {
                    assert(views(wrapped@) =~= seq![]);
                }
                run_this_binary_with(on_dir, this_binary, wrapped)
            },
            _ => Err(MenuError::NotAMenu),
        }
    }

    /// The next menu of a selectable row.
    pub open spec fn next_menu_of(self) -> Option<Seq<char>> {
        match self {
            MenuType::Menu { next_menu, .. } => opt_view(next_menu),
            _ => None,
        }
    }
}

/// The session command, run by `sh`, tries to attach first and makes the
/// session only where attaching fails: it is the attach command, then
/// ` 2>/dev/null || (`, then the commands that make the session (in the
/// directory, with `tmux new-session -d -s` and the session's name) and
/// attach to it, then `)`.
#[verifier::rlimit(40)]
pub proof fn session_made_when_attach_fails(
    quoted_session: Seq<char>,
    quoted_dir: Seq<char>,
    command: Seq<char>,
    key_table: Option<Seq<char>>,
    env: Seq<(Seq<char>, Seq<char>)>,
    floating: bool,
)
    ensures
        exists|making: Seq<char>|
            session_command(quoted_session, quoted_dir, command, key_table, env, floating) == (
            key_table_setup(quoted_session, key_table) + attach_command(floating) + " -t "@
                + quoted_session + " 2>/dev/null || ("@ + making + ")"@) && making.take(
                ("cd "@ + quoted_dir + " && tmux new-session -d -s "@ + quoted_session).len() as int,
            ) == "cd "@ + quoted_dir + " && tmux new-session -d -s "@ + quoted_session
                && making.skip(making.len() - (attach_command(floating) + " -t "@
                + quoted_session).len()) == attach_command(floating) + " -t "@ + quoted_session,
{
    reveal_strlit(" 2>/dev/null || (cd ");
    reveal_strlit(" 2>/dev/null || (");
    reveal_strlit("cd ");
    reveal_strlit(")");
    let set_key_table = key_table_setup(quoted_session, key_table);
    let attach = attach_command(floating);
    let head = "cd "@ + quoted_dir + " && tmux new-session -d -s "@ + quoted_session;
    let tail = attach + " -t "@ + quoted_session;
    let middle = " "@ + env_flags(env) + shell_quoted(command)
        + " 2>/dev/null && tmux set-option -t "@ + quoted_session + " status off 2>/dev/null && "@
        + set_key_table;
    let making = head + middle + tail;
    assert(" 2>/dev/null || (cd "@ =~= " 2>/dev/null || ("@ + "cd "@);
    assert(session_command(quoted_session, quoted_dir, command, key_table, env, floating)
        =~= set_key_table + attach + " -t "@ + quoted_session + " 2>/dev/null || ("@ + making
        + ")"@);
    assert(making.take(head.len() as int) =~= head);
    assert(making.skip(making.len() - tail.len()) =~= tail);
}

/// A row's popup closes after its command exactly when the row says so:
/// where no position, border, input or command-line value is itself `-E`,
/// the popup's arguments hold `-E` exactly when `close_after_command` is set.
pub proof fn popup_closes_when_asked(m: MenuType, cli_x: Option<Seq<char>>, cli_y: Option<Seq<char>>)
    requires
        m is Menu,
        cli_x != Some("-E"@),
        cli_y != Some("-E"@),
        m->position.x@ != "-E"@,
        m->position.y@ != "-E"@,
        opt_view(m->position.w) != Some("-E"@),
        opt_view(m->position.h) != Some("-E"@),
        opt_view(m->border) != Some("-E"@),
        forall|i: int| 0 <= i < m->inputs@.len() ==> (#[trigger] m->inputs@[i])@ != "-E"@,
    ensures
        popup_tail(m, cli_x, cli_y).contains("-E"@) <==> m->close_after_command,
{
    reveal_strlit("-E");
    reveal_strlit("--w");
    reveal_strlit("--h");
    reveal_strlit("--x");
    reveal_strlit("--y");
    reveal_strlit("--border");
    reveal_strlit("--key");
    reveal_strlit("simple");
    assert("-E"@ != "--w"@) by {
        assert("-E"@[1] != "--w"@[1]);
    }
    assert("-E"@ != "--h"@) by {
        assert("-E"@[1] != "--h"@[1]);
    }
    assert("-E"@ != "--x"@) by {
        assert("-E"@[1] != "--x"@[1]);
    }
    assert("-E"@ != "--y"@) by {
        assert("-E"@[1] != "--y"@[1]);
    }
    assert("-E"@ != "--border"@) by {
        assert("-E"@.len() != "--border"@.len());
    }
    assert("-E"@ != "--key"@) by {
        assert("-E"@.len() != "--key"@.len());
    }
    assert("-E"@ != "simple"@) by {
        assert("-E"@.len() != "simple"@.len());
    }
    let x = or_default(cli_x, m->position.x@);
    let y = or_default(cli_y, m->position.y@);
    let w = opt_view(m->position.w);
    let h = opt_view(m->position.h);
    let pos = this_arguments_of(x, y, w, h);
    let border = seq!["--border"@, or_default(opt_view(m->border), "simple"@)];
    let exit: Seq<Seq<char>> = if m->close_after_command {
        seq!["-E"@]
    } else {
        seq![]
    };
    let keys: Seq<Seq<char>> = if m->inputs@.len() > 0 {
        seq!["--key"@] + views(m->inputs@)
    } else {
        seq![]
    };
    let t = popup_tail(m, cli_x, cli_y);
    assert(t =~= pos + border + exit + keys);
    assert(!pos.contains("-E"@)) by {
        if pos.contains("-E"@) {
            let i = choose|i: int| 0 <= i < pos.len() && pos[i] == "-E"@;
            assert(false);
        }
    }
    assert(!border.contains("-E"@)) by {
        if border.contains("-E"@) {
            let i = choose|i: int| 0 <= i < border.len() && border[i] == "-E"@;
            assert(false);
        }
    }
    assert(!keys.contains("-E"@)) by {
        if keys.contains("-E"@) {
            let i = choose|i: int| 0 <= i < keys.len() && keys[i] == "-E"@;
            if i > 0 {
                assert(keys[i] == m->inputs@[i - 1]@);
            }
            assert(false);
        }
    }
    if m->close_after_command {
        assert(t[pos.len() + 2int] == "-E"@);
    } else {
        if t.contains("-E"@) {
            let i = choose|i: int| 0 <= i < t.len() && t[i] == "-E"@;
            if i < pos.len() {
                assert(pos[i] == "-E"@);
            } else if i < pos.len() + 2 {
                assert(border[i - pos.len()] == "-E"@);
            } else {
                assert(keys[i - pos.len() - 2] == "-E"@);
            }
            assert(false);
        }
    }
}

} // verus!

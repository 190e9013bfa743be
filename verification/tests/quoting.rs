use tmux_menu::shell::{shell_join, shell_quote};
use tmux_menu::tmux::Tmux;

#[test]
fn shell_join_quotes_generated_arguments() {
    let args = vec![
        "tmux-menu".to_string(),
        "select".to_string(),
        "--menu".to_string(),
        "a path/with spaces/menu.yaml".to_string(),
        "semi;pipe|hash#quote'".to_string(),
    ];

    let command = shell_join(&args).unwrap();

    assert_eq!(shlex::split(&command).unwrap(), args);
}

#[test]
fn run_shell_action_does_not_use_base64() {
    let action = Tmux::run_shell_action("printf '%s' \"a b;c|d#e\"");

    assert!(action.starts_with("run-shell -b -- "));
    assert!(!action.contains("base64"));
    assert!(!action.contains("base64 -d"));
    assert!(action.contains("##e"));
}

#[test]
fn tmux_single_quote_handles_single_quotes() {
    assert_eq!(Tmux::tmux_single_quote("a'b"), "'a'\\''b'");
}

#[test]
fn shell_quote_wraps_and_breaks_single_quotes() {
    assert_eq!(shell_quote("plain"), "'plain'");
    assert_eq!(shell_quote(""), "''");
    assert_eq!(shell_quote("it's"), "'it'\"'\"'s'");
    assert_eq!(shlex::split(&shell_quote("a b'c;d")).unwrap(), vec!["a b'c;d".to_string()]);
}

#[test]
fn tmux_single_quote_reads_back_in_sh() {
    let quoted = Tmux::tmux_single_quote("x'y z");
    assert_eq!(shlex::split(&quoted).unwrap(), vec!["x'y z".to_string()]);
}

#[test]
fn format_escape_doubles_hashes() {
    assert_eq!(Tmux::tmux_format_escape("#{a}#"), "##{a}##");
    assert_eq!(Tmux::tmux_format_escape("none"), "none");
}

#[test]
fn run_shell_action_is_escaped_and_quoted() {
    assert_eq!(
        Tmux::run_shell_action("echo '#1'"),
        "run-shell -b -- 'echo '\\''##1'\\'''"
    );
}

#[test]
fn shell_join_refuses_nul() {
    let args = vec!["ok".to_string(), "bad\0arg".to_string()];
    assert_eq!(shell_join(&args), Err(tmux_menu::error::MenuError::ShellQuote));
}

#[test]
fn shell_join_of_nothing_is_empty() {
    assert_eq!(shell_join(&Vec::new()).unwrap(), "");
}

#[test]
fn shlex_quotes_empty_and_plain_words() {
    let args = vec!["".to_string(), "plain".to_string()];
    assert_eq!(shell_join(&args).unwrap(), "'' plain");
}

#[test]
fn shell_join_splits_back_awkward_words() {
    let args = vec![
        "#start".to_string(),
        "^caret".to_string(),
        "dollar $HOME and `tick`".to_string(),
        "back\\slash \"dq\"".to_string(),
        "line\nbreak\ttab".to_string(),
        "ünïcode ✓".to_string(),
        "'".to_string(),
        "".to_string(),
        "a'b\"c$d".to_string(),
    ];
    let command = shell_join(&args).unwrap();
    assert_eq!(shlex::split(&command).unwrap(), args);
}

#[test]
fn program_invocation_splits_into_words() {
    let args = vec!["show".to_string(), "--menu".to_string(), "my menu's.yaml".to_string()];
    let command =
        tmux_menu::this::run_this_binary_with("/tmp/a dir", "/usr/bin/tmux-menu", args).unwrap();
    assert_eq!(
        shlex::split(&command).unwrap(),
        vec!["cd", "/tmp/a dir", "&&", "/usr/bin/tmux-menu", "show", "--menu", "my menu's.yaml"]
    );
}

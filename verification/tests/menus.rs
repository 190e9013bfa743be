use tmux_menu::error::MenuError;
use tmux_menu::menu::{
    apply_cli_position, apply_command_output, apply_command_outputs, distinct_names, MenuType,
    Menus,
};
use tmux_menu::position::Position;
use tmux_menu::tmux::Tmux;

fn command_row(command: &str) -> MenuType {
    MenuType::Menu {
        name: "row".to_string(),
        shortcut: "r".to_string(),
        command: Some(command.to_string()),
        next_menu: None,
        close_after_command: true,
        session: false,
        session_name: None,
        key_table: None,
        session_on_dir: false,
        run_on_git_root: false,
        background: false,
        as_floating_pane: false,
        inputs: Vec::new(),
        position: Position::new_xywh(),
        border: None,
        environment: Vec::new(),
    }
}

#[test]
fn session_name_is_quoted_in_shell_command() {
    let root = "/tmp/tmux-menu-quoted-session";

    let menu = MenuType::Menu {
        name: "bad".to_string(),
        shortcut: String::new(),
        command: Some(":".to_string()),
        next_menu: None,
        close_after_command: true,
        session: true,
        session_name: Some("bad; echo pwn".to_string()),
        key_table: Some("popup; echo pwn".to_string()),
        session_on_dir: false,
        run_on_git_root: false,
        background: false,
        as_floating_pane: true,
        inputs: Vec::new(),
        position: Position::new_xywh(),
        border: None,
        environment: Vec::new(),
    };

    let command = menu
        .get_execute_command("/usr/local/bin/tmux-menu", root, None, None, None, None)
        .unwrap();
    let args = shlex::split(&command).unwrap();
    let cmd_index = args.iter().position(|arg| arg == "--cmd").unwrap();
    let popup_command = &args[cmd_index + 1];

    assert!(popup_command.contains("TMUX= tmux -S"));
    assert!(popup_command.contains("attach -t '_popup_"));
    assert!(popup_command.contains("bad; echo pwn'"));
    assert!(popup_command.contains("key-table 'popup; echo pwn'"));
    let session_index = args.iter().position(|arg| arg == "--session_name").unwrap();
    assert!(args[session_index + 1].starts_with("_popup_"));
    assert!(args.iter().any(|arg| arg == "--as_floating_pane"));
}

#[test]
fn background_command_runs_in_directory_with_pwd() {
    let mut row = command_row("echo %%PWD");
    if let MenuType::Menu { background, environment, .. } = &mut row {
        *background = true;
        environment.push(("MY_VAR".to_string(), "Hello World".to_string()));
    }
    let command = row
        .get_execute_command("/bin/tmux-menu", "/work dir", None, None, None, None)
        .unwrap();
    assert_eq!(
        command,
        "tmux set-environment MY_VAR 'Hello World' && export MY_VAR='Hello World' && cd '/work dir' && echo /work dir"
    );
}

#[test]
fn git_root_replaces_directory_when_found() {
    let mut row = command_row("make");
    if let MenuType::Menu { background, run_on_git_root, .. } = &mut row {
        *background = true;
        *run_on_git_root = true;
    }
    let found = row
        .get_execute_command("/bin/tmux-menu", "/repo/sub", None, Some("/repo"), None, None)
        .unwrap();
    assert_eq!(found, "cd '/repo' && make");
    let missing = row
        .get_execute_command("/bin/tmux-menu", "/repo/sub", None, None, None, None)
        .unwrap();
    assert_eq!(missing, "cd '/repo/sub' && make");
}

#[test]
fn popup_command_arguments() {
    let mut row = command_row("ls");
    if let MenuType::Menu { inputs, border, .. } = &mut row {
        inputs.push("KEY".to_string());
        *border = Some("rounded".to_string());
    }
    let command = row
        .get_execute_command("/bin/tmux-menu", "/home", None, None, Some("C"), None)
        .unwrap();
    let args = shlex::split(&command).unwrap();
    assert_eq!(
        args,
        [
            "cd", "/home", "&&", "/bin/tmux-menu", "popup", "--working_dir", "/home", "--cmd",
            "cd '/home' && ls", "--w", "100", "--h", "100", "--x", "C", "--y", "P", "--border",
            "rounded", "-E", "--key", "KEY"
        ]
    );
}

#[test]
fn next_menu_opens_resolved_path() {
    let mut row = command_row("ignored");
    if let MenuType::Menu { next_menu, .. } = &mut row {
        *next_menu = Some("other.yaml".to_string());
    }
    let command = row
        .get_execute_command("/bin/tmux-menu", "/w", Some("/menus/other.yaml"), None, Some("1"), Some("2"))
        .unwrap();
    assert_eq!(
        shlex::split(&command).unwrap(),
        [
            "cd", "/w", "&&", "/bin/tmux-menu", "show", "--menu", "/menus/other.yaml",
            "--working_dir", "/w", "--x", "1", "--y", "2"
        ]
    );
}

#[test]
fn row_without_action_runs_program_alone() {
    let mut row = command_row("x");
    if let MenuType::Menu { command, .. } = &mut row {
        *command = None;
    }
    let command = row
        .get_execute_command("/bin/tmux-menu", "/w", None, None, None, None)
        .unwrap();
    assert_eq!(command, "cd '/w' && /bin/tmux-menu");
}

#[test]
fn unselectable_rows_have_no_command() {
    let row = MenuType::NoDim { name: "n".to_string() };
    assert_eq!(
        row.get_execute_command("/b", "/w", None, None, None, None),
        Err(MenuError::NotAMenu)
    );
    let row = MenuType::Seperate {};
    assert_eq!(
        row.get_execute_command("/b", "/w", None, None, None, None),
        Err(MenuError::NotAMenu)
    );
}

#[test]
fn session_name_from_command_and_directory() {
    let mut row = command_row("htop -d 1");
    if let MenuType::Menu { session, session_on_dir, environment, .. } = &mut row {
        *session = true;
        *session_on_dir = true;
        environment.push(("A".to_string(), "b c".to_string()));
    }
    let command = row
        .get_execute_command("/bin/tmux-menu", "/home/me/.cfg:x", None, None, None, None)
        .unwrap();
    let args = shlex::split(&command).unwrap();
    let session_index = args.iter().position(|arg| arg == "--session_name").unwrap();
    let name = &args[session_index + 1];
    assert!(name.starts_with("_popup_"));
    assert!(name.ends_with("_session_htop_-d_1__home_me__cfg_x"));
    let cmd_index = args.iter().position(|arg| arg == "--cmd").unwrap();
    assert!(args[cmd_index + 1].contains("tmux new-session -d -s "));
    assert!(args[cmd_index + 1].contains("-e A='b c' 'htop -d 1'"));
    assert!(args[cmd_index + 1].starts_with("tmux attach -t '_popup_"));
}

#[test]
fn command_output_replaces_expression() {
    assert_eq!(
        apply_command_output("Time: $(date) now", "date", "12:00").unwrap(),
        "Time: 12:00 now"
    );
    assert!(apply_command_output("ls $(ls)", "ls", "x").is_none());
    assert!(apply_command_output("$(x", "x", "y").is_none());
    assert_eq!(apply_command_output("é$(a)", "a", "b").unwrap(), "éb");
}

#[test]
fn name_commands_are_found() {
    let row = MenuType::NoDim { name: "a $(echo 1) b $(echo 2)".to_string() };
    assert_eq!(row.eval_name_commands(), ["echo 1", "echo 2"]);
    let row = MenuType::NoDim { name: "plain".to_string() };
    assert!(row.eval_name_commands().is_empty());
    let mut row = MenuType::NoDim { name: "x".to_string() };
    row.set_name("y".to_string());
    match row {
        MenuType::NoDim { name } => assert_eq!(name, "y"),
        _ => panic!("expected a row without dim"),
    }
}

fn sample_menus() -> Menus {
    let mut bordered = command_row("a");
    if let MenuType::Menu { border, .. } = &mut bordered {
        *border = Some("double".to_string());
    }
    Menus {
        conf_path: String::new(),
        cwd: String::new(),
        cli_x: Some("stale".to_string()),
        cli_y: None,
        position: Position::new_xy(),
        title: "Title".to_string(),
        items: vec![
            command_row("b"),
            MenuType::Seperate {},
            MenuType::NoDim { name: "note #1".to_string() },
            bordered,
        ],
        border: "rounded".to_string(),
    }
}

#[test]
fn loading_fills_borders() {
    let menus = Menus::load_for_select(sample_menus(), "/m/menu.yaml".to_string(), "/w".to_string());
    assert_eq!(menus.conf_path, "/m/menu.yaml");
    assert_eq!(menus.cwd, "/w");
    assert!(menus.cli_x.is_none());
    match &menus.items[0] {
        MenuType::Menu { border, .. } => assert_eq!(border.as_deref(), Some("rounded")),
        _ => panic!("expected menu"),
    }
    match &menus.items[3] {
        MenuType::Menu { border, .. } => assert_eq!(border.as_deref(), Some("double")),
        _ => panic!("expected menu"),
    }
}

#[test]
fn cli_position_overrides() {
    let mut menus = sample_menus();
    apply_cli_position(&mut menus, None, Some("5".to_string()));
    assert_eq!(menus.position.x, "R");
    assert_eq!(menus.position.y, "5");
    assert_eq!(menus.cli_x.as_deref(), Some("stale"));
    assert_eq!(menus.cli_y.as_deref(), Some("5"));
}

#[test]
fn display_menu_arguments_list_rows() {
    let menus = Menus::load_for_select(sample_menus(), "/m/menu.yaml".to_string(), "/w".to_string());
    let args = Tmux::display_menu_arguments(&menus, "/bin/tmux-menu").unwrap();
    assert_eq!(
        args[..10],
        ["display-menu", "-x", "R", "-y", "P", "-T", "#[align=centre fg=yellow]Title", "-b", "rounded", ""]
    );
    assert_eq!(args[10], "row");
    assert_eq!(args[11], "r");
    assert_eq!(
        args[12],
        "run-shell -b -- 'cd '\\''/w'\\'' && /bin/tmux-menu select --menu /m/menu.yaml --index 0 --working_dir /w'"
    );
    assert_eq!(args[13], "");
    assert_eq!(args[14], "-#[nodim]note #1");
    assert_eq!(args[15], "");
    assert_eq!(args[16], "");
    assert!(args[19].contains("--index 3"));
    assert_eq!(args.len(), 20);
}

#[test]
fn tmux_program() {
    assert_eq!(Tmux::new().binary(), "tmux");
}

#[test]
fn command_outputs_fill_name_in_order() {
    let commands = vec!["echo 1".to_string(), "date".to_string()];
    let name = "a $(echo 1) b $(date)";
    assert_eq!(
        apply_command_outputs(name, &commands, &vec!["1".to_string()]).unwrap(),
        "a 1 b $(date)"
    );
    assert_eq!(
        apply_command_outputs(name, &commands, &vec!["1".to_string(), "now".to_string()]).unwrap(),
        "a 1 b now"
    );
    assert_eq!(apply_command_outputs(name, &commands, &Vec::new()).unwrap(), name);
    let clashing = vec!["x".to_string(), "y".to_string()];
    assert!(apply_command_outputs("$(x)x$(y)", &clashing, &vec!["x".to_string()]).is_some());
    assert!(apply_command_outputs("ls $(ls)", &vec!["ls".to_string()], &vec!["o".to_string()]).is_none());
}

#[test]
fn repeated_names_are_detected() {
    let once = vec![("A".to_string(), "1".to_string()), ("B".to_string(), "1".to_string())];
    assert!(distinct_names(&once));
    let twice = vec![("A".to_string(), "1".to_string()), ("A".to_string(), "2".to_string())];
    assert!(!distinct_names(&twice));
    assert!(command_row("x").is_well_formed());
}

#[test]
fn name_commands_stop_at_first_parenthesis_on_the_line() {
    let row = MenuType::NoDim { name: "$(a\nb) $(c)".to_string() };
    assert_eq!(row.eval_name_commands(), ["c"]);
    let row = MenuType::NoDim { name: "$($(a) b)".to_string() };
    assert_eq!(row.eval_name_commands(), ["$(a"]);
    let row = MenuType::NoDim { name: "x $(open".to_string() };
    assert!(row.eval_name_commands().is_empty());
    let row = MenuType::NoDim { name: "$()$(é)".to_string() };
    assert_eq!(row.eval_name_commands(), ["", "é"]);
}

#[test]
fn loading_with_names_matches_loading_for_select() {
    let mut with_command = sample_menus();
    with_command.items[2] = MenuType::NoDim { name: "up $(uptime) now".to_string() };
    let mut again = sample_menus();
    again.items[2] = MenuType::NoDim { name: "up $(uptime) now".to_string() };
    let outputs = vec![vec![], vec![], vec!["3 days".to_string()], vec![]];
    let loaded = Menus::load(with_command, &outputs, "/m/menu.yaml".to_string(), "/w".to_string())
        .unwrap();
    let selected = Menus::load_for_select(again, "/m/menu.yaml".to_string(), "/w".to_string());
    assert_eq!(loaded.items.len(), selected.items.len());
    for i in [0usize, 1, 3] {
        assert_eq!(format!("{:?}", loaded.items[i]), format!("{:?}", selected.items[i]));
    }
    match &loaded.items[2] {
        MenuType::NoDim { name } => assert_eq!(name, "up 3 days now"),
        _ => panic!("expected a row without dim"),
    }
    assert_eq!(loaded.border, selected.border);
    assert_eq!(loaded.title, selected.title);
}

#[test]
fn loading_with_names_refuses_missing_outputs() {
    let mut menus = sample_menus();
    menus.items[2] = MenuType::NoDim { name: "up $(uptime) now".to_string() };
    let outputs = vec![vec![], vec![], vec![], vec![]];
    assert!(Menus::load(menus, &outputs, "/m".to_string(), "/w".to_string()).is_none());
    assert!(Menus::load(sample_menus(), &Vec::new(), "/m".to_string(), "/w".to_string()).is_none());
}

#[test]
fn row_index_past_the_last_row_is_refused() {
    let menus = Menus::load_for_select(sample_menus(), "/m".to_string(), "/w".to_string());
    assert!(matches!(menus.item_at(2), Ok(MenuType::NoDim { .. })));
    let e = menus.item_at(4).unwrap_err();
    assert_eq!(e, MenuError::IndexOutOfRange(4));
    assert_eq!(e.message(), "Menu item index out of range: 4");
}

#[test]
fn git_root_is_looked_for_from_the_directory_up() {
    assert_eq!(
        tmux_menu::dirs::git_root_candidates("/a/b/c"),
        ["/a/b/c", "/a/b", "/a", "/"]
    );
    assert_eq!(tmux_menu::dirs::git_root_candidates("/"), ["/"]);
    assert_eq!(tmux_menu::dirs::git_root_candidates("rel/dir"), ["rel/dir", "rel", ""]);
}

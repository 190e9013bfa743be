use tmux_menu::number::{decimal_string, parse_u16, parse_usize, signed_decimal_string};
use tmux_menu::popup::{
    input_arguments, popup_command_in, popup_pending_command, saved_popup_position_query,
    substitute_inputs,
};
use tmux_menu::position::{position_from_geometry, position_geometry, Position};
use tmux_menu::text::split_whitespace;

#[test]
fn popup_geometry_requires_four_values() {
    let position = position_from_geometry("10 20 80 24").unwrap();

    assert_eq!(position.x, "10");
    assert_eq!(position.y, "20");
    assert_eq!(position.w.as_deref(), Some("80"));
    assert_eq!(position.h.as_deref(), Some("24"));
    assert!(position_from_geometry("10 20 80").is_none());
    assert!(position_from_geometry("10 20 80 24 extra").is_none());
}

#[test]
fn geometry_written_reads_back() {
    let position = Position {
        x: "C".to_string(),
        y: "12".to_string(),
        w: Some("50%".to_string()),
        h: Some("40".to_string()),
    };
    let text = position_geometry(&position);
    assert_eq!(text, "C 12 50% 40");
    let back = position_from_geometry(&text).unwrap();
    assert_eq!(back.x, "C");
    assert_eq!(back.y, "12");
    assert_eq!(back.w.as_deref(), Some("50%"));
    assert_eq!(back.h.as_deref(), Some("40"));
}

#[test]
fn geometry_with_missing_size_does_not_read_back() {
    let text = position_geometry(&Position::new_xy());
    assert_eq!(text, "R P  ");
    assert!(position_from_geometry(&text).is_none());
}

#[test]
fn whitespace_words() {
    assert_eq!(split_whitespace("  a\tbb \n c\u{3000}d "), ["a", "bb", "c", "d"]);
    assert!(split_whitespace(" \t ").is_empty());
}

#[test]
fn default_positions() {
    let p = Position::new_xy();
    assert_eq!((p.x.as_str(), p.y.as_str(), p.w, p.h), ("R", "P", None, None));
    let p = Position::new_xywh();
    assert_eq!(p.w.as_deref(), Some("100"));
    assert_eq!(p.h.as_deref(), Some("100"));
    let p = Position::wh(-3, 42);
    assert_eq!(p.w.as_deref(), Some("-3"));
    assert_eq!(p.h.as_deref(), Some("42"));
}

#[test]
fn this_arguments_order() {
    assert_eq!(
        Position::new_xywh().as_this_arguments(),
        ["--w", "100", "--h", "100", "--x", "R", "--y", "P"]
    );
    assert_eq!(Position::new_xy().as_this_arguments(), ["--x", "R", "--y", "P"]);
}

#[test]
fn numbers_round_trip() {
    assert_eq!(decimal_string(0), "0");
    assert_eq!(decimal_string(1234567890), "1234567890");
    assert_eq!(signed_decimal_string(i32::MIN), "-2147483648");
    assert_eq!(parse_u16("65535"), Some(65535));
    assert_eq!(parse_u16("65536"), None);
    assert_eq!(parse_u16("+7"), Some(7));
    assert_eq!(parse_u16("+"), None);
    assert_eq!(parse_u16("-1"), None);
    assert_eq!(parse_u16(""), None);
    assert_eq!(parse_usize("12"), Some(12));
    assert_eq!(parse_usize(&decimal_string(987654)), Some(987654));
}

#[test]
fn saved_position_query_sanitises_session() {
    assert_eq!(
        saved_popup_position_query(&Some("_popup_1f_a b/c".to_string())).unwrap(),
        "tmux show-options -gqv @popup_geom__popup_1f_a_b_c"
    );
    assert!(saved_popup_position_query(&None).is_none());
}

#[test]
fn pending_command_records_geometry_and_border() {
    let command = popup_pending_command(&Position::new_xywh(), "rounded");
    assert_eq!(
        command,
        "tmux set -g @popup_client \"$(tmux display-message -p '#{client_name}')\"; tmux set -g @popup_pending_geom 'R P 100 100'; tmux set -g @popup_pending_border 'rounded'"
    );
}

#[test]
fn inputs_replace_placeholders() {
    let answers = vec![
        ("KEY".to_string(), "value".to_string()),
        ("OTHER".to_string(), "x".to_string()),
    ];
    assert_eq!(
        substitute_inputs("run %%KEY%% %%OTHER%% %%KEY%% %%NONE%%", &answers),
        "run value x value %%NONE%%"
    );
    assert_eq!(
        popup_command_in("/tmp/a b", "ls"),
        "cd '/tmp/a b' && ls"
    );
    assert_eq!(
        input_arguments(vec!["A".to_string(), "B".to_string()]),
        ["input", "--key", "A", "B"]
    );
}

#[test]
fn yaml_answers_fill_placeholders() {
    let cmd = tmux_menu::popup::substitute_yaml_inputs("echo %%a%% %%b%%", "a: one\nb: two\n").unwrap();
    assert_eq!(cmd, "echo one two");
    let e = tmux_menu::popup::substitute_yaml_inputs("echo %%a%%", "- not\n- a map\n").unwrap_err();
    assert!(matches!(e, tmux_menu::error::MenuError::AnswersUnreadable(_)));
    assert!(!e.message().is_empty());
}

#[test]
fn typed_answers_are_trimmed_and_the_last_line_wins() {
    let keys = vec!["a".to_string(), "b".to_string(), "a".to_string()];
    let lines = vec!["  first\n".to_string(), "\tsecond \n".to_string(), "third\n".to_string()];
    let answers = tmux_menu::popup::typed_answers(&keys, &lines);
    assert_eq!(answers.len(), 2);
    assert!(answers.contains(&("a".to_string(), "third".to_string())));
    assert!(answers.contains(&("b".to_string(), "second".to_string())));
}

#[test]
fn typed_answers_read_back_in_the_popup() {
    let keys = vec!["name".to_string(), "dir".to_string()];
    let lines = vec![" x y \n".to_string(), "'quoted' #hash\n".to_string()];
    let text = tmux_menu::popup::answers_yaml(&keys, &lines).unwrap();
    let cmd = tmux_menu::popup::substitute_yaml_inputs("echo %%name%% in %%dir%%", &text).unwrap();
    assert_eq!(cmd, "echo x y in 'quoted' #hash");
}

#[test]
fn trim_removes_unicode_white_space() {
    assert_eq!(tmux_menu::text::trim("\u{3000} a b\u{a0}\n"), "a b");
    assert_eq!(tmux_menu::text::trim(" \t\n"), "");
    assert_eq!(tmux_menu::text::trim("plain"), "plain");
}

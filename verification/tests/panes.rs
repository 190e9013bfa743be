use tmux_menu::error::MenuError;
use tmux_menu::position::Position;
use tmux_menu::tmux::{centered_position, edge_position, Tmux};

#[test]
fn pane_geometry_uses_popup_position() {
    assert_eq!(centered_position("60%", "window_width").unwrap(), "20%");
    assert_eq!(edge_position("60%", "window_width").unwrap(), "40%");
    assert_eq!(
        centered_position("40", "window_width").unwrap(),
        "#{e|/:#{e|-:#{window_width},40},2}"
    );

    let arguments = Tmux::construct_pane_arguments(&Position {
        x: "R".to_string(),
        y: "P".to_string(),
        w: Some("60%".to_string()),
        h: Some("70%".to_string()),
    })
    .unwrap();

    assert_eq!(
        arguments,
        ["-x", "60%", "-y", "70%", "-X", "40%", "-Y", "30%"]
    );

    let arguments = Tmux::construct_pane_arguments(&Position {
        x: "12".to_string(),
        y: "3".to_string(),
        w: Some("40".to_string()),
        h: Some("20".to_string()),
    })
    .unwrap();

    assert_eq!(arguments, ["-x", "40", "-y", "20", "-X", "12", "-Y", "3"]);
}

#[test]
fn pane_sizes_are_checked() {
    assert_eq!(
        centered_position("0%", "window_width"),
        Err(MenuError::PanePercentOutOfRange("0%".to_string()))
    );
    assert_eq!(
        edge_position("101%", "window_height"),
        Err(MenuError::PanePercentOutOfRange("101%".to_string()))
    );
    assert_eq!(
        centered_position("abc", "window_width"),
        Err(MenuError::InvalidPaneSize("abc".to_string()))
    );
    assert_eq!(
        centered_position("x%", "window_width"),
        Err(MenuError::InvalidPaneSize("x%".to_string()))
    );
    assert_eq!(
        centered_position("0", "window_width"),
        Err(MenuError::PaneSizeZero("0".to_string()))
    );
    assert_eq!(edge_position("0", "window_width").unwrap(), "#{e|-:#{window_width},0}");
    assert_eq!(
        edge_position("70000", "window_width"),
        Err(MenuError::InvalidPaneSize("70000".to_string()))
    );
    assert_eq!(edge_position("+5%", "window_width").unwrap(), "95%");
    assert_eq!(centered_position("100%", "window_width").unwrap(), "0%");
    assert_eq!(centered_position("1%", "window_width").unwrap(), "49%");
}

#[test]
fn pane_needs_width_and_height() {
    let mut position = Position::new_xy();
    assert_eq!(
        Tmux::construct_pane_arguments(&position),
        Err(MenuError::PaneWidthRequired)
    );
    position.w = Some("10".to_string());
    assert_eq!(
        Tmux::construct_pane_arguments(&position),
        Err(MenuError::PaneHeightRequired)
    );
}

#[test]
fn centred_pane_in_cells() {
    let arguments = Tmux::construct_pane_arguments(&Position {
        x: "C".to_string(),
        y: "C".to_string(),
        w: Some("80".to_string()),
        h: Some("50%".to_string()),
    })
    .unwrap();
    assert_eq!(
        arguments,
        [
            "-x",
            "80",
            "-y",
            "50%",
            "-X",
            "#{e|/:#{e|-:#{window_width},80},2}",
            "-Y",
            "25%"
        ]
    );
}

#[test]
fn new_pane_arguments_keep_pane_open_unless_closing() {
    let position = Position {
        x: "1".to_string(),
        y: "2".to_string(),
        w: Some("3".to_string()),
        h: Some("4".to_string()),
    };
    let open = Tmux::new_pane_arguments("ls".to_string(), &position, false).unwrap();
    assert_eq!(open, ["new-pane", "-x", "3", "-y", "4", "-X", "1", "-Y", "2", "-k", "ls"]);
    let closing = Tmux::new_pane_arguments("ls".to_string(), &position, true).unwrap();
    assert_eq!(closing, ["new-pane", "-x", "3", "-y", "4", "-X", "1", "-Y", "2", "ls"]);
}

#[test]
fn popup_arguments_carry_border_position_and_exit() {
    let position = Position::new_xywh();
    let arguments = Tmux::display_popup_arguments("cmd".to_string(), &position, "rounded", true);
    assert_eq!(
        arguments,
        ["display-popup", "-b", "rounded", "-x", "R", "-y", "P", "-w", "100", "-h", "100", "-E", "cmd"]
    );
    let arguments =
        Tmux::display_popup_arguments("cmd".to_string(), &Position::new_xy(), "single", false);
    assert_eq!(arguments, ["display-popup", "-b", "single", "-x", "R", "-y", "P", "cmd"]);
}

#[test]
fn error_messages() {
    assert_eq!(MenuError::NotAMenu.message(), "This menu type should be menu");
    assert_eq!(
        MenuError::InvalidPaneSize("q".to_string()).message(),
        "invalid pane size: q"
    );
}

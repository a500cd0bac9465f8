use rat_bar::builtin::{choose_player, min_secs, time_pair_text, Date, PlayerEntry, PlayerState, Preference, RamMeta, RamUpdate, Record};
use rat_bar::config::{config_format, expand_home, search_order, split_command, ConfigFormat, HomePath, ProviderErrorKind};
use rat_bar::geometry::{Position, Rect};
use rat_bar::mouse::{interactions, provider_interactions, quits, Interaction, KeyCode, MouseButton, MouseEvent, MouseEventKind, MouseState, CONTROL};
use rat_bar::scripts::{first_command, panel_args, resize_args, screen_names, spawn_commands, Screen};
use rat_bar::widgets::bar_graph::{braille_pair, column_chars, gen_char, row_text, Marker};

fn ev(kind: MouseEventKind, column: u16, row: u16) -> MouseEvent {
    MouseEvent { kind, column, row }
}

fn strings(list: &[&str]) -> Vec<String> {
    list.iter().map(|s| s.to_string()).collect()
}

#[test]
fn mouse_events_kept_and_captured() {
    let mut m = MouseState::new();
    m.record(ev(MouseEventKind::Moved, 1, 0));
    m.record(ev(MouseEventKind::Down(MouseButton::Left), 2, 0));
    m.record(ev(MouseEventKind::ScrollUp, 9, 0));
    m.record(ev(MouseEventKind::Drag(MouseButton::Left), 3, 0));
    assert_eq!(m.events.len(), 2);
    assert_eq!(m.clicked, Some(Position { x: 2, y: 0 }));
    let area = Rect { x: 0, y: 0, width: 5, height: 1 };
    assert_eq!(m.is_click_in(area), Some(Position { x: 2, y: 0 }));
    let captured = m.capture_events(area);
    assert_eq!(captured, vec![ev(MouseEventKind::Down(MouseButton::Left), 2, 0)]);
    assert_eq!(m.events, vec![ev(MouseEventKind::ScrollUp, 9, 0)]);
    assert!(m.capture_events(area).is_empty());
    m.record(ev(MouseEventKind::Up(MouseButton::Left), 2, 0));
    assert_eq!(m.clicked, None);
    assert_eq!(m.is_click_in(area), None);
}

#[test]
fn interactions_of_captured_events() {
    let captured = vec![
        ev(MouseEventKind::ScrollDown, 1, 0),
        ev(MouseEventKind::Down(MouseButton::Right), 4, 0),
        ev(MouseEventKind::ScrollRight, 1, 0),
        ev(MouseEventKind::Down(MouseButton::Left), 5, 0),
    ];
    let r = interactions(&captured, true, true);
    assert_eq!(
        r,
        vec![
            Interaction::Click { position: Position { x: 4, y: 0 }, dir: -1 },
            Interaction::Click { position: Position { x: 5, y: 0 }, dir: 1 },
            Interaction::Scroll { dir: -1 },
            Interaction::Scroll { dir: 1 },
        ]
    );
    assert_eq!(interactions(&captured, false, true).len(), 2);
    assert!(interactions(&captured, false, false).is_empty());
    let p = provider_interactions(&captured, true, true);
    assert_eq!(
        p,
        vec![
            Interaction::Click { position: Position { x: 4, y: 0 }, dir: -1 },
            Interaction::Click { position: Position { x: 5, y: 0 }, dir: 1 },
            Interaction::Scroll { dir: -1 },
        ]
    );
}

#[test]
fn keys_that_quit() {
    assert!(quits(KeyCode::Esc, 0));
    assert!(quits(KeyCode::Char('q'), 0));
    assert!(quits(KeyCode::Char('c'), CONTROL));
    assert!(!quits(KeyCode::Char('c'), 0));
    assert!(!quits(KeyCode::Char('c'), CONTROL | 1));
    assert!(!quits(KeyCode::Other, CONTROL));
}

#[test]
fn configuration_formats() {
    assert_eq!(config_format("yaml"), Some(ConfigFormat::Yaml));
    assert_eq!(config_format("yml"), Some(ConfigFormat::Yaml));
    assert_eq!(config_format("kdl"), Some(ConfigFormat::Kdl));
    assert_eq!(config_format("toml"), None);
    let order = search_order();
    assert_eq!(order, vec![(ConfigFormat::Kdl, "kdl"), (ConfigFormat::Yaml, "yaml"), (ConfigFormat::Yaml, "yml")]);
}

#[test]
fn home_paths() {
    assert_eq!(expand_home("~"), HomePath::Home);
    assert_eq!(expand_home("~/bin/p"), HomePath::UnderHome("bin/p".to_string()));
    assert_eq!(expand_home("~x"), HomePath::Plain("~x".to_string()));
    assert_eq!(expand_home("/usr/bin/p"), HomePath::Plain("/usr/bin/p".to_string()));
}

#[test]
fn provider_commands() {
    assert_eq!(split_command(&strings(&["p", "-a", "b"])), Ok(("p".to_string(), strings(&["-a", "b"]))));
    assert_eq!(split_command(&strings(&["p"])), Ok(("p".to_string(), Vec::new())));
    assert_eq!(split_command(&Vec::new()), Err(ProviderErrorKind::ProgramMissing));
}

#[test]
fn kitty_commands() {
    assert_eq!(
        panel_args("DP-1", 2),
        strings(&[
            "panel",
            "--edge=top",
            "--output-name=DP-1",
            "--lines=2",
            "--listen-on=unix:/tmp/rat-bar-DP-1",
            "-o",
            "window_padding_width=0",
            "-o",
            "allow_remote_control=yes",
        ])
    );
    assert_eq!(
        resize_args("HDMI-A-1", 12),
        strings(&["@", "--to=unix:/tmp/rat-bar-HDMI-A-1", "resize-os-window", "--action=os-panel", "lines=12"])
    );
    assert_eq!(first_command("rat-bar", "/tmp/log"), strings(&["sh", "-c", "rat-bar 2>/tmp/log"]));
    let screens = vec![
        Screen { description: "left".to_string(), name: "DP-1".to_string() },
        Screen { description: "right".to_string(), name: "DP-2".to_string() },
    ];
    assert_eq!(screen_names(screens), strings(&["DP-1", "DP-2"]));
}

#[test]
fn histories_and_memory() {
    let mut r = Record::new(2, 0u64);
    r.push_point(3);
    r.push_point(4);
    r.push_point(5);
    assert_eq!(r.datapoints(), &vec![4, 5]);
    assert_eq!(r.max_points(), 2);
    let mut ram = RamMeta { total: 0, free: 0, used: Record::new(3, 0) };
    ram.update(RamUpdate { used: 10, free: 20, total: 30 });
    assert_eq!((ram.total, ram.free), (30, 20));
    assert_eq!(ram.used.datapoints(), &vec![0, 0, 10]);
    assert_eq!(min_secs(125), (2, 5));
    assert_eq!(min_secs(59), (0, 59));
}

#[test]
fn player_choice() {
    assert!(PlayerState::Playing.filter(PlayerState::Paused));
    assert!(!PlayerState::Stopped.filter(PlayerState::Paused));
    assert!(PlayerState::Stopped.filter(PlayerState::Stopped));
    let players = vec![
        PlayerEntry { name: "vlc".to_string(), state: PlayerState::Playing },
        PlayerEntry { name: "spotify".to_string(), state: PlayerState::Paused },
        PlayerEntry { name: "spotify".to_string(), state: PlayerState::Playing },
    ];
    let pref = |names: &[&str], allow_any: bool, at_least: PlayerState| Preference { players: strings(names), allow_any, at_least };
    assert_eq!(choose_player(&players, &pref(&["spotify"], false, PlayerState::Paused)), Some(1));
    assert_eq!(choose_player(&players, &pref(&["spotify"], false, PlayerState::Playing)), Some(2));
    assert_eq!(choose_player(&players, &pref(&["mpv", "vlc"], false, PlayerState::Playing)), Some(0));
    assert_eq!(choose_player(&players, &pref(&["mpv"], true, PlayerState::Playing)), Some(0));
    assert_eq!(choose_player(&players, &pref(&["mpv"], false, PlayerState::Playing)), None);
    assert_eq!(choose_player(&Vec::new(), &pref(&[], true, PlayerState::Playing)), None);
    let d = Date::default();
    let names: Vec<&str> = d.elements.iter().map(|e| e.name.as_str()).collect();
    assert_eq!(names, vec!["DAY", "TIME", "DATE"]);
}

#[test]
fn graph_characters() {
    assert_eq!(Marker::default(), Marker::Braille);
    assert_eq!(Marker::from_str("Octant"), Some(Marker::Octant));
    assert_eq!(Marker::from_str("octant"), None);
    assert_eq!(gen_char(0, 0, Marker::Braille), '\u{2800}');
    assert_eq!(gen_char(4, 4, Marker::Braille), '\u{28ff}');
    assert_eq!(gen_char(1, 0, Marker::Braille), '\u{2840}');
    assert_eq!(gen_char(0, 2, Marker::Braille), braille_pair(0, 2));
    assert_eq!(gen_char(0, 0, Marker::Octant), ' ');
    assert_eq!(gen_char(4, 4, Marker::Octant), '\u{2588}');
    assert_eq!(braille_pair(4, 4), '\u{28ff}');
    assert_eq!(braille_pair(2, 3), '\u{28f4}');
    assert_eq!(gen_char(2, 3, Marker::Braille), '\u{28f4}');
}

#[test]
fn graph_columns_and_rows() {
    assert_eq!(column_chars(6, 2, 3), vec!['\u{28e7}', '\u{2844}', '\u{2800}']);
    assert!(column_chars(9, 9, 0).is_empty());
    assert_eq!(row_text(&vec![(6, 2), (0, 8)], 1), vec!['\u{2844}', '\u{28b8}']);
    assert_eq!(row_text(&vec![(6, 2), (0, 8)], 0), vec!['\u{28e7}', '\u{28b8}']);
}

#[test]
fn kitty_spawn_plan() {
    let screens = strings(&["A", "B", "C"]);
    let cmds = spawn_commands(&screens, 4, "rat-bar", "/tmp/log");
    assert_eq!(cmds.len(), 3);
    let mut first = panel_args("C", 4);
    first.extend(first_command("rat-bar", "/tmp/log"));
    assert_eq!(cmds[0], first);
    let mut a = panel_args("A", 4);
    a.push("rat-bar".to_string());
    assert_eq!(cmds[1], a);
    let mut b = panel_args("B", 4);
    b.push("rat-bar".to_string());
    assert_eq!(cmds[2], b);
    assert!(spawn_commands(&Vec::new(), 4, "rat-bar", "/tmp/log").is_empty());
}

#[test]
fn player_time_text() {
    assert_eq!(time_pair_text(65, 200), "1:05/3:20");
    assert_eq!(time_pair_text(0, 0), "0:00/0:00");
    assert_eq!(time_pair_text(3600, 59), "60:00/0:59");
    assert_eq!(time_pair_text(60 * 65536 + 7, 600), "0:07/10:00");
}

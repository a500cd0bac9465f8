use rat_bar::number::IntErrorKind;
use rat_bar::providers::battery::{Battery, BatteryArgs};
use rat_bar::providers::brightness::{Brightness, BrightnessArgs};
use rat_bar::providers::clock::{Clock, ClockArgs, LocalMoment};
use rat_bar::providers::cpu::{Cpu, CpuArgs};
use rat_bar::providers::media::{
    active_player, at_least, button_requests, escape_parens, media_step, shown_position, ButtonMessage, MediaAction, MediaEvent, PlayerUpdate, RequestKind, SongInfo, format_player, format_time, owner_change, player_buses, PlayerChange, progress, strip_file_prefix, MediaArgs, MediaFormat, PlaybackStatus,
    PlayerSnapshot,
};
use rat_bar::providers::net::{Net, NetArgs};
use rat_bar::providers::niri::{focus_changed, focused_window_text, FocusError};
use rat_bar::providers::{after_round, wait_after, RoundEnd};
use rat_bar::providers::wifi::{Connection, Wifi, WifiArgs};

fn strings(list: &[&str]) -> Vec<String> {
    list.iter().map(|s| s.to_string()).collect()
}

fn battery() -> Battery {
    Battery::init(BatteryArgs {
        duration: 1_000_000_000,
        battery: "BAT0".to_string(),
        charge_icons: strings(&["e", "h", "f"]),
        charging_charge_icons: strings(&["E", "H", "F"]),
    })
}

#[test]
fn battery_reads_and_reports() {
    let mut b = battery();
    assert_eq!((b.now, b.full), (100, 100));
    assert_eq!(b.duration(), Some(1_000_000_000));
    assert_eq!(b.update_from(" 2500\n", "5000\n", "Charging\n".to_string()), Ok(()));
    assert_eq!((b.now, b.full), (2500, 5000));
    let f = b.format();
    assert_eq!(f.charge, 50);
    assert_eq!(f.icon, "H");
    assert_eq!(f.status, "Charging");
    assert_eq!(b.update_from("6000", "5000", "Discharging".to_string()), Ok(()));
    let f = b.format();
    assert_eq!(f.charge, 100);
    assert_eq!(f.icon, "f");
}

#[test]
fn battery_reading_errors() {
    let mut b = battery();
    assert_eq!(b.update_from("", "10", "x".to_string()), Err(IntErrorKind::Empty));
    assert_eq!((b.now, b.full), (100, 100));
    assert_eq!(b.update_from("40", "1o", "x".to_string()), Err(IntErrorKind::InvalidDigit));
    assert_eq!((b.now, b.full), (40, 100));
    assert_eq!(b.status, "");
}

#[test]
fn brightness_reads_and_reports() {
    let mut b = Brightness::init(BrightnessArgs { duration: 5, display: "intel_backlight".to_string(), min_percent: 10 });
    assert_eq!(b.duration(), None);
    assert_eq!(b.update_tick("200\n", "400\n"), Ok(()));
    assert_eq!((b.now, b.max), (200, 400));
    assert_eq!(b.format().brighness, 200);
    b.add_brightness(true, 1);
    assert_eq!(b.now, 600);
    b.add_brightness(false, 1);
    assert_eq!(b.now, 200);
    assert_eq!(b.update_tick("3", "x"), Err(IntErrorKind::InvalidDigit));
    assert_eq!((b.now, b.max), (3, 400));
    assert_eq!(b.format().brighness, (40000u64 / 3 % 256) as u8);
    assert_eq!(b.update_tick("99999999999999999999", "1"), Err(IntErrorKind::PosOverflow));
}

#[test]
fn clock_splits_expressions() {
    let c = Clock::init(ClockArgs { duration: 7, expressions: strings(&["day=%a", "bad", "time=%H:%M=x"]) });
    assert_eq!(c.duration(), Some(7));
    assert_eq!(
        c.expressions,
        vec![("day".to_string(), "%a".to_string()), ("time".to_string(), "%H:%M=x".to_string())]
    );
}

#[test]
fn clock_report_sorted_with_last_text() {
    let c = Clock::init(ClockArgs { duration: 1, expressions: strings(&["time=%R", "day=%a", "time=%H"]) });
    let r = c.report(&strings(&["12:00", "Mon", "12"]));
    assert_eq!(r, vec![("day".to_string(), "Mon".to_string()), ("time".to_string(), "12".to_string())]);
    let empty = Clock::init(ClockArgs { duration: 1, expressions: Vec::new() });
    assert!(empty.report(&Vec::new()).is_empty());
}

#[test]
fn clock_format_shows_local_time() {
    let c = Clock::init(ClockArgs { duration: 1, expressions: strings(&["year=%Y", "a=%%", "b=x"]) });
    let r = c.format().unwrap();
    let names: Vec<&str> = r.iter().map(|(n, _)| n.as_str()).collect();
    assert_eq!(names, vec!["a", "b", "year"]);
    assert_eq!(r[0].1, "%");
    assert_eq!(r[1].1, "x");
    assert_eq!(r[2].1.len(), 4);
    let bad = Clock::init(ClockArgs { duration: 1, expressions: strings(&["ok=%H", "x=%Q"]) });
    assert!(bad.format().is_none());
    let none = Clock::init(ClockArgs { duration: 1, expressions: Vec::new() });
    assert_eq!(none.format(), Some(Vec::new()));
}

#[test]
fn clock_format_at_shows_each_format_under_its_name() {
    let c = Clock::init(ClockArgs { duration: 1, expressions: strings(&["time=%H:%M", "day=%a", "year=%Y"]) });
    let epoch = LocalMoment { secs: 0, nanos: 0, offset: 0 };
    let r = c.format_at(&epoch).unwrap();
    assert_eq!(
        r,
        vec![
            ("day".to_string(), "Thu".to_string()),
            ("time".to_string(), "00:00".to_string()),
            ("year".to_string(), "1970".to_string()),
        ]
    );
    let east = LocalMoment { secs: 86_399, nanos: 0, offset: 3600 };
    let r = c.format_at(&east).unwrap();
    assert_eq!(r[0].1, "Fri");
    assert_eq!(r[1].1, "00:59");
    let bad_offset = LocalMoment { secs: 0, nanos: 0, offset: 86_400 };
    assert!(c.format_at(&bad_offset).is_none());
    let bad = Clock::init(ClockArgs { duration: 1, expressions: strings(&["x=%Q"]) });
    assert!(bad.format_at(&epoch).is_none());
}

#[test]
fn battery_needs_only_the_selected_icons() {
    let mut b = Battery::init(BatteryArgs {
        duration: 1,
        battery: "BAT0".to_string(),
        charge_icons: strings(&["a", "b"]),
        charging_charge_icons: Vec::new(),
    });
    assert_eq!(b.update_from("30", "100", "Discharging".to_string()), Ok(()));
    let f = b.format();
    assert_eq!((f.charge, f.icon.as_str(), f.status.as_str()), (30, "a", "Discharging"));
    let mut c = Battery::init(BatteryArgs {
        duration: 1,
        battery: "BAT0".to_string(),
        charge_icons: Vec::new(),
        charging_charge_icons: strings(&["x", "y", "z"]),
    });
    assert_eq!(c.update_from("100", "100", " charging ".to_string()), Ok(()));
    let f = c.format();
    assert_eq!((f.charge, f.icon.as_str(), f.status.as_str()), (100, "z", "charging"));
}

#[test]
fn cpu_finds_sensor_and_keeps_history() {
    let labels = strings(&["acpitz", "k10temp Tctl", "k10temp Tctl"]);
    let mut c: Cpu<u32> = Cpu::init(CpuArgs { duration: 3, temp_sensor: "k10temp Tctl".to_string(), count: 3 }, &labels, 0);
    assert_eq!(c.sensor, Some(1));
    assert_eq!(c.duration(), Some(3));
    assert_eq!(c.acc.datapoints(), &vec![0, 0, 0]);
    c.update(5);
    c.update(7);
    assert_eq!(c.acc.datapoints(), &vec![0, 5, 7]);
    assert_eq!(c.acc.max_points(), 3);
    let none: Cpu<u32> = Cpu::init(CpuArgs { duration: 3, temp_sensor: "x".to_string(), count: 1 }, &labels, 9);
    assert_eq!(none.sensor, None);
}

#[test]
fn net_chooses_adapter() {
    let names = strings(&["lo", "wlan0", "eth0"]);
    let given = Net::init(NetArgs { duration: 1, adapter: Some("eth0".to_string()) }, &names).unwrap();
    assert_eq!(given.adapter, "eth0");
    let first = Net::init(NetArgs { duration: 2, adapter: None }, &names).unwrap();
    assert_eq!(first.adapter, "wlan0");
    assert_eq!(first.duration(), Some(2));
    assert!(Net::init(NetArgs { duration: 1, adapter: None }, &strings(&["lo"])).is_none());
    assert!(Net::init(NetArgs { duration: 1, adapter: None }, &Vec::new()).is_none());
}

fn wifi(connection: Option<Connection>) -> Wifi {
    Wifi {
        config: WifiArgs {
            duration: 1,
            strength_symbols: vec!['a', 'b', 'c', 'd', 'e'],
            disconnected_symbol: 'x',
            min_dbm: -90,
            max_dbm: -30,
            interface: None,
        },
        connection,
    }
}

#[test]
fn wifi_reports_signal() {
    let f = wifi(Some(Connection { ssid: "home".to_string(), signal: -60 })).format();
    assert_eq!((f.ssid.as_str(), f.percentage, f.dbm, f.symbol.as_str()), ("home", 50, -60, "c "));
    let strong = wifi(Some(Connection { ssid: "n".to_string(), signal: -10 })).format();
    assert_eq!((strong.percentage, strong.symbol.as_str()), (100, "e "));
    let weak = wifi(Some(Connection { ssid: "n".to_string(), signal: -120 })).format();
    assert_eq!((weak.percentage, weak.symbol.as_str()), (0, "a "));
    let off = wifi(None).format();
    assert_eq!((off.ssid.as_str(), off.percentage, off.dbm, off.symbol.as_str()), ("", 0, -100, "x "));
    assert_eq!(wifi(None).duration(), Some(1));
}

#[test]
fn media_times_and_progress() {
    assert_eq!(format_time(None), "xx:xx");
    assert_eq!(format_time(Some(65)), "1:05");
    assert_eq!(format_time(Some(3723)), "1:02:03");
    assert_eq!(format_time(Some(0)), "0:00");
    assert_eq!(progress(Some(30), Some(180)), 6);
    assert_eq!(progress(Some(0), Some(180)), 0);
    assert_eq!(progress(None, Some(180)), 0);
}

#[test]
fn media_text_escaping_and_art() {
    assert_eq!(escape_parens("Song (Live)"), "Song \\(Live\\)");
    assert_eq!(strip_file_prefix("file:///tmp/art.png"), "/tmp/art.png");
    assert_eq!(strip_file_prefix("https://x/y.png"), "");
    let f = MediaFormat::init("⏹");
    assert_eq!((f.length.as_str(), f.position.as_str(), f.button_symbol.as_str()), ("xx:xx", "xx:xx", "⏹"));
}

fn player(bus: &str, identity: &str, status: PlaybackStatus) -> PlayerSnapshot {
    PlayerSnapshot {
        bus: bus.to_string(),
        identity: identity.to_string(),
        status,
        title: "T (1)".to_string(),
        album: "A".to_string(),
        artists: strings(&["X", "Y"]),
        art: "file:///a.png".to_string(),
        position: Some(10),
        length: Some(200),
        volume: 40,
    }
}

#[test]
fn media_player_report() {
    let args = MediaArgs {
        duration: 1,
        playing_symbol: "P".to_string(),
        pause_symbol: "H".to_string(),
        stop_symbol: "S".to_string(),
        priority: PlaybackStatus::Paused,
        players: strings(&["spotify"]),
    };
    let f = format_player(&args, &player("org.mpris.MediaPlayer2.vlc", "VLC", PlaybackStatus::Paused));
    assert_eq!(f.title, "T \\(1\\)");
    assert_eq!(f.artist, "X, Y");
    assert_eq!(f.art, "/a.png");
    assert_eq!(f.button_symbol, "H");
    assert_eq!((f.position.as_str(), f.length.as_str(), f.progress, f.volume), ("0:10", "3:20", 20, 40));
}

#[test]
fn media_active_player_by_preference() {
    assert!(at_least(PlaybackStatus::Playing, PlaybackStatus::Paused));
    assert!(!at_least(PlaybackStatus::Stopped, PlaybackStatus::Paused));
    let players = vec![
        player("org.mpris.MediaPlayer2.vlc", "VLC", PlaybackStatus::Playing),
        player("org.mpris.MediaPlayer2.spotify", "Spotify", PlaybackStatus::Paused),
        player("org.mpris.MediaPlayer2.mpv", "mpv", PlaybackStatus::Stopped),
    ];
    let prefs = strings(&["spotify", "vlc"]);
    assert_eq!(active_player(&players, &prefs, PlaybackStatus::Paused), Some(1));
    assert_eq!(active_player(&players, &prefs, PlaybackStatus::Playing), Some(0));
    assert_eq!(active_player(&players, &strings(&["mpv"]), PlaybackStatus::Paused), Some(0));
    let by_identity = vec![
        player("org.mpris.MediaPlayer2.a", "VLC", PlaybackStatus::Playing),
        player("org.mpris.MediaPlayer2.b", "Spotify", PlaybackStatus::Playing),
    ];
    assert_eq!(active_player(&by_identity, &strings(&["spotify"]), PlaybackStatus::Playing), Some(1));
    let stopped = vec![player("org.mpris.MediaPlayer2.mpv", "mpv", PlaybackStatus::Stopped)];
    assert_eq!(active_player(&stopped, &prefs, PlaybackStatus::Paused), None);
}

#[test]
fn media_player_names_on_the_bus() {
    let names = strings(&[
        "org.freedesktop.DBus",
        "org.mpris.MediaPlayer2.spotify",
        "org.mpris.MediaPlayer2",
        ":1.5",
        "org.mpris.MediaPlayer2.vlc.instance2",
    ]);
    assert_eq!(player_buses(&names), strings(&["org.mpris.MediaPlayer2.spotify", "org.mpris.MediaPlayer2.vlc.instance2"]));
    assert_eq!(owner_change("org.mpris.MediaPlayer2.vlc", true, false), Some(PlayerChange::Removed));
    assert_eq!(owner_change("org.mpris.MediaPlayer2.vlc", false, true), Some(PlayerChange::Added));
    assert_eq!(owner_change("org.mpris.MediaPlayer2.vlc", true, true), None);
    assert_eq!(owner_change("org.mpris.MediaPlayer2", false, true), Some(PlayerChange::Added));
    assert_eq!(owner_change("org.other", false, true), None);
}

#[test]
fn media_step_keeps_the_player_list() {
    let vlc = "org.mpris.MediaPlayer2.vlc";
    let spotify = "org.mpris.MediaPlayer2.spotify";
    let prefs = strings(&["spotify"]);
    let paused = PlaybackStatus::Paused;
    let mut players: Vec<PlayerSnapshot> = Vec::new();
    let a = media_step::<f32>(&mut players, &prefs, paused, MediaEvent::AddPlayer(player(vlc, "VLC", PlaybackStatus::Playing)));
    assert!(matches!(a, MediaAction::Report));
    let a = media_step::<f32>(&mut players, &prefs, paused, MediaEvent::AddPlayer(player(spotify, "Spotify", paused)));
    assert!(matches!(a, MediaAction::Report));
    assert_eq!(players.len(), 2);
    let a = media_step(&mut players, &prefs, paused, MediaEvent::Request(RequestKind::SetPos(50.0f32)));
    assert!(matches!(a, MediaAction::Send { player: 1, kind: RequestKind::SetPos(x) } if x == 50.0));
    let stop = MediaEvent::Update { bus: spotify.to_string(), update: PlayerUpdate::Status(PlaybackStatus::Stopped) };
    assert!(matches!(media_step::<f32>(&mut players, &prefs, paused, stop), MediaAction::Report));
    assert_eq!(players[1].status, PlaybackStatus::Stopped);
    let a = media_step(&mut players, &prefs, paused, MediaEvent::Request(RequestKind::<f32>::Next));
    assert!(matches!(a, MediaAction::Send { player: 0, kind: RequestKind::Next }));
    let song = SongInfo {
        title: "New".to_string(),
        album: "B".to_string(),
        artists: strings(&["Z"]),
        art: String::new(),
        length: Some(90),
    };
    let a = media_step::<f32>(&mut players, &prefs, paused, MediaEvent::Update { bus: vlc.to_string(), update: PlayerUpdate::Song(song) });
    assert!(matches!(a, MediaAction::Report));
    assert_eq!((players[0].title.as_str(), players[0].album.as_str(), players[0].length), ("New", "B", Some(90)));
    assert_eq!((players[0].identity.as_str(), players[0].position, players[0].volume), ("VLC", Some(10), 40));
    media_step::<f32>(&mut players, &prefs, paused, MediaEvent::Update { bus: vlc.to_string(), update: PlayerUpdate::Seeked(Some(5)) });
    media_step::<f32>(&mut players, &prefs, paused, MediaEvent::Update { bus: vlc.to_string(), update: PlayerUpdate::Volume(70) });
    assert_eq!((players[0].position, players[0].volume), (Some(5), 70));
    let unknown = MediaEvent::Update { bus: "org.mpris.MediaPlayer2.mpv".to_string(), update: PlayerUpdate::Volume(1) };
    let a = media_step::<f32>(&mut players, &prefs, paused, unknown);
    assert!(matches!(a, MediaAction::UnknownPlayer(ref b) if b == "org.mpris.MediaPlayer2.mpv"));
    assert!(matches!(media_step::<f32>(&mut players, &prefs, paused, MediaEvent::Tick), MediaAction::Report));
    let a = media_step::<f32>(&mut players, &prefs, paused, MediaEvent::RemovePlayer(vlc.to_string()));
    assert!(matches!(a, MediaAction::QuitPlayer(ref b) if b == vlc));
    assert_eq!(players.len(), 1);
    assert_eq!(players[0].bus, spotify);
    let a = media_step::<f32>(&mut players, &prefs, paused, MediaEvent::RemovePlayer(vlc.to_string()));
    assert!(matches!(a, MediaAction::Report));
    let a = media_step(&mut players, &prefs, paused, MediaEvent::Request(RequestKind::AddVol(5.0f32)));
    assert!(matches!(a, MediaAction::Report));
    let a = media_step::<f32>(&mut players, &prefs, paused, MediaEvent::AddPlayer(player(spotify, "Spotify 2", PlaybackStatus::Playing)));
    assert!(matches!(a, MediaAction::Report));
    assert_eq!(players.len(), 1);
    assert_eq!(players[0].identity, "Spotify 2");
}

#[test]
fn media_button_message_requests() {
    let m = ButtonMessage { next: Some(1.0f32), prev: None, play: Some(0.0), set_pos: Some(-10.0), add_vol: Some(5.0) };
    assert_eq!(
        button_requests(m),
        vec![RequestKind::Next, RequestKind::Play, RequestKind::SetPos(-10.0), RequestKind::AddVol(5.0)]
    );
    let prev = ButtonMessage { next: None, prev: Some(0.0f32), play: None, set_pos: None, add_vol: None };
    assert_eq!(button_requests(prev), vec![RequestKind::Prev]);
    let none: ButtonMessage<f32> = ButtonMessage { next: None, prev: None, play: None, set_pos: None, add_vol: None };
    assert!(button_requests(none).is_empty());
}

#[test]
fn media_position_advances_while_playing() {
    assert_eq!(shown_position(Some(10), PlaybackStatus::Playing, 5), Some(15));
    assert_eq!(shown_position(Some(10), PlaybackStatus::Paused, 5), Some(10));
    assert_eq!(shown_position(Some(10), PlaybackStatus::Stopped, 5), Some(10));
    assert_eq!(shown_position(None, PlaybackStatus::Playing, 5), None);
}

#[test]
fn provider_waits_the_rest_of_its_interval() {
    assert_eq!(wait_after(Some(1000), 300), Some(700));
    assert_eq!(wait_after(Some(1000), 1000), Some(0));
    assert_eq!(wait_after(Some(1000), 5000), Some(0));
    assert_eq!(wait_after(None, 5), None);
}

#[test]
fn provider_rounds_wait_or_stop() {
    assert_eq!(after_round(Some(100), 30, true), RoundEnd::Wait(70));
    assert_eq!(after_round(Some(100), 300, true), RoundEnd::Wait(0));
    assert_eq!(after_round(None, 5, true), RoundEnd::Again);
    assert_eq!(after_round(Some(100), 1, false), RoundEnd::Stop);
    assert_eq!(after_round(None, 1, false), RoundEnd::Stop);
}

#[test]
fn niri_focus_events() {
    assert_eq!(focus_changed("{\"WindowFocusChanged\":{\"id\":3}}\n"), Some(true));
    assert_eq!(focus_changed("{\"WindowsChanged\":{\"windows\":[]}}"), Some(false));
    assert_eq!(focus_changed("[1, 2]"), Some(false));
    assert_eq!(focus_changed("not json"), None);
}

#[test]
fn niri_focused_window_reply() {
    let reply = "{\"Ok\":{\"FocusedWindow\":{\"id\":1, \"title\":\"a b\"}}}\n";
    assert_eq!(focused_window_text(reply), Ok("{\"id\":1, \"title\":\"a b\"}".to_string()));
    assert_eq!(focused_window_text("{\"Ok\":{\"FocusedWindow\":null}}"), Ok("{}".to_string()));
    assert_eq!(focused_window_text("{\"Ok\":{}}"), Ok("{}".to_string()));
    assert_eq!(focused_window_text("{\"Err\":\"no\"}"), Err(FocusError::Refused("no".to_string())));
    assert_eq!(focused_window_text("x"), Err(FocusError::Malformed));
}

#[test]
fn media_preferences_are_lowered() {
    let args = MediaArgs {
        duration: 1,
        playing_symbol: "P".to_string(),
        pause_symbol: "H".to_string(),
        stop_symbol: "S".to_string(),
        priority: PlaybackStatus::Paused,
        players: strings(&["Spotify", "VLC", "mpv"]),
    }
    .init();
    assert_eq!(args.players, strings(&["spotify", "vlc", "mpv"]));
    assert_eq!((args.duration, args.stop_symbol.as_str(), args.priority), (1, "S", PlaybackStatus::Paused));
}

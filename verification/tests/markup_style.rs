use rat_bar::color::{get_color, parse_color, Color};
use rat_bar::markup::{format_string, interpolate, interpolate_string, style_string, Line, Span};
use rat_bar::style::{get_style, parse_style, Style};
use rat_bar::providers::media::escape_parens;
use rat_bar::variables::{MalformedReport, VarValue, Variables};
use rat_bar::widgets::scroll_text::line_width_u16;

fn texts(line: &Line) -> Vec<String> {
    line.spans.iter().map(|s| s.content.clone()).collect()
}

fn bold(style: Style) -> Style {
    let mut s = style;
    s.modifiers.bold = true;
    s
}

#[test]
fn provider_colors_by_name_and_hex() {
    assert_eq!(get_color("Red"), Some(Color::Red));
    assert_eq!(get_color("LightCyan"), Some(Color::LightCyan));
    assert_eq!(get_color("#ff8000"), Some(Color::Rgb(255, 128, 0)));
    assert_eq!(get_color("#1"), Some(Color::Rgb(0, 0, 1)));
    assert_eq!(get_color("red"), None);
    assert_eq!(get_color("#"), None);
    assert_eq!(get_color("#xyz"), None);
}

#[test]
fn layout_colors_as_ratatui_reads_them() {
    assert_eq!(parse_color("red"), Some(Color::Red));
    assert_eq!(parse_color("Light-Blue"), Some(Color::LightBlue));
    assert_eq!(parse_color("bright red"), Some(Color::LightRed));
    assert_eq!(parse_color("grey"), Some(Color::Gray));
    assert_eq!(parse_color("light gray"), Some(Color::White));
    assert_eq!(parse_color("reset"), Some(Color::Reset));
    assert_eq!(parse_color("12"), Some(Color::Indexed(12)));
    assert_eq!(parse_color("#00ff7f"), Some(Color::Rgb(0, 255, 127)));
    assert_eq!(parse_color("#00ff7"), None);
    assert_eq!(parse_color("nope"), None);
}

#[test]
fn provider_style_pieces() {
    let s = get_style("fg:Red,bo,ul");
    assert_eq!(s.fg, Some(Color::Red));
    assert_eq!(s.bg, None);
    assert!(s.modifiers.bold && s.modifiers.underlined);
    assert!(!s.modifiers.italic);
    let t = get_style("bg:#000010,it,xx");
    assert_eq!(t.bg, Some(Color::Rgb(0, 0, 16)));
    assert!(t.modifiers.italic);
    let u = get_style("fg: Red, bo, dm");
    assert_eq!(u, Style::new());
}

#[test]
fn layout_style_pieces_are_trimmed() {
    let s = parse_style(" fg : red , bo , dm, hd");
    assert_eq!(s.fg, Some(Color::Red));
    assert!(s.modifiers.bold && s.modifiers.dim && s.modifiers.hidden);
    assert_eq!(parse_style(""), Style::new());
}

#[test]
fn format_string_styles_marked_text() {
    let line = format_string("$[fg:Green,bo](ok) rest");
    assert_eq!(texts(&line), vec!["ok".to_string(), " rest".to_string()]);
    let mut green = Style::new();
    green.fg = Some(Color::Green);
    assert_eq!(line.spans[0].style, bold(green));
    assert_eq!(line.spans[1].style, Style::new());
}

#[test]
fn format_string_unescapes_parentheses() {
    let line = format_string("before $[it](x\\)y) after");
    assert_eq!(texts(&line), vec!["before ".to_string(), "x)y".to_string(), " after".to_string()]);
    assert!(line.spans[1].style.modifiers.italic);
    let plain = format_string("plain \\(text\\)");
    assert_eq!(texts(&plain), vec!["plain (text)".to_string()]);
    assert!(format_string("").spans.is_empty());
}

#[test]
fn format_and_style_string_differ_in_color_names() {
    let provider = format_string("$[fg:red](x)");
    assert_eq!(provider.spans[0].style.fg, None);
    let layout = style_string("$[fg:red](x)");
    assert_eq!(layout.spans[0].style.fg, Some(Color::Red));
    assert_eq!(texts(&layout), vec!["x".to_string()]);
}

#[test]
fn escaped_text_styles_back_as_one_plain_span() {
    let original = "Song (Live) [x] \\ $5";
    let escaped = escape_parens(original);
    let line = style_string(&escaped);
    assert_eq!(line.spans.len(), 1);
    assert_eq!(line.spans[0].content, original);
    assert_eq!(line.spans[0].style, Style::new());
    assert!(style_string(&escape_parens("")).spans.is_empty());
}

#[test]
fn unclosed_markup_stays_text() {
    let line = format_string("$[bo](open");
    assert_eq!(texts(&line), vec!["$[bo](open".to_string()]);
}

#[test]
fn interpolation_of_known_and_unknown_variables() {
    let mut vars = Variables::new();
    vars.insert("cpu.load".to_string(), VarValue::Text("12".to_string()));
    vars.insert("mem.acc".to_string(), VarValue::Json("[1,2]".to_string()));
    assert_eq!(interpolate("load ${cpu.load}%", &vars), "load 12%");
    assert_eq!(interpolate("${mem.acc}", &vars), "[1,2]");
    assert_eq!(interpolate("${nothing}", &vars), "UNDEFINED");
    assert_eq!(interpolate("no refs", &vars), "no refs");
    assert_eq!(interpolate("${open", &vars), "${open");
}

#[test]
fn layout_interpolation_widens_spaces() {
    let mut vars = Variables::new();
    vars.insert("clock.time".to_string(), VarValue::Text("12:00".to_string()));
    assert_eq!(interpolate_string("at ${clock.time}", &vars), "at\u{2002}12:00");
}

#[test]
fn provider_report_is_read_under_its_name() {
    let mut vars = Variables::new();
    vars.update_provider(
        "cpu",
        vec![("load".to_string(), VarValue::Text("34".to_string())), ("freq".to_string(), VarValue::Json("2.1".to_string()))],
    );
    assert_eq!(vars.get("cpu.load"), Some(&VarValue::Text("34".to_string())));
    assert_eq!(vars.get("cpu.freq").map(|v| v.shown().clone()), Some("2.1".to_string()));
    assert_eq!(vars.get("load"), None);
    vars.insert("cpu.load".to_string(), VarValue::Text("35".to_string()));
    assert_eq!(vars.get("cpu.load").and_then(|v| v.as_str().cloned()), Some("35".to_string()));
}

#[test]
fn widths_of_text() {
    let span = |s: &str| Span { content: s.to_string(), style: Style::new() };
    assert_eq!(span("abc").width(), 3);
    assert_eq!(span("日本").width(), 4);
    assert_eq!(span("").width(), 0);
    let line = Line { spans: vec![Span { content: "ab".to_string(), style: Style::new() }, Span { content: "日".to_string(), style: Style::new() }] };
    assert_eq!(line_width_u16(&line), 4);
}

#[test]
fn provider_lines_become_variables() {
    let mut vars = Variables::new();
    let line = "{\"load\": 12, \"name\": \"cpu0\", \"acc\": [1, 2], \"hot\": false}\n";
    assert_eq!(vars.take_report("cpu", line), Ok(()));
    assert_eq!(vars.get("cpu.load"), Some(&VarValue::Json("12".to_string())));
    assert_eq!(vars.get("cpu.name"), Some(&VarValue::Text("cpu0".to_string())));
    assert_eq!(vars.get("cpu.acc"), Some(&VarValue::Json("[1,2]".to_string())));
    assert_eq!(vars.get("cpu.hot"), Some(&VarValue::Json("false".to_string())));
    assert_eq!(interpolate("${cpu.name}: ${cpu.load}%", &vars), "cpu0: 12%");
}

#[test]
fn malformed_provider_lines_are_refused() {
    let mut vars = Variables::new();
    vars.insert("cpu.load".to_string(), VarValue::Json("1".to_string()));
    for line in ["{\"load\": ", "[1, 2]", "", "load=3", "{\"a\": 1,\n \"é\": x}"] {
        let cause = serde_json::from_str::<serde_json::Map<String, serde_json::Value>>(line).unwrap_err();
        let offset = miette::SourceOffset::from_location(line, cause.line(), cause.column()).offset();
        assert_eq!(
            vars.take_report("cpu", line),
            Err(MalformedReport {
                provider: "cpu".to_string(),
                input: line.to_string(),
                line: cause.line(),
                column: cause.column(),
                offset,
                message: cause.to_string(),
            })
        );
    }
    assert_eq!(vars.get("cpu.load"), Some(&VarValue::Json("1".to_string())));
}

#[test]
fn malformed_report_marks_the_byte_offset() {
    let e = MalformedReport::at("p", "ab\ncdé\nxyz", 2, 4, "m".to_string());
    assert_eq!((e.provider.as_str(), e.line, e.column, e.offset), ("p", 2, 4, 7));
    assert_eq!(e.message, "m");
    assert_eq!(MalformedReport::at("p", "ab\ncdé\nxyz", 3, 2, "m".to_string()).offset, 9);
    assert_eq!(MalformedReport::at("p", "ab", 1, 1, "m".to_string()).offset, 0);
    assert_eq!(MalformedReport::at("p", "ab", 1, 2, "m".to_string()).offset, 1);
    assert_eq!(MalformedReport::at("p", "ab", 5, 5, "m".to_string()).offset, 2);
    assert_eq!(MalformedReport::at("p", "日本", 1, 2, "m".to_string()).offset, 3);
}

#[test]
fn markup_pieces_follow_the_pattern() {
    let line = format_string("$[a]$[bo](x)");
    assert_eq!(texts(&line), vec!["$[a]".to_string(), "x".to_string()]);
    assert!(line.spans[1].style.modifiers.bold);
    let nested = format_string("$[a$[bo](c)");
    assert_eq!(texts(&nested), vec!["$[a".to_string(), "c".to_string()]);
    let broken = format_string("$[bo](a\\\nb)");
    assert_eq!(texts(&broken), vec!["$[bo](a\\\nb)".to_string()]);
    let escaped = format_string("$[bo](a\\\\)b)");
    assert_eq!(texts(&escaped), vec!["a\\\\".to_string(), "b)".to_string()]);
    let two = format_string("$[it](1)$[bo](2)");
    assert_eq!(texts(&two), vec!["1".to_string(), "2".to_string()]);
    assert!(two.spans[0].style.modifiers.italic && two.spans[1].style.modifiers.bold);
}

#[test]
fn references_follow_the_pattern() {
    let mut vars = Variables::new();
    vars.insert("b".to_string(), VarValue::Text("X".to_string()));
    assert_eq!(interpolate("${a${b}}", &vars), "${aX}");
    assert_eq!(interpolate("${}", &vars), "UNDEFINED");
    assert_eq!(interpolate("$${b}{b}", &vars), "$X{b}");
    assert_eq!(interpolate("${b}${b}", &vars), "XX");
}

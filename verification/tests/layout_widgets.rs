use rat_bar::components::provider::{component_layout, default_flex, default_true, AccessCache, ProviderLayoutType, Text as ProviderText};
use rat_bar::geometry::{Position, Rect};
use rat_bar::layout::knuffel::Constraint as OldConstraint;
use rat_bar::layout::{
    BarElement, Block, Borders, Constraint, Direction, Element, Flex, Group, Image, Layout, ProviderMessage, SizeConstraint,
    Text,
};
use rat_bar::markup::{Line, Span};
use rat_bar::number::IntErrorKind;
use rat_bar::style::Style;
use rat_bar::variables::{VarValue, Variables};
use rat_bar::widgets::bar_graph::Marker;
use rat_bar::widgets::kv_bar::{KVBar, KVBarFormat, KVPair};
use rat_bar::widgets::layout::{LayoutElement, LayoutVariant, Size, StackMap, StackMapError};
use rat_bar::widgets::scroll_text::{line_width_u16, visible_line, ScrollTextState};

fn span(s: &str) -> Span {
    Span { content: s.to_string(), style: Style::new() }
}

fn text(s: &str, width: Option<Constraint>) -> Element {
    Element::Text(Text {
        string: s.to_string(),
        width,
        scroll: false,
        on_click: None,
        on_scroll: None,
        scroll_state: ScrollTextState::default_at(0),
    })
}

fn group(direction: Direction, width: Option<Constraint>, elements: Vec<Element>) -> Element {
    Element::Group(Group { direction, width, flex: Flex::Legacy, center: false, spacing: 0, elements })
}

#[test]
fn constraints_read_from_text() {
    assert_eq!(Constraint::from_str("12"), Ok(Constraint::Length(12)));
    assert_eq!(Constraint::from_str("50%"), Ok(Constraint::Percent(50)));
    assert_eq!(Constraint::from_str("2#"), Ok(Constraint::Fill(2)));
    assert_eq!(Constraint::from_str("%"), Err(IntErrorKind::Empty));
    assert_eq!(Constraint::from_str("x#"), Err(IntErrorKind::InvalidDigit));
    assert_eq!(Constraint::from_str("70000"), Err(IntErrorKind::PosOverflow));
    assert_eq!(Constraint::default(), Constraint::Fill(1));
    assert_eq!(Constraint::Percent(30).to_size(), SizeConstraint::Percentage(30));
    assert_eq!(Constraint::Fill(3).to_size(), SizeConstraint::Fill(3));
}

#[test]
fn constraint_round_trip_on_values() {
    for n in [0u16, 1, 99, 65535] {
        assert_eq!(Constraint::from_str(&format!("{n}")), Ok(Constraint::Length(n)));
        assert_eq!(Constraint::from_str(&format!("{n}%")), Ok(Constraint::Percent(n)));
        assert_eq!(Constraint::from_str(&format!("{n}#")), Ok(Constraint::Fill(n)));
    }
}

#[test]
fn earlier_constraints_read_from_text() {
    assert_eq!(OldConstraint::from_str("7"), Ok(OldConstraint::Length(7)));
    assert_eq!(OldConstraint::from_str("25%"), Ok(OldConstraint::Percent(25)));
    assert_eq!(OldConstraint::from_str("2#"), Err(IntErrorKind::InvalidDigit));
    assert_eq!(OldConstraint::default(), OldConstraint::Percent(100));
    assert_eq!(OldConstraint::Length(4).to_size(), SizeConstraint::Length(4));
}

#[test]
fn directions_ignore_case() {
    assert_eq!(Direction::from_str("H"), Ok(Direction::Horizontal));
    assert_eq!(Direction::from_str("Vertical"), Ok(Direction::Vertical));
    assert!(Direction::from_str("diagonal").is_err());
}

#[test]
fn direction_error_names_the_choices() {
    assert_eq!(Direction::from_str("h"), Ok(Direction::Horizontal));
    assert_eq!(Direction::from_str("horizontal"), Ok(Direction::Horizontal));
    assert_eq!(Direction::from_str("v"), Ok(Direction::Vertical));
    assert_eq!(Direction::from_str("VERTICAL"), Ok(Direction::Vertical));
    assert_eq!(Direction::from_str("x"), Err("expected one of: `v`, `vertical`, `h`, `horizontal`"));
    assert_eq!(Direction::from_str(""), Err("expected one of: `v`, `vertical`, `h`, `horizontal`"));
}

#[test]
fn provider_messages_split_at_first_dot() {
    let m = ProviderMessage::from_str("media.play.pause").unwrap();
    assert_eq!(m.provider, "media");
    assert_eq!(m.message, "play.pause");
    assert!(ProviderMessage::from_str("nodot").is_err());
}

#[test]
fn provider_message_error_names_the_pattern() {
    let m = ProviderMessage::from_str(".x").unwrap();
    assert_eq!((m.provider.as_str(), m.message.as_str()), ("", "x"));
    let prev = ProviderMessage::from_str("media.prev").unwrap();
    assert_eq!((prev.provider.as_str(), prev.message.as_str()), ("media", "prev"));
    assert_eq!(ProviderMessage::from_str("play").err(), Some("expected pattern: `provider.message`"));
    assert_eq!(ProviderMessage::from_str("").err(), Some("expected pattern: `provider.message`"));
}

#[test]
fn border_bits() {
    let all = Borders { left: true, right: true, top: true, bottom: true };
    assert_eq!(all.bits(), 15);
    let some = Borders { left: true, right: false, top: true, bottom: false };
    assert_eq!(some.bits(), 9);
}

#[test]
fn element_widths() {
    let vars = Variables::new();
    assert_eq!(text("abc", None).width(&vars), SizeConstraint::Length(3));
    assert_eq!(text("a $[bo](b)", None).width(&vars), SizeConstraint::Length(3));
    assert_eq!(text("abc", Some(Constraint::Percent(10))).width(&vars), SizeConstraint::Percentage(10));
    let v = group(Direction::Vertical, None, vec![text("ab", None), text("abcde", None), text("a", None)]);
    assert_eq!(v.width(&vars), SizeConstraint::Length(5));
    let mixed = group(Direction::Vertical, None, vec![text("ab", None), text("x", Some(Constraint::Fill(1)))]);
    assert_eq!(mixed.width(&vars), SizeConstraint::Fill(1));
    let h = group(Direction::Horizontal, None, vec![text("ab", None)]);
    assert_eq!(h.width(&vars), SizeConstraint::Fill(1));
    let fixed = group(Direction::Vertical, Some(Constraint::Length(9)), vec![]);
    assert_eq!(fixed.width(&vars), SizeConstraint::Length(9));
    let img = Element::Image(Image { var: "media.art".to_string(), width: 6, bg: None, on_click: None, on_scroll: None });
    assert_eq!(img.width(&vars), SizeConstraint::Length(6));
    assert_eq!(img.height(), SizeConstraint::Fill(1));
    assert_eq!(text("x", None).height(), SizeConstraint::Length(1));
}

#[test]
fn text_width_counts_interpolated_value() {
    let mut vars = Variables::new();
    vars.insert("clock.time".to_string(), VarValue::Text("12:30".to_string()));
    assert_eq!(text("${clock.time} h", None).width(&vars), SizeConstraint::Length(7));
    assert_eq!(text("${none}", None).width(&vars), SizeConstraint::Length(9));
}

#[test]
fn layout_chosen_for_height() {
    let el = BarElement {
        block: None,
        fg: None,
        bg: None,
        width: Constraint::Fill(1),
        layout: vec![Layout { n: 1, element: text("a", None) }, Layout { n: 2, element: text("b", None) }],
    };
    assert_eq!(el.layout_index(0), None);
    assert_eq!(el.layout_index(1), Some(0));
    assert_eq!(el.layout_index(2), Some(1));
    assert_eq!(el.layout_index(9), Some(1));
    assert_eq!(el.block_borders(), None);
    let framed = BarElement {
        block: Some(Block { title: None, fg: None, bg: None, borders: None }),
        fg: None,
        bg: None,
        width: Constraint::Fill(1),
        layout: vec![],
    };
    assert_eq!(framed.layout_index(3), None);
    assert_eq!(framed.block_borders(), Some(Borders { left: true, right: true, top: true, bottom: true }));
}

#[test]
fn provider_layout_sizes() {
    let vars = Variables::new();
    let t = ProviderLayoutType::Text(ProviderText::from_string("$[fg:Red](hot) cpu".to_string(), 0));
    assert_eq!(t.width(&vars), SizeConstraint::Length(7));
    assert_eq!(t.height(), SizeConstraint::Length(1));
    let bar = ProviderLayoutType::Bar {
        width: SizeConstraint::Length(4),
        direction: Direction::Horizontal,
        var: "v".to_string(),
        fg: "Red".to_string(),
        bg: "Black".to_string(),
    };
    assert_eq!(bar.height(), SizeConstraint::Length(1));
    let inter = ProviderLayoutType::Interactable {
        inner: Box::new(bar),
        provider: "p".to_string(),
        on_click: None,
        on_scroll: None,
        on_drag: None,
    };
    assert_eq!(inter.width(&vars), SizeConstraint::Length(4));
    let vg = ProviderLayoutType::VGroup {
        width: None,
        center: true,
        elements: vec![
            ProviderLayoutType::Text(ProviderText::from_string("ab".to_string(), 0)),
            ProviderLayoutType::Button { provider: "p".to_string(), name: "b".to_string(), text: "abcd".to_string() },
        ],
    };
    assert_eq!(vg.width(&vars), SizeConstraint::Length(4));
    let g = ProviderLayoutType::Graph {
        width: SizeConstraint::Fill(2),
        var: "v".to_string(),
        fg: "Red".to_string(),
        fill: false,
        marker: Marker::Braille,
    };
    assert_eq!(g.width(&vars), SizeConstraint::Fill(2));
    assert!(default_true());
    assert_eq!(default_flex(), Flex::SpaceBetween);
    assert_eq!(component_layout(0, 3), None);
    assert_eq!(component_layout(2, 3), Some(1));
    assert_eq!(component_layout(5, 3), Some(2));
}

#[test]
fn access_cache_cycle() {
    let mut c = AccessCache::new(5u32);
    assert!(c.accessed());
    c.reset();
    assert!(!c.accessed());
    assert_eq!(*c.get(), 5);
    assert!(c.accessed());
}

#[test]
fn kv_bar_widths() {
    let pairs = || {
        vec![
            KVPair { key: span("A"), values: vec![span("12")] },
            KVPair { key: span("BB"), values: vec![span("3"), span("456")] },
        ]
    };
    let inline = KVBar { pairs: pairs(), format: KVBarFormat::Inline, delimiter: Some(span(":")), spacing: 1, show_keys: true };
    assert_eq!(inline.width(), 16);
    let side = KVBar {
        pairs: pairs(),
        format: KVBarFormat::Horizontal { center: true },
        delimiter: None,
        spacing: 1,
        show_keys: true,
    };
    assert_eq!(side.width(), 7);
    let stacked = KVBar { pairs: pairs(), format: KVBarFormat::Vertical, delimiter: None, spacing: 1, show_keys: true };
    assert_eq!(stacked.width(), 8);
}

#[test]
fn scroll_text_steps() {
    let line = Line { spans: vec![span("abcdef")] };
    let area = Rect { x: 0, y: 0, width: 4, height: 1 };
    let mut st = ScrollTextState::new(10, 100, 0);
    st.tick(&line, area, 50);
    assert_eq!(st.offset, 0);
    st.tick(&line, area, 101);
    assert_eq!((st.offset, st.last_scroll), (1, 101));
    st.tick(&line, area, 112);
    assert_eq!(st.offset, 2);
    st.tick(&line, area, 115);
    assert_eq!(st.offset, 2);
    st.tick(&line, area, 300);
    assert_eq!((st.offset, st.last_scroll), (0, 300));
    let wide = Rect { x: 0, y: 0, width: 10, height: 1 };
    let mut fits = ScrollTextState::new(10, 100, 0);
    fits.tick(&line, wide, 1000);
    assert_eq!((fits.offset, fits.last_scroll), (0, 1000));
}

#[test]
fn scrolled_line_drops_leading_columns() {
    let line = Line { spans: vec![span("ab"), span("cde")] };
    let shown = visible_line(&line, 3);
    let texts: Vec<String> = shown.spans.iter().map(|s| s.content.clone()).collect();
    assert_eq!(texts, vec!["de".to_string()]);
    assert_eq!(line_width_u16(&line), 5);
    let st = ScrollTextState::default_at(7);
    assert_eq!(st, ScrollTextState::new(125_000_000, 1_000_000_000, 7));
}

#[test]
fn stack_map_keeps_pairs() {
    let mut m: StackMap<2> = StackMap::new();
    assert_eq!(m.insert("a".to_string(), "1".to_string()), Ok(0));
    assert_eq!(m.insert("b".to_string(), "2".to_string()), Ok(1));
    assert_eq!(m.insert("c".to_string(), "3".to_string()), Err(StackMapError::Full));
    assert_eq!(m.get("b"), Some(&"2".to_string()));
    assert_eq!(m.get("c"), None);
}

#[test]
fn stack_map_full_leaves_pairs() {
    let mut m: StackMap<1> = StackMap::new();
    assert_eq!(m.insert("k".to_string(), "v".to_string()), Ok(0));
    assert_eq!(m.insert("k".to_string(), "w".to_string()), Err(StackMapError::Full));
    assert_eq!(m.get("k"), Some(&"v".to_string()));
    let mut none: StackMap<0> = StackMap::new();
    assert_eq!(none.insert("a".to_string(), "b".to_string()), Err(StackMapError::Full));
    assert_eq!(none.get("a"), None);
}

#[test]
fn scroll_offset_stays_in_range_over_many_ticks() {
    let line = Line { spans: vec![span("abcdefg")] };
    let area = Rect { x: 0, y: 0, width: 3, height: 1 };
    let mut st = ScrollTextState::new(0, 0, 0);
    let mut seen_end = false;
    for now in 1..200u64 {
        st.tick(&line, area, now);
        assert!(st.offset <= 4);
        if st.offset == 4 {
            seen_end = true;
        }
    }
    assert!(seen_end);
}

#[test]
fn layout_variant_sizes() {
    let l = LayoutVariant::Horizontal(vec![
        LayoutVariant::Element(LayoutElement::Str("ab".to_string())),
        LayoutVariant::Vertical(vec![
            LayoutVariant::Element(LayoutElement::Val("xyz".to_string())),
            LayoutVariant::Element(LayoutElement::Str("é".to_string())),
        ]),
    ]);
    assert_eq!(l.length(), Size { width: 5, height: 2 });
    assert_eq!(LayoutElement::Str("é".to_string()).width(), 2);
}

#[test]
fn rect_edges() {
    let r = Rect { x: 2, y: 3, width: 4, height: 2 };
    assert_eq!((r.right(), r.bottom()), (6, 5));
    assert!(r.contains(Position { x: 5, y: 4 }));
    assert!(!r.contains(Position { x: 6, y: 4 }));
    let edge = Rect { x: 65535, y: 0, width: 10, height: 1 };
    assert_eq!(edge.right(), 65535);
}

#[test]
fn kv_bar_columns_for_drawing() {
    let pairs = || {
        vec![
            KVPair { key: span("A"), values: vec![span("12")] },
            KVPair { key: span("BB"), values: vec![span("3"), span("456")] },
        ]
    };
    let bar = |format: KVBarFormat, show_keys: bool| KVBar { pairs: pairs(), format, delimiter: Some(span(":")), spacing: 1, show_keys };
    assert_eq!(bar(KVBarFormat::Inline, true).inline_constraints(), vec![2, 2, 3, 1, 3]);
    assert_eq!(bar(KVBarFormat::Vertical, true).vertical_constraints(), vec![3, 2, 3]);
    assert_eq!(bar(KVBarFormat::Horizontal { center: false }, true).horizontal_constraints(), vec![2, 3]);
    assert_eq!(bar(KVBarFormat::Horizontal { center: false }, false).horizontal_constraints(), vec![2, 3]);
    assert_eq!(bar(KVBarFormat::Horizontal { center: false }, true).horizontal_rows(), 3);
    assert_eq!(bar(KVBarFormat::Horizontal { center: false }, false).horizontal_rows(), 2);
    let long = KVBar {
        pairs: vec![KVPair { key: span("ABCDE"), values: vec![span("1")] }],
        format: KVBarFormat::Horizontal { center: true },
        delimiter: None,
        spacing: 0,
        show_keys: true,
    };
    assert_eq!(long.horizontal_constraints(), vec![5]);
}

#[test]
fn kv_bar_width_when_measurable() {
    let pair = |k: &str, vs: &[&str]| KVPair { key: span(k), values: vs.iter().map(|v| span(v)).collect() };
    let side = KVBar {
        pairs: vec![pair("A", &["12"]), pair("BB", &["3", "456"])],
        format: KVBarFormat::Horizontal { center: false },
        delimiter: None,
        spacing: 1,
        show_keys: true,
    };
    assert_eq!(side.try_width(), Some(7));
    let missing = KVBar {
        pairs: vec![pair("A", &[])],
        format: KVBarFormat::Horizontal { center: false },
        delimiter: None,
        spacing: 1,
        show_keys: true,
    };
    assert_eq!(missing.try_width(), None);
    let empty = KVBar { pairs: vec![], format: KVBarFormat::Vertical, delimiter: None, spacing: 0, show_keys: true };
    assert_eq!(empty.try_width(), None);
    let wide = KVBar {
        pairs: vec![pair("A", &["1"])],
        format: KVBarFormat::Horizontal { center: false },
        delimiter: None,
        spacing: 65535,
        show_keys: true,
    };
    assert_eq!(wide.try_width(), None);
    let inline = KVBar { pairs: vec![pair("A", &["1"])], format: KVBarFormat::Inline, delimiter: None, spacing: 2, show_keys: false };
    assert_eq!(inline.try_width(), Some(6));
}

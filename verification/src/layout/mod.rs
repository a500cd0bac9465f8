//! The layout file's model: bar elements, their sizes, and the small values the
//! layout file spells as text (constraints, directions, provider messages).
use crate::markup::{formatted, interpolate_string, layout_text, style_string};
use crate::number::{IntErrorKind, parse_unsigned, parse_unsigned_spec};
use crate::style::StyleDialect;
use crate::text::{chars_of, find_char, find_from, range_eq_lower, ascii_lowered, string_of_range};
use crate::variables::{ValueView, Variables};
use crate::widgets::bar_graph::Marker;
use crate::widgets::scroll_text::{ScrollTextState, line_width_u16, width_u16};
use vstd::prelude::*;

pub mod knuffel;

verus! {

/// A size request to the layout solver (ratatui's `Constraint`).
#[derive(Clone, Copy, Debug, PartialEq, Eq, Structural)]
pub enum SizeConstraint {
    Min(u16),
    Max(u16),
    Length(u16),
    Percentage(u16),
    Ratio(u32, u32),
    Fill(u16),
}

/// How a layout places leftover space (ratatui's `Flex`).
#[derive(Clone, Copy, Debug, PartialEq, Eq, Structural)]
pub enum Flex {
    Legacy,
    Start,
    End,
    Center,
    SpaceBetween,
    SpaceEvenly,
    SpaceAround,
}

/// A width as the layout file writes it: `N` columns, `N%` of the area, or `N#`
/// shares of the space left over.
#[derive(Clone, Copy, Debug, PartialEq, Eq, Structural)]
pub enum Constraint {
    Length(u16),
    Percent(u16),
    Fill(u16),
}

/// What a layout constraint text means: a `%` suffix makes a percentage, a `#`
/// suffix a fill share, no suffix a length; the number is a `u16`.
pub open spec fn constraint_spec(t: Seq<char>) -> Result<Constraint, IntErrorKind> {
    if t.len() >= 1 && t.last() == '%' {
        match parse_unsigned_spec(t.drop_last(), 10, 0xffff) {
            Ok(n) => Ok(Constraint::Percent(n as u16)),
            Err(e) => Err(e),
        }
    } else if t.len() >= 1 && t.last() == '#' {
        match parse_unsigned_spec(t.drop_last(), 10, 0xffff) {
            Ok(n) => Ok(Constraint::Fill(n as u16)),
            Err(e) => Err(e),
        }
    } else {
        match parse_unsigned_spec(t, 10, 0xffff) {
            Ok(n) => Ok(Constraint::Length(n as u16)),
            Err(e) => Err(e),
        }
    }
}

impl Constraint {
    /// The width an element gets when the layout names none: one fill share.
    pub fn default() -> (c: Constraint)
        ensures
            c == Constraint::Fill(1),
    {
        Constraint::Fill(1)
    }

    /// Reads a constraint: `12` is 12 columns, `50%` half the area, `2#` two fill shares.
    pub fn from_str(s: &str) -> (r: Result<Constraint, IntErrorKind>)
        ensures
            r == constraint_spec(s@),
    {
        let v = chars_of(s);
        let n = v.len();
        assert(v@.subrange(0, n as int) =~= v@);
        if n >= 1 && (v[n - 1] == '%' || v[n - 1] == '#') {
            assert(v@.subrange(0, n - 1) =~= v@.drop_last());
            match parse_unsigned(&v, 0, n - 1, 10, 0xffff) {
                Ok(x) => if v[n - 1] == '%' {
                    Ok(Constraint::Percent(x as u16))
                } else {
                    Ok(Constraint::Fill(x as u16))
                },
                Err(e) => Err(e),
            }
        } else {
            match parse_unsigned(&v, 0, n, 10, 0xffff) {
                Ok(x) => Ok(Constraint::Length(x as u16)),
                Err(e) => Err(e),
            }
        }
    }

    /// The solver constraint this width stands for.
    pub fn to_size(self) -> (c: SizeConstraint)
        ensures
            c == self.size_spec(),
    {
        match self {
            Constraint::Length(l) => SizeConstraint::Length(l),
            Constraint::Percent(p) => SizeConstraint::Percentage(p),
            Constraint::Fill(f) => SizeConstraint::Fill(f),
        }
    }

    /// The solver constraint this width stands for.
    pub open spec fn size_spec(self) -> SizeConstraint {
        match self {
            Constraint::Length(l) => SizeConstraint::Length(l),
            Constraint::Percent(p) => SizeConstraint::Percentage(p),
            Constraint::Fill(f) => SizeConstraint::Fill(f),
        }
    }
}

/// The direction in which a group or bar lays out.
#[derive(Clone, Copy, Debug, PartialEq, Eq, Structural)]
pub enum Direction {
    Horizontal,
    Vertical,
}

/// The direction a text names, ignoring case: `h`/`horizontal` or `v`/`vertical`.
pub open spec fn direction_spec(t: Seq<char>) -> Option<Direction> {
    let l = ascii_lowered(t);
    if l == seq!['h'] || l == seq!['h', 'o', 'r', 'i', 'z', 'o', 'n', 't', 'a', 'l'] {
        Some(Direction::Horizontal)
    } else if l == seq!['v'] || l == seq!['v', 'e', 'r', 't', 'i', 'c', 'a', 'l'] {
        Some(Direction::Vertical)
    } else {
        None
    }
}

impl Direction {
    /// Reads a direction; case does not matter.
    pub fn from_str(s: &str) -> (r: Result<Direction, &'static str>)
        ensures
            match direction_spec(s@) {
                Some(d) => r == Ok::<Direction, &'static str>(d),
                None => r matches Err(e) && e@ == "expected one of: `v`, `vertical`, `h`, `horizontal`"@,
            },
    {
        let v = chars_of(s);
        let n = v.len();
        assert(v@.subrange(0, n as int) =~= s@);
        let lh: &[char] = &['h'];
        assert(lh@ =~= seq!['h']);
        let h1 = range_eq_lower(&v, 0, n, lh);
        let h2 = range_eq_lower(&v, 0, n, &['h', 'o', 'r', 'i', 'z', 'o', 'n', 't', 'a', 'l']);
        let lv: &[char] = &['v'];
        assert(lv@ =~= seq!['v']);
        let v1 = range_eq_lower(&v, 0, n, lv);
        let v2 = range_eq_lower(&v, 0, n, &['v', 'e', 'r', 't', 'i', 'c', 'a', 'l']);
        assert(h1 == (ascii_lowered(s@) == seq!['h']));
        assert(h2 == (ascii_lowered(s@) == seq!['h', 'o', 'r', 'i', 'z', 'o', 'n', 't', 'a', 'l']));
        assert(v1 == (ascii_lowered(s@) == seq!['v']));
        assert(v2 == (ascii_lowered(s@) == seq!['v', 'e', 'r', 't', 'i', 'c', 'a', 'l']));
        if h1 || h2 {
            Ok(Direction::Horizontal)
        } else if v1 || v2 {
            Ok(Direction::Vertical)
        } else {
            Err("expected one of: `v`, `vertical`, `h`, `horizontal`")
        }
    }
}

/// A message for a provider, written `provider.message` in the layout file.
#[derive(Clone, Debug)]
pub struct ProviderMessage {
    pub provider: String,
    pub message: String,
}

impl ProviderMessage {
    /// Reads `provider.message`: the text up to the first `.` names the provider,
    /// the rest is the message.
    pub fn from_str(s: &str) -> (r: Result<ProviderMessage, &'static str>)
        ensures
            match r {
                Ok(m) => {
                    let k = find_from(s@, '.', 0);
                    0 <= k && m.provider@ == s@.subrange(0, k) && m.message@ == s@.subrange(
                        k + 1,
                        s@.len() as int,
                    )
                },
                Err(e) => find_from(s@, '.', 0) == -1 && e@ == "expected pattern: `provider.message`"@,
            },
    {
        let v = chars_of(s);
        let n = v.len();
        assert(v@.subrange(0, n as int) =~= v@);
        match find_char(&v, 0, n, '.') {
            Some(k) => Ok(
                ProviderMessage {
                    provider: string_of_range(&v, 0, k),
                    message: string_of_range(&v, k + 1, n),
                },
            ),
            None => Err("expected pattern: `provider.message`"),
        }
    }
}

/// Which sides of a block carry a border.
#[derive(Clone, Copy, Debug, PartialEq, Eq, Structural)]
pub struct Borders {
    pub left: bool,
    pub right: bool,
    pub top: bool,
    pub bottom: bool,
}

impl Borders {
    /// The borders as ratatui's `Borders` bit set: top 1, right 2, bottom 4, left 8.
    pub fn bits(self) -> (b: u8)
        ensures
            b == (if self.top { 1u8 } else { 0u8 }) + (if self.right { 2u8 } else { 0u8 }) + (if self.bottom {
                4u8
            } else {
                0u8
            }) + (if self.left { 8u8 } else { 0u8 }),
    {
        let mut b: u8 = 0;
        if self.top {
            b = b + 1;
        }
        if self.right {
            b = b + 2;
        }
        if self.bottom {
            b = b + 4;
        }
        if self.left {
            b = b + 8;
        }
        b
    }
}


/// Elements side by side or stacked.
pub struct Group {
    pub direction: Direction,
    pub width: Option<Constraint>,
    pub flex: Flex,
    pub center: bool,
    pub spacing: u16,
    pub elements: Vec<Element>,
}

/// A line of markup text.
pub struct Text {
    pub string: String,
    pub width: Option<Constraint>,
    pub scroll: bool,
    pub on_click: Option<ProviderMessage>,
    pub on_scroll: Option<ProviderMessage>,
    pub scroll_state: ScrollTextState,
}

/// A bar filled to the percentage a variable holds.
pub struct Bar {
    pub width: Constraint,
    pub direction: Direction,
    pub var: String,
    pub fg: String,
    pub bg: String,
    pub on_click: Option<ProviderMessage>,
    pub on_scroll: Option<ProviderMessage>,
}

/// A graph of the numbers a variable holds.
pub struct Graph {
    pub width: Constraint,
    pub marker: Marker,
    pub fill: bool,
    pub var: String,
    pub fg: String,
    pub on_click: Option<ProviderMessage>,
    pub on_scroll: Option<ProviderMessage>,
}

/// An image whose path a variable holds.
pub struct Image {
    pub var: String,
    pub width: u16,
    pub bg: Option<String>,
    pub on_click: Option<ProviderMessage>,
    pub on_scroll: Option<ProviderMessage>,
}

/// One element of a layout.
pub enum Element {
    Group(Group),
    Text(Text),
    Bar(Bar),
    Graph(Graph),
    Image(Image),
}

/// The width a text takes: its own width if it names one, else the columns of
/// its interpolated, styled line (reduced to 16 bits).
pub open spec fn text_width_spec(t: Text, vars: Map<Seq<char>, ValueView>) -> SizeConstraint {
    match t.width {
        Some(w) => w.size_spec(),
        None => SizeConstraint::Length(
            width_u16(
                formatted(
                    layout_text(t.string@, vars),
                    StyleDialect::Layout,
                ),
            ),
        ),
    }
}

/// The width an element asks for.
pub open spec fn element_width(e: Element, vars: Map<Seq<char>, ValueView>) -> SizeConstraint
    decreases e, 0int,
{
    match e {
        Element::Group(g) => match g.width {
            Some(w) => w.size_spec(),
            None => match g.direction {
                Direction::Horizontal => SizeConstraint::Fill(1),
                Direction::Vertical => match widest_length(g.elements@, 0, 0, vars) {
                    Some(l) => SizeConstraint::Length(l),
                    None => SizeConstraint::Fill(1),
                },
            },
        },
        Element::Text(t) => text_width_spec(t, vars),
        Element::Bar(b) => b.width.size_spec(),
        Element::Graph(g) => g.width.size_spec(),
        Element::Image(i) => SizeConstraint::Length(i.width),
    }
}

/// The largest of `acc` and the widths of `es[k..]` when all of them are
/// lengths; `None` as soon as one is not.
pub open spec fn widest_length(es: Seq<Element>, k: int, acc: u16, vars: Map<Seq<char>, ValueView>) -> Option<u16>
    decreases es, es.len() - k,
{
    if k < 0 || k >= es.len() {
        Some(acc)
    } else {
        match element_width(es[k], vars) {
            SizeConstraint::Length(l) => widest_length(es, k + 1, if l > acc { l } else { acc }, vars),
            _ => None,
        }
    }
}

/// The height an element asks for: a text one row, everything else a fill share.
pub open spec fn element_height(e: Element) -> SizeConstraint {
    match e {
        Element::Text(_) => SizeConstraint::Length(1),
        _ => SizeConstraint::Fill(1),
    }
}

impl Text {
    /// The width this text asks for.
    pub fn width(&self, vars: &Variables) -> (c: SizeConstraint)
        ensures
            c == text_width_spec(*self, vars.view()),
    {
        match self.width {
            Some(w) => w.to_size(),
            None => {
                let string = interpolate_string(self.string.as_str(), vars);
                let line = style_string(string.as_str());
                SizeConstraint::Length(line_width_u16(&line))
            },
        }
    }
}

impl Element {
    /// The width this element asks for: a group its own width, else a fill
    /// share when horizontal, and when vertical the widest of its elements if all
    /// of them ask for lengths (a fill share otherwise); a text its own width or
    /// the columns of its line; a bar or graph its width; an image its columns.
    pub fn width(&self, vars: &Variables) -> (c: SizeConstraint)
        ensures
            c == element_width(*self, vars.view()),
        decreases self,
    {
        match self {
            Element::Group(g) => match g.width {
                Some(w) => w.to_size(),
                None => match g.direction {
                    Direction::Horizontal => SizeConstraint::Fill(1),
                    Direction::Vertical => {
                        let mut acc: u16 = 0;
                        let mut i: usize = 0;
                        while i < g.elements.len()
                            invariant
                                i <= g.elements.len(),
                                *self == Element::Group(*g),
                                g.width is None,
                                g.direction == Direction::Vertical,
                                widest_length(g.elements@, 0, 0, vars.view()) == widest_length(
                                    g.elements@,
                                    i as int,
                                    acc,
                                    vars.view(),
                                ),
                            decreases g.elements.len() - i,
                        {
                            assert(decreases_to!(*self => g.elements@[i as int]));
                            match g.elements[i].width(vars) {
                                SizeConstraint::Length(l) => {
                                    if l > acc {
                                        acc = l;
                                    }
                                },
                                _ => {
                                    return SizeConstraint::Fill(1);
                                },
                            }
                            i += 1;
                        }
                        SizeConstraint::Length(acc)
                    },
                },
            },
            Element::Text(t) => t.width(vars),
            Element::Bar(b) => b.width.to_size(),
            Element::Graph(g) => g.width.to_size(),
            Element::Image(i) => SizeConstraint::Length(i.width),
        }
    }

    /// The height this element asks for: one row for a text, a fill share otherwise.
    pub fn height(&self) -> (c: SizeConstraint)
        ensures
            c == element_height(*self),
    {
        match self {
            Element::Text(_) => SizeConstraint::Length(1),
            _ => SizeConstraint::Fill(1),
        }
    }
}

/// One layout of a bar element, for one height of the bar.
pub struct Layout {
    pub n: u8,
    pub element: Element,
}

/// A block drawn around a bar element.
pub struct Block {
    pub title: Option<String>,
    pub fg: Option<String>,
    pub bg: Option<String>,
    pub borders: Option<Borders>,
}

/// A part of the bar: an optional block and one layout per bar height.
pub struct BarElement {
    pub block: Option<Block>,
    pub fg: Option<String>,
    pub bg: Option<String>,
    pub width: Constraint,
    pub layout: Vec<Layout>,
}

/// Which layout a bar element shows in an area `height` rows high: the one for
/// that height, or the last one when there are fewer layouts; none in an empty area.
pub open spec fn layout_index_spec(height: u16, count: nat) -> Option<nat> {
    if height == 0 || count == 0 {
        None
    } else if height < count {
        Some((height - 1) as nat)
    } else {
        Some((count - 1) as nat)
    }
}

impl BarElement {
    /// Index of the layout shown in an area `height` rows high.
    pub fn layout_index(&self, height: u16) -> (r: Option<usize>)
        ensures
            match r {
                Some(i) => layout_index_spec(height, self.layout.len() as nat) == Some(i as nat)
                    && i < self.layout.len(),
                None => layout_index_spec(height, self.layout.len() as nat) is None,
            },
    {
        if height == 0 || self.layout.len() == 0 {
            None
        } else {
            let h = height as usize;
            let n = if h < self.layout.len() {
                h
            } else {
                self.layout.len()
            };
            Some(n - 1)
        }
    }

    /// The borders of the bar element's block: those it names, or all four.
    pub fn block_borders(&self) -> (b: Option<Borders>)
        ensures
            match self.block {
                Some(bl) => b == Some(
                    match bl.borders {
                        Some(x) => x,
                        None => Borders { left: true, right: true, top: true, bottom: true },
                    },
                ),
                None => b is None,
            },
    {
        match &self.block {
            Some(bl) => Some(
                match bl.borders {
                    Some(x) => x,
                    None => Borders { left: true, right: true, top: true, bottom: true },
                },
            ),
            None => None,
        }
    }
}


proof fn lemma_widest_covers(es: Seq<Element>, k: int, acc: u16, vars: Map<Seq<char>, ValueView>)
    requires
        0 <= k <= es.len(),
        widest_length(es, k, acc, vars) is Some,
    ensures
        acc <= widest_length(es, k, acc, vars)->0,
        forall|j: int| k <= j < es.len() ==> (element_width(#[trigger] es[j], vars) matches SizeConstraint::Length(l)
            && l <= widest_length(es, k, acc, vars)->0),
    decreases es.len() - k,
{
    if k < es.len() {
        match element_width(es[k], vars) {
            SizeConstraint::Length(l) => {
                lemma_widest_covers(es, k + 1, if l > acc { l } else { acc }, vars);
            },
            _ => {},
        }
    }
}

/// A vertical group without its own width is as wide as its widest element
/// when every element asks for a length: no element is cut.
pub proof fn law_vertical_group_fits(g: Group, vars: Map<Seq<char>, ValueView>)
    requires
        g.width is None,
        g.direction == Direction::Vertical,
        forall|j: int| 0 <= j < g.elements@.len() ==> element_width(#[trigger] g.elements@[j], vars) is Length,
    ensures
        element_width(Element::Group(g), vars) matches SizeConstraint::Length(w) && forall|j: int|
            0 <= j < g.elements@.len() ==> (element_width(#[trigger] g.elements@[j], vars) matches SizeConstraint::Length(l) && l <= w),
{
    lemma_widest_all_lengths(g.elements@, 0, 0, vars);
    lemma_widest_covers(g.elements@, 0, 0, vars);
}

proof fn lemma_widest_all_lengths(es: Seq<Element>, k: int, acc: u16, vars: Map<Seq<char>, ValueView>)
    requires
        0 <= k <= es.len(),
        forall|j: int| 0 <= j < es.len() ==> element_width(#[trigger] es[j], vars) is Length,
    ensures
        widest_length(es, k, acc, vars) is Some,
    decreases es.len() - k,
{
    if k < es.len() {
        let w = element_width(es[k], vars);
        assert(w is Length);
        match w {
            SizeConstraint::Length(l) => {
                lemma_widest_all_lengths(es, k + 1, if l > acc { l } else { acc }, vars);
            },
            _ => {},
        }
    }
}


/// A width written as a number followed by `%` or `#` reads back as that
/// percentage or fill share, and a bare number as that length.
pub proof fn law_constraint_round_trip(n: u16)
    ensures
        constraint_spec(crate::number::decimal(n as nat).push('%')) == Ok::<Constraint, IntErrorKind>(Constraint::Percent(n)),
        constraint_spec(crate::number::decimal(n as nat).push('#')) == Ok::<Constraint, IntErrorKind>(Constraint::Fill(n)),
        constraint_spec(crate::number::decimal(n as nat)) == Ok::<Constraint, IntErrorKind>(Constraint::Length(n)),
{
    let t = crate::number::decimal(n as nat);
    crate::number::law_parse_printed(n as nat, 0xffff);
    assert(t.push('%').drop_last() =~= t);
    assert(t.push('#').drop_last() =~= t);
    lemma_decimal_ends_in_digit(n as nat);
}

proof fn lemma_decimal_ends_in_digit(n: nat)
    ensures
        crate::number::decimal(n).len() >= 1,
        '0' <= crate::number::decimal(n).last() <= '9',
{
    if n >= 10 {
        assert(crate::number::decimal(n).last() == crate::number::digit_char(n % 10));
    }
}

} // verus!

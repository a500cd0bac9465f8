//! Layouts that show a provider's variables: groups, texts, images, bars,
//! graphs and buttons, and the sizes they ask for.
use crate::layout::{Direction, Flex, SizeConstraint};
use crate::markup::{format_string, formatted, interpolate, interpolated};
use crate::style::StyleDialect;
use crate::variables::{ValueView, Variables};
use crate::widgets::bar_graph::Marker;
use crate::widgets::scroll_text::{ScrollTextState, line_width_u16, width_u16};
use vstd::prelude::*;

verus! {

/// A value with a flag that records whether it was read since the last reset.
pub struct AccessCache<T> {
    val: T,
    accessed: bool,
}

impl<T> AccessCache<T> {
    /// The value held.
    pub closed spec fn value(&self) -> T {
        self.val
    }

    /// Whether the value was read since the last reset.
    pub closed spec fn was_accessed(&self) -> bool {
        self.accessed
    }

    /// Holds `val`, counted as read.
    pub fn new(val: T) -> (c: AccessCache<T>)
        ensures
            c.value() == val,
            c.was_accessed(),
    {
        AccessCache { val, accessed: true }
    }

    /// Reads the value, which marks it as read.
    pub fn get(&mut self) -> (r: &T)
        ensures
            *r == old(self).value(),
            final(self).value() == old(self).value(),
            final(self).was_accessed(),
    {
        self.accessed = true;
        &self.val
    }

    /// Marks the value as not read.
    pub fn reset(&mut self)
        ensures
            final(self).value() == old(self).value(),
            !final(self).was_accessed(),
    {
        self.accessed = false;
    }

    /// Whether the value was read since the last reset.
    pub fn accessed(&self) -> (b: bool)
        ensures
            b == self.was_accessed(),
    {
        self.accessed
    }
}

/// A line of markup text and its scrolling.
pub struct Text {
    pub string: String,
    pub state: ScrollTextState,
}

impl Text {
    /// The text `string`, at the start of its scrolling at time `now`.
    pub fn from_string(string: String, now: u64) -> (t: Text)
        ensures
            t.string == string,
            t.state == ScrollTextState::spec_default(now),
    {
        Text { string, state: ScrollTextState::default_at(now) }
    }
}

/// The elements of a provider layout.
pub enum ProviderLayoutType {
    /// An element that sends messages to `provider` on clicks and scrolls.
    Interactable {
        inner: Box<ProviderLayoutType>,
        provider: String,
        on_click: Option<String>,
        on_scroll: Option<String>,
        on_drag: Option<String>,
    },
    /// Elements side by side.
    HGroup { width: SizeConstraint, flex: Flex, elements: Vec<ProviderLayoutType> },
    /// Elements stacked, each centered when `center` is set.
    VGroup { width: Option<SizeConstraint>, center: bool, elements: Vec<ProviderLayoutType> },
    /// A line of markup text.
    Text(Text),
    /// An image whose path the variable `var` holds.
    Image { width: u16, var: String },
    /// A bar filled to the percentage the variable `var` holds.
    Bar { width: SizeConstraint, direction: Direction, var: String, fg: String, bg: String },
    /// A graph of the numbers the variable `var` holds.
    Graph { width: SizeConstraint, var: String, fg: String, fill: bool, marker: Marker },
    /// A markup text that reports clicks to `provider` under `name`.
    Button { provider: String, name: String, text: String },
}

/// The width of a markup text: the columns of its interpolated, styled line
/// (reduced to 16 bits).
pub open spec fn markup_width(s: Seq<char>, vars: Map<Seq<char>, ValueView>) -> SizeConstraint {
    SizeConstraint::Length(width_u16(formatted(interpolated(s, vars), StyleDialect::Provider)))
}

/// The width a provider layout element asks for.
pub open spec fn layout_width(e: ProviderLayoutType, vars: Map<Seq<char>, ValueView>) -> SizeConstraint
    decreases e, 0int,
{
    match e {
        ProviderLayoutType::Interactable { inner, .. } => layout_width(*inner, vars),
        ProviderLayoutType::HGroup { width, .. } => width,
        ProviderLayoutType::VGroup { width, elements, .. } => match width {
            Some(w) => w,
            None => match widest_length(elements@, 0, 0, vars) {
                Some(l) => SizeConstraint::Length(l),
                None => SizeConstraint::Fill(1),
            },
        },
        ProviderLayoutType::Text(t) => markup_width(t.string@, vars),
        ProviderLayoutType::Image { width, .. } => SizeConstraint::Length(width),
        ProviderLayoutType::Bar { width, .. } => width,
        ProviderLayoutType::Graph { width, .. } => width,
        ProviderLayoutType::Button { text, .. } => markup_width(text@, vars),
    }
}

/// The largest of `acc` and the widths of `es[k..]` when all of them are
/// lengths; `None` as soon as one is not.
pub open spec fn widest_length(es: Seq<ProviderLayoutType>, k: int, acc: u16, vars: Map<Seq<char>, ValueView>) -> Option<u16>
    decreases es, es.len() - k,
{
    if k < 0 || k >= es.len() {
        Some(acc)
    } else {
        match layout_width(es[k], vars) {
            SizeConstraint::Length(l) => widest_length(es, k + 1, if l > acc { l } else { acc }, vars),
            _ => None,
        }
    }
}

/// The height a provider layout element asks for.
pub open spec fn layout_height(e: ProviderLayoutType) -> SizeConstraint
    decreases e,
{
    match e {
        ProviderLayoutType::Interactable { inner, .. } => layout_height(*inner),
        ProviderLayoutType::Text(_) => SizeConstraint::Length(1),
        ProviderLayoutType::Button { .. } => SizeConstraint::Length(1),
        ProviderLayoutType::Bar { direction, .. } => match direction {
            Direction::Horizontal => SizeConstraint::Length(1),
            Direction::Vertical => SizeConstraint::Fill(1),
        },
        _ => SizeConstraint::Fill(1),
    }
}

fn markup_width_exec(s: &String, vars: &Variables) -> (c: SizeConstraint)
    ensures
        c == markup_width(s@, vars.view()),
{
    let string = interpolate(s.as_str(), vars);
    let line = format_string(string.as_str());
    SizeConstraint::Length(line_width_u16(&line))
}

impl ProviderLayoutType {
    /// The width this element asks for: an interactable its inner element's, a
    /// horizontal group its width, a vertical group its width or else the widest
    /// of its elements if all ask for lengths (a fill share otherwise), a text or
    /// button the columns of its line, an image its columns, a bar or graph its width.
    pub fn width(&self, variables: &Variables) -> (c: SizeConstraint)
        ensures
            c == layout_width(*self, variables.view()),
        decreases self,
    {
        match self {
            ProviderLayoutType::Interactable { inner, .. } => inner.width(variables),
            ProviderLayoutType::HGroup { width, .. } => *width,
            ProviderLayoutType::VGroup { width, elements, .. } => match width {
                Some(w) => *w,
                None => {
                    let mut acc: u16 = 0;
                    let mut i: usize = 0;
                    while i < elements.len()
                        invariant
                            i <= elements.len(),
                            *self == (ProviderLayoutType::VGroup { width: *width, center: self->center, elements: *elements }),
                            width is None,
                            widest_length(elements@, 0, 0, variables.view()) == widest_length(
                                elements@,
                                i as int,
                                acc,
                                variables.view(),
                            ),
                        decreases elements.len() - i,
                    {
                        assert(decreases_to!(*self => elements@[i as int]));
                        match elements[i].width(variables) {
                            SizeConstraint::Length(l) => {
                                if l > acc {
                                    acc = l;
                                }
                            },
                            _ => {
                                return SizeConstraint::Fill(1);
                            },
                        }
                        i += 1;
                    }
                    SizeConstraint::Length(acc)
                },
            },
            ProviderLayoutType::Text(t) => markup_width_exec(&t.string, variables),
            ProviderLayoutType::Image { width, .. } => SizeConstraint::Length(*width),
            ProviderLayoutType::Bar { width, .. } => *width,
            ProviderLayoutType::Graph { width, .. } => *width,
            ProviderLayoutType::Button { text, .. } => markup_width_exec(text, variables),
        }
    }

    /// The height this element asks for: one row for texts, buttons and
    /// horizontal bars, a fill share for the others; an interactable its inner
    /// element's.
    pub fn height(&self) -> (c: SizeConstraint)
        ensures
            c == layout_height(*self),
        decreases self,
    {
        match self {
            ProviderLayoutType::Interactable { inner, .. } => inner.height(),
            ProviderLayoutType::Text(_) => SizeConstraint::Length(1),
            ProviderLayoutType::Button { .. } => SizeConstraint::Length(1),
            ProviderLayoutType::Bar { direction, .. } => match direction {
                Direction::Horizontal => SizeConstraint::Length(1),
                Direction::Vertical => SizeConstraint::Fill(1),
            },
            _ => SizeConstraint::Fill(1),
        }
    }
}

/// The default of a layout's boolean options.
pub fn default_true() -> (b: bool)
    ensures
        b,
{
    true
}

/// The default placement of a horizontal group's leftover space.
pub fn default_flex() -> (f: Flex)
    ensures
        f == Flex::SpaceBetween,
{
    Flex::SpaceBetween
}

/// How an element reacts to the mouse.
pub enum InteractKind {
    /// It sends its message as it is.
    Simple,
    /// It sends the value of a variable.
    Value { var: String },
}

/// A marker for elements that take mouse input.
pub struct Interactible {}

/// A titled block drawn around a component.
pub struct ConfigBlock {
    pub title: String,
}

/// Which layout a component shows in an area `height` rows high: the one for
/// that height, else the last; none in an empty area or without layouts.
pub open spec fn component_layout_spec(height: u16, count: nat) -> Option<nat> {
    if height == 0 || count == 0 {
        None
    } else if (height as nat) - 1 < count {
        Some((height - 1) as nat)
    } else {
        Some((count - 1) as nat)
    }
}

/// Index of the layout a component shows in an area `height` rows high.
pub fn component_layout(height: u16, count: usize) -> (r: Option<usize>)
    ensures
        match r {
            Some(i) => component_layout_spec(height, count as nat) == Some(i as nat) && i < count,
            None => component_layout_spec(height, count as nat) is None,
        },
{
    if height == 0 || count == 0 {
        None
    } else if (height as usize) - 1 < count {
        Some((height as usize) - 1)
    } else {
        Some(count - 1)
    }
}

proof fn lemma_widest_provider(es: Seq<ProviderLayoutType>, k: int, acc: u16, vars: Map<Seq<char>, ValueView>)
    requires
        0 <= k <= es.len(),
        forall|j: int| 0 <= j < es.len() ==> layout_width(#[trigger] es[j], vars) is Length,
    ensures
        widest_length(es, k, acc, vars) matches Some(w) && acc <= w && (forall|j: int|
            k <= j < es.len() ==> (layout_width(#[trigger] es[j], vars) matches SizeConstraint::Length(l) && l <= w))
            && (w == acc || exists|j: int|
            k <= j < es.len() && layout_width(#[trigger] es[j], vars) == SizeConstraint::Length(w)),
    decreases es.len() - k,
{
    if k < es.len() {
        let c = layout_width(es[k], vars);
        assert(c is Length);
        match c {
            SizeConstraint::Length(l) => {
                let next = if l > acc { l } else { acc };
                lemma_widest_provider(es, k + 1, next, vars);
                let w = widest_length(es, k + 1, next, vars)->0;
                if w != next {
                    let j = choose|j: int| k + 1 <= j < es.len() && layout_width(#[trigger] es[j], vars)
                        == SizeConstraint::Length(w);
                    assert(k <= j < es.len() && layout_width(es[j], vars) == SizeConstraint::Length(w));
                } else if next == l && l != acc {
                    assert(layout_width(es[k], vars) == SizeConstraint::Length(w));
                }
            },
            _ => {},
        }
    }
}

/// A vertical group of a provider layout without a width of its own, whose
/// elements all ask for lengths, asks for the length of its widest element: at
/// least each element's length and equal to one of them (nothing when it has no
/// elements), so that no line of it is cut.
pub proof fn law_provider_vertical_group_fits(g: ProviderLayoutType, vars: Map<Seq<char>, ValueView>)
    requires
        g matches ProviderLayoutType::VGroup { width: None, .. },
        forall|j: int| 0 <= j < g->VGroup_elements@.len() ==> layout_width(#[trigger] g->VGroup_elements@[j], vars) is Length,
    ensures
        layout_width(g, vars) matches SizeConstraint::Length(w) && (forall|j: int|
            0 <= j < g->VGroup_elements@.len() ==> (layout_width(#[trigger] g->VGroup_elements@[j], vars) matches SizeConstraint::Length(
                l,
            ) && l <= w)) && (g->VGroup_elements@.len() == 0 ==> w == 0) && (g->VGroup_elements@.len() > 0 ==> exists|j: int|
            0 <= j < g->VGroup_elements@.len() && layout_width(#[trigger] g->VGroup_elements@[j], vars) == SizeConstraint::Length(w)),
{
    let es = g->VGroup_elements@;
    lemma_widest_provider(es, 0, 0, vars);
    let w = widest_length(es, 0, 0, vars)->0;
    if es.len() > 0 && w == 0 {
        assert(layout_width(es[0], vars) is Length);
        assert(layout_width(es[0], vars) == SizeConstraint::Length(0));
    }
}

} // verus!

//! An earlier model of layout elements, with its own constraint spelling
//! (`N` or `N%`, default 100%) and width rules; only groups know their width.
use crate::layout::{Direction, SizeConstraint};
use crate::number::{IntErrorKind, parse_unsigned, parse_unsigned_spec};
use crate::text::chars_of;
use crate::widgets::bar_graph::Marker;
use crate::widgets::scroll_text::ScrollTextState;
use vstd::prelude::*;

verus! {

/// A width: `N` columns or `N%` of the area.
#[derive(Clone, Copy, Debug, PartialEq, Eq, Structural)]
pub enum Constraint {
    Length(u16),
    Percent(u16),
}

/// What a constraint text means in this model.
pub open spec fn constraint_spec(t: Seq<char>) -> Result<Constraint, IntErrorKind> {
    if t.len() >= 1 && t.last() == '%' {
        match parse_unsigned_spec(t.drop_last(), 10, 0xffff) {
            Ok(n) => Ok(Constraint::Percent(n as u16)),
            Err(e) => Err(e),
        }
    } else {
        match parse_unsigned_spec(t, 10, 0xffff) {
            Ok(n) => Ok(Constraint::Length(n as u16)),
            Err(e) => Err(e),
        }
    }
}

impl Constraint {
    /// The whole area.
    pub fn default() -> (c: Constraint)
        ensures
            c == Constraint::Percent(100),
    {
        Constraint::Percent(100)
    }

    /// Reads `N` or `N%`.
    pub fn from_str(s: &str) -> (r: Result<Constraint, IntErrorKind>)
        ensures
            r == constraint_spec(s@),
    {
        let v = chars_of(s);
        let n = v.len();
        assert(v@.subrange(0, n as int) =~= v@);
        if n >= 1 && v[n - 1] == '%' {
            assert(v@.subrange(0, n - 1) =~= v@.drop_last());
            match parse_unsigned(&v, 0, n - 1, 10, 0xffff) {
                Ok(x) => Ok(Constraint::Percent(x as u16)),
                Err(e) => Err(e),
            }
        } else {
            match parse_unsigned(&v, 0, n, 10, 0xffff) {
                Ok(x) => Ok(Constraint::Length(x as u16)),
                Err(e) => Err(e),
            }
        }
    }

    /// The solver constraint this width stands for.
    pub open spec fn size_spec(self) -> SizeConstraint {
        match self {
            Constraint::Length(l) => SizeConstraint::Length(l),
            Constraint::Percent(p) => SizeConstraint::Percentage(p),
        }
    }

    /// The solver constraint this width stands for.
    pub fn to_size(self) -> (c: SizeConstraint)
        ensures
            c == self.size_spec(),
    {
        match self {
            Constraint::Length(l) => SizeConstraint::Length(l),
            Constraint::Percent(p) => SizeConstraint::Percentage(p),
        }
    }
}

/// Elements side by side or stacked.
pub struct Group {
    pub direction: Direction,
    pub width: Option<Constraint>,
    pub center: bool,
    pub on_click: Option<String>,
    pub on_scroll: Option<String>,
    pub elements: Vec<Element>,
}

/// An image whose path a variable holds.
pub struct Image {
    pub width: Constraint,
    pub var: String,
    pub on_click: Option<String>,
    pub on_scroll: Option<String>,
}

/// A line of text.
pub struct Text {
    pub string: String,
    pub width: Option<Constraint>,
    pub scroll: bool,
    pub on_click: Option<String>,
    pub on_scroll: Option<String>,
    pub scroll_state: ScrollTextState,
}

/// A bar filled to the percentage a variable holds.
pub struct Bar {
    pub width: Constraint,
    pub direction: Direction,
    pub var: String,
    pub fg: String,
    pub bg: String,
    pub on_click: Option<String>,
    pub on_scroll: Option<String>,
}

/// A graph of the numbers a variable holds.
pub struct Graph {
    pub width: Constraint,
    pub marker: Option<Marker>,
    pub var: String,
    pub fg: String,
    pub bg: String,
    pub on_click: Option<String>,
    pub on_scroll: Option<String>,
}

/// One element of a layout.
pub enum Element {
    Group(Group),
    Text(Text),
    Bar(Bar),
    Graph(Graph),
    Image(Image),
}

/// The width an element asks for; `None` where the model has no width rule
/// (texts, bars, graphs and images).
pub open spec fn element_width(e: Element) -> Option<SizeConstraint>
    decreases e, 0int,
{
    match e {
        Element::Group(g) => match g.width {
            Some(w) => Some(w.size_spec()),
            None => match g.direction {
                Direction::Horizontal => Some(SizeConstraint::Percentage(100)),
                Direction::Vertical => match widest_length(g.elements@, 0, 0) {
                    Some(Some(l)) => Some(SizeConstraint::Length(l)),
                    Some(None) => Some(SizeConstraint::Percentage(100)),
                    None => None,
                },
            },
        },
        _ => None,
    }
}

/// Folds the widths of `es[k..]` left to right: `Some(Some(max))` when all are
/// lengths, `Some(None)` when one is not (later ones are not asked), and `None`
/// when an element asked has no width rule.
pub open spec fn widest_length(es: Seq<Element>, k: int, acc: u16) -> Option<Option<u16>>
    decreases es, es.len() - k,
{
    if k < 0 || k >= es.len() {
        Some(Some(acc))
    } else {
        match element_width(es[k]) {
            Some(SizeConstraint::Length(l)) => widest_length(es, k + 1, if l > acc { l } else { acc }),
            Some(_) => Some(None),
            None => None,
        }
    }
}

/// The height an element asks for.
pub open spec fn element_height(e: Element) -> SizeConstraint {
    match e {
        Element::Text(_) => SizeConstraint::Length(1),
        Element::Bar(b) => match b.direction {
            Direction::Horizontal => SizeConstraint::Length(1),
            Direction::Vertical => SizeConstraint::Fill(1),
        },
        _ => SizeConstraint::Fill(1),
    }
}

impl Element {
    /// The height this element asks for: one row for a text or a horizontal bar,
    /// a fill share otherwise.
    pub fn height(&self) -> (c: SizeConstraint)
        ensures
            c == element_height(*self),
    {
        match self {
            Element::Text(_) => SizeConstraint::Length(1),
            Element::Bar(b) => match b.direction {
                Direction::Horizontal => SizeConstraint::Length(1),
                Direction::Vertical => SizeConstraint::Fill(1),
            },
            _ => SizeConstraint::Fill(1),
        }
    }

    /// The width this element asks for, where the model has a rule for it: a
    /// group its own width, else the whole area when horizontal, and when vertical
    /// the widest of its elements if all ask for lengths.
    pub fn width(&self) -> (c: SizeConstraint)
        requires
            element_width(*self) is Some,
        ensures
            element_width(*self) == Some(c),
        decreases self,
    {
        match self {
            Element::Group(g) => match g.width {
                Some(w) => w.to_size(),
                None => match g.direction {
                    Direction::Horizontal => SizeConstraint::Percentage(100),
                    Direction::Vertical => {
                        let mut acc: u16 = 0;
                        let mut i: usize = 0;
                        while i < g.elements.len()
                            invariant
                                i <= g.elements.len(),
                                *self == Element::Group(*g),
                                g.width is None,
                                g.direction == Direction::Vertical,
                                widest_length(g.elements@, 0, 0) == widest_length(g.elements@, i as int, acc),
                                widest_length(g.elements@, 0, 0) is Some,
                            decreases g.elements.len() - i,
                        {
                            assert(decreases_to!(*self => g.elements@[i as int]));
                            match g.elements[i].width() {
                                SizeConstraint::Length(l) => {
                                    if l > acc {
                                        acc = l;
                                    }
                                },
                                _ => {
                                    return SizeConstraint::Percentage(100);
                                },
                            }
                            i += 1;
                        }
                        SizeConstraint::Length(acc)
                    },
                },
            },
            _ => SizeConstraint::Fill(1),
        }
    }
}

} // verus!

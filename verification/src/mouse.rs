//! Mouse and key input: which events the bar keeps, which an element takes, and
//! what an element makes of them.
use crate::geometry::{Position, Rect};
use vstd::prelude::*;

verus! {

/// A mouse button.
#[derive(Clone, Copy, Debug, PartialEq, Eq, Structural)]
pub enum MouseButton {
    Left,
    Right,
    Middle,
}

/// What happened with the mouse (crossterm's `MouseEventKind`).
#[derive(Clone, Copy, Debug, PartialEq, Eq, Structural)]
pub enum MouseEventKind {
    Down(MouseButton),
    Up(MouseButton),
    Drag(MouseButton),
    Moved,
    ScrollDown,
    ScrollUp,
    ScrollLeft,
    ScrollRight,
}

/// A mouse event at a cell.
#[derive(Clone, Copy, Debug, PartialEq, Eq, Structural)]
pub struct MouseEvent {
    pub kind: MouseEventKind,
    pub column: u16,
    pub row: u16,
}

/// The cell of an event.
pub open spec fn event_position(e: MouseEvent) -> Position {
    Position { x: e.column, y: e.row }
}

/// The events of `events` that fall in `area`, in order.
pub open spec fn events_in(events: Seq<MouseEvent>, area: Rect) -> Seq<MouseEvent>
    decreases events.len(),
{
    if events.len() == 0 {
        Seq::empty()
    } else if area.contains_spec(event_position(events.last())) {
        events_in(events.drop_last(), area).push(events.last())
    } else {
        events_in(events.drop_last(), area)
    }
}

/// The events of `events` that fall outside `area`, in order.
pub open spec fn events_outside(events: Seq<MouseEvent>, area: Rect) -> Seq<MouseEvent>
    decreases events.len(),
{
    if events.len() == 0 {
        Seq::empty()
    } else if !area.contains_spec(event_position(events.last())) {
        events_outside(events.drop_last(), area).push(events.last())
    } else {
        events_outside(events.drop_last(), area)
    }
}

/// The mouse events not yet taken by an element, and the cell held down.
pub struct MouseState {
    pub events: Vec<MouseEvent>,
    pub clicked: Option<Position>,
}

/// The mouse state after the bar receives the event `e`: a button press is kept
/// and remembered as the held cell, a vertical scroll is kept, a release forgets
/// the held cell, anything else changes nothing.
pub open spec fn record_spec(events: Seq<MouseEvent>, clicked: Option<Position>, e: MouseEvent) -> (Seq<MouseEvent>, Option<Position>) {
    match e.kind {
        MouseEventKind::Down(_) => (events.push(e), Some(event_position(e))),
        MouseEventKind::ScrollUp | MouseEventKind::ScrollDown => (events.push(e), clicked),
        MouseEventKind::Up(_) => (events, None),
        _ => (events, clicked),
    }
}

impl MouseState {
    /// No events, nothing held.
    pub fn new() -> (m: MouseState)
        ensures
            m.events@ == Seq::<MouseEvent>::empty(),
            m.clicked is None,
    {
        MouseState { events: Vec::new(), clicked: None }
    }

    /// Takes the events that fall in `area`, in order; the others stay.
    pub fn capture_events(&mut self, area: Rect) -> (captured: Vec<MouseEvent>)
        ensures
            captured@ == events_in(old(self).events@, area),
            final(self).events@ == events_outside(old(self).events@, area),
            final(self).clicked == old(self).clicked,
    {
        let mut captured: Vec<MouseEvent> = Vec::new();
        let mut rest: Vec<MouseEvent> = Vec::new();
        let mut i: usize = 0;
        while i < self.events.len()
            invariant
                i <= self.events.len(),
                self.events@ == old(self).events@,
                self.clicked == old(self).clicked,
                captured@ == events_in(self.events@.take(i as int), area),
                rest@ == events_outside(self.events@.take(i as int), area),
            decreases self.events.len() - i,
        {
            let e = self.events[i];
            assert(self.events@.take(i + 1).drop_last() =~= self.events@.take(i as int));
            if area.contains(Position { x: e.column, y: e.row }) {
                captured.push(e);
            } else {
                rest.push(e);
            }
            i += 1;
        }
        assert(self.events@.take(i as int) =~= self.events@);
        self.events = rest;
        captured
    }

    /// The held cell, if it lies in `area`.
    pub fn is_click_in(&self, area: Rect) -> (r: Option<Position>)
        ensures
            r == (match self.clicked {
                Some(p) => if area.contains_spec(p) {
                    Some(p)
                } else {
                    None
                },
                None => None,
            }),
    {
        match self.clicked {
            Some(p) => if area.contains(p) {
                Some(p)
            } else {
                None
            },
            None => None,
        }
    }

    /// Receives a mouse event from the terminal.
    pub fn record(&mut self, e: MouseEvent)
        ensures
            (final(self).events@, final(self).clicked) == record_spec(old(self).events@, old(self).clicked, e),
    {
        match e.kind {
            MouseEventKind::Down(_) => {
                self.clicked = Some(Position { x: e.column, y: e.row });
                self.events.push(e);
            },
            MouseEventKind::ScrollUp | MouseEventKind::ScrollDown => {
                self.events.push(e);
            },
            MouseEventKind::Up(_) => {
                self.clicked = None;
            },
            _ => {},
        }
    }
}

/// Every event falls either in the area or outside it: capturing splits the
/// events into two parts whose lengths add up to the whole.
pub proof fn law_capture_splits(events: Seq<MouseEvent>, area: Rect)
    ensures
        events_in(events, area).len() + events_outside(events, area).len() == events.len(),
        forall|i: int| 0 <= i < events_in(events, area).len() ==> area.contains_spec(event_position(#[trigger] events_in(events, area)[i])),
        forall|i: int| 0 <= i < events_outside(events, area).len() ==> !area.contains_spec(event_position(#[trigger] events_outside(events, area)[i])),
    decreases events.len(),
{
    if events.len() > 0 {
        law_capture_splits(events.drop_last(), area);
    }
}

/// Capturing twice in the same area takes nothing the second time.
pub proof fn law_capture_idempotent(events: Seq<MouseEvent>, area: Rect)
    ensures
        events_in(events_outside(events, area), area) == Seq::<MouseEvent>::empty(),
    decreases events.len(),
{
    if events.len() > 0 {
        law_capture_idempotent(events.drop_last(), area);
        if !area.contains_spec(event_position(events.last())) {
            let rest = events_outside(events.drop_last(), area);
            assert(rest.push(events.last()).drop_last() =~= rest);
        }
    }
}

/// What an element does with a captured event: a click at a cell, or a scroll,
/// each with a direction of `1` or `-1`.
#[derive(Clone, Copy, Debug, PartialEq, Eq, Structural)]
pub enum Interaction {
    Click { position: Position, dir: i8 },
    Scroll { dir: i8 },
}

/// Whether an event is a button press.
pub open spec fn is_down(e: MouseEvent) -> bool {
    e.kind is Down
}

/// The direction of a press: left `1`, right `-1`, middle none.
pub open spec fn click_dir(e: MouseEvent) -> Option<i8> {
    match e.kind {
        MouseEventKind::Down(MouseButton::Left) => Some(1i8),
        MouseEventKind::Down(MouseButton::Right) => Some(-1i8),
        _ => None,
    }
}

/// The direction of a scroll: up and right `1`, down and left `-1`.
pub open spec fn scroll_dir(e: MouseEvent) -> Option<i8> {
    match e.kind {
        MouseEventKind::ScrollUp | MouseEventKind::ScrollRight => Some(1i8),
        MouseEventKind::ScrollDown | MouseEventKind::ScrollLeft => Some(-1i8),
        _ => None,
    }
}

/// The clicks among `events` (presses only), in order.
pub open spec fn clicks_of(events: Seq<MouseEvent>) -> Seq<Interaction>
    decreases events.len(),
{
    if events.len() == 0 {
        Seq::empty()
    } else {
        let e = events.last();
        if is_down(e) {
            clicks_of(events.drop_last()).push(
                Interaction::Click { position: event_position(e), dir: click_dir(e).unwrap() },
            )
        } else {
            clicks_of(events.drop_last())
        }
    }
}

/// The scrolls among `events` (everything but presses), in order.
pub open spec fn scrolls_of(events: Seq<MouseEvent>) -> Seq<Interaction>
    decreases events.len(),
{
    if events.len() == 0 {
        Seq::empty()
    } else {
        let e = events.last();
        if !is_down(e) {
            scrolls_of(events.drop_last()).push(Interaction::Scroll { dir: scroll_dir(e).unwrap() })
        } else {
            scrolls_of(events.drop_last())
        }
    }
}

/// What an element of a layout file does with the events it captured: first its
/// clicks, if it reacts to clicks, then its scrolls, if it reacts to scrolls.
/// Presses must be left or right presses, and the other events scrolls.
pub fn interactions(captured: &Vec<MouseEvent>, on_click: bool, on_scroll: bool) -> (r: Vec<Interaction>)
    requires
        on_click ==> forall|i: int| 0 <= i < captured@.len() && is_down(captured@[i]) ==> click_dir(captured@[i]) is Some,
        on_scroll ==> forall|i: int| 0 <= i < captured@.len() && !is_down(captured@[i]) ==> scroll_dir(captured@[i]) is Some,
    ensures
        r@ == (if on_click { clicks_of(captured@) } else { Seq::empty() }) + (if on_scroll {
            scrolls_of(captured@)
        } else {
            Seq::empty()
        }),
{
    let mut clicks: Vec<Interaction> = Vec::new();
    let mut scrolls: Vec<Interaction> = Vec::new();
    let mut i: usize = 0;
    while i < captured.len()
        invariant
            i <= captured.len(),
            on_click ==> forall|k: int| 0 <= k < captured@.len() && is_down(captured@[k]) ==> click_dir(captured@[k]) is Some,
            on_scroll ==> forall|k: int| 0 <= k < captured@.len() && !is_down(captured@[k]) ==> scroll_dir(captured@[k]) is Some,
            on_click ==> clicks@ == clicks_of(captured@.take(i as int)),
            on_scroll ==> scrolls@ == scrolls_of(captured@.take(i as int)),
        decreases captured.len() - i,
    {
        let e = captured[i];
        assert(captured@.take(i + 1).drop_last() =~= captured@.take(i as int));
        match e.kind {
            MouseEventKind::Down(b) => {
                if on_click {
                    let dir: i8 = match b {
                        MouseButton::Left => 1,
                        MouseButton::Right => -1,
                        MouseButton::Middle => {
                            assert(false);
                            0
                        },
                    };
                    clicks.push(Interaction::Click { position: Position { x: e.column, y: e.row }, dir });
                }
            },
            _ => {
                if on_scroll {
                    let dir: i8 = match e.kind {
                        MouseEventKind::ScrollUp | MouseEventKind::ScrollRight => 1,
                        MouseEventKind::ScrollDown | MouseEventKind::ScrollLeft => -1,
                        _ => {
                            assert(false);
                            0
                        },
                    };
                    scrolls.push(Interaction::Scroll { dir });
                }
            },
        }
        i += 1;
    }
    assert(captured@.take(i as int) =~= captured@);
    let mut r: Vec<Interaction> = Vec::new();
    if on_click {
        r = clicks;
    }
    if on_scroll {
        let ghost base = r@;
        let mut j: usize = 0;
        while j < scrolls.len()
            invariant
                j <= scrolls.len(),
                r@ == base + scrolls@.take(j as int),
            decreases scrolls.len() - j,
        {
            r.push(scrolls[j]);
            j += 1;
            assert(r@ =~= base + scrolls@.take(j as int));
        }
        assert(scrolls@.take(j as int) =~= scrolls@);
    }
    assert(r@ =~= (if on_click { clicks_of(captured@) } else { Seq::empty() }) + (if on_scroll {
        scrolls_of(captured@)
    } else {
        Seq::empty()
    }));
    r
}

/// A key of the keyboard, as far as the bar tells keys apart.
#[derive(Clone, Copy, Debug, PartialEq, Eq, Structural)]
pub enum KeyCode {
    Esc,
    Char(char),
    Other,
}

/// The modifier bit of the control key (crossterm's `KeyModifiers::CONTROL`).
pub const CONTROL: u8 = 0b10;

/// Whether a key press quits the bar: `Esc`, `q`, or `c`/`C` with exactly the
/// control modifier held.
pub open spec fn quits_spec(code: KeyCode, modifiers: u8) -> bool {
    code == KeyCode::Esc || code == KeyCode::Char('q') || ((code == KeyCode::Char('c') || code
        == KeyCode::Char('C')) && modifiers == CONTROL)
}

/// Whether a key press quits the bar.
pub fn quits(code: KeyCode, modifiers: u8) -> (b: bool)
    ensures
        b == quits_spec(code, modifiers),
{
    match code {
        KeyCode::Esc => true,
        KeyCode::Char('q') => true,
        KeyCode::Char('c') | KeyCode::Char('C') => modifiers == CONTROL,
        _ => false,
    }
}


/// The clicks a provider layout's interactable element reacts to: left presses
/// (`1`) and right presses (`-1`), in order; other events are skipped.
pub open spec fn provider_clicks(events: Seq<MouseEvent>) -> Seq<Interaction>
    decreases events.len(),
{
    if events.len() == 0 {
        Seq::empty()
    } else {
        let e = events.last();
        match click_dir(e) {
            Some(d) => provider_clicks(events.drop_last()).push(
                Interaction::Click { position: event_position(e), dir: d },
            ),
            None => provider_clicks(events.drop_last()),
        }
    }
}

/// The scrolls a provider layout's interactable element reacts to: up (`1`) and
/// down (`-1`), in order; other events are skipped.
pub open spec fn provider_scrolls(events: Seq<MouseEvent>) -> Seq<Interaction>
    decreases events.len(),
{
    if events.len() == 0 {
        Seq::empty()
    } else {
        let e = events.last();
        match e.kind {
            MouseEventKind::ScrollUp => provider_scrolls(events.drop_last()).push(Interaction::Scroll { dir: 1 }),
            MouseEventKind::ScrollDown => provider_scrolls(events.drop_last()).push(Interaction::Scroll { dir: -1i8 }),
            _ => provider_scrolls(events.drop_last()),
        }
    }
}

/// What a provider layout's interactable element does with the events it
/// captured: its clicks, if it has a click message, then its scrolls, if it has a
/// scroll message.
pub fn provider_interactions(captured: &Vec<MouseEvent>, on_click: bool, on_scroll: bool) -> (r: Vec<Interaction>)
    ensures
        r@ == (if on_click { provider_clicks(captured@) } else { Seq::empty() }) + (if on_scroll {
            provider_scrolls(captured@)
        } else {
            Seq::empty()
        }),
{
    let mut clicks: Vec<Interaction> = Vec::new();
    let mut scrolls: Vec<Interaction> = Vec::new();
    let mut i: usize = 0;
    while i < captured.len()
        invariant
            i <= captured.len(),
            clicks@ == provider_clicks(captured@.take(i as int)),
            scrolls@ == provider_scrolls(captured@.take(i as int)),
        decreases captured.len() - i,
    {
        let e = captured[i];
        assert(captured@.take(i + 1).drop_last() =~= captured@.take(i as int));
        match e.kind {
            MouseEventKind::Down(MouseButton::Left) => clicks.push(
                Interaction::Click { position: Position { x: e.column, y: e.row }, dir: 1 },
            ),
            MouseEventKind::Down(MouseButton::Right) => clicks.push(
                Interaction::Click { position: Position { x: e.column, y: e.row }, dir: -1 },
            ),
            MouseEventKind::ScrollUp => scrolls.push(Interaction::Scroll { dir: 1 }),
            MouseEventKind::ScrollDown => scrolls.push(Interaction::Scroll { dir: -1i8 }),
            _ => {},
        }
        i += 1;
    }
    assert(captured@.take(i as int) =~= captured@);
    let mut r: Vec<Interaction> = Vec::new();
    if on_click {
        r = clicks;
    }
    if on_scroll {
        let ghost base = r@;
        let mut j: usize = 0;
        while j < scrolls.len()
            invariant
                j <= scrolls.len(),
                r@ == base + scrolls@.take(j as int),
            decreases scrolls.len() - j,
        {
            r.push(scrolls[j]);
            j += 1;
            assert(r@ =~= base + scrolls@.take(j as int));
        }
        assert(scrolls@.take(j as int) =~= scrolls@);
    }
    assert(r@ =~= (if on_click { provider_clicks(captured@) } else { Seq::empty() }) + (if on_scroll {
        provider_scrolls(captured@)
    } else {
        Seq::empty()
    }));
    r
}

/// Each captured event adds one interaction of its own, in order: a left press
/// a click at its cell in direction `1` and a right press one in direction
/// `-1`; scrolling up or right a scroll in direction `1` and scrolling down or
/// left one in direction `-1`, so that opposite scrolls go opposite ways. A
/// provider layout's element reads up and down scrolls the same way.
pub proof fn law_event_directions(events: Seq<MouseEvent>, e: MouseEvent)
    ensures
        e.kind == MouseEventKind::Down(MouseButton::Left) ==> clicks_of(events.push(e)) == clicks_of(events).push(
            Interaction::Click { position: Position { x: e.column, y: e.row }, dir: 1i8 },
        ) && scrolls_of(events.push(e)) == scrolls_of(events),
        e.kind == MouseEventKind::Down(MouseButton::Right) ==> clicks_of(events.push(e)) == clicks_of(events).push(
            Interaction::Click { position: Position { x: e.column, y: e.row }, dir: -1i8 },
        ) && scrolls_of(events.push(e)) == scrolls_of(events),
        (e.kind == MouseEventKind::ScrollUp || e.kind == MouseEventKind::ScrollRight) ==> scrolls_of(events.push(e))
            == scrolls_of(events).push(Interaction::Scroll { dir: 1i8 }) && clicks_of(events.push(e)) == clicks_of(events),
        (e.kind == MouseEventKind::ScrollDown || e.kind == MouseEventKind::ScrollLeft) ==> scrolls_of(events.push(e))
            == scrolls_of(events).push(Interaction::Scroll { dir: -1i8 }) && clicks_of(events.push(e)) == clicks_of(events),
        e.kind == MouseEventKind::ScrollUp ==> provider_scrolls(events.push(e)) == provider_scrolls(events).push(
            Interaction::Scroll { dir: 1i8 },
        ),
        e.kind == MouseEventKind::ScrollDown ==> provider_scrolls(events.push(e)) == provider_scrolls(events).push(
            Interaction::Scroll { dir: -1i8 },
        ),
        e.kind == MouseEventKind::Down(MouseButton::Left) ==> provider_clicks(events.push(e)) == provider_clicks(
            events,
        ).push(Interaction::Click { position: Position { x: e.column, y: e.row }, dir: 1i8 }),
        e.kind == MouseEventKind::Down(MouseButton::Right) ==> provider_clicks(events.push(e)) == provider_clicks(
            events,
        ).push(Interaction::Click { position: Position { x: e.column, y: e.row }, dir: -1i8 }),
{
    assert(events.push(e).drop_last() =~= events);
}

} // verus!

//! Text that scrolls when it is wider than its area: it rests at the start,
//! moves one column per interval, rests at the end, and starts over.
use crate::geometry::Rect;
use crate::markup::{Line, Span, SpanView, span_width, spans_width};
use crate::text::{push_char, chars_of};
use vstd::prelude::*;

verus! {

/// The scroll position of a text and its timing; times are in nanoseconds on
/// one monotonic clock.
#[derive(Clone, Copy, Debug, PartialEq, Eq, Structural)]
pub struct ScrollTextState {
    pub offset: u16,
    pub scroll_interval: u64,
    pub rest_duration: u64,
    pub last_scroll: u64,
}

/// Nanoseconds in a second.
pub const NANOS_PER_SEC: u64 = 1_000_000_000;

/// Columns of a line reduced to 16 bits, as `line.width() as u16` gives them.
pub open spec fn width_u16(spans: Seq<SpanView>) -> u16 {
    (spans_width(spans) % 65536) as u16
}

/// The state after one tick at time `now` for a text `w` columns wide in an area
/// `area_width` columns wide.
pub open spec fn tick_spec(st: ScrollTextState, w: u16, area_width: u16, now: u64) -> ScrollTextState {
    let elapsed = if now >= st.last_scroll {
        now - st.last_scroll
    } else {
        0
    };
    if w <= area_width {
        ScrollTextState { offset: 0, last_scroll: now, ..st }
    } else if st.offset == 0 {
        if elapsed > st.rest_duration {
            ScrollTextState { offset: 1, last_scroll: now, ..st }
        } else {
            st
        }
    } else if w - st.offset <= area_width {
        if elapsed > st.rest_duration {
            ScrollTextState { offset: 0, last_scroll: now, ..st }
        } else {
            st
        }
    } else if elapsed > st.scroll_interval {
        ScrollTextState { offset: (st.offset + 1) as u16, last_scroll: now, ..st }
    } else {
        st
    }
}

impl ScrollTextState {
    /// The usual state at time `now`.
    pub open spec fn spec_default(now: u64) -> ScrollTextState {
        ScrollTextState { offset: 0, scroll_interval: NANOS_PER_SEC / 8, rest_duration: NANOS_PER_SEC, last_scroll: now }
    }

    /// A text at its start that last moved at `now`, moving every `interval` and
    /// resting `rest` at either end.
    pub fn new(interval: u64, rest: u64, now: u64) -> (st: ScrollTextState)
        ensures
            st == (ScrollTextState { offset: 0, scroll_interval: interval, rest_duration: rest, last_scroll: now }),
    {
        ScrollTextState { offset: 0, scroll_interval: interval, rest_duration: rest, last_scroll: now }
    }

    /// The usual timing: a step every eighth of a second, a second of rest.
    pub fn default_at(now: u64) -> (st: ScrollTextState)
        ensures
            st == ScrollTextState::spec_default(now),
    {
        ScrollTextState::new(NANOS_PER_SEC / 8, NANOS_PER_SEC, now)
    }

    /// Moves the text for the time `now`, given the line it shows and its area.
    pub fn tick(&mut self, line: &Line, area: Rect, now: u64)
        requires
            width_u16(line@) <= area.width || old(self).offset == 0 || old(self).offset <= width_u16(line@),
        ensures
            *final(self) == tick_spec(*old(self), width_u16(line@), area.width, now),
    {
        let w = line_width_u16(line);
        let elapsed = now.saturating_sub(self.last_scroll);
        if w <= area.width {
            self.offset = 0;
            self.last_scroll = now;
            return;
        }
        if self.offset == 0 {
            if elapsed > self.rest_duration {
                self.offset = 1;
                self.last_scroll = now;
            }
        } else if w - self.offset <= area.width {
            if elapsed > self.rest_duration {
                self.offset = 0;
                self.last_scroll = now;
            }
        } else if elapsed > self.scroll_interval {
            self.offset = self.offset + 1;
            self.last_scroll = now;
        }
    }
}

/// The width of `line` modulo 2^16, without overflow.
pub fn line_width_u16(line: &Line) -> (w: u16)
    ensures
        w == width_u16(line@),
{
    let mut total: u64 = 0;
    let mut i: usize = 0;
    while i < line.spans.len()
        invariant
            i <= line.spans.len(),
            total < 65536,
            total == spans_width(line@.take(i as int)) % 65536,
        decreases line.spans.len() - i,
    {
        assert(line@.take(i + 1).drop_last() =~= line@.take(i as int));
        let w = line.spans[i].width();
        let part = (w % 65536) as u64;
        assert(spans_width(line@.take(i + 1)) == spans_width(line@.take(i as int)) + w);
        assert((spans_width(line@.take(i as int)) + w) % 65536 == (total + part) % 65536) by (nonlinear_arith)
            requires
                total == spans_width(line@.take(i as int)) % 65536,
                part == w % 65536,
        {
            vstd::arithmetic::div_mod::lemma_add_mod_noop(spans_width(line@.take(i as int)) as int, w as int, 65536);
            vstd::arithmetic::div_mod::lemma_add_mod_noop(total as int, part as int, 65536);
            vstd::arithmetic::div_mod::lemma_mod_twice(spans_width(line@.take(i as int)) as int, 65536);
            vstd::arithmetic::div_mod::lemma_mod_twice(w as int, 65536);
        };
        total = (total + part) % 65536;
        i += 1;
    }
    assert(line@.take(i as int) =~= line@);
    total as u16
}

/// The spans of `spans` that remain visible when the first `offset` columns are
/// scrolled away: whole spans are dropped while they fit in the offset, and the
/// span where the offset ends loses that many leading characters.
pub open spec fn scrolled(spans: Seq<SpanView>, offset: nat) -> Seq<SpanView>
    decreases spans.len(),
{
    if spans.len() == 0 || offset == 0 {
        spans
    } else {
        let s = spans[0];
        let w = span_width(s.content);
        if offset >= w {
            scrolled(spans.drop_first(), (offset - w) as nat)
        } else {
            seq![
                SpanView {
                    content: if offset < s.content.len() {
                        s.content.subrange(offset as int, s.content.len() as int)
                    } else {
                        Seq::empty()
                    },
                    style: s.style,
                },
            ] + spans.drop_first()
        }
    }
}

fn skip_chars(s: &String, n: usize) -> (r: String)
    ensures
        r@ == (if n < s@.len() {
            s@.subrange(n as int, s@.len() as int)
        } else {
            Seq::empty()
        }),
{
    let v = chars_of(s.as_str());
    let mut r = String::new();
    let mut i = n;
    if i >= v.len() {
        return r;
    }
    while i < v.len()
        invariant
            n <= i <= v.len(),
            v@ == s@,
            r@ == v@.subrange(n as int, i as int),
        decreases v.len() - i,
    {
        push_char(&mut r, v[i]);
        i += 1;
        assert(r@ =~= v@.subrange(n as int, i as int));
    }
    r
}

fn copy_span(s: &Span) -> (r: Span)
    ensures
        r@ == s@,
{
    Span { content: s.content.clone(), style: s.style }
}

/// The line a scrolling text shows at `offset`.
pub fn visible_line(line: &Line, offset: u16) -> (r: Line)
    ensures
        r@ == scrolled(line@, offset as nat),
{
    let mut out: Vec<Span> = Vec::new();
    let mut left: usize = offset as usize;
    let mut i: usize = 0;
    assert(line@.skip(0) =~= line@);
    assert(out@.map_values(|s: Span| s@) + scrolled(line@, offset as nat) =~= scrolled(line@, offset as nat));
    while i < line.spans.len()
        invariant
            i <= line.spans.len(),
            out@.map_values(|s: Span| s@) + scrolled(line@.skip(i as int), left as nat) == scrolled(
                line@,
                offset as nat,
            ),
        decreases line.spans.len() - i,
    {
        let ghost before = out@.map_values(|s: Span| s@);
        let ghost rest = line@.skip(i as int);
        assert(rest.drop_first() =~= line@.skip(i + 1));
        let span = &line.spans[i];
        let ghost old_left = left;
        if left == 0 {
            out.push(copy_span(span));
            assert(scrolled(rest, 0) == rest);
            assert(scrolled(line@.skip(i + 1), 0) == line@.skip(i + 1));
            assert(out@.map_values(|s: Span| s@) + scrolled(line@.skip(i + 1), left as nat) =~= before
                + scrolled(rest, left as nat));
        } else {
            let w = span.width();
            if left >= w {
                left = left - w;
                assert(out@.map_values(|s: Span| s@) + scrolled(line@.skip(i + 1), left as nat) =~= before
                    + scrolled(rest, (left + w) as nat));
            } else {
                let content = skip_chars(&span.content, left);
                out.push(Span { content, style: span.style });
                left = 0;
                assert(scrolled(line@.skip(i + 1), 0) == line@.skip(i + 1));
                assert(out@.map_values(|s: Span| s@) + scrolled(line@.skip(i + 1), left as nat) =~= before
                    + scrolled(rest, old_left as nat));
            }
        }
        i += 1;
    }
    assert(line@.skip(i as int) =~= Seq::<SpanView>::empty());
    assert(out@.map_values(|s: Span| s@) =~= out@.map_values(|s: Span| s@) + scrolled(line@.skip(i as int), left as nat));
    Line { spans: out }
}


/// The largest offset a text `w` columns wide scrolls to in an area
/// `area_width` columns wide: the offset at which its end is in view.
pub open spec fn max_offset(w: u16, area_width: u16) -> nat {
    if w > area_width {
        (w - area_width) as nat
    } else {
        0
    }
}

/// Scrolling never moves a text past the point where its end is in view, and a
/// text that fits is not scrolled at all.
pub proof fn law_tick_stays_in_range(st: ScrollTextState, w: u16, area_width: u16, now: u64)
    requires
        st.offset <= max_offset(w, area_width),
    ensures
        tick_spec(st, w, area_width, now).offset <= max_offset(w, area_width),
        w <= area_width ==> tick_spec(st, w, area_width, now).offset == 0,
{
}

/// The state after one tick at each of the times `nows`, in order, for a text
/// `w` columns wide in an area `area_width` columns wide.
pub open spec fn ticks(st: ScrollTextState, w: u16, area_width: u16, nows: Seq<u64>) -> ScrollTextState
    decreases nows.len(),
{
    if nows.len() == 0 {
        st
    } else {
        tick_spec(ticks(st, w, area_width, nows.drop_last()), w, area_width, nows.last())
    }
}

/// However many ticks pass over the same line and area, a text that starts in
/// range (at its start, say) stays in range: its offset never passes the columns
/// by which it overflows the area, so its width less its offset never
/// underflows and every later tick may be taken.
pub proof fn law_ticks_stay_in_range(st: ScrollTextState, w: u16, area_width: u16, nows: Seq<u64>)
    requires
        st.offset <= max_offset(w, area_width),
    ensures
        ticks(st, w, area_width, nows).offset <= max_offset(w, area_width),
        ticks(st, w, area_width, nows).offset <= w,
    decreases nows.len(),
{
    if nows.len() > 0 {
        law_ticks_stay_in_range(st, w, area_width, nows.drop_last());
        law_tick_stays_in_range(ticks(st, w, area_width, nows.drop_last()), w, area_width, nows.last());
    }
}

/// The columns of the first `i + 1` spans are those of the first span and of
/// the next `i` after it.
proof fn lemma_prefix_width_shift(spans: Seq<SpanView>, i: int)
    requires
        0 <= i < spans.len(),
    ensures
        spans_width(spans.take(i + 1)) == span_width(spans[0].content) + spans_width(spans.drop_first().take(i)),
    decreases i,
{
    if i == 0 {
        assert(spans.take(1).drop_last() =~= Seq::<SpanView>::empty());
        assert(spans.drop_first().take(0) =~= Seq::<SpanView>::empty());
    } else {
        lemma_prefix_width_shift(spans, i - 1);
        assert(spans.take(i + 1).drop_last() =~= spans.take(i));
        assert(spans.drop_first().take(i).drop_last() =~= spans.drop_first().take(i - 1));
    }
}

/// Scrolling by an offset that ends inside span `i` (past the columns of the
/// spans before it, short of the end of span `i`) shows span `i` without as many
/// leading characters as the offset reaches into it, in its own style, followed
/// by every later span unchanged: only the columns scrolled away are lost.
pub proof fn law_scroll_keeps_later_spans(spans: Seq<SpanView>, i: int, offset: nat)
    requires
        0 <= i < spans.len(),
        spans_width(spans.take(i)) < offset < spans_width(spans.take(i + 1)),
    ensures
        ({
            let r = scrolled(spans, offset);
            let k = offset - spans_width(spans.take(i));
            &&& r.len() == spans.len() - i
            &&& r.drop_first() == spans.skip(i + 1)
            &&& r[0].style == spans[i].style
            &&& r[0].content == (if k < spans[i].content.len() {
                spans[i].content.subrange(k, spans[i].content.len() as int)
            } else {
                Seq::<char>::empty()
            })
        }),
    decreases i,
{
    let w0 = span_width(spans[0].content);
    if i == 0 {
        assert(spans.take(0) =~= Seq::<SpanView>::empty());
        assert(spans.take(1).drop_last() =~= Seq::<SpanView>::empty());
        assert(spans.skip(1) =~= spans.drop_first());
    } else {
        lemma_prefix_width_shift(spans, i - 1);
        lemma_prefix_width_shift(spans, i);
        let rest = spans.drop_first();
        assert(spans_width(rest.take(i - 1)) >= 0);
        assert(offset >= w0);
        law_scroll_keeps_later_spans(rest, i - 1, (offset - w0) as nat);
        assert(rest.skip(i) =~= spans.skip(i + 1));
        assert(rest[i - 1] == spans[i]);
    }
}

/// Scrolling by exactly the columns of the first `i` spans, where span `i - 1`
/// takes some columns, drops those spans whole and shows every later span
/// unchanged.
pub proof fn law_scroll_at_span_boundary(spans: Seq<SpanView>, i: int, offset: nat)
    requires
        0 < i <= spans.len(),
        spans_width(spans.take(i - 1)) < offset == spans_width(spans.take(i)),
    ensures
        scrolled(spans, offset) == spans.skip(i),
    decreases i,
{
    let w0 = span_width(spans[0].content);
    lemma_prefix_width_shift(spans, i - 1);
    if i == 1 {
        assert(spans.take(0) =~= Seq::<SpanView>::empty());
        assert(spans.drop_first().take(0) =~= Seq::<SpanView>::empty());
        assert(spans.skip(1) =~= spans.drop_first());
        assert(offset == w0 && offset > 0);
        assert(scrolled(spans, offset) == scrolled(spans.drop_first(), 0));
    } else {
        lemma_prefix_width_shift(spans, i - 2);
        let rest = spans.drop_first();
        assert(offset >= w0 && offset > 0);
        assert(scrolled(spans, offset) == scrolled(rest, (offset - w0) as nat));
        law_scroll_at_span_boundary(rest, i - 1, (offset - w0) as nat);
        assert(rest.skip(i - 1) =~= spans.skip(i));
    }
}

/// A text that has not scrolled shows all of its spans.
pub proof fn law_scroll_at_start(spans: Seq<SpanView>)
    ensures
        scrolled(spans, 0) == spans,
{
}

} // verus!

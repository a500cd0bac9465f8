//! Text styles and the small style language of the bar markup: a comma separated
//! list of flags (`ul`, `bo`, ...) and colors (`fg:<color>`, `bg:<color>`).
use crate::color::{Color, get_color_range, get_color_spec, parse_color_range, ratatui_color};
use crate::text::{chars_of, find_char, find_from, is_ws, lemma_find_from, range_eq, trim_bounds, trim_end, trim_start, trimmed};
use vstd::prelude::*;

verus! {

/// The text modifiers a style adds (ratatui's `Modifier` flags).
#[derive(Clone, Copy, Debug, PartialEq, Eq, Structural)]
pub struct Modifiers {
    pub bold: bool,
    pub dim: bool,
    pub italic: bool,
    pub underlined: bool,
    pub slow_blink: bool,
    pub rapid_blink: bool,
    pub reversed: bool,
    pub hidden: bool,
    pub crossed_out: bool,
}

/// Foreground and background color and modifiers of a piece of text.
#[derive(Clone, Copy, Debug, PartialEq, Eq, Structural)]
pub struct Style {
    pub fg: Option<Color>,
    pub bg: Option<Color>,
    pub modifiers: Modifiers,
}

/// The style that changes nothing.
pub open spec fn plain_style() -> Style {
    Style {
        fg: None,
        bg: None,
        modifiers: Modifiers {
            bold: false,
            dim: false,
            italic: false,
            underlined: false,
            slow_blink: false,
            rapid_blink: false,
            reversed: false,
            hidden: false,
            crossed_out: false,
        },
    }
}

impl Style {
    /// The style that changes nothing.
    pub fn new() -> (s: Style)
        ensures
            s == plain_style(),
    {
        Style {
            fg: None,
            bg: None,
            modifiers: Modifiers {
                bold: false,
                dim: false,
                italic: false,
                underlined: false,
                slow_blink: false,
                rapid_blink: false,
                reversed: false,
                hidden: false,
                crossed_out: false,
            },
        }
    }
}

/// The two spellings of the style language.
#[derive(Clone, Copy, Debug, PartialEq, Eq, Structural)]
pub enum StyleDialect {
    /// Layout files: pieces are trimmed, colors are read by ratatui, and the
    /// flags `dm` and `hd` exist.
    Layout,
    /// Provider layouts: pieces are taken as written, colors are the sixteen
    /// names or `#` and a hexadecimal number.
    Provider,
}

/// `st` with the flag `name` added; unknown names leave it as it is.
pub open spec fn with_flag(st: Style, name: Seq<char>, d: StyleDialect) -> Style {
    let m = st.modifiers;
    if name == seq!['u', 'l'] {
        Style { modifiers: Modifiers { underlined: true, ..m }, ..st }
    } else if name == seq!['r', 'v'] {
        Style { modifiers: Modifiers { reversed: true, ..m }, ..st }
    } else if name == seq!['i', 't'] {
        Style { modifiers: Modifiers { italic: true, ..m }, ..st }
    } else if name == seq!['b', 'o'] {
        Style { modifiers: Modifiers { bold: true, ..m }, ..st }
    } else if name == seq!['s', 'b'] {
        Style { modifiers: Modifiers { slow_blink: true, ..m }, ..st }
    } else if name == seq!['r', 'b'] {
        Style { modifiers: Modifiers { rapid_blink: true, ..m }, ..st }
    } else if name == seq!['c', 'r'] {
        Style { modifiers: Modifiers { crossed_out: true, ..m }, ..st }
    } else if d == StyleDialect::Layout && name == seq!['d', 'm'] {
        Style { modifiers: Modifiers { dim: true, ..m }, ..st }
    } else if d == StyleDialect::Layout && name == seq!['h', 'd'] {
        Style { modifiers: Modifiers { hidden: true, ..m }, ..st }
    } else {
        st
    }
}

/// The color a `fg:`/`bg:` argument names in the dialect.
pub open spec fn dialect_color(arg: Seq<char>, d: StyleDialect) -> Option<Color> {
    match d {
        StyleDialect::Layout => ratatui_color(trimmed(arg)),
        StyleDialect::Provider => get_color_spec(arg),
    }
}

/// `st` changed by one piece `p` of a style list.
pub open spec fn apply_piece(st: Style, p: Seq<char>, d: StyleDialect) -> Style {
    let c = find_from(p, ':', 0);
    if 0 <= c < p.len() {
        let key = if d == StyleDialect::Layout {
            trimmed(p.subrange(0, c))
        } else {
            p.subrange(0, c)
        };
        let color = dialect_color(p.subrange(c + 1, p.len() as int), d);
        if key == seq!['b', 'g'] {
            match color {
                Some(col) => Style { bg: Some(col), ..st },
                None => st,
            }
        } else if key == seq!['f', 'g'] {
            match color {
                Some(col) => Style { fg: Some(col), ..st },
                None => st,
            }
        } else {
            st
        }
    } else {
        with_flag(st, if d == StyleDialect::Layout { trimmed(p) } else { p }, d)
    }
}

/// `st` changed by each comma separated piece of `t`, left to right.
pub open spec fn apply_pieces(st: Style, t: Seq<char>, d: StyleDialect) -> Style
    decreases t.len(),
{
    let k = find_from(t, ',', 0);
    if 0 <= k < t.len() {
        apply_pieces(apply_piece(st, t.subrange(0, k), d), t.subrange(k + 1, t.len() as int), d)
    } else {
        apply_piece(st, t, d)
    }
}

/// The style a style list `t` describes.
pub open spec fn style_spec(t: Seq<char>, d: StyleDialect) -> Style {
    apply_pieces(plain_style(), t, d)
}

fn apply_flag(st: Style, v: &Vec<char>, lo: usize, hi: usize, d: StyleDialect) -> (r: Style)
    requires
        lo <= hi <= v.len(),
    ensures
        r == with_flag(st, v@.subrange(lo as int, hi as int), d),
{
    let mut m = st.modifiers;
    if range_eq(v, lo, hi, &['u', 'l']) {
        m.underlined = true;
    } else if range_eq(v, lo, hi, &['r', 'v']) {
        m.reversed = true;
    } else if range_eq(v, lo, hi, &['i', 't']) {
        m.italic = true;
    } else if range_eq(v, lo, hi, &['b', 'o']) {
        m.bold = true;
    } else if range_eq(v, lo, hi, &['s', 'b']) {
        m.slow_blink = true;
    } else if range_eq(v, lo, hi, &['r', 'b']) {
        m.rapid_blink = true;
    } else if range_eq(v, lo, hi, &['c', 'r']) {
        m.crossed_out = true;
    } else if d == StyleDialect::Layout && range_eq(v, lo, hi, &['d', 'm']) {
        m.dim = true;
    } else if d == StyleDialect::Layout && range_eq(v, lo, hi, &['h', 'd']) {
        m.hidden = true;
    } else {
        return st;
    }
    Style { modifiers: m, ..st }
}

fn apply_piece_exec(st: Style, v: &Vec<char>, lo: usize, hi: usize, d: StyleDialect) -> (r: Style)
    requires
        lo <= hi <= v.len(),
    ensures
        r == apply_piece(st, v@.subrange(lo as int, hi as int), d),
{
    let ghost p = v@.subrange(lo as int, hi as int);
    match find_char(v, lo, hi, ':') {
        Some(c) => {
            let ghost cc = (c - lo) as int;
            assert(p.subrange(0, cc) =~= v@.subrange(lo as int, c as int));
            assert(p.subrange(cc + 1, p.len() as int) =~= v@.subrange(c + 1, hi as int));
            let (klo, khi) = if d == StyleDialect::Layout {
                trim_bounds(v, lo, c)
            } else {
                (lo, c)
            };
            let is_bg = range_eq(v, klo, khi, &['b', 'g']);
            let is_fg = range_eq(v, klo, khi, &['f', 'g']);
            if !is_bg && !is_fg {
                return st;
            }
            let color = match d {
                StyleDialect::Layout => {
                    let (alo, ahi) = trim_bounds(v, c + 1, hi);
                    parse_color_range(v, alo, ahi)
                },
                StyleDialect::Provider => get_color_range(v, c + 1, hi),
            };
            match color {
                Some(col) => if is_bg {
                    Style { bg: Some(col), ..st }
                } else {
                    Style { fg: Some(col), ..st }
                },
                None => st,
            }
        },
        None => {
            if d == StyleDialect::Layout {
                let (a, b) = trim_bounds(v, lo, hi);
                apply_flag(st, v, a, b, d)
            } else {
                apply_flag(st, v, lo, hi, d)
            }
        },
    }
}

/// The style the list `v[lo..hi]` describes.
pub fn style_of_range(v: &Vec<char>, lo: usize, hi: usize, d: StyleDialect) -> (r: Style)
    requires
        lo <= hi <= v.len(),
    ensures
        r == style_spec(v@.subrange(lo as int, hi as int), d),
{
    let mut st = Style::new();
    let mut p = lo;
    loop
        invariant
            lo <= p <= hi <= v.len(),
            apply_pieces(st, v@.subrange(p as int, hi as int), d) == style_spec(
                v@.subrange(lo as int, hi as int),
                d,
            ),
        decreases hi - p,
    {
        let ghost t = v@.subrange(p as int, hi as int);
        match find_char(v, p, hi, ',') {
            Some(k) => {
                assert(t.subrange(0, (k - p) as int) =~= v@.subrange(p as int, k as int));
                assert(t.subrange((k - p) + 1, t.len() as int) =~= v@.subrange(
                    k + 1,
                    hi as int,
                ));
                st = apply_piece_exec(st, v, p, k, d);
                p = k + 1;
            },
            None => {
                return apply_piece_exec(st, v, p, hi, d);
            },
        }
    }
}

/// The style a layout file's style list describes, e.g. `"ul, fg:red"`.
pub fn parse_style(s: &str) -> (r: Style)
    ensures
        r == style_spec(s@, StyleDialect::Layout),
{
    let v = chars_of(s);
    assert(v@.subrange(0, v.len() as int) =~= v@);
    style_of_range(&v, 0, v.len(), StyleDialect::Layout)
}

/// The style a provider layout's style list describes, e.g. `"ul,fg:Red"`.
pub fn get_style(s: &str) -> (r: Style)
    ensures
        r == style_spec(s@, StyleDialect::Provider),
{
    let v = chars_of(s);
    assert(v@.subrange(0, v.len() as int) =~= v@);
    style_of_range(&v, 0, v.len(), StyleDialect::Provider)
}

/// Whether `after` is `before` with the modifiers marked `true` here turned on
/// and every other one left as it was.
pub open spec fn only_changed(before: Modifiers, after: Modifiers, bold: bool, dim: bool, italic: bool, underlined: bool, slow_blink: bool, rapid_blink: bool, reversed: bool, hidden: bool, crossed_out: bool) -> bool {
    &&& after.bold == (before.bold || bold)
    &&& after.dim == (before.dim || dim)
    &&& after.italic == (before.italic || italic)
    &&& after.underlined == (before.underlined || underlined)
    &&& after.slow_blink == (before.slow_blink || slow_blink)
    &&& after.rapid_blink == (before.rapid_blink || rapid_blink)
    &&& after.reversed == (before.reversed || reversed)
    &&& after.hidden == (before.hidden || hidden)
    &&& after.crossed_out == (before.crossed_out || crossed_out)
}

/// Each flag of a style list turns on its own modifier and nothing else:
/// `ul` underlined, `rv` reversed, `it` italic, `bo` bold, `sb` slow blink,
/// `rb` rapid blink, `cr` crossed out, and in layout files `dm` dim and `hd`
/// hidden; the colors stay as they were.
pub proof fn law_flag_sets_its_modifier(st: Style, d: StyleDialect)
    ensures
        ({
            let m = st.modifiers;
            &&& only_changed(m, with_flag(st, seq!['u', 'l'], d).modifiers, false, false, false, true, false, false, false, false, false)
            &&& only_changed(m, with_flag(st, seq!['r', 'v'], d).modifiers, false, false, false, false, false, false, true, false, false)
            &&& only_changed(m, with_flag(st, seq!['i', 't'], d).modifiers, false, false, true, false, false, false, false, false, false)
            &&& only_changed(m, with_flag(st, seq!['b', 'o'], d).modifiers, true, false, false, false, false, false, false, false, false)
            &&& only_changed(m, with_flag(st, seq!['s', 'b'], d).modifiers, false, false, false, false, true, false, false, false, false)
            &&& only_changed(m, with_flag(st, seq!['r', 'b'], d).modifiers, false, false, false, false, false, true, false, false, false)
            &&& only_changed(m, with_flag(st, seq!['c', 'r'], d).modifiers, false, false, false, false, false, false, false, false, true)
            &&& d == StyleDialect::Layout ==> only_changed(m, with_flag(st, seq!['d', 'm'], d).modifiers, false, true, false, false, false, false, false, false, false)
            &&& d == StyleDialect::Layout ==> only_changed(m, with_flag(st, seq!['h', 'd'], d).modifiers, false, false, false, false, false, false, false, true, false)
        }),
        forall|f: Seq<char>| (#[trigger] with_flag(st, f, d)).fg == st.fg && with_flag(st, f, d).bg == st.bg,
{
    assert(seq!['r', 'v'] != seq!['u', 'l']);
    assert(seq!['i', 't'] != seq!['u', 'l'] && seq!['i', 't'] != seq!['r', 'v']);
    assert(seq!['b', 'o'] != seq!['u', 'l'] && seq!['b', 'o'] != seq!['r', 'v'] && seq!['b', 'o'] != seq!['i', 't']);
    assert(seq!['s', 'b'] != seq!['u', 'l'] && seq!['s', 'b'] != seq!['r', 'v'] && seq!['s', 'b'] != seq!['i', 't']
        && seq!['s', 'b'] != seq!['b', 'o']);
    assert(seq!['r', 'b'] != seq!['u', 'l'] && seq!['r', 'b'] != seq!['r', 'v'] && seq!['r', 'b'] != seq!['i', 't']
        && seq!['r', 'b'] != seq!['b', 'o'] && seq!['r', 'b'] != seq!['s', 'b']);
    assert(seq!['c', 'r'] != seq!['u', 'l'] && seq!['c', 'r'] != seq!['r', 'v'] && seq!['c', 'r'] != seq!['i', 't']
        && seq!['c', 'r'] != seq!['b', 'o'] && seq!['c', 'r'] != seq!['s', 'b'] && seq!['c', 'r'] != seq!['r', 'b']);
    assert(seq!['d', 'm'] != seq!['u', 'l'] && seq!['d', 'm'] != seq!['r', 'v'] && seq!['d', 'm'] != seq!['i', 't']
        && seq!['d', 'm'] != seq!['b', 'o'] && seq!['d', 'm'] != seq!['s', 'b'] && seq!['d', 'm'] != seq!['r', 'b']
        && seq!['d', 'm'] != seq!['c', 'r']);
    assert(seq!['h', 'd'] != seq!['u', 'l'] && seq!['h', 'd'] != seq!['r', 'v'] && seq!['h', 'd'] != seq!['i', 't']
        && seq!['h', 'd'] != seq!['b', 'o'] && seq!['h', 'd'] != seq!['s', 'b'] && seq!['h', 'd'] != seq!['r', 'b']
        && seq!['h', 'd'] != seq!['c', 'r'] && seq!['h', 'd'] != seq!['d', 'm']);
}

/// A style list of one flag gives the plain style with that flag's modifier
/// alone: `rv` reverses, `cr` crosses out, and so on.
pub proof fn law_single_flag_styles(d: StyleDialect)
    ensures
        ({
            let p = plain_style().modifiers;
            &&& style_spec(seq!['u', 'l'], d).fg is None && style_spec(seq!['u', 'l'], d).bg is None
            &&& only_changed(p, style_spec(seq!['u', 'l'], d).modifiers, false, false, false, true, false, false, false, false, false)
            &&& only_changed(p, style_spec(seq!['r', 'v'], d).modifiers, false, false, false, false, false, false, true, false, false)
            &&& only_changed(p, style_spec(seq!['i', 't'], d).modifiers, false, false, true, false, false, false, false, false, false)
            &&& only_changed(p, style_spec(seq!['b', 'o'], d).modifiers, true, false, false, false, false, false, false, false, false)
            &&& only_changed(p, style_spec(seq!['s', 'b'], d).modifiers, false, false, false, false, true, false, false, false, false)
            &&& only_changed(p, style_spec(seq!['r', 'b'], d).modifiers, false, false, false, false, false, true, false, false, false)
            &&& only_changed(p, style_spec(seq!['c', 'r'], d).modifiers, false, false, false, false, false, false, false, false, true)
        }),
{
    law_flag_sets_its_modifier(plain_style(), d);
    lemma_single_piece(seq!['u', 'l'], d);
    lemma_single_piece(seq!['r', 'v'], d);
    lemma_single_piece(seq!['i', 't'], d);
    lemma_single_piece(seq!['b', 'o'], d);
    lemma_single_piece(seq!['s', 'b'], d);
    lemma_single_piece(seq!['r', 'b'], d);
    lemma_single_piece(seq!['c', 'r'], d);
}

proof fn lemma_single_piece(f: Seq<char>, d: StyleDialect)
    requires
        f.len() == 2,
        f[0] != ',' && f[1] != ',' && f[0] != ':' && f[1] != ':',
        'a' <= f[0] <= 'z' && 'a' <= f[1] <= 'z',
    ensures
        style_spec(f, d) == with_flag(plain_style(), f, d),
{
    assert(find_from(f, ',', 2) == -1);
    assert(find_from(f, ',', 1) == -1);
    assert(find_from(f, ',', 0) == -1);
    assert(find_from(f, ':', 2) == -1);
    assert(find_from(f, ':', 1) == -1);
    assert(find_from(f, ':', 0) == -1);
    assert(!is_ws(f[0]) && !is_ws(f[1]));
    assert(trim_start(f) == f);
    assert(trim_end(f) == f);
}

} // verus!

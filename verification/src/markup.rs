//! The markup of bar texts: `${provider.variable}` references, replaced by the
//! variables' values, and `$[style](text)` pieces, which give `text` a style.
//! Inside styled text `\)` and `\(` stand for `)` and `(`.
use crate::style::{Style, StyleDialect, plain_style, style_of_range, style_spec};
use crate::text::{chars_of, is_whitespace, is_ws, push_char, string_of, string_of_range};
use crate::variables::{
    ValueView, Variables, distinct_names, law_provider_report_readable, qualified, with_provider_vars,
};
use vstd::prelude::*;

verus! {

/// Index of the `}` that closes a variable name starting at `k`, or `-1` when a
/// `$`, `{` or the end of the text comes first.
pub open spec fn var_close(s: Seq<char>, k: int) -> int
    decreases s.len() - k,
{
    if k < 0 || k >= s.len() {
        -1
    } else if s[k] == '}' {
        k
    } else if s[k] == '$' || s[k] == '{' {
        -1
    } else {
        var_close(s, k + 1)
    }
}

/// Index of the `}` ending a `${name}` reference that starts at `i`, or `-1`.
pub open spec fn var_ref_end(s: Seq<char>, i: int) -> int {
    if 0 <= i && i + 1 < s.len() && s[i] == '$' && s[i + 1] == '{' {
        var_close(s, i + 2)
    } else {
        -1
    }
}

/// The text shown for an unknown variable.
pub open spec fn undefined_text() -> Seq<char> {
    seq!['U', 'N', 'D', 'E', 'F', 'I', 'N', 'E', 'D']
}

/// The text a reference to `name` shows.
pub open spec fn var_shown(vars: Map<Seq<char>, ValueView>, name: Seq<char>) -> Seq<char> {
    if vars.dom().contains(name) {
        vars[name].shown()
    } else {
        undefined_text()
    }
}

/// `s[i..]` with each `${name}` reference replaced by the text it shows.
pub open spec fn interpolated_from(s: Seq<char>, vars: Map<Seq<char>, ValueView>, i: int) -> Seq<
    char,
>
    decreases s.len() - i,
{
    if i < 0 || i >= s.len() {
        Seq::empty()
    } else {
        let k = var_ref_end(s, i);
        if i + 2 <= k < s.len() {
            var_shown(vars, s.subrange(i + 2, k)) + interpolated_from(s, vars, k + 1)
        } else {
            seq![s[i]] + interpolated_from(s, vars, i + 1)
        }
    }
}

/// `s` with each `${name}` reference replaced by the text it shows.
pub open spec fn interpolated(s: Seq<char>, vars: Map<Seq<char>, ValueView>) -> Seq<char> {
    interpolated_from(s, vars, 0)
}

/// The en space (U+2002) that stands for whitespace in layout texts.
pub open spec fn en_space(c: char) -> char {
    if is_ws(c) {
        '\u{2002}'
    } else {
        c
    }
}

/// A layout file's text as shown: `s` with its references replaced, and each
/// whitespace character then made an en space.
pub open spec fn layout_text(s: Seq<char>, vars: Map<Seq<char>, ValueView>) -> Seq<char> {
    interpolated(s, vars).map_values(|c: char| en_space(c))
}

proof fn lemma_var_close(s: Seq<char>, k: int)
    requires
        0 <= k,
    ensures
        var_close(s, k) == -1 || (k <= var_close(s, k) < s.len() && s[var_close(s, k)] == '}'),
    decreases s.len() - k,
{
    if k < s.len() && s[k] != '}' && s[k] != '$' && s[k] != '{' {
        lemma_var_close(s, k + 1);
    }
}

fn var_ref_end_exec(v: &Vec<char>, i: usize) -> (r: Option<usize>)
    requires
        i < v.len(),
    ensures
        match r {
            Some(k) => k == var_ref_end(v@, i as int) && i + 2 <= k < v.len(),
            None => !(i + 2 <= var_ref_end(v@, i as int) < v.len()),
        },
{
    if !(i + 1 < v.len() && v[i] == '$' && v[i + 1] == '{') {
        return None;
    }
    let mut k = i + 2;
    proof {
        lemma_var_close(v@, (i + 2) as int);
    }
    while k < v.len()
        invariant
            i + 2 <= k <= v.len(),
            v@[i as int] == '$' && v@[i + 1] == '{',
            var_close(v@, (i + 2) as int) == var_close(v@, k as int),
        decreases v.len() - k,
    {
        if v[k] == '}' {
            assert(var_close(v@, k as int) == k as int);
            return Some(k);
        }
        if v[k] == '$' || v[k] == '{' {
            return None;
        }
        k += 1;
    }
    None
}

fn push_all(out: &mut Vec<char>, w: &Vec<char>)
    ensures
        final(out)@ == old(out)@ + w@,
{
    let ghost base = out@;
    let mut j: usize = 0;
    while j < w.len()
        invariant
            j <= w.len(),
            out@ == base + w@.take(j as int),
        decreases w.len() - j,
    {
        out.push(w[j]);
        j += 1;
        assert(out@ =~= base + w@.take(j as int));
    }
    assert(w@.take(w.len() as int) =~= w@);
}

fn interpolate_chars(v: &Vec<char>, vars: &Variables) -> (out: Vec<char>)
    ensures
        out@ == interpolated(v@, vars.view()),
{
    let mut out: Vec<char> = Vec::new();
    let mut i: usize = 0;
    while i < v.len()
        invariant
            i <= v.len(),
            out@ + interpolated_from(v@, vars.view(), i as int) == interpolated(v@, vars.view()),
        decreases v.len() - i,
    {
        let ghost before = out@;
        match var_ref_end_exec(v, i) {
            Some(k) => {
                match vars.get_range(v, i + 2, k) {
                    Some(value) => {
                        let w = chars_of(value.shown().as_str());
                        push_all(&mut out, &w);
                    },
                    None => {
                        let w = chars_of("UNDEFINED");
                        proof {
                            reveal_strlit("UNDEFINED");
                        }
                        assert(w@ =~= undefined_text());
                        push_all(&mut out, &w);
                    },
                }
                assert(out@ + interpolated_from(v@, vars.view(), k + 1) =~= before
                    + interpolated_from(v@, vars.view(), i as int));
                i = k + 1;
            },
            None => {
                out.push(v[i]);
                assert(out@ + interpolated_from(v@, vars.view(), i + 1) =~= before
                    + interpolated_from(v@, vars.view(), i as int));
                i += 1;
            },
        }
    }
    assert(out@ =~= out@ + interpolated_from(v@, vars.view(), i as int));
    out
}

/// `string` with each `${name}` reference replaced by the value of the variable
/// `name`: a string value as it is, any other value as its JSON text, and an
/// unknown variable as `UNDEFINED`.
pub fn interpolate(string: &str, providers: &Variables) -> (r: String)
    ensures
        r@ == interpolated(string@, providers.view()),
{
    let v = chars_of(string);
    let out = interpolate_chars(&v, providers);
    string_of(&out)
}

/// Like [`interpolate`], and then each whitespace character becomes an en space
/// (U+2002), which keeps wide symbols apart in the terminal.
pub fn interpolate_string(string: &str, variables: &Variables) -> (r: String)
    ensures
        r@ == layout_text(string@, variables.view()),
{
    let v = chars_of(string);
    let out = interpolate_chars(&v, variables);
    let mut r = String::new();
    let mut i: usize = 0;
    while i < out.len()
        invariant
            i <= out.len(),
            r@ == out@.take(i as int).map_values(|c: char| en_space(c)),
        decreases out.len() - i,
    {
        let c = out[i];
        let shown = if is_whitespace(c) {
            '\u{2002}'
        } else {
            c
        };
        push_char(&mut r, shown);
        i += 1;
        assert(r@ =~= out@.take(i as int).map_values(|c: char| en_space(c)));
    }
    assert(out@.take(out.len() as int) =~= out@);
    r
}


/// `t` with each `a` directly followed by `b` (scanned left to right, without
/// overlap) replaced by `r` (std `str::replace` for a two-character pattern).
pub open spec fn replaced(t: Seq<char>, a: char, b: char, r: char) -> Seq<char>
    decreases t.len(),
{
    if t.len() >= 2 && t[0] == a && t[1] == b {
        seq![r] + replaced(t.subrange(2, t.len() as int), a, b, r)
    } else if t.len() >= 1 {
        seq![t[0]] + replaced(t.drop_first(), a, b, r)
    } else {
        t
    }
}

/// `t` with `\)` read as `)` and then `\(` read as `(`.
pub open spec fn unescaped(t: Seq<char>) -> Seq<char> {
    replaced(replaced(t, '\\', ')', ')'), '\\', '(', '(')
}

fn replace_pair(v: &Vec<char>, lo: usize, hi: usize, a: char, b: char, r: char) -> (out: Vec<char>)
    requires
        lo <= hi <= v.len(),
    ensures
        out@ == replaced(v@.subrange(lo as int, hi as int), a, b, r),
{
    let mut out: Vec<char> = Vec::new();
    let mut i = lo;
    while i < hi
        invariant
            lo <= i <= hi <= v.len(),
            out@ + replaced(v@.subrange(i as int, hi as int), a, b, r) == replaced(
                v@.subrange(lo as int, hi as int),
                a,
                b,
                r,
            ),
        decreases hi - i,
    {
        let ghost t = v@.subrange(i as int, hi as int);
        let ghost before = out@;
        if i + 1 < hi && v[i] == a && v[i + 1] == b {
            assert(t.subrange(2, t.len() as int) =~= v@.subrange(i + 2, hi as int));
            out.push(r);
            assert(out@ + replaced(v@.subrange(i + 2, hi as int), a, b, r) =~= before + replaced(t, a, b, r));
            i += 2;
        } else {
            assert(t.drop_first() =~= v@.subrange(i + 1, hi as int));
            out.push(v[i]);
            assert(out@ + replaced(v@.subrange(i + 1, hi as int), a, b, r) =~= before + replaced(t, a, b, r));
            i += 1;
        }
    }
    assert(out@ =~= out@ + replaced(v@.subrange(i as int, hi as int), a, b, r));
    out
}

fn unescape_range(v: &Vec<char>, lo: usize, hi: usize) -> (s: String)
    requires
        lo <= hi <= v.len(),
    ensures
        s@ == unescaped(v@.subrange(lo as int, hi as int)),
{
    let once = replace_pair(v, lo, hi, '\\', ')', ')');
    let twice = replace_pair(&once, 0, once.len(), '\\', '(', '(');
    assert(once@.subrange(0, once.len() as int) =~= once@);
    string_of(&twice)
}

/// Index of the `]` that closes style arguments starting at `k`, or `-1` when a
/// `[` or the end of the text comes first.
pub open spec fn args_close(s: Seq<char>, k: int) -> int
    decreases s.len() - k,
{
    if k < 0 || k >= s.len() {
        -1
    } else if s[k] == ']' {
        k
    } else if s[k] == '[' {
        -1
    } else {
        args_close(s, k + 1)
    }
}

/// Index of the `)` that closes styled text starting at `k`, or `-1`. A `\`
/// takes the next character (other than a line feed) along with it.
pub open spec fn text_close(s: Seq<char>, k: int) -> int
    decreases s.len() - k,
{
    if k < 0 || k >= s.len() {
        -1
    } else if s[k] == ')' {
        k
    } else if s[k] == '\\' {
        if k + 1 < s.len() && s[k + 1] != '\n' {
            text_close(s, k + 2)
        } else {
            -1
        }
    } else {
        text_close(s, k + 1)
    }
}

/// For a `$[args](text)` piece starting at `i`: index of the `]` after `args`, or `-1`.
pub open spec fn styled_args_end(s: Seq<char>, i: int) -> int {
    if 0 <= i && i + 1 < s.len() && s[i] == '$' && s[i + 1] == '[' {
        args_close(s, i + 2)
    } else {
        -1
    }
}

/// For a `$[args](text)` piece starting at `i`: index of its final `)`, or `-1`
/// when no such piece starts at `i`.
pub open spec fn styled_end(s: Seq<char>, i: int) -> int {
    let a = styled_args_end(s, i);
    if i + 2 <= a && a + 1 < s.len() && s[a + 1] == '(' {
        text_close(s, a + 2)
    } else {
        -1
    }
}

/// Start of the first `$[args](text)` piece at or after `i`, or `-1`.
pub open spec fn next_styled(s: Seq<char>, i: int) -> int
    decreases s.len() - i,
{
    if i < 0 || i >= s.len() {
        -1
    } else if styled_end(s, i) >= 0 {
        i
    } else {
        next_styled(s, i + 1)
    }
}

/// A piece of text with one style.
pub struct Span {
    pub content: String,
    pub style: Style,
}

/// The mathematical form of a [`Span`].
pub struct SpanView {
    pub content: Seq<char>,
    pub style: Style,
}

impl View for Span {
    type V = SpanView;

    open spec fn view(&self) -> SpanView {
        SpanView { content: self.content@, style: self.style }
    }
}

/// A line of styled text.
pub struct Line {
    pub spans: Vec<Span>,
}

impl View for Line {
    type V = Seq<SpanView>;

    open spec fn view(&self) -> Seq<SpanView> {
        self.spans@.map_values(|s: Span| s@)
    }
}

/// A span of text without a style.
pub open spec fn plain_span(t: Seq<char>) -> SpanView {
    SpanView { content: unescaped(t), style: plain_style() }
}

/// The spans of `s[start..]`: the text between styled pieces as plain spans, and
/// each `$[args](text)` piece as `text` with the style `args` describes.
pub open spec fn spans_from(s: Seq<char>, start: int, d: StyleDialect) -> Seq<SpanView>
    decreases s.len() - start,
{
    if start < 0 || start > s.len() {
        Seq::empty()
    } else {
        let m = next_styled(s, start);
        let a = styled_args_end(s, m);
        let t = styled_end(s, m);
        if start <= m && m + 2 <= a && a + 2 <= t && t < s.len() {
            (if start < m {
                seq![plain_span(s.subrange(start, m))]
            } else {
                Seq::empty()
            }) + seq![
                SpanView {
                    content: unescaped(s.subrange(a + 2, t)),
                    style: style_spec(s.subrange(m + 2, a), d),
                },
            ] + spans_from(s, t + 1, d)
        } else if start < s.len() {
            seq![plain_span(s.subrange(start, s.len() as int))]
        } else {
            Seq::empty()
        }
    }
}

/// The styled spans of the markup `s`.
pub open spec fn formatted(s: Seq<char>, d: StyleDialect) -> Seq<SpanView> {
    spans_from(s, 0, d)
}

proof fn lemma_args_close(s: Seq<char>, k: int)
    requires
        0 <= k,
    ensures
        args_close(s, k) == -1 || (k <= args_close(s, k) < s.len() && s[args_close(s, k)] == ']'),
    decreases s.len() - k,
{
    if k < s.len() && s[k] != ']' && s[k] != '[' {
        lemma_args_close(s, k + 1);
    }
}

proof fn lemma_text_close(s: Seq<char>, k: int)
    requires
        0 <= k,
    ensures
        text_close(s, k) == -1 || (k <= text_close(s, k) < s.len()),
    decreases s.len() - k,
{
    if k < s.len() && s[k] != ')' {
        if s[k] == '\\' {
            if k + 1 < s.len() && s[k + 1] != '\n' {
                lemma_text_close(s, k + 2);
            }
        } else {
            lemma_text_close(s, k + 1);
        }
    }
}

fn styled_at(v: &Vec<char>, i: usize) -> (r: Option<(usize, usize)>)
    requires
        i < v.len(),
    ensures
        match r {
            Some((a, t)) => a == styled_args_end(v@, i as int) && t == styled_end(v@, i as int)
                && i + 2 <= a && a + 2 <= t < v.len(),
            None => styled_end(v@, i as int) < 0,
        },
{
    if !(i + 1 < v.len() && v[i] == '$' && v[i + 1] == '[') {
        return None;
    }
    proof {
        lemma_args_close(v@, (i + 2) as int);
    }
    let mut a = i + 2;
    loop
        invariant
            i + 2 <= a <= v.len(),
            v@[i as int] == '$' && v@[i + 1] == '[',
            args_close(v@, (i + 2) as int) == args_close(v@, a as int),
        ensures
            i + 2 <= a < v.len(),
            v@[i as int] == '$' && v@[i + 1] == '[',
            v@[a as int] == ']',
            args_close(v@, (i + 2) as int) == args_close(v@, a as int),
        decreases v.len() - a,
    {
        if a >= v.len() || v[a] == '[' {
            return None;
        }
        if v[a] == ']' {
            break;
        }
        a += 1;
    }
    assert(args_close(v@, a as int) == a as int);
    if !(a + 1 < v.len() && v[a + 1] == '(') {
        return None;
    }
    proof {
        lemma_text_close(v@, (a + 2) as int);
    }
    let mut t = a + 2;
    loop
        invariant
            a + 2 <= t <= v.len(),
            styled_args_end(v@, i as int) == a as int,
            i + 2 <= a,
            a + 1 < v.len() && v@[a + 1] == '(',
            text_close(v@, (a + 2) as int) == text_close(v@, t as int),
        decreases v.len() - t,
    {
        if t >= v.len() {
            return None;
        }
        if v[t] == ')' {
            assert(text_close(v@, t as int) == t as int);
            return Some((a, t));
        }
        if v[t] == '\\' {
            if t + 1 < v.len() && v[t + 1] != '\n' {
                t += 2;
            } else {
                return None;
            }
        } else {
            t += 1;
        }
    }
}

fn next_styled_exec(v: &Vec<char>, start: usize) -> (r: Option<(usize, usize, usize)>)
    requires
        start <= v.len(),
    ensures
        match r {
            Some((m, a, t)) => m == next_styled(v@, start as int) && a == styled_args_end(v@, m as int)
                && t == styled_end(v@, m as int) && start <= m && m + 2 <= a && a + 2 <= t < v.len(),
            None => next_styled(v@, start as int) == -1,
        },
{
    let mut i = start;
    while i < v.len()
        invariant
            start <= i <= v.len(),
            next_styled(v@, start as int) == next_styled(v@, i as int),
        decreases v.len() - i,
    {
        match styled_at(v, i) {
            Some((a, t)) => {
                return Some((i, a, t));
            },
            None => {},
        }
        i += 1;
    }
    None
}

fn format_line(v: &Vec<char>, d: StyleDialect) -> (line: Line)
    ensures
        line@ == formatted(v@, d),
{
    let mut spans: Vec<Span> = Vec::new();
    let mut start: usize = 0;
    loop
        invariant
            start <= v.len(),
            spans@.map_values(|s: Span| s@) + spans_from(v@, start as int, d) == formatted(v@, d),
        decreases v.len() - start,
    {
        let ghost before = spans@.map_values(|s: Span| s@);
        match next_styled_exec(v, start) {
            Some((m, a, t)) => {
                if start < m {
                    let content = unescape_range(v, start, m);
                    spans.push(Span { content, style: Style::new() });
                }
                let content = unescape_range(v, a + 2, t);
                let style = style_of_range(v, m + 2, a, d);
                spans.push(Span { content, style });
                assert(spans@.map_values(|s: Span| s@) + spans_from(v@, t + 1, d) =~= before
                    + spans_from(v@, start as int, d));
                start = t + 1;
            },
            None => {
                if start < v.len() {
                    let content = unescape_range(v, start, v.len());
                    spans.push(Span { content, style: Style::new() });
                }
                assert(spans@.map_values(|s: Span| s@) =~= before + spans_from(v@, start as int, d));
                return Line { spans };
            },
        }
    }
}

/// The styled line of a provider layout's markup; style lists use the provider
/// dialect (see [`crate::style::get_style`]).
pub fn format_string(string: &str) -> (line: Line)
    ensures
        line@ == formatted(string@, StyleDialect::Provider),
{
    let v = chars_of(string);
    format_line(&v, StyleDialect::Provider)
}

/// The styled line of a layout file's markup; style lists use the layout
/// dialect (see [`crate::style::parse_style`]).
pub fn style_string(string: &str) -> (line: Line)
    ensures
        line@ == formatted(string@, StyleDialect::Layout),
{
    let v = chars_of(string);
    format_line(&v, StyleDialect::Layout)
}


/// How many terminal columns ratatui gives the text `s` (`Span::width`, which
/// measures with the unicode-width tables).
pub uninterp spec fn span_width(s: Seq<char>) -> nat;

/// Columns of the text `s` as ratatui's `Span::width` counts them.
#[verifier::external_body]
pub(crate) fn text_width(s: &str) -> (w: usize)
    ensures
        w == span_width(s@),
{
    ratatui::text::Span::raw(s).width()
}

/// Columns of a sequence of spans: the sum of their widths.
pub open spec fn spans_width(spans: Seq<SpanView>) -> nat
    decreases spans.len(),
{
    if spans.len() == 0 {
        0
    } else {
        spans_width(spans.drop_last()) + span_width(spans.last().content)
    }
}

impl Span {
    /// Columns this span takes.
    pub fn width(&self) -> (w: usize)
        ensures
            w == span_width(self@.content),
    {
        text_width(self.content.as_str())
    }
}


proof fn lemma_interpolate_plain_from(s: Seq<char>, vars: Map<Seq<char>, ValueView>, i: int)
    requires
        0 <= i <= s.len(),
        forall|k: int| 0 <= k && k + 1 < s.len() ==> !(#[trigger] s[k] == '$' && s[k + 1] == '{'),
    ensures
        interpolated_from(s, vars, i) == s.subrange(i, s.len() as int),
    decreases s.len() - i,
{
    if i < s.len() {
        lemma_interpolate_plain_from(s, vars, i + 1);
        assert(seq![s[i]] + s.subrange(i + 1, s.len() as int) =~= s.subrange(i, s.len() as int));
    } else {
        assert(s.subrange(i, s.len() as int) =~= Seq::<char>::empty());
    }
}

/// Text without a `${` is shown as it is.
pub proof fn law_interpolate_plain(s: Seq<char>, vars: Map<Seq<char>, ValueView>)
    requires
        forall|k: int| 0 <= k && k + 1 < s.len() ==> !(#[trigger] s[k] == '$' && s[k + 1] == '{'),
    ensures
        interpolated(s, vars) == s,
{
    lemma_interpolate_plain_from(s, vars, 0);
    assert(s.subrange(0, s.len() as int) =~= s);
}

/// A reference `${name}` to a known variable shows the variable's value, and
/// to an unknown one shows `UNDEFINED`.
pub proof fn law_interpolate_reference(name: Seq<char>, vars: Map<Seq<char>, ValueView>)
    requires
        referable(name),
    ensures
        interpolated(seq!['$', '{'] + name + seq!['}'], vars) == var_shown(vars, name),
{
    let s = seq!['$', '{'] + name + seq!['}'];
    let close: int = name.len() as int + 2;
    assert forall|k: int| 2 <= k <= close implies var_close(s, k) == close by {
        lemma_var_close_walk(s, k, close);
    }
    assert(var_ref_end(s, 0) == close);
    assert(s.subrange(2, close) =~= name);
    assert(interpolated_from(s, vars, close + 1) == Seq::<char>::empty());
    assert(interpolated(s, vars) =~= var_shown(vars, name));
}

/// A layout text shows no whitespace but en spaces: every whitespace character
/// of the text and of the values it shows becomes U+2002.
pub proof fn law_layout_spaces(s: Seq<char>, vars: Map<Seq<char>, ValueView>)
    ensures
        forall|k: int| 0 <= k < layout_text(s, vars).len() && is_ws(#[trigger] layout_text(s, vars)[k])
            ==> layout_text(s, vars)[k] == '\u{2002}',
{
}

/// Whether a name can stand in a `${name}` reference: it holds no `$`, `{` or `}`.
pub open spec fn referable(name: Seq<char>) -> bool {
    forall|k: int| 0 <= k < name.len() ==> name[k] != '$' && name[k] != '{' && name[k] != '}'
}

/// What a provider reports shows in the bar's texts: after the report
/// `entries` of `provider`, a reference `${provider.key}` to one of its keys
/// shows the value reported for that key.
pub proof fn law_report_shown(
    m: Map<Seq<char>, ValueView>,
    provider: Seq<char>,
    entries: Seq<(Seq<char>, ValueView)>,
    i: int,
)
    requires
        distinct_names(entries),
        0 <= i < entries.len(),
        referable(provider),
        referable(entries[i].0),
    ensures
        interpolated(
            seq!['$', '{'] + qualified(provider, entries[i].0) + seq!['}'],
            with_provider_vars(m, provider, entries),
        ) == entries[i].1.shown(),
{
    let name = qualified(provider, entries[i].0);
    let key = entries[i].0;
    assert forall|k: int| 0 <= k < name.len() implies name[k] != '$' && name[k] != '{' && name[k] != '}' by {
        if k < provider.len() {
            assert(name[k] == provider[k]);
        } else if k > provider.len() {
            assert(name[k] == key[k - provider.len() - 1]);
        }
    }
    law_provider_report_readable(m, provider, entries, i);
    law_interpolate_reference(name, with_provider_vars(m, provider, entries));
}

proof fn lemma_var_close_walk(s: Seq<char>, k: int, close: int)
    requires
        2 <= k <= close < s.len(),
        s[close] == '}',
        forall|j: int| k <= j < close ==> s[j] != '$' && s[j] != '{' && s[j] != '}',
    ensures
        var_close(s, k) == close,
    decreases close - k,
{
    if k < close {
        lemma_var_close_walk(s, k + 1, close);
    }
}

proof fn lemma_no_styled_from(s: Seq<char>, i: int)
    requires
        0 <= i,
        forall|k: int| 0 <= k && k + 1 < s.len() ==> !(#[trigger] s[k] == '$' && s[k + 1] == '['),
    ensures
        next_styled(s, i) == -1,
    decreases s.len() - i,
{
    if i < s.len() {
        lemma_no_styled_from(s, i + 1);
    }
}

/// Text without a `$[` is one unstyled span (its `\)` and `\(` read as `)` and `(`).
pub proof fn law_format_plain(s: Seq<char>, d: StyleDialect)
    requires
        s.len() > 0,
        forall|k: int| 0 <= k && k + 1 < s.len() ==> !(#[trigger] s[k] == '$' && s[k + 1] == '['),
    ensures
        formatted(s, d) == seq![plain_span(s)],
{
    lemma_no_styled_from(s, 0);
    assert(s.subrange(0, s.len() as int) =~= s);
}

} // verus!

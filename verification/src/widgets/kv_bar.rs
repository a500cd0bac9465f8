//! A bar of key/value pairs, laid out inline, side by side, or stacked, and the
//! columns it takes.
use crate::markup::{Span, SpanView, span_width};
use vstd::prelude::*;

verus! {

/// A key and its values.
pub struct KVPair {
    pub key: Span,
    pub values: Vec<Span>,
}

/// The mathematical form of a [`KVPair`].
pub struct PairView {
    pub key: SpanView,
    pub values: Seq<SpanView>,
}

impl View for KVPair {
    type V = PairView;

    open spec fn view(&self) -> PairView {
        PairView { key: self.key@, values: self.values@.map_values(|s: Span| s@) }
    }
}

/// How the pairs are arranged.
#[derive(Clone, Copy, Debug, PartialEq, Eq, Structural)]
pub enum KVBarFormat {
    /// Key, delimiter and values in one row.
    Inline,
    /// Pairs side by side, each as a column with its key over its values.
    Horizontal { center: bool },
    /// Pairs stacked, one row each.
    Vertical,
}

/// Key/value pairs with their arrangement.
pub struct KVBar {
    pub pairs: Vec<KVPair>,
    pub format: KVBarFormat,
    pub delimiter: Option<Span>,
    pub spacing: u16,
    pub show_keys: bool,
}

/// Columns of the delimiter, if there is one.
pub open spec fn delimiter_width(d: Option<SpanView>) -> nat {
    match d {
        Some(s) => span_width(s.content),
        None => 0,
    }
}

/// Sum of the widths of `vs`, each with `sp` columns of spacing.
pub open spec fn values_total(vs: Seq<SpanView>, sp: nat) -> nat
    decreases vs.len(),
{
    if vs.len() == 0 {
        0
    } else {
        values_total(vs.drop_last(), sp) + span_width(vs.last().content) + sp
    }
}

/// Columns of the inline arrangement of `ps` before the cast to 16 bits: every
/// key with its delimiter and every value, each followed by `sp` columns.
pub open spec fn inline_total(ps: Seq<PairView>, dw: nat, sp: nat) -> nat
    decreases ps.len(),
{
    if ps.len() == 0 {
        0
    } else {
        inline_total(ps.drop_last(), dw, sp) + span_width(ps.last().key.content) + dw + sp
            + values_total(ps.last().values, sp)
    }
}

/// The widest of the values `vs`.
pub open spec fn widest(vs: Seq<SpanView>) -> nat
    decreases vs.len(),
{
    if vs.len() == 0 {
        0
    } else {
        let w = span_width(vs.last().content);
        let r = widest(vs.drop_last());
        if w > r {
            w
        } else {
            r
        }
    }
}

/// Columns of one pair's column in the side-by-side arrangement, cast to 16 bits.
pub open spec fn column_width(p: PairView, show_keys: bool) -> nat {
    let k = if show_keys {
        span_width(p.key.content)
    } else {
        0
    };
    let v = widest(p.values);
    (if k > v {
        k
    } else {
        v
    }) % 65536
}

/// Sum of the column widths of `ps`.
pub open spec fn columns_total(ps: Seq<PairView>, show_keys: bool) -> nat
    decreases ps.len(),
{
    if ps.len() == 0 {
        0
    } else {
        columns_total(ps.drop_last(), show_keys) + column_width(ps.last(), show_keys)
    }
}

/// Columns of one pair's row in the stacked arrangement: key, values and the
/// spacing counted once per pair, each part cast to 16 bits.
pub open spec fn row_width(p: PairView, count: nat, sp: nat) -> nat {
    span_width(p.key.content) % 65536 + values_total(p.values, 0) % 65536 + (count % 65536) * sp
}

/// The widest row of `ps`.
pub open spec fn widest_row(ps: Seq<PairView>, count: nat, sp: nat) -> nat
    decreases ps.len(),
{
    if ps.len() == 0 {
        0
    } else {
        let w = row_width(ps.last(), count, sp);
        let r = widest_row(ps.drop_last(), count, sp);
        if w > r {
            w
        } else {
            r
        }
    }
}

impl KVBar {
    /// The pairs in mathematical form.
    pub open spec fn pairs_view(&self) -> Seq<PairView> {
        self.pairs@.map_values(|p: KVPair| p@)
    }

    /// The delimiter in mathematical form.
    pub open spec fn delimiter_view(&self) -> Option<SpanView> {
        match self.delimiter {
            Some(d) => Some(d@),
            None => None,
        }
    }

    /// Whether `width` can measure this bar: in the side-by-side arrangement each
    /// pair has a value and the sum fits in 16 bits; stacked, there is a pair and
    /// every row fits in 16 bits.
    pub open spec fn measurable(&self) -> bool {
        match self.format {
            KVBarFormat::Inline => true,
            KVBarFormat::Horizontal { .. } => (forall|i: int| 0 <= i < self.pairs@.len() ==> (#[trigger] self.pairs@[i]).values@.len() > 0)
                && columns_total(self.pairs_view(), self.show_keys) + (self.pairs@.len() % 65536) * (self.spacing as nat) <= u16::MAX,
            KVBarFormat::Vertical => self.pairs@.len() > 0 && forall|i: int| 0 <= i < self.pairs@.len()
                ==> row_width(#[trigger] self.pairs_view()[i], self.pairs@.len() as nat, self.spacing as nat) <= u16::MAX,
        }
    }

    /// The columns the bar takes.
    pub open spec fn width_spec(&self) -> nat {
        match self.format {
            KVBarFormat::Inline => inline_total(self.pairs_view(), delimiter_width(self.delimiter_view()), self.spacing as nat) % 65536,
            KVBarFormat::Horizontal { .. } => columns_total(self.pairs_view(), self.show_keys) + (self.pairs@.len() % 65536) * (self.spacing as nat),
            KVBarFormat::Vertical => widest_row(self.pairs_view(), self.pairs@.len() as nat, self.spacing as nat),
        }
    }
}


proof fn lemma_mod_add(x: int, w: int)
    requires
        0 <= x,
        0 <= w,
    ensures
        ((x % 65536) + w) % 65536 == (x + w) % 65536,
{
    vstd::arithmetic::div_mod::lemma_add_mod_noop(x, w, 65536);
    vstd::arithmetic::div_mod::lemma_add_mod_noop(x % 65536, w, 65536);
    vstd::arithmetic::div_mod::lemma_mod_twice(x, 65536);
}

fn wrap_add(acc: u64, w: usize) -> (r: u64)
    requires
        acc < 65536,
    ensures
        r < 65536,
        r == (acc + w) % 65536,
{
    let part = (w % 65536) as u64;
    proof {
        lemma_mod_add(w as int, acc as int);
    }
    (acc + part) % 65536
}

proof fn lemma_widest_bound(vs: Seq<SpanView>, k: int)
    requires
        0 <= k < vs.len(),
    ensures
        span_width(vs[k].content) <= widest(vs),
    decreases vs.len(),
{
    if k < vs.len() - 1 {
        lemma_widest_bound(vs.drop_last(), k);
    }
}

proof fn lemma_columns_prefix(ps: Seq<PairView>, show_keys: bool, k: int)
    requires
        0 <= k <= ps.len(),
    ensures
        columns_total(ps.take(k), show_keys) <= columns_total(ps, show_keys),
    decreases ps.len() - k,
{
    if k < ps.len() {
        lemma_columns_prefix(ps, show_keys, k + 1);
        assert(ps.take(k + 1).drop_last() =~= ps.take(k));
    } else {
        assert(ps.take(k) =~= ps);
    }
}

fn widest_value(vs: &Vec<Span>) -> (w: usize)
    ensures
        w == widest(vs@.map_values(|s: Span| s@)),
{
    let ghost sv = vs@.map_values(|s: Span| s@);
    let mut best: usize = 0;
    let mut j: usize = 0;
    while j < vs.len()
        invariant
            j <= vs.len(),
            sv == vs@.map_values(|s: Span| s@),
            best == widest(sv.take(j as int)),
        decreases vs.len() - j,
    {
        assert(sv.take(j + 1).drop_last() =~= sv.take(j as int));
        let w = vs[j].width();
        if w > best {
            best = w;
        }
        j += 1;
    }
    assert(sv.take(j as int) =~= sv);
    best
}

fn values_total_mod(vs: &Vec<Span>, acc: u64, sp: u16) -> (r: u64)
    requires
        acc < 65536,
    ensures
        r < 65536,
        r == (acc + values_total(vs@.map_values(|s: Span| s@), sp as nat)) % 65536,
{
    let ghost sv = vs@.map_values(|s: Span| s@);
    let mut t = acc;
    let mut j: usize = 0;
    while j < vs.len()
        invariant
            j <= vs.len(),
            t < 65536,
            acc < 65536,
            sv == vs@.map_values(|s: Span| s@),
            t == (acc + values_total(sv.take(j as int), sp as nat)) % 65536,
        decreases vs.len() - j,
    {
        assert(sv.take(j + 1).drop_last() =~= sv.take(j as int));
        let w = vs[j].width();
        let t1 = wrap_add(t, w);
        let t2 = wrap_add(t1, sp as usize);
        proof {
            let base = acc + values_total(sv.take(j as int), sp as nat);
            lemma_mod_add(base, w as int);
            lemma_mod_add(base + w, sp as int);
        }
        t = t2;
        j += 1;
    }
    assert(sv.take(j as int) =~= sv);
    t
}

impl KVBar {
    /// The columns the bar takes: inline, the widths of all keys (with the
    /// delimiter) and values with the spacing after each; side by side, each
    /// pair's widest entry plus the spacing once per pair; stacked, the widest
    /// row. The count is cast to 16 bits as the bar's layout needs it.
    pub fn width(&self) -> (w: u16)
        requires
            self.measurable(),
        ensures
            w == self.width_spec(),
    {
        let ghost ps = self.pairs_view();
        match self.format {
            KVBarFormat::Inline => {
                let dw: usize = match &self.delimiter {
                    Some(d) => d.width(),
                    None => 0,
                };
                let ghost dwn = delimiter_width(self.delimiter_view());
                assert(dw == dwn);
                let mut total: u64 = 0;
                let mut i: usize = 0;
                while i < self.pairs.len()
                    invariant
                        i <= self.pairs.len(),
                        total < 65536,
                        ps == self.pairs_view(),
                        dw == dwn,
                        total == inline_total(ps.take(i as int), dwn, self.spacing as nat) % 65536,
                    decreases self.pairs.len() - i,
                {
                    assert(ps.take(i + 1).drop_last() =~= ps.take(i as int));
                    let pair = &self.pairs[i];
                    let kw = pair.key.width();
                    let t1 = wrap_add(total, kw);
                    let t2 = wrap_add(t1, dw);
                    let t3 = wrap_add(t2, self.spacing as usize);
                    let ghost base: int = inline_total(ps.take(i as int), dwn, self.spacing as nat) as int;
                    proof {
                        lemma_mod_add(base, kw as int);
                        lemma_mod_add(base + kw, dw as int);
                        lemma_mod_add(base + kw + dw, self.spacing as int);
                    }
                    let t4 = values_total_mod(&pair.values, t3, self.spacing);
                    proof {
                        let x: int = base + kw + dw + self.spacing;
                        assert(t3 == x % 65536);
                        assert(ps[i as int] == pair@);
                        lemma_mod_add(x, values_total(pair@.values, self.spacing as nat) as int);
                    }
                    total = t4;
                    i += 1;
                }
                assert(ps.take(i as int) =~= ps);
                total as u16
            },
            KVBarFormat::Horizontal { .. } => {
                let mut total: u64 = 0;
                let mut i: usize = 0;
                while i < self.pairs.len()
                    invariant
                        i <= self.pairs.len(),
                        ps == self.pairs_view(),
                        self.measurable(),
                        self.format is Horizontal,
                        total == columns_total(ps.take(i as int), self.show_keys),
                    decreases self.pairs.len() - i,
                {
                    assert(ps.take(i + 1).drop_last() =~= ps.take(i as int));
                    proof {
                        lemma_columns_prefix(ps, self.show_keys, i + 1);
                    }
                    let pair = &self.pairs[i];
                    let k: usize = if self.show_keys {
                        pair.key.width()
                    } else {
                        0
                    };
                    let v = widest_value(&pair.values);
                    let m = if k > v {
                        k
                    } else {
                        v
                    };
                    assert(ps[i as int] == pair@);
                    total = total + (m % 65536) as u64;
                    i += 1;
                }
                assert(ps.take(i as int) =~= ps);
                let count = (self.pairs.len() % 65536) as u16;
                assert(count * self.spacing <= u16::MAX) by (nonlinear_arith)
                    requires
                        total + count * (self.spacing as nat) <= u16::MAX,
                ;
                (total as u16) + count * self.spacing
            },
            KVBarFormat::Vertical => {
                let n = self.pairs.len();
                let count = (n % 65536) as u16;
                let mut best: u16 = 0;
                let mut i: usize = 0;
                while i < n
                    invariant
                        i <= n == self.pairs.len(),
                        ps == self.pairs_view(),
                        self.measurable(),
                        self.format is Vertical,
                        count == n % 65536,
                        best == widest_row(ps.take(i as int), n as nat, self.spacing as nat),
                    decreases n - i,
                {
                    assert(ps.take(i + 1).drop_last() =~= ps.take(i as int));
                    let pair = &self.pairs[i];
                    assert(ps[i as int] == pair@);
                    assert(row_width(ps[i as int], n as nat, self.spacing as nat) <= u16::MAX);
                    let kw = (pair.key.width() % 65536) as u16;
                    let vt = values_total_mod(&pair.values, 0, 0);
                    assert(vt == values_total(pair@.values, 0) % 65536);
                    assert(kw + vt + count * self.spacing <= u16::MAX);
                    let row = kw + (vt as u16) + count * self.spacing;
                    if row > best {
                        best = row;
                    }
                    i += 1;
                }
                assert(ps.take(i as int) =~= ps);
                best
            },
        }
    }
}

/// The larger of two numbers.
pub open spec fn larger(a: nat, b: nat) -> nat {
    if a > b {
        a
    } else {
        b
    }
}

/// The columns of values `vs`, each cast to 16 bits.
pub open spec fn value_columns(vs: Seq<SpanView>) -> Seq<u16>
    decreases vs.len(),
{
    if vs.len() == 0 {
        Seq::empty()
    } else {
        value_columns(vs.drop_last()).push((span_width(vs.last().content) % 65536) as u16)
    }
}

/// The columns of the inline arrangement: for each pair, its key with the
/// delimiter (`dw` columns), then each of its values; each cast to 16 bits.
pub open spec fn inline_columns(ps: Seq<PairView>, dw: nat) -> Seq<u16>
    decreases ps.len(),
{
    if ps.len() == 0 {
        Seq::empty()
    } else {
        inline_columns(ps.drop_last(), dw) + seq![((span_width(ps.last().key.content) + dw) % 65536) as u16]
            + value_columns(ps.last().values)
    }
}

/// The widest key of `ps` with the delimiter (`dw` columns).
pub open spec fn widest_key(ps: Seq<PairView>, dw: nat) -> nat
    decreases ps.len(),
{
    if ps.len() == 0 {
        0
    } else {
        larger(widest_key(ps.drop_last(), dw), span_width(ps.last().key.content) + dw)
    }
}

/// The most values a pair of `ps` has.
pub open spec fn most_values(ps: Seq<PairView>) -> nat
    decreases ps.len(),
{
    if ps.len() == 0 {
        0
    } else {
        larger(most_values(ps.drop_last()), ps.last().values.len())
    }
}

/// The widest value at place `i` among the pairs of `ps` (0 for a pair with fewer values).
pub open spec fn widest_at(ps: Seq<PairView>, i: int) -> nat
    decreases ps.len(),
{
    if ps.len() == 0 {
        0
    } else {
        let v = ps.last().values;
        larger(widest_at(ps.drop_last(), i), if 0 <= i < v.len() { span_width(v[i].content) } else { 0 })
    }
}

/// The columns of the stacked arrangement: the widest key with the delimiter,
/// then for each place the widest value there; each cast to 16 bits.
pub open spec fn vertical_columns(ps: Seq<PairView>, dw: nat) -> Seq<u16> {
    seq![(widest_key(ps, dw) % 65536) as u16] + Seq::new(most_values(ps), |i: int| (widest_at(ps, i) % 65536) as u16)
}

/// The width of a pair's column side by side: its widest entry among the key
/// and delimiter (when keys are shown) and the values, limited to 16 bits.
pub open spec fn side_column(p: PairView, show_keys: bool, d: Option<SpanView>) -> u16 {
    let v = widest(p.values);
    let w = if show_keys {
        larger(larger(span_width(p.key.content), delimiter_width(d)), v)
    } else {
        v
    };
    if w > u16::MAX {
        u16::MAX
    } else {
        w as u16
    }
}

impl KVBar {
    /// Whether `width` can measure this bar.
    fn is_measurable(&self) -> (b: bool)
        ensures
            b == self.measurable(),
    {
        let ghost ps = self.pairs_view();
        let n = self.pairs.len();
        match self.format {
            KVBarFormat::Inline => true,
            KVBarFormat::Horizontal { .. } => {
                let mut total: u64 = 0;
                let mut i: usize = 0;
                while i < n
                    invariant
                        i <= n == self.pairs.len(),
                        ps == self.pairs_view(),
                        self.format is Horizontal,
                        total <= u16::MAX,
                        total == columns_total(ps.take(i as int), self.show_keys),
                        forall|k: int| 0 <= k < i ==> (#[trigger] self.pairs@[k]).values@.len() > 0,
                    decreases n - i,
                {
                    assert(ps.take(i + 1).drop_last() =~= ps.take(i as int));
                    let pair = &self.pairs[i];
                    assert(ps[i as int] == pair@);
                    if pair.values.len() == 0 {
                        return false;
                    }
                    let k: usize = if self.show_keys {
                        pair.key.width()
                    } else {
                        0
                    };
                    let v = widest_value(&pair.values);
                    let m = if k > v {
                        k
                    } else {
                        v
                    };
                    let next = total + (m % 65536) as u64;
                    if next > 65535 {
                        proof {
                            lemma_columns_prefix(ps, self.show_keys, i + 1);
                        }
                        return false;
                    }
                    total = next;
                    i += 1;
                }
                assert(ps.take(i as int) =~= ps);
                let c = (n % 65536) as u64;
                let sp = self.spacing as u64;
                assert(c * sp <= 65535 * 65535) by (nonlinear_arith)
                    requires
                        c <= 65535,
                        sp <= 65535,
                ;
                total + c * sp <= 65535
            },
            KVBarFormat::Vertical => {
                if n == 0 {
                    return false;
                }
                let count = (n % 65536) as u64;
                let sp = self.spacing as u64;
                assert(count * sp <= 65535 * 65535) by (nonlinear_arith)
                    requires
                        count <= 65535,
                        sp <= 65535,
                ;
                let mut i: usize = 0;
                while i < n
                    invariant
                        i <= n == self.pairs.len(),
                        n > 0,
                        sp == self.spacing,
                        count * sp <= 65535 * 65535,
                        ps == self.pairs_view(),
                        self.format is Vertical,
                        count == n % 65536,
                        forall|k: int| 0 <= k < i ==> row_width(#[trigger] ps[k], n as nat, self.spacing as nat) <= u16::MAX,
                    decreases n - i,
                {
                    let pair = &self.pairs[i];
                    assert(ps[i as int] == pair@);
                    let kw = (pair.key.width() % 65536) as u64;
                    let vt = values_total_mod(&pair.values, 0, 0);
                    assert(vt == values_total(pair@.values, 0) % 65536);
                    if kw + vt + count * sp > 65535 {
                        return false;
                    }
                    i += 1;
                }
                true
            },
        }
    }

    /// The columns the bar takes, or none where `width` cannot measure it (a
    /// side-by-side pair without values, an empty stacked bar, or a count that
    /// does not fit in 16 bits).
    pub fn try_width(&self) -> (r: Option<u16>)
        ensures
            match r {
                Some(w) => self.measurable() && w == self.width_spec(),
                None => !self.measurable(),
            },
    {
        if self.is_measurable() {
            Some(self.width())
        } else {
            None
        }
    }

    /// The column widths of the inline arrangement, in order: each pair's key
    /// with the delimiter, then its values.
    pub fn inline_constraints(&self) -> (r: Vec<u16>)
        ensures
            r@ == inline_columns(self.pairs_view(), delimiter_width(self.delimiter_view())),
    {
        let ghost ps = self.pairs_view();
        let ghost dwn = delimiter_width(self.delimiter_view());
        let dw: usize = match &self.delimiter {
            Some(d) => d.width(),
            None => 0,
        };
        let mut r: Vec<u16> = Vec::new();
        let mut i: usize = 0;
        while i < self.pairs.len()
            invariant
                i <= self.pairs.len(),
                ps == self.pairs_view(),
                dw == dwn,
                r@ == inline_columns(ps.take(i as int), dwn),
            decreases self.pairs.len() - i,
        {
            assert(ps.take(i + 1).drop_last() =~= ps.take(i as int));
            let pair = &self.pairs[i];
            assert(ps[i as int] == pair@);
            let kw = pair.key.width();
            proof {
                lemma_mod_add(kw as int, dw as int);
                vstd::arithmetic::div_mod::lemma_add_mod_noop(kw as int, dw as int, 65536);
            }
            r.push(((kw % 65536 + dw % 65536) % 65536) as u16);
            let ghost head = r@;
            let ghost vs = pair@.values;
            let mut j: usize = 0;
            while j < pair.values.len()
                invariant
                    j <= pair.values.len(),
                    vs == pair@.values,
                    r@ == head + value_columns(vs.take(j as int)),
                decreases pair.values.len() - j,
            {
                assert(vs.take(j + 1).drop_last() =~= vs.take(j as int));
                let w = pair.values[j].width();
                r.push((w % 65536) as u16);
                j += 1;
            }
            assert(vs.take(j as int) =~= vs);
            i += 1;
        }
        assert(ps.take(i as int) =~= ps);
        r
    }

    /// The column widths of the stacked arrangement: the widest key with the
    /// delimiter, then the widest value at each place.
    pub fn vertical_constraints(&self) -> (r: Vec<u16>)
        ensures
            r@ == vertical_columns(self.pairs_view(), delimiter_width(self.delimiter_view())),
    {
        let ghost ps = self.pairs_view();
        let ghost dwn = delimiter_width(self.delimiter_view());
        let dw: usize = match &self.delimiter {
            Some(d) => d.width(),
            None => 0,
        };
        let mut key: u128 = 0;
        let mut count: usize = 0;
        let mut i: usize = 0;
        while i < self.pairs.len()
            invariant
                i <= self.pairs.len(),
                ps == self.pairs_view(),
                dw == dwn,
                key == widest_key(ps.take(i as int), dwn),
                count == most_values(ps.take(i as int)),
            decreases self.pairs.len() - i,
        {
            assert(ps.take(i + 1).drop_last() =~= ps.take(i as int));
            let pair = &self.pairs[i];
            assert(ps[i as int] == pair@);
            let w = pair.key.width() as u128 + dw as u128;
            if w > key {
                key = w;
            }
            if pair.values.len() > count {
                count = pair.values.len();
            }
            i += 1;
        }
        assert(ps.take(i as int) =~= ps);
        let mut r: Vec<u16> = Vec::new();
        r.push((key % 65536) as u16);
        let mut place: usize = 0;
        while place < count
            invariant
                place <= count,
                count == most_values(ps),
                ps == self.pairs_view(),
                r@.len() == place + 1,
                r@[0] == (widest_key(ps, dwn) % 65536) as u16,
                forall|q: int| 0 <= q < place ==> #[trigger] r@[q + 1] == (widest_at(ps, q) % 65536) as u16,
            decreases count - place,
        {
            let mut best: usize = 0;
            let mut k: usize = 0;
            while k < self.pairs.len()
                invariant
                    k <= self.pairs.len(),
                    ps == self.pairs_view(),
                    best == widest_at(ps.take(k as int), place as int),
                decreases self.pairs.len() - k,
            {
                assert(ps.take(k + 1).drop_last() =~= ps.take(k as int));
                let pair = &self.pairs[k];
                assert(ps[k as int] == pair@);
                let w: usize = if place < pair.values.len() {
                    pair.values[place].width()
                } else {
                    0
                };
                if w > best {
                    best = w;
                }
                k += 1;
            }
            assert(ps.take(k as int) =~= ps);
            r.push((best % 65536) as u16);
            place += 1;
        }
        let ghost v = vertical_columns(ps, dwn);
        assert forall|q: int| 0 <= q < r@.len() implies r@[q] == v[q] by {
            if q > 0 {
                assert(r@[(q - 1) + 1] == (widest_at(ps, q - 1) % 65536) as u16);
            }
        }
        assert(r@ =~= v);
        r
    }

    /// The column widths side by side: each pair's widest entry, limited to 16 bits.
    pub fn horizontal_constraints(&self) -> (r: Vec<u16>)
        requires
            !self.show_keys ==> forall|i: int| 0 <= i < self.pairs@.len() ==> (#[trigger] self.pairs@[i]).values@.len() > 0,
        ensures
            r@ == self.pairs_view().map_values(|p: PairView| side_column(p, self.show_keys, self.delimiter_view())),
    {
        let ghost ps = self.pairs_view();
        let dw: usize = match &self.delimiter {
            Some(d) => d.width(),
            None => 0,
        };
        let mut r: Vec<u16> = Vec::new();
        let mut i: usize = 0;
        while i < self.pairs.len()
            invariant
                i <= self.pairs.len(),
                ps == self.pairs_view(),
                dw == delimiter_width(self.delimiter_view()),
                r@.len() == i,
                forall|k: int| 0 <= k < i ==> #[trigger] r@[k] == side_column(ps[k], self.show_keys, self.delimiter_view()),
            decreases self.pairs.len() - i,
        {
            let pair = &self.pairs[i];
            assert(ps[i as int] == pair@);
            let v = widest_value(&pair.values);
            let w = if self.show_keys {
                let k = pair.key.width();
                let kd = if k > dw {
                    k
                } else {
                    dw
                };
                if kd > v {
                    kd
                } else {
                    v
                }
            } else {
                v
            };
            r.push(if w > 65535 {
                65535u16
            } else {
                w as u16
            });
            i += 1;
        }
        assert(r@ =~= ps.map_values(|p: PairView| side_column(p, self.show_keys, self.delimiter_view())));
        r
    }

    /// The rows of each pair's column side by side: one per value of the pair
    /// with the most values, and one for the key when keys are shown.
    pub fn horizontal_rows(&self) -> (n: usize)
        requires
            self.pairs@.len() > 0,
            most_values(self.pairs_view()) < usize::MAX,
        ensures
            n == most_values(self.pairs_view()) + if self.show_keys { 1nat } else { 0nat },
    {
        let ghost ps = self.pairs_view();
        let mut count: usize = 0;
        let mut i: usize = 0;
        while i < self.pairs.len()
            invariant
                i <= self.pairs.len(),
                ps == self.pairs_view(),
                count == most_values(ps.take(i as int)),
            decreases self.pairs.len() - i,
        {
            assert(ps.take(i + 1).drop_last() =~= ps.take(i as int));
            assert(ps[i as int] == self.pairs[i as int]@);
            if self.pairs[i].values.len() > count {
                count = self.pairs[i].values.len();
            }
            i += 1;
        }
        assert(ps.take(i as int) =~= ps);
        if self.show_keys {
            count + 1
        } else {
            count
        }
    }
}

} // verus!

//! The clock provider: named time formats, written `name=format`.
use crate::text::{
    chars_of, find_char, find_from, lemma_text_less_irreflexive, lemma_text_less_total, lemma_text_less_transitive,
    string_of_range, string_views, text_less, text_lt,
};
use std::fmt::Write;
use vstd::prelude::*;

verus! {

/// What the clock provider is started with.
pub struct ClockArgs {
    /// Nanoseconds between reports.
    pub duration: u64,
    /// Expressions `name=format`, e.g. `day=%a`.
    pub expressions: Vec<String>,
}

/// The clock provider: the named formats it reports.
pub struct Clock {
    pub duration: u64,
    pub expressions: Vec<(String, String)>,
}

/// The `(name, format)` pairs of `exprs`: each split at its first `=`;
/// expressions without `=` are left out.
pub open spec fn named_formats(exprs: Seq<Seq<char>>) -> Seq<(Seq<char>, Seq<char>)>
    decreases exprs.len(),
{
    if exprs.len() == 0 {
        Seq::empty()
    } else {
        let e = exprs.last();
        let k = find_from(e, '=', 0);
        if 0 <= k < e.len() {
            named_formats(exprs.drop_last()).push((e.subrange(0, k), e.subrange(k + 1, e.len() as int)))
        } else {
            named_formats(exprs.drop_last())
        }
    }
}

/// The names of the clock's expressions, in order.
pub open spec fn expression_names(exprs: Seq<(String, String)>) -> Seq<Seq<char>> {
    exprs.map_values(|p: (String, String)| p.0@)
}

/// The text of the last of the expressions `names` that is named `name`, with
/// `texts[k]` the text of expression `k`.
pub open spec fn last_text(names: Seq<Seq<char>>, texts: Seq<Seq<char>>, name: Seq<char>) -> Seq<char>
    decreases names.len(),
{
    if names.len() == 0 {
        Seq::empty()
    } else if names.last() == name {
        texts[names.len() - 1]
    } else {
        last_text(names.drop_last(), texts, name)
    }
}

/// Whether `out` holds each of `names` once, in the order of `str`, and nothing else.
pub open spec fn names_reported(out: Seq<(String, String)>, names: Seq<Seq<char>>) -> bool {
    &&& forall|i: int, j: int| 0 <= i < j < out.len() ==> text_less(#[trigger] out[i].0@, #[trigger] out[j].0@)
    &&& forall|j: int| 0 <= j < out.len() ==> names.contains(#[trigger] out[j].0@)
    &&& forall|k: int| 0 <= k < names.len() ==> exists|j: int| 0 <= j < out.len() && #[trigger] out[j].0@ == #[trigger] names[k]
}

/// Whether `out` is the clock's report for expressions named `names` whose
/// texts are `texts`: each name once, in the order of `str`, with the text of
/// the last expression of that name.
pub open spec fn is_report(out: Seq<(String, String)>, names: Seq<Seq<char>>, texts: Seq<Seq<char>>) -> bool {
    &&& names_reported(out, names)
    &&& forall|j: int| 0 <= j < out.len() ==> #[trigger] out[j].1@ == last_text(names, texts, out[j].0@)
}

/// A reading of the local clock: seconds and nanoseconds since the Unix epoch
/// (UTC), and the local offset from UTC in seconds.
#[derive(Clone, Copy, Debug, PartialEq, Eq)]
pub struct LocalMoment {
    pub secs: i64,
    pub nanos: u32,
    pub offset: i32,
}

/// Whether chrono shows the strftime format `fmt` for a local date and time:
/// whether `StrftimeItems` reads `fmt` without an error item. For a date, a time
/// and an offset together, an error item is the only way chrono's formatting
/// into a `String` fails, so this depends on `fmt` alone.
pub uninterp spec fn strftime_accepts(fmt: Seq<char>) -> bool;

/// The text chrono shows for the strftime format `fmt` at the instant `secs`
/// seconds and `nanos` nanoseconds after the Unix epoch, seen at the offset
/// `offset` seconds east of UTC; none where chrono has no such instant or
/// offset, or cannot show `fmt`.
pub uninterp spec fn strftime_text(fmt: Seq<char>, secs: i64, nanos: u32, offset: i32) -> Option<Seq<char>>;

/// The local clock now (`chrono::Local::now()`), as its timestamp, its
/// sub-second nanoseconds and its offset from UTC. Which instant comes back is
/// the machine's; what is stated is that chrono shows a format at that instant
/// exactly when it accepts the format.
#[verifier::external_body]
fn local_now() -> (r: LocalMoment)
    ensures
        forall|fmt: Seq<char>| (#[trigger] strftime_text(fmt, r.secs, r.nanos, r.offset)) is Some <==> strftime_accepts(fmt),
{
    let now = chrono::Local::now();
    LocalMoment { secs: now.timestamp(), nanos: now.timestamp_subsec_nanos(), offset: now.offset().local_minus_utc() }
}

/// The text of the strftime format `fmt` at `at` (chrono's
/// `DateTime::from_timestamp`, `FixedOffset::east_opt` and `format`), or none
/// where chrono refuses one of them.
#[verifier::external_body]
fn moment_text(fmt: &str, at: &LocalMoment) -> (r: Option<String>)
    ensures
        match r {
            Some(t) => strftime_text(fmt@, at.secs, at.nanos, at.offset) == Some(t@),
            None => strftime_text(fmt@, at.secs, at.nanos, at.offset) is None,
        },
{
    let offset = chrono::FixedOffset::east_opt(at.offset)?;
    let utc = chrono::DateTime::from_timestamp(at.secs, at.nanos)?;
    let mut s = String::new();
    match write!(s, "{}", utc.with_timezone(&offset).format(fmt)) {
        Ok(()) => Some(s),
        Err(_) => None,
    }
}

/// The texts of the clock's formats at `at`, in the order of the expressions
/// (empty where chrono shows none).
pub open spec fn texts_at(exprs: Seq<(String, String)>, at: LocalMoment) -> Seq<Seq<char>> {
    Seq::new(
        exprs.len(),
        |k: int|
            match strftime_text(exprs[k].1@, at.secs, at.nanos, at.offset) {
                Some(t) => t,
                None => Seq::empty(),
            },
    )
}

/// Whether `out` is the clock's report for the expressions `exprs` at `at`:
/// under each name, the text of that name's last format at `at`.
pub open spec fn reports_moment(exprs: Seq<(String, String)>, out: Seq<(String, String)>, at: LocalMoment) -> bool {
    is_report(out, expression_names(exprs), texts_at(exprs, at))
}

impl Clock {
    /// The clock for `args`: its expressions split into names and formats.
    pub fn init(args: ClockArgs) -> (c: Clock)
        ensures
            c.duration == args.duration,
            c.expressions@.map_values(|p: (String, String)| (p.0@, p.1@)) == named_formats(
                args.expressions@.map_values(|s: String| s@),
            ),
    {
        let ghost exprs = args.expressions@.map_values(|s: String| s@);
        let mut out: Vec<(String, String)> = Vec::new();
        let mut i: usize = 0;
        while i < args.expressions.len()
            invariant
                i <= args.expressions.len(),
                exprs == args.expressions@.map_values(|s: String| s@),
                out@.map_values(|p: (String, String)| (p.0@, p.1@)) == named_formats(exprs.take(i as int)),
            decreases args.expressions.len() - i,
        {
            assert(exprs.take(i + 1).drop_last() =~= exprs.take(i as int));
            let v = chars_of(args.expressions[i].as_str());
            assert(v@.subrange(0, v.len() as int) =~= v@);
            let ghost before = out@.map_values(|p: (String, String)| (p.0@, p.1@));
            match find_char(&v, 0, v.len(), '=') {
                Some(k) => {
                    let name = string_of_range(&v, 0, k);
                    let fmt = string_of_range(&v, k + 1, v.len());
                    out.push((name, fmt));
                    assert(out@.map_values(|p: (String, String)| (p.0@, p.1@)) =~= before.push(
                        (v@.subrange(0, k as int), v@.subrange(k + 1, v.len() as int)),
                    ));
                },
                None => {},
            }
            i += 1;
        }
        assert(exprs.take(i as int) =~= exprs);
        Clock { duration: args.duration, expressions: out }
    }

    /// The report for the texts `texts` of the expressions, in order: each name
    /// once, sorted as `str` sorts, with the text of its last expression.
    pub fn report(&self, texts: &Vec<String>) -> (r: Vec<(String, String)>)
        requires
            texts.len() == self.expressions.len(),
        ensures
            is_report(r@, expression_names(self.expressions@), string_views(texts@)),
    {
        let ghost names = expression_names(self.expressions@);
        let ghost ts = string_views(texts@);
        let mut out: Vec<(String, String)> = Vec::new();
        let mut i: usize = 0;
        while i < self.expressions.len()
            invariant
                i <= self.expressions.len(),
                texts.len() == self.expressions.len(),
                names == expression_names(self.expressions@),
                ts == string_views(texts@),
                is_report(out@, names.take(i as int), ts),
            decreases self.expressions.len() - i,
        {
            let name = &self.expressions[i].0;
            assert(names[i as int] == name@);
            let mut p: usize = 0;
            while p < out.len() && text_lt(&chars_of(out[p].0.as_str()), &chars_of(name.as_str()))
                invariant
                    p <= out.len(),
                    forall|q: int| 0 <= q < p ==> text_less(#[trigger] out@[q].0@, name@),
                decreases out.len() - p,
            {
                p += 1;
            }
            let ghost before = out@;
            let ghost next = names.take(i + 1);
            assert(next.drop_last() =~= names.take(i as int));
            assert(next.last() == name@);
            if p < out.len() && out[p].0 == *name {
                out.set(p, (name.clone(), texts[i].clone()));
                assert forall|j: int| 0 <= j < out@.len() && j != p implies out@[j].0@ != name@ by {
                    if j < p {
                        lemma_text_less_irreflexive(name@);
                    } else {
                        lemma_text_less_irreflexive(name@);
                    }
                }
                assert(is_report(out@, next, ts)) by {
                    assert forall|j: int| 0 <= j < out@.len() implies next.contains(#[trigger] out@[j].0@)
                        && out@[j].1@ == last_text(next, ts, out@[j].0@) by {
                        if j != p {
                            assert(names.take(i as int).contains(before[j].0@));
                            let w = choose|w: int| 0 <= w < names.take(i as int).len() && names.take(i as int)[w] == before[j].0@;
                            assert(next[w] == before[j].0@);
                        } else {
                            assert(next[i as int] == name@);
                        }
                    }
                    assert forall|k: int| 0 <= k < next.len() implies exists|j: int| 0 <= j < out@.len() && #[trigger] out@[j].0@
                        == #[trigger] next[k] by {
                        if k < i {
                            assert(names.take(i as int)[k] == next[k]);
                            let j = choose|j: int| 0 <= j < before.len() && #[trigger] before[j].0@ == #[trigger] names.take(i as int)[k];
                            assert(out@[j].0@ == before[j].0@);
                        } else {
                            assert(out@[p as int].0@ == next[k]);
                        }
                    }
                }
            } else {
                proof {
                    if p < out.len() {
                        lemma_text_less_total(out@[p as int].0@, name@);
                    }
                }
                out.insert(p, (name.clone(), texts[i].clone()));
                assert(out@ == before.insert(p as int, out@[p as int]));
                assert forall|a: int, b: int| 0 <= a < b < out@.len() implies text_less(#[trigger] out@[a].0@, #[trigger] out@[b].0@) by {
                    if b == p {
                        assert(out@[a] == before[a]);
                    } else if a == p {
                        assert(out@[b] == before[b - 1]);
                        if b - 1 > p {
                            lemma_text_less_transitive(name@, before[p as int].0@, before[b - 1].0@);
                        }
                    } else if b < p {
                        assert(out@[a] == before[a] && out@[b] == before[b]);
                    } else if a < p {
                        assert(out@[a] == before[a] && out@[b] == before[b - 1]);
                    } else {
                        assert(out@[a] == before[a - 1] && out@[b] == before[b - 1]);
                    }
                }
                assert(is_report(out@, next, ts)) by {
                    assert forall|j: int| 0 <= j < out@.len() implies next.contains(#[trigger] out@[j].0@)
                        && out@[j].1@ == last_text(next, ts, out@[j].0@) by {
                        if j == p {
                            assert(next[i as int] == name@);
                        } else {
                            let old_j = if j < p { j } else { j - 1 };
                            assert(out@[j] == before[old_j]);
                            if j < p {
                                lemma_text_less_irreflexive(name@);
                            } else {
                                lemma_text_less_irreflexive(name@);
                                if old_j > p {
                                    lemma_text_less_transitive(name@, before[p as int].0@, before[old_j].0@);
                                }
                            }
                            assert(before[old_j].0@ != name@);
                            assert(names.take(i as int).contains(before[old_j].0@));
                            let w = choose|w: int| 0 <= w < names.take(i as int).len() && names.take(i as int)[w] == before[old_j].0@;
                            assert(next[w] == before[old_j].0@);
                        }
                    }
                    assert forall|k: int| 0 <= k < next.len() implies exists|j: int| 0 <= j < out@.len() && #[trigger] out@[j].0@
                        == #[trigger] next[k] by {
                        if k < i {
                            assert(names.take(i as int)[k] == next[k]);
                            let j = choose|j: int| 0 <= j < before.len() && #[trigger] before[j].0@ == #[trigger] names.take(i as int)[k];
                            let new_j = if j < p { j } else { j + 1 };
                            assert(out@[new_j].0@ == before[j].0@);
                        } else {
                            assert(out@[p as int].0@ == next[k]);
                        }
                    }
                }
            }
            i += 1;
        }
        assert(names.take(i as int) =~= names);
        out
    }

    /// The clock's report at `at`: each expression's format shown at `at`;
    /// none when chrono cannot show one of the formats there.
    pub fn format_at(&self, at: &LocalMoment) -> (r: Option<Vec<(String, String)>>)
        ensures
            r is Some <==> forall|k: int|
                0 <= k < self.expressions@.len() ==> (#[trigger] strftime_text(
                    self.expressions@[k].1@,
                    at.secs,
                    at.nanos,
                    at.offset,
                )) is Some,
            r matches Some(v) ==> reports_moment(self.expressions@, v@, *at),
    {
        let mut texts: Vec<String> = Vec::new();
        let mut i: usize = 0;
        while i < self.expressions.len()
            invariant
                i <= self.expressions.len(),
                texts.len() == i,
                forall|k: int|
                    0 <= k < i ==> strftime_text(#[trigger] self.expressions@[k].1@, at.secs, at.nanos, at.offset)
                        == Some(texts@[k]@),
            decreases self.expressions.len() - i,
        {
            match moment_text(self.expressions[i].1.as_str(), at) {
                Some(t) => texts.push(t),
                None => {
                    return None;
                },
            }
            i += 1;
        }
        assert(string_views(texts@) =~= texts_at(self.expressions@, *at));
        let v = self.report(&texts);
        Some(v)
    }

    /// The clock's report now: each expression's format shown with one reading
    /// of the local clock; none when chrono cannot show one of the formats.
    pub fn format(&self) -> (r: Option<Vec<(String, String)>>)
        ensures
            r is Some <==> forall|k: int| 0 <= k < self.expressions@.len() ==> strftime_accepts(
                #[trigger] self.expressions@[k].1@,
            ),
            r matches Some(v) ==> exists|at: LocalMoment| #[trigger] reports_moment(self.expressions@, v@, at),
    {
        let at = local_now();
        let r = self.format_at(&at);
        proof {
            assert forall|k: int| 0 <= k < self.expressions@.len() implies (strftime_text(
                self.expressions@[k].1@,
                at.secs,
                at.nanos,
                at.offset,
            ) is Some <==> strftime_accepts(#[trigger] self.expressions@[k].1@)) by {}
            if r is Some {
                assert(reports_moment(self.expressions@, r->0@, at));
            }
        }
        r
    }

    /// Nanoseconds between reports.
    pub fn duration(&self) -> (d: Option<u64>)
        ensures
            d == Some(self.duration),
    {
        Some(self.duration)
    }
}

} // verus!

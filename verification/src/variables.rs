//! The variables that providers publish: a map from `provider.variable` names to
//! the values last received.
use crate::text::{chars_of, range_eq_vec};
use vstd::prelude::*;

verus! {

/// A value a provider published: a JSON string, or any other JSON value kept as
/// its JSON text.
#[derive(Clone, Debug, PartialEq, Eq)]
pub enum VarValue {
    /// A JSON string, unquoted.
    Text(String),
    /// Any other JSON value, as serde_json writes it (`12`, `true`, `[1,2]`, ...).
    Json(String),
}

/// The mathematical form of a [`VarValue`].
pub enum ValueView {
    Text(Seq<char>),
    Json(Seq<char>),
}

impl View for VarValue {
    type V = ValueView;

    open spec fn view(&self) -> ValueView {
        match self {
            VarValue::Text(s) => ValueView::Text(s@),
            VarValue::Json(j) => ValueView::Json(j@),
        }
    }
}

impl ValueView {
    /// The text a `${name}` reference shows for this value.
    pub open spec fn shown(self) -> Seq<char> {
        match self {
            ValueView::Text(s) => s,
            ValueView::Json(j) => j,
        }
    }
}

impl VarValue {
    /// The text a `${name}` reference shows for this value.
    pub fn shown(&self) -> (s: &String)
        ensures
            s@ == self@.shown(),
    {
        match self {
            VarValue::Text(s) => s,
            VarValue::Json(j) => j,
        }
    }

    /// The string, when the value is a JSON string.
    pub fn as_str(&self) -> (r: Option<&String>)
        ensures
            match self@ {
                ValueView::Text(s) => r is Some && r->0@ == s,
                ValueView::Json(_) => r is None,
            },
    {
        match self {
            VarValue::Text(s) => Some(s),
            VarValue::Json(_) => None,
        }
    }
}

/// One named value.
pub struct VarEntry {
    name: Vec<char>,
    value: VarValue,
}

/// Variables by name; each name occurs once.
pub struct Variables {
    entries: Vec<VarEntry>,
}

impl Variables {
    #[verifier::type_invariant]
    spec fn names_distinct(&self) -> bool {
        forall|i: int, j: int|
            0 <= i < self.entries.len() && 0 <= j < self.entries.len() && i != j
                ==> self.entries[i].name@ != self.entries[j].name@
    }

    /// Whether some entry is named `n`.
    pub closed spec fn has(&self, n: Seq<char>) -> bool {
        exists|i: int| 0 <= i < self.entries.len() && self.entries[i].name@ == n
    }

    /// The index of the entry named `n` (meaningful when `has(n)`).
    pub closed spec fn index_of(&self, n: Seq<char>) -> int {
        choose|i: int| 0 <= i < self.entries.len() && self.entries[i].name@ == n
    }

    /// The variables as a map from names to values.
    pub closed spec fn view(&self) -> Map<Seq<char>, ValueView> {
        Map::new(|n: Seq<char>| self.has(n), |n: Seq<char>| self.entries[self.index_of(n)].value@)
    }

    proof fn lemma_entry(&self, i: int)
        requires
            self.names_distinct(),
            0 <= i < self.entries.len(),
        ensures
            self.view().dom().contains(self.entries[i].name@),
            self.view()[self.entries[i].name@] == self.entries[i].value@,
            self.index_of(self.entries[i].name@) == i,
    {
        let n = self.entries[i].name@;
        assert(self.has(n));
        let j = self.index_of(n);
        assert(0 <= j < self.entries.len() && self.entries[j].name@ == n);
    }

    /// No variables.
    pub fn new() -> (r: Variables)
        ensures
            r.view() == Map::<Seq<char>, ValueView>::empty(),
    {
        let r = Variables { entries: Vec::new() };
        assert(r.view() =~= Map::<Seq<char>, ValueView>::empty());
        r
    }

    fn position(&self, v: &Vec<char>, lo: usize, hi: usize) -> (r: Option<usize>)
        requires
            lo <= hi <= v.len(),
        ensures
            match r {
                Some(i) => i < self.entries.len() && self.entries[i as int].name@ == v@.subrange(
                    lo as int,
                    hi as int,
                ),
                None => !self.has(v@.subrange(lo as int, hi as int)),
            },
    {
        let mut i: usize = 0;
        while i < self.entries.len()
            invariant
                lo <= hi <= v.len(),
                i <= self.entries.len(),
                forall|k: int| 0 <= k < i ==> self.entries[k].name@ != v@.subrange(lo as int, hi as int),
            decreases self.entries.len() - i,
        {
            if range_eq_vec(v, lo, hi, &self.entries[i].name) {
                return Some(i);
            }
            i += 1;
        }
        None
    }

    /// The value of the variable whose name is `v[lo..hi]`.
    pub fn get_range(&self, v: &Vec<char>, lo: usize, hi: usize) -> (r: Option<&VarValue>)
        requires
            lo <= hi <= v.len(),
        ensures
            match r {
                Some(x) => self.view().dom().contains(v@.subrange(lo as int, hi as int))
                    && self.view()[v@.subrange(lo as int, hi as int)] == x@,
                None => !self.view().dom().contains(v@.subrange(lo as int, hi as int)),
            },
    {
        proof {
            use_type_invariant(self);
        }
        match self.position(v, lo, hi) {
            Some(i) => {
                proof {
                    self.lemma_entry(i as int);
                }
                Some(&self.entries[i].value)
            },
            None => None,
        }
    }

    /// The value of the variable `name`.
    pub fn get(&self, name: &str) -> (r: Option<&VarValue>)
        ensures
            match r {
                Some(x) => self.view().dom().contains(name@) && self.view()[name@] == x@,
                None => !self.view().dom().contains(name@),
            },
    {
        let v = chars_of(name);
        assert(v@.subrange(0, v.len() as int) =~= v@);
        self.get_range(&v, 0, v.len())
    }

    /// Sets the variable `name` to `value`, replacing an earlier value.
    pub fn insert(&mut self, name: String, value: VarValue)
        ensures
            final(self).view() == old(self).view().insert(name@, value@),
    {
        proof {
            use_type_invariant(&*self);
        }
        let v = chars_of(name.as_str());
        assert(v@.subrange(0, v.len() as int) =~= v@);
        let ghost old_entries = self.entries@;
        let ghost old_view = self.view();
        match self.position(&v, 0, v.len()) {
            Some(i) => {
                let mut entries: Vec<VarEntry> = Vec::new();
                std::mem::swap(&mut entries, &mut self.entries);
                entries.set(i, VarEntry { name: v, value });
                self.entries = entries;
                proof {
                    self.lemma_entry(i as int);
                    assert forall|n: Seq<char>| #![auto] self.view().dom().contains(n) <==> old_view.insert(name@, value@).dom().contains(n) by {
                        if self.has(n) {
                            let j = self.index_of(n);
                            if j != i { assert(old_entries[j].name@ == n); }
                        }
                        if old_view.dom().contains(n) && n != name@ {
                            let j = choose|j: int| 0 <= j < old_entries.len() && old_entries[j].name@ == n;
                            assert(self.entries[j].name@ == n);
                        }
                    }
                    assert forall|n: Seq<char>| #![auto] self.view().dom().contains(n) implies self.view()[n] == old_view.insert(name@, value@)[n] by {
                        let j = self.index_of(n);
                        self.lemma_entry(j);
                        if j != i {
                            let k = choose|k: int| 0 <= k < old_entries.len() && old_entries[k].name@ == n;
                            assert(old_entries[k].name@ == old_entries[j].name@);
                        }
                    }
                    assert(self.view() =~= old_view.insert(name@, value@));
                }
            },
            None => {
                let mut entries: Vec<VarEntry> = Vec::new();
                std::mem::swap(&mut entries, &mut self.entries);
                entries.push(VarEntry { name: v, value });
                self.entries = entries;
                proof {
                    let last = self.entries.len() - 1;
                    self.lemma_entry(last);
                    assert forall|n: Seq<char>| #![auto] self.view().dom().contains(n) <==> old_view.insert(name@, value@).dom().contains(n) by {
                        if self.has(n) {
                            let j = self.index_of(n);
                            if j != last { assert(old_entries[j].name@ == n); }
                        }
                        if old_view.dom().contains(n) && n != name@ {
                            let j = choose|j: int| 0 <= j < old_entries.len() && old_entries[j].name@ == n;
                            assert(self.entries[j].name@ == n);
                        }
                    }
                    assert forall|n: Seq<char>| #![auto] self.view().dom().contains(n) implies self.view()[n] == old_view.insert(name@, value@)[n] by {
                        let j = self.index_of(n);
                        self.lemma_entry(j);
                        if j != last {
                            let k = choose|k: int| 0 <= k < old_entries.len() && old_entries[k].name@ == n;
                            assert(old_entries[k].name@ == old_entries[j].name@);
                        }
                    }
                    assert(self.view() =~= old_view.insert(name@, value@));
                }
            },
        }
    }
}


/// The full name of a provider's variable: `provider.name`.
pub open spec fn qualified(provider: Seq<char>, name: Seq<char>) -> Seq<char> {
    provider + seq!['.'] + name
}

/// `m` with each of `vars` set under its name qualified by `provider`, in order.
pub open spec fn with_provider_vars(m: Map<Seq<char>, ValueView>, provider: Seq<char>, vars: Seq<(Seq<char>, ValueView)>) -> Map<Seq<char>, ValueView>
    decreases vars.len(),
{
    if vars.len() == 0 {
        m
    } else {
        with_provider_vars(m, provider, vars.drop_last()).insert(
            qualified(provider, vars.last().0),
            vars.last().1,
        )
    }
}

/// The entries serde_json reads from a line as a JSON object
/// (`serde_json::from_str::<Map<String, Value>>`), in the order of its map: each
/// string value as text, every other value as the JSON text serde_json writes
/// for it; none when the line does not hold a JSON object.
pub uninterp spec fn json_object_entries(line: Seq<char>) -> Option<Seq<(Seq<char>, ValueView)>>;

/// Whether no name occurs twice among the entries.
pub open spec fn distinct_names(entries: Seq<(Seq<char>, ValueView)>) -> bool {
    forall|a: int, b: int| 0 <= a < entries.len() && 0 <= b < entries.len() && a != b ==> entries[a].0 != entries[b].0
}

/// The entries of a report, in mathematical form.
pub open spec fn entry_views(entries: Seq<(String, VarValue)>) -> Seq<(Seq<char>, ValueView)> {
    entries.map_values(|p: (String, VarValue)| (p.0@, p.1@))
}

/// The line and column (both counted from 1) that serde_json gives for its
/// error on a line that is not a JSON object (`serde_json::Error::line` and
/// `column` after `from_str::<Map<String, Value>>`).
pub uninterp spec fn json_error_position(line: Seq<char>) -> (usize, usize);

/// The message serde_json gives for its error on a line that is not a JSON
/// object (the `Display` of the `serde_json::Error` from
/// `from_str::<Map<String, Value>>`), e.g. `expected value at line 1 column 9`.
pub uninterp spec fn json_error_text(line: Seq<char>) -> Seq<char>;

/// Reads a provider's line with serde_json as a JSON object and turns its
/// values into variable values; on failure, where serde_json found the error
/// and its message.
/// The contract names serde_json's result and states that the keys of a JSON
/// object's map are distinct.
#[verifier::external_body]
fn json_entries(line: &str) -> (r: Result<Vec<(String, VarValue)>, (usize, usize, String)>)
    ensures
        match r {
            Ok(v) => json_object_entries(line@) == Some(entry_views(v@)) && distinct_names(entry_views(v@)),
            Err(p) => json_object_entries(line@) is None && (p.0, p.1) == json_error_position(line@) && p.2@
                == json_error_text(line@),
        },
{
    match serde_json::from_str::<serde_json::Map<String, serde_json::Value>>(line) {
        Ok(map) => Ok(map.into_iter().map(|(k, v)| (k, match v {
            serde_json::Value::String(s) => VarValue::Text(s),
            other => VarValue::Json(other.to_string()),
        })).collect()),
        Err(e) => Err((e.line(), e.column(), e.to_string())),
    }
}

/// The number of bytes UTF-8 takes for `c`.
pub open spec fn utf8_len(c: char) -> nat {
    if (c as u32) < 0x80 {
        1
    } else if (c as u32) < 0x800 {
        2
    } else if (c as u32) < 0x10000 {
        3
    } else {
        4
    }
}

/// The bytes of `input` from its character `i` on that come before the place of
/// line `loc_line` and column `loc_col` (both from 1), when character `i`
/// stands on line `l + 1`, column `c + 1`: the walk stops at the first
/// character at or past that line and column, or at the end of the input.
pub open spec fn offset_from(input: Seq<char>, loc_line: nat, loc_col: nat, i: int, l: nat, c: nat) -> nat
    decreases input.len() - i,
{
    if i < 0 || i >= input.len() || (l + 1 >= loc_line && c + 1 >= loc_col) {
        0
    } else if input[i] == '\n' {
        utf8_len(input[i]) + offset_from(input, loc_line, loc_col, i + 1, l + 1, 0)
    } else {
        utf8_len(input[i]) + offset_from(input, loc_line, loc_col, i + 1, l, c + 1)
    }
}

/// The byte offset of line `line`, column `column` (both from 1) in `input`, as
/// miette places it; past the input, its length in bytes.
pub open spec fn location_offset(input: Seq<char>, line: nat, column: nat) -> nat {
    offset_from(input, line, column, 0, 0, 0)
}

/// The byte offset of a line and column in `input`
/// (`miette::SourceOffset::from_location`); it walks the characters, counting
/// lines at each newline, and stops at the first character at or past the place.
#[verifier::external_body]
fn source_offset(input: &str, line: usize, column: usize) -> (r: usize)
    ensures
        r == location_offset(input@, line as nat, column as nat),
{
    miette::SourceOffset::from_location(input, line, column).offset()
}

/// A line from a provider that is not a JSON object, and where it went wrong.
#[derive(Clone, Debug, PartialEq, Eq)]
pub struct MalformedReport {
    /// The provider that wrote the line.
    pub provider: String,
    /// The line as it was read.
    pub input: String,
    /// The line of the error, from 1.
    pub line: usize,
    /// The column of the error, from 1.
    pub column: usize,
    /// The byte offset in `input` that the error marks.
    pub offset: usize,
    /// What went wrong there.
    pub message: String,
}

impl MalformedReport {
    /// The report of the error `message` at `line` and `column` in the `input`
    /// that `provider` wrote, with the byte offset they mark.
    pub fn at(provider: &str, input: &str, line: usize, column: usize, message: String) -> (e: MalformedReport)
        ensures
            e.provider@ == provider@,
            e.input@ == input@,
            e.line == line,
            e.column == column,
            e.offset == location_offset(input@, line as nat, column as nat),
            e.message == message,
    {
        let offset = source_offset(input, line, column);
        MalformedReport { provider: provider.to_owned(), input: input.to_owned(), line, column, offset, message }
    }
}

impl Variables {
    /// Takes in a provider's report: each variable `k` becomes `provider.k`.
    pub fn update_provider(&mut self, provider: &str, vars: Vec<(String, VarValue)>)
        ensures
            final(self).view() == with_provider_vars(
                old(self).view(),
                provider@,
                vars@.map_values(|p: (String, VarValue)| (p.0@, p.1@)),
            ),
    {
        let ghost pairs = vars@.map_values(|p: (String, VarValue)| (p.0@, p.1@));
        let prefix = chars_of(provider);
        let mut vars = vars;
        let mut rest: Vec<(String, VarValue)> = Vec::new();
        let ghost start = self.view();
        let n = vars.len();
        while vars.len() > 0
            invariant
                vars.len() + rest.len() == n,
                pairs.len() == n,
                forall|k: int| 0 <= k < rest.len() ==> (#[trigger] rest@[k]).0@ == pairs[n - 1 - k].0 && rest@[k].1@ == pairs[n - 1 - k].1,
                forall|k: int| 0 <= k < vars.len() ==> (#[trigger] vars@[k]).0@ == pairs[k].0 && vars@[k].1@ == pairs[k].1,
                self.view() == start,
                prefix@ == provider@,
            decreases vars.len(),
        {
            let p = vars.pop().unwrap();
            rest.push(p);
        }
        let mut i: usize = 0;
        while i < n
            invariant
                i <= n,
                rest.len() + i == n,
                pairs.len() == n,
                forall|k: int| 0 <= k < rest.len() ==> (#[trigger] rest@[k]).0@ == pairs[n - 1 - k].0 && rest@[k].1@ == pairs[n - 1 - k].1,
                self.view() == with_provider_vars(start, provider@, pairs.take(i as int)),
                prefix@ == provider@,
            decreases n - i,
        {
            let (key, value) = rest.pop().unwrap();
            let mut full: Vec<char> = Vec::new();
            let mut j: usize = 0;
            while j < prefix.len()
                invariant
                    j <= prefix.len(),
                    full@ == prefix@.take(j as int),
                decreases prefix.len() - j,
            {
                full.push(prefix[j]);
                j += 1;
                assert(full@ =~= prefix@.take(j as int));
            }
            full.push('.');
            let kc = chars_of(key.as_str());
            let mut j: usize = 0;
            let ghost base = full@;
            while j < kc.len()
                invariant
                    j <= kc.len(),
                    full@ == base + kc@.take(j as int),
                decreases kc.len() - j,
            {
                full.push(kc[j]);
                j += 1;
                assert(full@ =~= base + kc@.take(j as int));
            }
            assert(prefix@.take(prefix.len() as int) =~= prefix@);
            assert(kc@.take(kc.len() as int) =~= kc@);
            let name = crate::text::string_of(&full);
            assert(name@ =~= qualified(provider@, pairs[i as int].0));
            self.insert(name, value);
            assert(pairs.take(i + 1).drop_last() =~= pairs.take(i as int));
            i += 1;
        }
        assert(pairs.take(n as int) =~= pairs);
    }

    /// Takes in a line a provider wrote: a JSON object whose entries become the
    /// provider's variables; any other line is refused and changes nothing.
    pub fn take_report(&mut self, provider: &str, line: &str) -> (r: Result<(), MalformedReport>)
        ensures
            match json_object_entries(line@) {
                Some(entries) => r is Ok && distinct_names(entries)
                    && final(self).view() == with_provider_vars(old(self).view(), provider@, entries),
                None => r matches Err(e) && e.provider@ == provider@ && e.input@ == line@
                    && (e.line, e.column) == json_error_position(line@) && e.message@ == json_error_text(line@)
                    && e.offset == location_offset(line@, e.line as nat, e.column as nat)
                    && final(self).view() == old(self).view(),
            },
    {
        match json_entries(line) {
            Ok(entries) => {
                assert(entries@.map_values(|p: (String, VarValue)| (p.0@, p.1@)) == entry_views(entries@));
                self.update_provider(provider, entries);
                Ok(())
            },
            Err((l, c, message)) => Err(MalformedReport::at(provider, line, l, c, message)),
        }
    }
}


/// A variable read after it was set gives the value set; other variables keep
/// what they had.
pub proof fn law_read_after_write(m: Map<Seq<char>, ValueView>, name: Seq<char>, value: ValueView, other: Seq<char>)
    requires
        other != name,
    ensures
        m.insert(name, value).dom().contains(name),
        m.insert(name, value)[name] == value,
        m.insert(name, value).dom().contains(other) == m.dom().contains(other),
        m.dom().contains(other) ==> m.insert(name, value)[other] == m[other],
{
}

proof fn lemma_qualified_injective(provider: Seq<char>, a: Seq<char>, b: Seq<char>)
    requires
        qualified(provider, a) == qualified(provider, b),
    ensures
        a == b,
{
    let n = provider.len() + 1;
    assert(qualified(provider, a).subrange(n as int, qualified(provider, a).len() as int) =~= a);
    assert(qualified(provider, b).subrange(n as int, qualified(provider, b).len() as int) =~= b);
}

/// After a provider's report, each variable it reported is read under
/// `provider.name` with the value reported (names in a report are distinct).
pub proof fn law_provider_report_readable(
    m: Map<Seq<char>, ValueView>,
    provider: Seq<char>,
    vars: Seq<(Seq<char>, ValueView)>,
    i: int,
)
    requires
        0 <= i < vars.len(),
        distinct_names(vars),
    ensures
        with_provider_vars(m, provider, vars).dom().contains(qualified(provider, vars[i].0)),
        with_provider_vars(m, provider, vars)[qualified(provider, vars[i].0)] == vars[i].1,
    decreases vars.len(),
{
    let last = vars.len() - 1;
    if i < last {
        let rest = vars.drop_last();
        assert(distinct_names(rest)) by {
            assert forall|a: int, b: int| 0 <= a < rest.len() && 0 <= b < rest.len() && a != b implies rest[a].0
                != rest[b].0 by {
                assert(rest[a] == vars[a] && rest[b] == vars[b]);
            }
        }
        law_provider_report_readable(m, provider, rest, i);
        assert(rest[i] == vars[i]);
        if qualified(provider, vars[last].0) == qualified(provider, vars[i].0) {
            lemma_qualified_injective(provider, vars[last].0, vars[i].0);
        }
    }
}

} // verus!

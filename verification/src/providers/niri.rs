//! The niri provider: which compositor events call for a new report, and what
//! a reply about the focused window reports.
use std::collections::BTreeMap;
use vstd::prelude::*;

verus! {

/// Whether serde_json reads `line` as a JSON value (`from_str::<Value>`) that
/// has a top-level entry named `key` (`Value::get`); none when the line is not
/// JSON.
pub uninterp spec fn json_top_key(line: Seq<char>, key: Seq<char>) -> Option<bool>;

/// Reads `line` with serde_json as a JSON value and looks up `key` in it.
#[verifier::external_body]
fn json_has_key(line: &str, key: &str) -> (r: Option<bool>)
    ensures
        r == json_top_key(line@, key@),
{
    match serde_json::from_str::<serde_json::Value>(line) {
        Ok(v) => Some(v.get(key).is_some()),
        Err(_) => None,
    }
}

/// Whether a line of niri's event stream reports a change of focus: a JSON
/// value with a `WindowFocusChanged` entry; none when the line is not JSON.
pub fn focus_changed(line: &str) -> (r: Option<bool>)
    ensures
        r == json_top_key(line@, "WindowFocusChanged"@),
{
    json_has_key(line, "WindowFocusChanged")
}

/// What serde_json reads from a reply of niri as
/// `Result<BTreeMap<String, Option<Box<RawValue>>>, String>`: none when the
/// reply is not of that form; an `Err` entry's message; or the entries of an
/// `Ok` object in key order, each with the raw JSON text of its value, or none
/// for `null`. Where a key occurs twice, the map keeps the last value.
pub uninterp spec fn niri_reply_entries(reply: Seq<char>) -> Option<Result<Seq<(Seq<char>, Option<Seq<char>>)>, Seq<char>>>;

/// The text an optional string holds.
pub open spec fn opt_text(o: Option<String>) -> Option<Seq<char>> {
    match o {
        Some(s) => Some(s@),
        None => None,
    }
}

/// The entries of a reply, in mathematical form.
pub open spec fn reply_views(v: Seq<(String, Option<String>)>) -> Seq<(Seq<char>, Option<Seq<char>>)> {
    v.map_values(|p: (String, Option<String>)| (p.0@, opt_text(p.1)))
}

/// Reads a reply of niri with serde_json.
#[verifier::external_body]
fn reply_entries(reply: &str) -> (r: Option<Result<Vec<(String, Option<String>)>, String>>)
    ensures
        match r {
            None => niri_reply_entries(reply@) is None,
            Some(Err(m)) => niri_reply_entries(reply@) == Some(Err::<Seq<(Seq<char>, Option<Seq<char>>)>, Seq<char>>(m@)),
            Some(Ok(v)) => niri_reply_entries(reply@) == Some(Ok::<Seq<(Seq<char>, Option<Seq<char>>)>, Seq<char>>(reply_views(v@))),
        },
{
    match serde_json::from_str::<Result<BTreeMap<String, Option<Box<serde_json::value::RawValue>>>, String>>(reply) {
        Ok(Ok(map)) => Some(Ok(map.into_iter().map(|(k, v)| (k, v.map(|raw| raw.get().to_string()))).collect())),
        Ok(Err(m)) => Some(Err(m)),
        Err(_) => None,
    }
}

/// The place of the first entry named `key` from `i` on, or the length.
pub open spec fn key_index(entries: Seq<(Seq<char>, Option<Seq<char>>)>, key: Seq<char>, i: int) -> int
    decreases entries.len() - i,
{
    if i < 0 || i >= entries.len() {
        entries.len() as int
    } else if entries[i].0 == key {
        i
    } else {
        key_index(entries, key, i + 1)
    }
}

/// The window a focus reply reports: the raw JSON of its `FocusedWindow`
/// entry, or `{}` when there is none or it is `null`.
pub open spec fn window_text(entries: Seq<(Seq<char>, Option<Seq<char>>)>) -> Seq<char> {
    let k = key_index(entries, "FocusedWindow"@, 0);
    if k < entries.len() && entries[k].1 is Some {
        entries[k].1->0
    } else {
        "{}"@
    }
}

/// Why a focus reply gives no window.
#[derive(Clone, Debug, PartialEq, Eq)]
pub enum FocusError {
    /// The reply is not of the form niri answers with.
    Malformed,
    /// niri answered with this error.
    Refused(String),
}

/// What the provider reports for niri's reply to a `FocusedWindow` request:
/// the focused window as niri wrote it, or `{}` when no window has the focus.
pub fn focused_window_text(reply: &str) -> (r: Result<String, FocusError>)
    ensures
        match niri_reply_entries(reply@) {
            None => r == Err::<String, FocusError>(FocusError::Malformed),
            Some(Err(m)) => r matches Err(FocusError::Refused(t)) && t@ == m,
            Some(Ok(entries)) => r matches Ok(t) && t@ == window_text(entries),
        },
{
    match reply_entries(reply) {
        None => Err(FocusError::Malformed),
        Some(Err(m)) => Err(FocusError::Refused(m)),
        Some(Ok(entries)) => {
            let ghost es = reply_views(entries@);
            let key = String::from_str("FocusedWindow");
            let mut i: usize = 0;
            while i < entries.len()
                invariant
                    i <= entries.len(),
                    es == reply_views(entries@),
                    niri_reply_entries(reply@) == Some(Ok::<Seq<(Seq<char>, Option<Seq<char>>)>, Seq<char>>(es)),
                    key@ == "FocusedWindow"@,
                    key_index(es, "FocusedWindow"@, 0) == key_index(es, "FocusedWindow"@, i as int),
                decreases entries.len() - i,
            {
                assert(es[i as int] == (entries@[i as int].0@, opt_text(entries@[i as int].1)));
                if entries[i].0 == key {
                    assert(key_index(es, "FocusedWindow"@, i as int) == i as int);
                    match &entries[i].1 {
                        Some(t) => {
                            let shown = t.clone();
                            assert(shown@ == t@);
                            return Ok(shown);
                        },
                        None => {
                            return Ok(String::from_str("{}"));
                        },
                    }
                }
                i += 1;
            }
            Ok(String::from_str("{}"))
        },
    }
}

} // verus!

//! The bar's built-in components: value histories for graphs, memory figures,
//! the date's formats, and the choice of the player to show.
use crate::number::{decimal, push_decimal, push_zero_padded, zero_padded};
use crate::text::string_of;
use vstd::prelude::*;

verus! {

/// The last `max_points` values of a measurement, oldest first.
pub struct Record<T> {
    max_points: usize,
    datapoints: Vec<T>,
}

impl<T: Copy> Record<T> {
    /// The values held, oldest first.
    pub closed spec fn points(&self) -> Seq<T> {
        self.datapoints@
    }

    /// How many values are held.
    pub closed spec fn capacity(&self) -> nat {
        self.max_points as nat
    }

    /// A history of `max_points` values, all `fill` (the type's default value).
    pub fn new(max_points: usize, fill: T) -> (r: Record<T>)
        ensures
            r.points() == Seq::new(max_points as nat, |i: int| fill),
            r.capacity() == max_points,
    {
        let mut datapoints: Vec<T> = Vec::new();
        let mut i: usize = 0;
        while i < max_points
            invariant
                i <= max_points,
                datapoints@ == Seq::new(i as nat, |k: int| fill),
            decreases max_points - i,
        {
            datapoints.push(fill);
            i += 1;
            assert(datapoints@ =~= Seq::new(i as nat, |k: int| fill));
        }
        Record { max_points, datapoints }
    }

    /// Adds the newest value; the oldest one drops out.
    pub fn push_point(&mut self, value: T)
        requires
            old(self).points().len() > 0,
        ensures
            final(self).points() == old(self).points().drop_first().push(value),
            final(self).capacity() == old(self).capacity(),
    {
        let mut next: Vec<T> = Vec::new();
        let mut i: usize = 1;
        while i < self.datapoints.len()
            invariant
                1 <= i <= self.datapoints.len(),
                self.datapoints@ == old(self).datapoints@,
                next@ == self.datapoints@.subrange(1, i as int),
            decreases self.datapoints.len() - i,
        {
            next.push(self.datapoints[i]);
            i += 1;
            assert(next@ =~= self.datapoints@.subrange(1, i as int));
        }
        next.push(value);
        assert(next@ =~= old(self).datapoints@.drop_first().push(value));
        self.datapoints = next;
    }

    /// The values held, oldest first.
    pub fn datapoints(&self) -> (d: &Vec<T>)
        ensures
            d@ == self.points(),
    {
        &self.datapoints
    }

    /// How many values the history holds.
    pub fn max_points(&self) -> (n: usize)
        ensures
            n == self.capacity(),
    {
        self.max_points
    }
}

/// A history keeps its length: pushing a value drops exactly the oldest one.
pub proof fn law_record_keeps_length<T>(points: Seq<T>, value: T)
    requires
        points.len() > 0,
    ensures
        points.drop_first().push(value).len() == points.len(),
        points.drop_first().push(value).last() == value,
        forall|i: int| 0 <= i < points.len() - 1 ==> points.drop_first().push(value)[i] == points[i + 1],
{
}

/// Memory figures in bytes.
pub struct RamUpdate {
    pub used: u64,
    pub free: u64,
    pub total: u64,
}

/// The memory component's state: the last figures and a history of use.
pub struct RamMeta {
    pub total: u64,
    pub free: u64,
    pub used: Record<u64>,
}

impl RamMeta {
    /// Takes in new figures.
    pub fn update(&mut self, update: RamUpdate)
        requires
            old(self).used.points().len() > 0,
        ensures
            final(self).total == update.total,
            final(self).free == update.free,
            final(self).used.points() == old(self).used.points().drop_first().push(update.used),
    {
        self.total = update.total;
        self.free = update.free;
        self.used.push_point(update.used);
    }
}

/// Minutes and seconds of a duration in seconds, each cast to 16 bits.
pub fn min_secs(total_secs: u64) -> (r: (u16, u16))
    ensures
        r.0 == (total_secs / 60) % 65536,
        r.1 == total_secs % 60,
{
    let secs = total_secs % 60;
    let mins = total_secs / 60;
    ((mins % 65536) as u16, secs as u16)
}

/// The time text of the player view: position and length, each as minutes
/// (cast to 16 bits) and two-digit seconds, e.g. `1:05/3:20`.
pub open spec fn time_pair_spec(position: u64, length: u64) -> Seq<char> {
    decimal(((position / 60) % 65536) as nat) + seq![':'] + zero_padded((position % 60) as nat, 2) + seq!['/']
        + decimal(((length / 60) % 65536) as nat) + seq![':'] + zero_padded((length % 60) as nat, 2)
}

/// The time text of the player view for a position and a length in seconds.
pub fn time_pair_text(position_secs: u64, length_secs: u64) -> (r: String)
    ensures
        r@ == time_pair_spec(position_secs, length_secs),
{
    let (pm, ps) = min_secs(position_secs);
    let (lm, ls) = min_secs(length_secs);
    let mut out: Vec<char> = Vec::new();
    push_decimal(&mut out, pm as u64);
    out.push(':');
    push_zero_padded(&mut out, ps as u64, 2);
    out.push('/');
    push_decimal(&mut out, lm as u64);
    out.push(':');
    push_zero_padded(&mut out, ls as u64, 2);
    let r = string_of(&out);
    assert(r@ =~= time_pair_spec(position_secs, length_secs));
    r
}

/// A player's state, most active first.
#[derive(Clone, Copy, Debug, PartialEq, Eq, Structural)]
pub enum PlayerState {
    Playing,
    Paused,
    Stopped,
}

/// Whether a state is at least as active as `by`.
pub open spec fn passes(s: PlayerState, by: PlayerState) -> bool {
    match by {
        PlayerState::Playing => s == PlayerState::Playing,
        PlayerState::Paused => s == PlayerState::Playing || s == PlayerState::Paused,
        PlayerState::Stopped => true,
    }
}

impl PlayerState {
    /// Whether this state is at least as active as `by`.
    pub fn filter(&self, by: PlayerState) -> (b: bool)
        ensures
            b == passes(*self, by),
    {
        match by {
            PlayerState::Playing => matches!(self, PlayerState::Playing),
            PlayerState::Paused => matches!(self, PlayerState::Playing | PlayerState::Paused),
            PlayerState::Stopped => true,
        }
    }
}

/// Which players the now-playing component prefers.
pub struct Preference {
    /// Player names, most preferred first.
    pub players: Vec<String>,
    /// Whether any player may be shown when no preferred one qualifies.
    pub allow_any: bool,
    /// The least active state a preferred player may have.
    pub at_least: PlayerState,
}

/// A player as the now-playing component knows it.
pub struct PlayerEntry {
    pub name: String,
    pub state: PlayerState,
}

/// Index of the first player named `name` that passes `at_least`, or `-1`.
pub open spec fn first_named(players: Seq<PlayerEntry>, name: Seq<char>, at_least: PlayerState) -> int {
    if exists|k: int| 0 <= k < players.len() && players[k].name@ == name && passes(players[k].state, at_least) {
        choose|k: int| 0 <= k < players.len() && players[k].name@ == name && passes(players[k].state, at_least)
            && forall|j: int| 0 <= j < k ==> !(players[j].name@ == name && passes(players[j].state, at_least))
    } else {
        -1
    }
}

fn names_equal(a: &String, b: &String) -> (r: bool)
    ensures
        r == (a@ == b@),
{
    a.eq(b)
}

/// The player to show: for the first preferred name that some qualifying player
/// has, the first such player; else the first player, if any player may be shown.
pub fn choose_player(players: &Vec<PlayerEntry>, pref: &Preference) -> (r: Option<usize>)
    ensures
        match r {
            Some(i) => i < players.len() && ((exists|p: int| 0 <= p < pref.players.len() && {
                &&& first_named(players@, pref.players@[p]@, pref.at_least) == i
                &&& forall|q: int| 0 <= q < p ==> first_named(players@, pref.players@[q]@, pref.at_least) == -1
            }) || (pref.allow_any && i == 0 && forall|p: int| 0 <= p < pref.players.len() ==> first_named(
                players@,
                pref.players@[p]@,
                pref.at_least,
            ) == -1)),
            None => (forall|p: int| 0 <= p < pref.players.len() ==> first_named(players@, pref.players@[p]@, pref.at_least)
                == -1) && (!pref.allow_any || players.len() == 0),
        },
{
    let mut p: usize = 0;
    while p < pref.players.len()
        invariant
            p <= pref.players.len(),
            forall|q: int| 0 <= q < p ==> first_named(players@, pref.players@[q]@, pref.at_least) == -1,
        decreases pref.players.len() - p,
    {
        let mut k: usize = 0;
        while k < players.len()
            invariant
                k <= players.len(),
                p < pref.players.len(),
                forall|q: int| 0 <= q < p ==> first_named(players@, pref.players@[q]@, pref.at_least) == -1,
                forall|j: int| 0 <= j < k ==> !(players@[j].name@ == pref.players@[p as int]@ && passes(players@[j].state, pref.at_least)),
            decreases players.len() - k,
        {
            if names_equal(&players[k].name, &pref.players[p]) && players[k].state.filter(pref.at_least) {
                proof {
                    let name = pref.players@[p as int]@;
                    let c = first_named(players@, name, pref.at_least);
                    assert(0 <= c < players.len() && players@[c].name@ == name && passes(players@[c].state, pref.at_least));
                    if c < k {
                        assert(false);
                    }
                    if c > k {
                        assert(!(players@[k as int].name@ == name && passes(players@[k as int].state, pref.at_least)));
                    }
                    assert(c == k);
                    let pp = p as int;
                    assert(0 <= pp < pref.players.len() && {
                        &&& first_named(players@, pref.players@[pp]@, pref.at_least) == k
                        &&& forall|q: int| 0 <= q < pp ==> first_named(players@, pref.players@[q]@, pref.at_least) == -1
                    });
                }
                return Some(k);
            }
            k += 1;
        }
        p += 1;
    }
    if pref.allow_any && players.len() > 0 {
        Some(0)
    } else {
        None
    }
}

/// A named time format of the date component.
pub struct DateElement {
    pub name: String,
    pub fmt: String,
}

/// The date component: the formats it shows.
pub struct Date {
    pub elements: Vec<DateElement>,
}

impl Date {
    /// Day (`%a`), time (`%R`) and date (`%d.%m.%Y`).
    pub fn default() -> (d: Date)
        ensures
            d.elements@.len() == 3,
            d.elements@[0].name@ == "DAY"@ && d.elements@[0].fmt@ == "%a"@,
            d.elements@[1].name@ == "TIME"@ && d.elements@[1].fmt@ == "%R"@,
            d.elements@[2].name@ == "DATE"@ && d.elements@[2].fmt@ == "%d.%m.%Y"@,
    {
        let mut elements: Vec<DateElement> = Vec::new();
        elements.push(DateElement { name: "DAY".to_owned(), fmt: "%a".to_owned() });
        elements.push(DateElement { name: "TIME".to_owned(), fmt: "%R".to_owned() });
        elements.push(DateElement { name: "DATE".to_owned(), fmt: "%d.%m.%Y".to_owned() });
        Date { elements }
    }
}

/// The default of the preference `allow_any`.
pub fn bool_true() -> (b: bool)
    ensures
        b,
{
    true
}

/// The scrolling of the now-playing component's two texts.
pub struct NowPlayingState {
    pub scrolling_album_artist_text: crate::widgets::scroll_text::ScrollTextState,
    pub scrolling_title_text: crate::widgets::scroll_text::ScrollTextState,
}

/// How a preference names players.
pub enum PrefType {
    Paused,
    Playing,
    AnyPlaying(Vec<String>),
    AnyPaused(Vec<String>),
}

} // verus!

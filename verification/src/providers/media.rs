//! The media provider: which player to show, and how its song is reported.
use crate::markup::{SpanView, formatted, law_format_plain, replaced, unescaped};
use crate::style::{StyleDialect, plain_style};
use crate::number::{decimal, push_decimal, push_zero_padded, zero_padded};
use crate::text::{chars_of, range_eq_vec, string_views, contains_chars, contains_seq, join_strings, joined, lowercase, push_char, push_str,
    range_eq, string_of_range, to_lowercase};
use vstd::prelude::*;

verus! {

/// A player's playback status, from most to least active.
#[derive(Clone, Copy, Debug, PartialEq, Eq, Structural)]
pub enum PlaybackStatus {
    Playing,
    Paused,
    Stopped,
}

/// The order of statuses: playing, then paused, then stopped.
pub open spec fn status_rank(s: PlaybackStatus) -> nat {
    match s {
        PlaybackStatus::Playing => 0,
        PlaybackStatus::Paused => 1,
        PlaybackStatus::Stopped => 2,
    }
}

/// Whether `s` is at least as active as `priority`.
pub fn at_least(s: PlaybackStatus, priority: PlaybackStatus) -> (b: bool)
    ensures
        b == (status_rank(s) <= status_rank(priority)),
{
    let a: u8 = match s {
        PlaybackStatus::Playing => 0,
        PlaybackStatus::Paused => 1,
        PlaybackStatus::Stopped => 2,
    };
    let b: u8 = match priority {
        PlaybackStatus::Playing => 0,
        PlaybackStatus::Paused => 1,
        PlaybackStatus::Stopped => 2,
    };
    a <= b
}

/// What the media provider is started with.
pub struct MediaArgs {
    /// Nanoseconds between reports.
    pub duration: u64,
    pub playing_symbol: String,
    pub pause_symbol: String,
    pub stop_symbol: String,
    /// The least active status a player may have to be shown.
    pub priority: PlaybackStatus,
    /// Parts of player names, most preferred first (lower case).
    pub players: Vec<String>,
}

impl MediaArgs {
    /// The arguments the provider works with: the preferred player names
    /// lower-cased, as they are matched against lower-cased identities.
    pub fn init(self) -> (r: MediaArgs)
        ensures
            r.duration == self.duration,
            r.playing_symbol == self.playing_symbol,
            r.pause_symbol == self.pause_symbol,
            r.stop_symbol == self.stop_symbol,
            r.priority == self.priority,
            r.players@.len() == self.players@.len(),
            forall|i: int| 0 <= i < r.players@.len() ==> #[trigger] r.players@[i]@ == lowercase(self.players@[i]@),
    {
        let mut players: Vec<String> = Vec::new();
        let mut i: usize = 0;
        while i < self.players.len()
            invariant
                i <= self.players.len(),
                players.len() == i,
                forall|k: int| 0 <= k < i ==> #[trigger] players@[k]@ == lowercase(self.players@[k]@),
            decreases self.players.len() - i,
        {
            players.push(to_lowercase(self.players[i].as_str()));
            i += 1;
        }
        MediaArgs {
            duration: self.duration,
            playing_symbol: self.playing_symbol,
            pause_symbol: self.pause_symbol,
            stop_symbol: self.stop_symbol,
            priority: self.priority,
            players,
        }
    }
}

/// What the provider knows of a player at the time of a report.
pub struct PlayerSnapshot {
    /// The player's bus name, e.g. `org.mpris.MediaPlayer2.spotify`.
    pub bus: String,
    /// The name the player gives itself.
    pub identity: String,
    pub status: PlaybackStatus,
    pub title: String,
    pub album: String,
    pub artists: Vec<String>,
    /// The cover art's URL.
    pub art: String,
    /// Seconds played, where known.
    pub position: Option<u64>,
    /// Seconds of the song, where known.
    pub length: Option<u64>,
    /// The volume in percent.
    pub volume: u8,
}

/// One report of the media provider.
pub struct MediaFormat {
    pub length: String,
    pub position: String,
    pub progress: u64,
    pub title: String,
    pub album: String,
    pub artist: String,
    pub art: String,
    pub button_symbol: String,
    pub volume: u8,
}

/// The text shown for an unknown time.
pub open spec fn unknown_time() -> Seq<char> {
    seq!['x', 'x', ':', 'x', 'x']
}

/// A time in seconds as `h:mm:ss`, or `m:ss` under an hour; `xx:xx` when unknown.
pub open spec fn time_text(secs: Option<u64>) -> Seq<char> {
    match secs {
        Some(d) => {
            let s = d % 60;
            let m = (d / 60) % 60;
            let h = d / 3600;
            if h != 0 {
                decimal(h as nat) + seq![':'] + zero_padded(m as nat, 2) + seq![':'] + zero_padded(s as nat, 2)
            } else {
                decimal(m as nat) + seq![':'] + zero_padded(s as nat, 2)
            }
        },
        None => unknown_time(),
    }
}

/// Shows a time in seconds: `1:02:03`, `4:05`, or `xx:xx` when unknown.
pub fn format_time(secs: Option<u64>) -> (r: String)
    ensures
        r@ == time_text(secs),
{
    match secs {
        Some(d) => {
            let s = d % 60;
            let m = (d / 60) % 60;
            let h = d / 60 / 60;
            assert(h == d / 3600) by {
                vstd::arithmetic::div_mod::lemma_div_denominator(d as int, 60, 60);
            }
            let mut out: Vec<char> = Vec::new();
            if h != 0 {
                push_decimal(&mut out, h);
                out.push(':');
                push_zero_padded(&mut out, m, 2);
                out.push(':');
                push_zero_padded(&mut out, s, 2);
            } else {
                push_decimal(&mut out, m);
                out.push(':');
                push_zero_padded(&mut out, s, 2);
            }
            let r = crate::text::string_of(&out);
            assert(r@ =~= time_text(secs));
            r
        },
        None => {
            let r = "xx:xx".to_owned();
            proof {
                reveal_strlit("xx:xx");
            }
            assert(r@ =~= unknown_time());
            r
        },
    }
}

/// `t` with a backslash put before each `)` and `(`, so that the bar shows them
/// as they are.
pub open spec fn escaped(t: Seq<char>) -> Seq<char>
    decreases t.len(),
{
    if t.len() == 0 {
        Seq::empty()
    } else {
        let c = t.last();
        escaped(t.drop_last()) + if c == ')' || c == '(' {
            seq!['\\', c]
        } else {
            seq![c]
        }
    }
}

/// The position to show for a player, in seconds: while it plays, the position
/// it last reported plus the `elapsed` seconds since; otherwise the reported
/// position as it is.
pub fn shown_position(position: Option<u64>, status: PlaybackStatus, elapsed: u64) -> (r: Option<u64>)
    requires
        status == PlaybackStatus::Playing && position is Some ==> position->0 + elapsed <= u64::MAX,
    ensures
        r == (match position {
            Some(p) => Some(if status == PlaybackStatus::Playing { (p + elapsed) as u64 } else { p }),
            None => None::<u64>,
        }),
{
    match position {
        Some(p) => {
            if status == PlaybackStatus::Playing {
                Some(p + elapsed)
            } else {
                Some(p)
            }
        },
        None => None,
    }
}

/// Escapes the parentheses of `s` for the bar's markup.
pub fn escape_parens(s: &str) -> (r: String)
    ensures
        r@ == escaped(s@),
{
    let v = chars_of(s);
    let mut r = String::new();
    let mut i: usize = 0;
    while i < v.len()
        invariant
            i <= v.len(),
            v@ == s@,
            r@ == escaped(v@.take(i as int)),
        decreases v.len() - i,
    {
        assert(v@.take(i + 1).drop_last() =~= v@.take(i as int));
        let c = v[i];
        if c == ')' || c == '(' {
            push_char(&mut r, '\\');
        }
        push_char(&mut r, c);
        assert(r@ =~= escaped(v@.take(i + 1)));
        i += 1;
    }
    assert(v@.take(i as int) =~= v@);
    r
}

/// `escaped` taken one character at a time from the front.
proof fn lemma_escaped_concat(a: Seq<char>, b: Seq<char>)
    ensures
        escaped(a + b) == escaped(a) + escaped(b),
    decreases b.len(),
{
    if b.len() == 0 {
        assert(a + b =~= a);
        assert(escaped(a) + escaped(b) =~= escaped(a));
    } else {
        assert((a + b).drop_last() =~= a + b.drop_last());
        assert((a + b).last() == b.last());
        lemma_escaped_concat(a, b.drop_last());
        let c = b.last();
        let e = if c == ')' || c == '(' {
            seq!['\\', c]
        } else {
            seq![c]
        };
        assert(escaped(a) + escaped(b.drop_last()) + e =~= escaped(a) + (escaped(b.drop_last()) + e));
    }
}

proof fn lemma_escaped_one(c: char)
    ensures
        escaped(seq![c]) == (if c == ')' || c == '(' {
            seq!['\\', c]
        } else {
            seq![c]
        }),
{
    assert(seq![c].drop_last() =~= Seq::<char>::empty());
    assert(escaped(Seq::<char>::empty()) =~= Seq::<char>::empty());
    assert(seq![c].last() == c);
}

/// Escaped text never starts with a parenthesis.
proof fn lemma_escaped_head(t: Seq<char>)
    requires
        t.len() > 0,
    ensures
        escaped(t).len() > 0,
        escaped(t)[0] != ')',
        escaped(t)[0] != '(',
        escaped(t)[0] == '\\' || escaped(t)[0] == t[0],
{
    let rest = t.drop_first();
    assert(t =~= seq![t[0]] + rest);
    lemma_escaped_concat(seq![t[0]], rest);
    lemma_escaped_one(t[0]);
}

/// Escaped text after its `\)` are read back: only the `(` are still escaped.
spec fn half_escaped(t: Seq<char>) -> Seq<char>
    decreases t.len(),
{
    if t.len() == 0 {
        Seq::empty()
    } else {
        (if t[0] == '(' {
            seq!['\\', '(']
        } else {
            seq![t[0]]
        }) + half_escaped(t.drop_first())
    }
}

proof fn lemma_first_pass(t: Seq<char>)
    ensures
        replaced(escaped(t), '\\', ')', ')') == half_escaped(t),
    decreases t.len(),
{
    if t.len() > 0 {
        let c = t[0];
        let rest = t.drop_first();
        let e = escaped(rest);
        assert(t =~= seq![c] + rest);
        lemma_escaped_concat(seq![c], rest);
        lemma_escaped_one(c);
        lemma_first_pass(rest);
        if rest.len() > 0 {
            lemma_escaped_head(rest);
        }
        let x = escaped(t);
        let r = replaced(e, '\\', ')', ')');
        if c == ')' {
            assert(x =~= seq!['\\', ')'] + e);
            assert(x.subrange(2, x.len() as int) =~= e);
            assert(replaced(x, '\\', ')', ')') =~= seq![')'] + r);
        } else if c == '(' {
            assert(x =~= seq!['\\', '('] + e);
            assert(x.drop_first() =~= seq!['('] + e);
            assert(x.drop_first().drop_first() =~= e);
            assert(replaced(x.drop_first(), '\\', ')', ')') =~= seq!['('] + r);
            assert(replaced(x, '\\', ')', ')') =~= seq!['\\', '('] + r);
        } else {
            assert(x =~= seq![c] + e);
            assert(x.drop_first() =~= e);
            assert(replaced(x, '\\', ')', ')') =~= seq![c] + r);
        }
    } else {
        assert(escaped(t) =~= Seq::<char>::empty());
    }
}

proof fn lemma_half_head(t: Seq<char>)
    requires
        t.len() > 0,
    ensures
        half_escaped(t).len() > 0,
        half_escaped(t)[0] != '(',
{
}

proof fn lemma_second_pass(t: Seq<char>)
    ensures
        replaced(half_escaped(t), '\\', '(', '(') == t,
    decreases t.len(),
{
    if t.len() > 0 {
        let c = t[0];
        let rest = t.drop_first();
        let h = half_escaped(rest);
        lemma_second_pass(rest);
        if rest.len() > 0 {
            lemma_half_head(rest);
        }
        let y = half_escaped(t);
        if c == '(' {
            assert(y =~= seq!['\\', '('] + h);
            assert(y.subrange(2, y.len() as int) =~= h);
        } else {
            assert(y =~= seq![c] + h);
            assert(y.drop_first() =~= h);
        }
        assert(seq![c] + rest =~= t);
    }
}

/// Text escaped for the bar reads back as itself: the markup turns each
/// escaped parenthesis back into the parenthesis.
pub proof fn law_escaped_reads_back(t: Seq<char>)
    ensures
        unescaped(escaped(t)) == t,
{
    lemma_first_pass(t);
    lemma_second_pass(t);
}

/// Escaping keeps a text's last character last, and puts no `$[` where the text
/// had none.
proof fn lemma_escaped_without_markup(t: Seq<char>)
    requires
        forall|k: int| 0 <= k && k + 1 < t.len() ==> !(#[trigger] t[k] == '$' && t[k + 1] == '['),
    ensures
        escaped(t).len() >= t.len(),
        t.len() > 0 ==> escaped(t).last() == t.last(),
        forall|k: int|
            0 <= k && k + 1 < escaped(t).len() ==> !(#[trigger] escaped(t)[k] == '$' && escaped(t)[k + 1] == '['),
    decreases t.len(),
{
    if t.len() > 0 {
        let u = t.drop_last();
        assert forall|k: int| 0 <= k && k + 1 < u.len() implies !(#[trigger] u[k] == '$' && u[k + 1] == '[') by {
            assert(u[k] == t[k] && u[k + 1] == t[k + 1]);
        }
        lemma_escaped_without_markup(u);
        let e = escaped(u);
        let c = t.last();
        let tail = if c == ')' || c == '(' {
            seq!['\\', c]
        } else {
            seq![c]
        };
        assert(escaped(t) == e + tail);
        assert forall|k: int| 0 <= k && k + 1 < escaped(t).len() implies !(#[trigger] escaped(t)[k] == '$' && escaped(t)[k
            + 1] == '[') by {
            if k + 1 < e.len() {
                assert(escaped(t)[k] == e[k] && escaped(t)[k + 1] == e[k + 1]);
            } else if k >= e.len() {
                assert(escaped(t)[k] == tail[k - e.len()]);
            } else {
                assert(escaped(t)[k] == e[k]);
                assert(escaped(t)[k + 1] == tail[0]);
                if u.len() > 0 {
                    assert(e.last() == u.last());
                    assert(u.last() == t[t.len() - 2]);
                    assert(t.last() == t[t.len() - 2 + 1]);
                }
            }
        }
    }
}

/// Escaped text is shown as itself: where the text holds no `$[`, the bar's
/// markup reads its escaped form as one unstyled span spelling the text, or as
/// no span at all when the text is empty.
pub proof fn law_escaped_styles_back(t: Seq<char>, d: StyleDialect)
    requires
        forall|k: int| 0 <= k && k + 1 < t.len() ==> !(#[trigger] t[k] == '$' && t[k + 1] == '['),
    ensures
        formatted(escaped(t), d) == (if t.len() == 0 {
            Seq::<SpanView>::empty()
        } else {
            seq![SpanView { content: t, style: plain_style() }]
        }),
{
    lemma_escaped_without_markup(t);
    law_escaped_reads_back(t);
    if t.len() > 0 {
        law_format_plain(escaped(t), d);
    } else {
        assert(escaped(t) =~= Seq::<char>::empty());
        assert(formatted(escaped(t), d) =~= Seq::<SpanView>::empty());
    }
}

/// The local path of a cover art URL: what follows `file://`, or nothing.
pub open spec fn art_path(url: Seq<char>) -> Seq<char> {
    let prefix = seq!['f', 'i', 'l', 'e', ':', '/', '/'];
    if url.len() >= 7 && url.subrange(0, 7) == prefix {
        url.subrange(7, url.len() as int)
    } else {
        Seq::empty()
    }
}

/// The local path of a cover art URL.
pub fn strip_file_prefix(url: &str) -> (r: String)
    ensures
        r@ == art_path(url@),
{
    let v = chars_of(url);
    if v.len() >= 7 && range_eq(&v, 0, 7, &['f', 'i', 'l', 'e', ':', '/', '/']) {
        string_of_range(&v, 7, v.len())
    } else {
        String::new()
    }
}

/// The progress number of a report: the song's whole seconds divided by the
/// seconds played (0 when either is unknown or nothing was played yet).
pub open spec fn progress_spec(position: Option<u64>, length: Option<u64>) -> u64 {
    match (position, length) {
        (Some(p), Some(l)) => if p == 0 {
            0
        } else {
            l / p
        },
        _ => 0,
    }
}

/// The progress number of a report.
pub fn progress(position: Option<u64>, length: Option<u64>) -> (r: u64)
    ensures
        r == progress_spec(position, length),
{
    match (position, length) {
        (Some(p), Some(l)) => match l.checked_div(p) {
            Some(q) => q,
            None => 0,
        },
        _ => 0,
    }
}

impl MediaFormat {
    /// The report without a player: unknown times, no song, the given symbol.
    pub fn init(stop_symbol: &str) -> (f: MediaFormat)
        ensures
            f.length@ == unknown_time(),
            f.position@ == unknown_time(),
            f.progress == 0,
            f.title@ == Seq::<char>::empty(),
            f.album@ == Seq::<char>::empty(),
            f.artist@ == Seq::<char>::empty(),
            f.art@ == Seq::<char>::empty(),
            f.button_symbol@ == stop_symbol@,
            f.volume == 0,
    {
        MediaFormat {
            length: format_time(None),
            position: format_time(None),
            progress: 0,
            title: String::new(),
            album: String::new(),
            artist: String::new(),
            art: String::new(),
            button_symbol: stop_symbol.to_owned(),
            volume: 0,
        }
    }
}

/// The symbol for a player's status.
pub open spec fn button_spec(args: MediaArgs, s: PlaybackStatus) -> Seq<char> {
    match s {
        PlaybackStatus::Playing => args.playing_symbol@,
        PlaybackStatus::Paused => args.pause_symbol@,
        PlaybackStatus::Stopped => args.stop_symbol@,
    }
}

/// The button shows the symbol of the player's status: the playing symbol while
/// it plays, the pause symbol while it is paused, the stop symbol once it has
/// stopped; so players in different states show the symbols given for them.
pub proof fn law_button_follows_status(args: MediaArgs, s: PlaybackStatus, t: PlaybackStatus)
    ensures
        s == PlaybackStatus::Playing ==> button_spec(args, s) == args.playing_symbol@,
        s == PlaybackStatus::Paused ==> button_spec(args, s) == args.pause_symbol@,
        s == PlaybackStatus::Stopped ==> button_spec(args, s) == args.stop_symbol@,
        s != t && args.playing_symbol@ != args.pause_symbol@ && args.pause_symbol@ != args.stop_symbol@
            && args.playing_symbol@ != args.stop_symbol@ ==> button_spec(args, s) != button_spec(args, t),
{
}

/// The report for a player: its times, progress, escaped title, album and
/// artists (joined by `, `), art path, status symbol and volume.
pub fn format_player(args: &MediaArgs, p: &PlayerSnapshot) -> (f: MediaFormat)
    ensures
        f.length@ == time_text(p.length),
        f.position@ == time_text(p.position),
        f.progress == progress_spec(p.position, p.length),
        f.title@ == escaped(p.title@),
        f.album@ == escaped(p.album@),
        f.artist@ == escaped(joined(p.artists@.map_values(|s: String| s@), seq![',', ' '])),
        f.art@ == art_path(p.art@),
        f.button_symbol@ == button_spec(*args, p.status),
        p.status == PlaybackStatus::Playing ==> f.button_symbol@ == args.playing_symbol@,
        p.status == PlaybackStatus::Paused ==> f.button_symbol@ == args.pause_symbol@,
        p.status == PlaybackStatus::Stopped ==> f.button_symbol@ == args.stop_symbol@,
        f.volume == p.volume,
{
    let artists = join_strings(&p.artists, ", ");
    proof {
        reveal_strlit(", ");
        assert(", "@ =~= seq![',', ' ']);
    }
    let button = match p.status {
        PlaybackStatus::Playing => args.playing_symbol.clone(),
        PlaybackStatus::Paused => args.pause_symbol.clone(),
        PlaybackStatus::Stopped => args.stop_symbol.clone(),
    };
    MediaFormat {
        length: format_time(p.length),
        position: format_time(p.position),
        progress: progress(p.position, p.length),
        title: escape_parens(p.title.as_str()),
        album: escape_parens(p.album.as_str()),
        artist: escape_parens(artists.as_str()),
        art: strip_file_prefix(p.art.as_str()),
        button_symbol: button,
        volume: p.volume,
    }
}

/// Whether the player matches the preference `pref`: its bus name or its
/// lower-cased identity contains it.
pub open spec fn matches_pref(p: PlayerSnapshot, pref: Seq<char>) -> bool {
    contains_seq(p.bus@, pref) || contains_seq(lowercase(p.identity@), pref)
}

/// The place of the first preference (from `j` on) a player matches, or the
/// largest `usize` when it matches none.
pub open spec fn rank_from(p: PlayerSnapshot, prefs: Seq<Seq<char>>, j: int) -> nat
    decreases prefs.len() - j,
{
    if j < 0 || j >= prefs.len() {
        usize::MAX as nat
    } else if matches_pref(p, prefs[j]) {
        j as nat
    } else {
        rank_from(p, prefs, j + 1)
    }
}

/// Whether player `i` comes before player `k` in preference order (ties keep
/// the order of the list).
pub open spec fn preferred(players: Seq<PlayerSnapshot>, prefs: Seq<Seq<char>>, i: int, k: int) -> bool {
    rank_from(players[i], prefs, 0) < rank_from(players[k], prefs, 0) || (rank_from(players[i], prefs, 0)
        == rank_from(players[k], prefs, 0) && i <= k)
}

fn rank(p: &PlayerSnapshot, prefs: &Vec<String>) -> (r: usize)
    ensures
        r == rank_from(*p, prefs@.map_values(|s: String| s@), 0),
{
    let ghost ps = prefs@.map_values(|s: String| s@);
    let bus = chars_of(p.bus.as_str());
    let ident = to_lowercase(p.identity.as_str());
    let ident = chars_of(ident.as_str());
    let mut j: usize = 0;
    while j < prefs.len()
        invariant
            j <= prefs.len(),
            ps == prefs@.map_values(|s: String| s@),
            bus@ == p.bus@,
            ident@ == lowercase(p.identity@),
            rank_from(*p, ps, 0) == rank_from(*p, ps, j as int),
        decreases prefs.len() - j,
    {
        let pref = chars_of(prefs[j].as_str());
        if contains_chars(&bus, &pref) || contains_chars(&ident, &pref) {
            return j;
        }
        j += 1;
    }
    usize::MAX
}

/// Whether `r` is the player to show among `players`: one at least as active as
/// `priority` and preferred to every other such player, or none when no player
/// is that active.
pub open spec fn active_choice(
    players: Seq<PlayerSnapshot>,
    prefs: Seq<Seq<char>>,
    priority: PlaybackStatus,
    r: Option<usize>,
) -> bool {
    match r {
        Some(i) => i < players.len() && status_rank(players[i as int].status) <= status_rank(priority) && forall|k: int|
            0 <= k < players.len() && status_rank(players[k].status) <= status_rank(priority) ==> preferred(
                players,
                prefs,
                i as int,
                k,
            ),
        None => forall|k: int| 0 <= k < players.len() ==> status_rank(players[k].status) > status_rank(priority),
    }
}

/// The player to show: among those at least as active as `priority`, the one
/// matching the earliest preference, the first in the list on a tie.
pub fn active_player(players: &Vec<PlayerSnapshot>, prefs: &Vec<String>, priority: PlaybackStatus) -> (r: Option<usize>)
    ensures
        active_choice(players@, prefs@.map_values(|s: String| s@), priority, r),
{
    let ghost ps = prefs@.map_values(|s: String| s@);
    let mut best: Option<(usize, usize)> = None;
    let mut i: usize = 0;
    while i < players.len()
        invariant
            i <= players.len(),
            ps == prefs@.map_values(|s: String| s@),
            match best {
                Some((b, rb)) => b < i && rb == rank_from(players@[b as int], ps, 0) && status_rank(players@[b as int].status)
                    <= status_rank(priority) && forall|k: int| 0 <= k < i && status_rank(players@[k].status)
                    <= status_rank(priority) ==> preferred(players@, ps, b as int, k),
                None => forall|k: int| 0 <= k < i ==> status_rank(players@[k].status) > status_rank(priority),
            },
        decreases players.len() - i,
    {
        let ghost old_best = best;
        if at_least(players[i].status, priority) {
            let r = rank(&players[i], prefs);
            match best {
                Some((b, rb)) => {
                    if r < rb {
                        best = Some((i, r));
                        assert forall|k: int| 0 <= k < i + 1 && status_rank(players@[k].status)
                            <= status_rank(priority) implies preferred(players@, ps, i as int, k) by {
                            if k < i {
                                assert(preferred(players@, ps, b as int, k));
                            }
                        }
                    } else {
                        assert forall|k: int| 0 <= k < i + 1 && status_rank(players@[k].status)
                            <= status_rank(priority) implies preferred(players@, ps, b as int, k) by {
                            if k < i {
                                assert(preferred(players@, ps, b as int, k));
                            }
                        }
                    }
                },
                None => {
                    best = Some((i, r));
                },
            }
        }
        i += 1;
    }
    match best {
        Some((b, _)) => Some(b),
        None => None,
    }
}

/// Whether `name` starts with `prefix`.
pub open spec fn has_prefix(name: Seq<char>, prefix: Seq<char>) -> bool {
    name.len() >= prefix.len() && name.subrange(0, prefix.len() as int) == prefix
}

fn starts_with(name: &str, prefix: &str) -> (b: bool)
    ensures
        b == has_prefix(name@, prefix@),
{
    let v = chars_of(name);
    let p = chars_of(prefix);
    if v.len() < p.len() {
        false
    } else {
        range_eq_vec(&v, 0, p.len(), &p)
    }
}

/// The bus names among `names` that belong to media players, in order.
pub open spec fn player_bus_names(names: Seq<Seq<char>>) -> Seq<Seq<char>>
    decreases names.len(),
{
    if names.len() == 0 {
        Seq::empty()
    } else if has_prefix(names.last(), "org.mpris.MediaPlayer2."@) {
        player_bus_names(names.drop_last()).push(names.last())
    } else {
        player_bus_names(names.drop_last())
    }
}

/// The media players among the bus names `names`: those under `org.mpris.MediaPlayer2.`.
pub fn player_buses(names: &Vec<String>) -> (r: Vec<String>)
    ensures
        string_views(r@) == player_bus_names(string_views(names@)),
{
    let ghost ns = string_views(names@);
    let mut r: Vec<String> = Vec::new();
    let mut i: usize = 0;
    while i < names.len()
        invariant
            i <= names.len(),
            ns == string_views(names@),
            string_views(r@) == player_bus_names(ns.take(i as int)),
        decreases names.len() - i,
    {
        assert(ns.take(i + 1).drop_last() =~= ns.take(i as int));
        if starts_with(names[i].as_str(), "org.mpris.MediaPlayer2.") {
            let ghost before = r@;
            r.push(names[i].clone());
            assert(string_views(r@) =~= string_views(before).push(ns[i as int]));
        }
        i += 1;
    }
    assert(ns.take(i as int) =~= ns);
    r
}

/// What a change of owner of a bus name means for the list of players.
#[derive(Clone, Copy, Debug, PartialEq, Eq, Structural)]
pub enum PlayerChange {
    /// A player appeared under the name.
    Added,
    /// The player under the name went away.
    Removed,
}

/// The change of the player list when the bus name `name` goes from having an
/// owner (`had_owner`) to having one (`has_owner`): only names under
/// `org.mpris.MediaPlayer2` count.
pub open spec fn owner_change_spec(name: Seq<char>, had_owner: bool, has_owner: bool) -> Option<PlayerChange> {
    if !has_prefix(name, "org.mpris.MediaPlayer2"@) {
        None
    } else if had_owner && !has_owner {
        Some(PlayerChange::Removed)
    } else if !had_owner && has_owner {
        Some(PlayerChange::Added)
    } else {
        None
    }
}

/// The change of the player list for a change of owner of the bus name `name`.
pub fn owner_change(name: &str, had_owner: bool, has_owner: bool) -> (r: Option<PlayerChange>)
    ensures
        r == owner_change_spec(name@, had_owner, has_owner),
{
    if !starts_with(name, "org.mpris.MediaPlayer2") {
        None
    } else if had_owner && !has_owner {
        Some(PlayerChange::Removed)
    } else if !had_owner && has_owner {
        Some(PlayerChange::Added)
    } else {
        None
    }
}

/// A request for the player on show; `A` is the amount a slider gives.
#[derive(Clone, Copy, Debug, PartialEq, Eq)]
pub enum RequestKind<A> {
    Next,
    Prev,
    /// Play or pause.
    Play,
    /// Move by this percent of the song.
    SetPos(A),
    /// Change the volume by this many percent.
    AddVol(A),
}

/// A message from the bar's media buttons: each field that is present asks for
/// its request.
pub struct ButtonMessage<A> {
    pub next: Option<A>,
    pub prev: Option<A>,
    pub play: Option<A>,
    pub set_pos: Option<A>,
    pub add_vol: Option<A>,
}

/// The requests a button message asks for: next, previous, play, position and
/// volume, in that order, each where its field is present.
pub open spec fn button_requests_spec<A>(m: ButtonMessage<A>) -> Seq<RequestKind<A>> {
    (if m.next is Some {
        seq![RequestKind::Next]
    } else {
        Seq::empty()
    }) + (if m.prev is Some {
        seq![RequestKind::Prev]
    } else {
        Seq::empty()
    }) + (if m.play is Some {
        seq![RequestKind::Play]
    } else {
        Seq::empty()
    }) + (match m.set_pos {
        Some(p) => seq![RequestKind::SetPos(p)],
        None => Seq::empty(),
    }) + (match m.add_vol {
        Some(v) => seq![RequestKind::AddVol(v)],
        None => Seq::empty(),
    })
}

/// The requests a button message asks for.
pub fn button_requests<A>(m: ButtonMessage<A>) -> (r: Vec<RequestKind<A>>)
    ensures
        r@ == button_requests_spec(m),
{
    let ghost whole = m;
    let mut r: Vec<RequestKind<A>> = Vec::new();
    if m.next.is_some() {
        r.push(RequestKind::Next);
    }
    if m.prev.is_some() {
        r.push(RequestKind::Prev);
    }
    if m.play.is_some() {
        r.push(RequestKind::Play);
    }
    match m.set_pos {
        Some(p) => r.push(RequestKind::SetPos(p)),
        None => {},
    }
    match m.add_vol {
        Some(v) => r.push(RequestKind::AddVol(v)),
        None => {},
    }
    assert(r@ =~= button_requests_spec(whole));
    r
}

/// A song's details, as a player reports them.
pub struct SongInfo {
    pub title: String,
    pub album: String,
    pub artists: Vec<String>,
    /// The cover art's URL.
    pub art: String,
    /// Seconds of the song, where known.
    pub length: Option<u64>,
}

/// A change a player reports about itself.
pub enum PlayerUpdate {
    Song(SongInfo),
    Status(PlaybackStatus),
    /// The volume in percent.
    Volume(u8),
    /// The position, in seconds, after a seek.
    Seeked(Option<u64>),
}

/// The player `p` after the change `u`.
pub open spec fn updated(p: PlayerSnapshot, u: PlayerUpdate) -> PlayerSnapshot {
    match u {
        PlayerUpdate::Song(s) => PlayerSnapshot {
            title: s.title,
            album: s.album,
            artists: s.artists,
            art: s.art,
            length: s.length,
            ..p
        },
        PlayerUpdate::Status(st) => PlayerSnapshot { status: st, ..p },
        PlayerUpdate::Volume(v) => PlayerSnapshot { volume: v, ..p },
        PlayerUpdate::Seeked(pos) => PlayerSnapshot { position: pos, ..p },
    }
}

/// What happens to the media provider.
pub enum MediaEvent<A> {
    /// A player appeared.
    AddPlayer(PlayerSnapshot),
    /// The player under this bus name went away.
    RemovePlayer(String),
    /// The player under `bus` reported a change.
    Update { bus: String, update: PlayerUpdate },
    /// Time for a report.
    Tick,
    /// The bar asked for something of the player on show.
    Request(RequestKind<A>),
}

/// What the media provider does after an event, besides reporting.
pub enum MediaAction<A> {
    /// Nothing more.
    Report,
    /// Stop listening to the player that went away under this bus name.
    QuitPlayer(String),
    /// Pass the request to the player at this place in the list, with its state.
    Send { player: usize, kind: RequestKind<A> },
    /// The event named a player the provider does not know: the provider stops
    /// with an error.
    UnknownPlayer(String),
}

/// Whether no two players share a bus name.
pub open spec fn distinct_buses(players: Seq<PlayerSnapshot>) -> bool {
    forall|i: int, j: int| 0 <= i < j < players.len() ==> (#[trigger] players[i]).bus@ != (#[trigger] players[j]).bus@
}

/// The place of the player under the bus name `bus`, or -1 when there is none.
pub open spec fn bus_index(players: Seq<PlayerSnapshot>, bus: Seq<char>) -> int {
    if exists|i: int| 0 <= i < players.len() && (#[trigger] players[i]).bus@ == bus {
        choose|i: int| 0 <= i < players.len() && (#[trigger] players[i]).bus@ == bus
    } else {
        -1
    }
}

/// How the player list and the action follow from an event: a new player is
/// added (replacing one under the same bus name), a removed one leaves the list
/// and is told to stop, an update changes its player, and a request goes to the
/// player on show; an update for an unknown player stops the provider.
pub open spec fn media_step_spec<A>(
    before: Seq<PlayerSnapshot>,
    prefs: Seq<Seq<char>>,
    priority: PlaybackStatus,
    event: MediaEvent<A>,
    after: Seq<PlayerSnapshot>,
    act: MediaAction<A>,
) -> bool {
    match event {
        MediaEvent::AddPlayer(p) => act is Report && after == (if bus_index(before, p.bus@) >= 0 {
            before.update(bus_index(before, p.bus@), p)
        } else {
            before.push(p)
        }),
        MediaEvent::RemovePlayer(bus) => if bus_index(before, bus@) >= 0 {
            after == before.remove(bus_index(before, bus@)) && act == MediaAction::<A>::QuitPlayer(bus)
        } else {
            after == before && act is Report
        },
        MediaEvent::Update { bus, update } => if bus_index(before, bus@) >= 0 {
            let i = bus_index(before, bus@);
            after == before.update(i, updated(before[i], update)) && act is Report
        } else {
            after == before && act == MediaAction::<A>::UnknownPlayer(bus)
        },
        MediaEvent::Tick => after == before && act is Report,
        MediaEvent::Request(kind) => after == before && match act {
            MediaAction::Send { player, kind: k } => k == kind && active_choice(before, prefs, priority, Some(player)),
            MediaAction::Report => active_choice(before, prefs, priority, None),
            _ => false,
        },
    }
}

fn find_bus(players: &Vec<PlayerSnapshot>, bus: &String) -> (r: Option<usize>)
    requires
        distinct_buses(players@),
    ensures
        match r {
            Some(i) => i < players.len() && i == bus_index(players@, bus@),
            None => bus_index(players@, bus@) == -1,
        },
{
    let mut i: usize = 0;
    while i < players.len()
        invariant
            i <= players.len(),
            distinct_buses(players@),
            forall|k: int| 0 <= k < i ==> (#[trigger] players@[k]).bus@ != bus@,
        decreases players.len() - i,
    {
        if players[i].bus == *bus {
            proof {
                assert(players@[i as int].bus@ == bus@);
                let c = choose|c: int| 0 <= c < players@.len() && (#[trigger] players@[c]).bus@ == bus@;
                if c != i {
                    if c < i {
                        assert(players@[c].bus@ != players@[i as int].bus@);
                    } else {
                        assert(players@[i as int].bus@ != players@[c].bus@);
                    }
                }
            }
            return Some(i);
        }
        i += 1;
    }
    None
}

/// The media provider's answer to one event: the player list after it and what
/// to do besides reporting.
pub fn media_step<A>(
    players: &mut Vec<PlayerSnapshot>,
    prefs: &Vec<String>,
    priority: PlaybackStatus,
    event: MediaEvent<A>,
) -> (act: MediaAction<A>)
    requires
        distinct_buses(old(players)@),
    ensures
        distinct_buses(final(players)@),
        media_step_spec(old(players)@, prefs@.map_values(|s: String| s@), priority, event, final(players)@, act),
{
    let ghost before = players@;
    match event {
        MediaEvent::AddPlayer(p) => {
            match find_bus(players, &p.bus) {
                Some(i) => {
                    players.set(i, p);
                },
                None => {
                    players.push(p);
                },
            }
            MediaAction::Report
        },
        MediaEvent::RemovePlayer(bus) => {
            match find_bus(players, &bus) {
                Some(i) => {
                    let _gone = players.remove(i);
                    MediaAction::QuitPlayer(bus)
                },
                None => MediaAction::Report,
            }
        },
        MediaEvent::Update { bus, update } => {
            match find_bus(players, &bus) {
                Some(i) => {
                    let ghost change = update;
                    let mut p = players.remove(i);
                    match update {
                        PlayerUpdate::Song(song) => {
                            p.title = song.title;
                            p.album = song.album;
                            p.artists = song.artists;
                            p.art = song.art;
                            p.length = song.length;
                        },
                        PlayerUpdate::Status(st) => {
                            p.status = st;
                        },
                        PlayerUpdate::Volume(v) => {
                            p.volume = v;
                        },
                        PlayerUpdate::Seeked(pos) => {
                            p.position = pos;
                        },
                    }
                    players.insert(i, p);
                    assert(p == updated(before[i as int], change));
                    assert(players@ =~= before.update(i as int, updated(before[i as int], change)));
                    MediaAction::Report
                },
                None => MediaAction::UnknownPlayer(bus),
            }
        },
        MediaEvent::Tick => MediaAction::Report,
        MediaEvent::Request(kind) => {
            match active_player(players, prefs, priority) {
                Some(i) => MediaAction::Send { player: i, kind },
                None => MediaAction::Report,
            }
        },
    }
}

} // verus!

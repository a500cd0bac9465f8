//! The helper that starts the bar in kitty panels, one per screen, and resizes
//! them: the commands it runs.
use crate::number::{decimal, push_decimal};
use crate::text::{push_char, push_str, string_views};
use vstd::prelude::*;

verus! {

/// What the helper is asked to do.
pub enum Commands {
    /// Start the bar `bin` in panels `lines` rows high on the screens (all when none are named).
    Spawn { screens: Option<Vec<String>>, lines: u8, bin: String },
    /// Resize the panels on the screens to `lines` rows.
    Resize { lines: u8, screens: Option<Vec<String>> },
}

/// A screen as kitty lists it.
pub struct Screen {
    pub description: String,
    pub name: String,
}

/// The arguments of `kitten panel` that open a panel for the bar on `screen`.
pub open spec fn panel_args_spec(screen: Seq<char>, lines: u8) -> Seq<Seq<char>> {
    seq![
        "panel"@,
        "--edge=top"@,
        "--output-name="@ + screen,
        "--lines="@ + decimal(lines as nat),
        "--listen-on=unix:/tmp/rat-bar-"@ + screen,
        "-o"@,
        "window_padding_width=0"@,
        "-o"@,
        "allow_remote_control=yes"@,
    ]
}

fn text_with(prefix: &str, rest: &str) -> (s: String)
    ensures
        s@ == prefix@ + rest@,
{
    let mut s = String::new();
    push_str(&mut s, prefix);
    push_str(&mut s, rest);
    assert(s@ =~= prefix@ + rest@);
    s
}

fn text_with_number(prefix: &str, n: u8) -> (s: String)
    ensures
        s@ == prefix@ + decimal(n as nat),
{
    let mut digits: Vec<char> = Vec::new();
    push_decimal(&mut digits, n as u64);
    let mut s = String::new();
    push_str(&mut s, prefix);
    let ghost base = s@;
    let mut i: usize = 0;
    while i < digits.len()
        invariant
            i <= digits.len(),
            s@ == base + digits@.take(i as int),
        decreases digits.len() - i,
    {
        push_char(&mut s, digits[i]);
        i += 1;
        assert(s@ =~= base + digits@.take(i as int));
    }
    assert(digits@.take(i as int) =~= digits@);
    s
}

/// The arguments of `kitten` that open a panel for the bar on `screen`, `lines`
/// rows high at the top, listening for remote control; the bar's command follows them.
pub fn panel_args(screen: &str, lines: u8) -> (args: Vec<String>)
    ensures
        args@.map_values(|s: String| s@) == panel_args_spec(screen@, lines),
{
    let mut args: Vec<String> = Vec::new();
    args.push("panel".to_owned());
    args.push("--edge=top".to_owned());
    args.push(text_with("--output-name=", screen));
    args.push(text_with_number("--lines=", lines));
    args.push(text_with("--listen-on=unix:/tmp/rat-bar-", screen));
    args.push("-o".to_owned());
    args.push("window_padding_width=0".to_owned());
    args.push("-o".to_owned());
    args.push("allow_remote_control=yes".to_owned());
    assert(args@.map_values(|s: String| s@) =~= panel_args_spec(screen@, lines));
    args
}

/// The arguments of `kitten` that resize the panel on `screen` to `lines` rows.
pub open spec fn resize_args_spec(screen: Seq<char>, lines: u8) -> Seq<Seq<char>> {
    seq![
        "@"@,
        "--to=unix:/tmp/rat-bar-"@ + screen,
        "resize-os-window"@,
        "--action=os-panel"@,
        "lines="@ + decimal(lines as nat),
    ]
}

/// The arguments of `kitten` that resize the panel on `screen` to `lines` rows.
pub fn resize_args(screen: &str, lines: u8) -> (args: Vec<String>)
    ensures
        args@.map_values(|s: String| s@) == resize_args_spec(screen@, lines),
{
    let mut args: Vec<String> = Vec::new();
    args.push("@".to_owned());
    args.push(text_with("--to=unix:/tmp/rat-bar-", screen));
    args.push("resize-os-window".to_owned());
    args.push("--action=os-panel".to_owned());
    args.push(text_with_number("lines=", lines));
    assert(args@.map_values(|s: String| s@) =~= resize_args_spec(screen@, lines));
    args
}

/// The command run in the first panel: the bar under `sh`, its errors sent to `log`.
pub open spec fn first_command_spec(bin: Seq<char>, log: Seq<char>) -> Seq<Seq<char>> {
    seq!["sh"@, "-c"@, bin + " 2>"@ + log]
}

/// The command run in the first panel: the bar under `sh`, its errors sent to `log`.
pub fn first_command(bin: &str, log: &str) -> (args: Vec<String>)
    ensures
        args@.map_values(|s: String| s@) == first_command_spec(bin@, log@),
{
    let mut args: Vec<String> = Vec::new();
    args.push("sh".to_owned());
    args.push("-c".to_owned());
    let mut c = String::new();
    push_str(&mut c, bin);
    push_str(&mut c, " 2>");
    push_str(&mut c, log);
    args.push(c);
    assert(args@.map_values(|s: String| s@) =~= first_command_spec(bin@, log@));
    args
}

/// The names of the screens kitty listed.
pub fn screen_names(screens: Vec<Screen>) -> (names: Vec<String>)
    ensures
        names@.len() == screens@.len(),
        forall|i: int| 0 <= i < names@.len() ==> names@[i] == screens@[i].name,
{
    let mut names: Vec<String> = Vec::new();
    let mut screens = screens;
    let n = screens.len();
    let ghost all = screens@;
    let mut rest: Vec<String> = Vec::new();
    while screens.len() > 0
        invariant
            screens.len() + rest.len() == n,
            all.len() == n,
            forall|i: int| 0 <= i < screens.len() ==> screens@[i] == all[i],
            forall|k: int| 0 <= k < rest.len() ==> rest@[k] == all[n - 1 - k].name,
        decreases screens.len(),
    {
        let s = screens.pop().unwrap();
        rest.push(s.name);
    }
    while rest.len() > 0
        invariant
            rest.len() + names.len() == n,
            all.len() == n,
            forall|k: int| 0 <= k < rest.len() ==> rest@[k] == all[n - 1 - k].name,
            forall|i: int| 0 <= i < names.len() ==> names@[i] == all[i].name,
        decreases rest.len(),
    {
        let s = rest.pop().unwrap();
        names.push(s);
    }
    names
}

/// Each command of a list, as its arguments' characters.
pub open spec fn command_views(cmds: Seq<Vec<String>>) -> Seq<Seq<Seq<char>>> {
    cmds.map_values(|c: Vec<String>| string_views(c@))
}

/// The `kitten` commands that start the bar on `screens`, in the order they are
/// run: the last screen's panel first, whose bar runs under `sh` with its errors
/// sent to `log`, then the panels of the other screens in order, each running `bin`.
pub open spec fn spawn_commands_spec(screens: Seq<Seq<char>>, lines: u8, bin: Seq<char>, log: Seq<char>) -> Seq<Seq<Seq<char>>> {
    if screens.len() == 0 {
        Seq::empty()
    } else {
        seq![panel_args_spec(screens.last(), lines) + first_command_spec(bin, log)] + Seq::new(
            (screens.len() - 1) as nat,
            |k: int| panel_args_spec(screens[k], lines).push(bin),
        )
    }
}

/// The `kitten` commands that start the bar on `screens` (see [`spawn_commands_spec`]).
pub fn spawn_commands(screens: &Vec<String>, lines: u8, bin: &str, log: &str) -> (r: Vec<Vec<String>>)
    ensures
        command_views(r@) == spawn_commands_spec(string_views(screens@), lines, bin@, log@),
{
    let ghost sv = string_views(screens@);
    let mut r: Vec<Vec<String>> = Vec::new();
    let n = screens.len();
    if n == 0 {
        assert(command_views(r@) =~= spawn_commands_spec(sv, lines, bin@, log@));
        return r;
    }
    let mut first = panel_args(screens[n - 1].as_str(), lines);
    let mut tail = first_command(bin, log);
    let ghost a = first@;
    let ghost b = tail@;
    first.append(&mut tail);
    assert(string_views(first@) =~= panel_args_spec(sv.last(), lines) + first_command_spec(bin@, log@)) by {
        assert(first@ == a + b);
        assert(string_views(a) =~= a.map_values(|s: String| s@));
        assert(string_views(b) =~= b.map_values(|s: String| s@));
    }
    r.push(first);
    let mut k: usize = 0;
    while k < n - 1
        invariant
            n == screens.len(),
            n > 0,
            k <= n - 1,
            sv == string_views(screens@),
            r@.len() == k + 1,
            string_views(r@[0]@) == panel_args_spec(sv.last(), lines) + first_command_spec(bin@, log@),
            forall|q: int| 0 <= q < k ==> #[trigger] string_views(r@[q + 1]@) == panel_args_spec(sv[q], lines).push(bin@),
        decreases n - 1 - k,
    {
        let mut cmd = panel_args(screens[k].as_str(), lines);
        let ghost c = cmd@;
        cmd.push(bin.to_owned());
        assert(string_views(cmd@) =~= panel_args_spec(sv[k as int], lines).push(bin@)) by {
            assert(string_views(c) =~= c.map_values(|s: String| s@));
        }
        r.push(cmd);
        k += 1;
    }
    let ghost want = spawn_commands_spec(sv, lines, bin@, log@);
    assert forall|q: int| 0 <= q < r@.len() implies command_views(r@)[q] == want[q] by {
        if q > 0 {
            assert(string_views(r@[(q - 1) + 1]@) == panel_args_spec(sv[q - 1], lines).push(bin@));
        }
    }
    assert(command_views(r@) =~= want);
    r
}

} // verus!

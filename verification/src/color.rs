//! Terminal colors: the color names of the provider markup, and the color
//! texts that ratatui understands.
use crate::number::{parse_unsigned, parse_unsigned_spec};
use crate::text::{chars_of, range_eq, string_of_range};
use std::str::FromStr;
use vstd::prelude::*;

verus! {

/// A terminal color (the variants of ratatui's `Color`).
#[derive(Clone, Copy, Debug, PartialEq, Eq, Structural)]
pub enum Color {
    Reset,
    Black,
    Red,
    Green,
    Yellow,
    Blue,
    Magenta,
    Cyan,
    Gray,
    DarkGray,
    LightRed,
    LightGreen,
    LightYellow,
    LightBlue,
    LightMagenta,
    LightCyan,
    White,
    Rgb(u8, u8, u8),
    Indexed(u8),
}

/// The sixteen named colors, spelled exactly as their variants.
pub open spec fn named_color(t: Seq<char>) -> Option<Color> {
    if t == seq!['B', 'l', 'a', 'c', 'k'] {
        Some(Color::Black)
    } else if t == seq!['R', 'e', 'd'] {
        Some(Color::Red)
    } else if t == seq!['G', 'r', 'e', 'e', 'n'] {
        Some(Color::Green)
    } else if t == seq!['Y', 'e', 'l', 'l', 'o', 'w'] {
        Some(Color::Yellow)
    } else if t == seq!['B', 'l', 'u', 'e'] {
        Some(Color::Blue)
    } else if t == seq!['M', 'a', 'g', 'e', 'n', 't', 'a'] {
        Some(Color::Magenta)
    } else if t == seq!['C', 'y', 'a', 'n'] {
        Some(Color::Cyan)
    } else if t == seq!['G', 'r', 'a', 'y'] {
        Some(Color::Gray)
    } else if t == seq!['D', 'a', 'r', 'k', 'G', 'r', 'a', 'y'] {
        Some(Color::DarkGray)
    } else if t == seq!['L', 'i', 'g', 'h', 't', 'R', 'e', 'd'] {
        Some(Color::LightRed)
    } else if t == seq!['L', 'i', 'g', 'h', 't', 'G', 'r', 'e', 'e', 'n'] {
        Some(Color::LightGreen)
    } else if t == seq!['L', 'i', 'g', 'h', 't', 'Y', 'e', 'l', 'l', 'o', 'w'] {
        Some(Color::LightYellow)
    } else if t == seq!['L', 'i', 'g', 'h', 't', 'B', 'l', 'u', 'e'] {
        Some(Color::LightBlue)
    } else if t == seq!['L', 'i', 'g', 'h', 't', 'M', 'a', 'g', 'e', 'n', 't', 'a'] {
        Some(Color::LightMagenta)
    } else if t == seq!['L', 'i', 'g', 'h', 't', 'C', 'y', 'a', 'n'] {
        Some(Color::LightCyan)
    } else if t == seq!['W', 'h', 'i', 't', 'e'] {
        Some(Color::White)
    } else {
        None
    }
}

/// The color `0xRRGGBB` (ratatui's `Color::from_u32`).
pub open spec fn rgb_of(u: nat) -> Color {
    Color::Rgb(((u / 65536) % 256) as u8, ((u / 256) % 256) as u8, (u % 256) as u8)
}

/// The color a provider layout names: one of the sixteen names, or `#`
/// followed by a hexadecimal `u32`.
pub open spec fn get_color_spec(t: Seq<char>) -> Option<Color> {
    match named_color(t) {
        Some(c) => Some(c),
        None => if t.len() >= 1 && t[0] == '#' {
            match parse_unsigned_spec(t.subrange(1, t.len() as int), 16, 0xffff_ffff) {
                Ok(u) => Some(rgb_of(u)),
                Err(_) => None,
            }
        } else {
            None
        },
    }
}

/// The color that ratatui's `Display` of a color shows as `t`: `Reset`, a
/// color name, `#RRGGBB`, or the decimal index of an indexed color.
pub open spec fn color_from_display(t: Seq<char>) -> Option<Color> {
    if t == seq!['R', 'e', 's', 'e', 't'] {
        Some(Color::Reset)
    } else {
        match named_color(t) {
            Some(c) => Some(c),
            None => if t.len() == 7 && t[0] == '#' {
                match parse_unsigned_spec(t.subrange(1, 7), 16, 0xff_ffff) {
                    Ok(u) => Some(rgb_of(u)),
                    Err(_) => None,
                }
            } else {
                match parse_unsigned_spec(t, 10, 255) {
                    Ok(i) => Some(Color::Indexed(i as u8)),
                    Err(_) => None,
                }
            },
        }
    }
}

/// What ratatui's `Color::from_str` makes of `s`, shown by the color's `Display`;
/// `None` where `from_str` fails.
pub uninterp spec fn ratatui_color_name(s: Seq<char>) -> Option<Seq<char>>;

/// The color ratatui reads from the text `t` (names in any case and spelling,
/// hexadecimal `#RRGGBB`, or an index).
pub open spec fn ratatui_color(t: Seq<char>) -> Option<Color> {
    match ratatui_color_name(t) {
        Some(n) => color_from_display(n),
        None => None,
    }
}

/// Calls ratatui's `Color::from_str` on `s` and shows the color it gives with the
/// color's `Display` impl. The contract only names the result.
#[verifier::external_body]
fn ratatui_color_text(s: &str) -> (r: Option<String>)
    ensures
        match r {
            Some(t) => ratatui_color_name(s@) == Some(t@),
            None => ratatui_color_name(s@) is None,
        },
{
    match ratatui::style::Color::from_str(s) {
        Ok(c) => Some(c.to_string()),
        Err(_) => None,
    }
}

fn named_color_range(v: &Vec<char>, lo: usize, hi: usize) -> (r: Option<Color>)
    requires
        lo <= hi <= v.len(),
    ensures
        r == named_color(v@.subrange(lo as int, hi as int)),
{
    if range_eq(v, lo, hi, &['B', 'l', 'a', 'c', 'k']) {
        return Some(Color::Black);
    }
    if range_eq(v, lo, hi, &['R', 'e', 'd']) {
        return Some(Color::Red);
    }
    if range_eq(v, lo, hi, &['G', 'r', 'e', 'e', 'n']) {
        return Some(Color::Green);
    }
    if range_eq(v, lo, hi, &['Y', 'e', 'l', 'l', 'o', 'w']) {
        return Some(Color::Yellow);
    }
    if range_eq(v, lo, hi, &['B', 'l', 'u', 'e']) {
        return Some(Color::Blue);
    }
    if range_eq(v, lo, hi, &['M', 'a', 'g', 'e', 'n', 't', 'a']) {
        return Some(Color::Magenta);
    }
    if range_eq(v, lo, hi, &['C', 'y', 'a', 'n']) {
        return Some(Color::Cyan);
    }
    if range_eq(v, lo, hi, &['G', 'r', 'a', 'y']) {
        return Some(Color::Gray);
    }
    if range_eq(v, lo, hi, &['D', 'a', 'r', 'k', 'G', 'r', 'a', 'y']) {
        return Some(Color::DarkGray);
    }
    if range_eq(v, lo, hi, &['L', 'i', 'g', 'h', 't', 'R', 'e', 'd']) {
        return Some(Color::LightRed);
    }
    if range_eq(v, lo, hi, &['L', 'i', 'g', 'h', 't', 'G', 'r', 'e', 'e', 'n']) {
        return Some(Color::LightGreen);
    }
    if range_eq(v, lo, hi, &['L', 'i', 'g', 'h', 't', 'Y', 'e', 'l', 'l', 'o', 'w']) {
        return Some(Color::LightYellow);
    }
    if range_eq(v, lo, hi, &['L', 'i', 'g', 'h', 't', 'B', 'l', 'u', 'e']) {
        return Some(Color::LightBlue);
    }
    if range_eq(v, lo, hi, &['L', 'i', 'g', 'h', 't', 'M', 'a', 'g', 'e', 'n', 't', 'a']) {
        return Some(Color::LightMagenta);
    }
    if range_eq(v, lo, hi, &['L', 'i', 'g', 'h', 't', 'C', 'y', 'a', 'n']) {
        return Some(Color::LightCyan);
    }
    if range_eq(v, lo, hi, &['W', 'h', 'i', 't', 'e']) {
        return Some(Color::White);
    }
    None
}

/// The color of `v[lo..hi]` read as in the provider markup.
pub fn get_color_range(v: &Vec<char>, lo: usize, hi: usize) -> (r: Option<Color>)
    requires
        lo <= hi <= v.len(),
    ensures
        r == get_color_spec(v@.subrange(lo as int, hi as int)),
{
    let ghost t = v@.subrange(lo as int, hi as int);
    if let Some(c) = named_color_range(v, lo, hi) {
        return Some(c);
    }
    if hi - lo >= 1 && v[lo] == '#' {
        assert(t.subrange(1, t.len() as int) =~= v@.subrange(lo + 1, hi as int));
        match parse_unsigned(v, lo + 1, hi, 16, 0xffff_ffff) {
            Ok(u) => Some(Color::Rgb(((u / 65536) % 256) as u8, ((u / 256) % 256) as u8, (u % 256) as u8)),
            Err(_) => None,
        }
    } else {
        None
    }
}

/// The color named by `s` in a provider layout: one of the sixteen color names
/// (`Black`, `Red`, ..., `White`), or `#` followed by a hexadecimal number.
pub fn get_color(s: &str) -> (r: Option<Color>)
    ensures
        r == get_color_spec(s@),
{
    let v = chars_of(s);
    assert(v@.subrange(0, v@.len() as int) =~= v@);
    get_color_range(&v, 0, v.len())
}

fn color_from_display_exec(v: &Vec<char>) -> (r: Option<Color>)
    ensures
        r == color_from_display(v@),
{
    let n = v.len();
    assert(v@.subrange(0, n as int) =~= v@);
    if range_eq(v, 0, n, &['R', 'e', 's', 'e', 't']) {
        return Some(Color::Reset);
    }
    if let Some(c) = named_color_range(v, 0, n) {
        return Some(c);
    }
    if n == 7 && v[0] == '#' {
        match parse_unsigned(v, 1, 7, 16, 0xff_ffff) {
            Ok(u) => Some(Color::Rgb(((u / 65536) % 256) as u8, ((u / 256) % 256) as u8, (u % 256) as u8)),
            Err(_) => None,
        }
    } else {
        match parse_unsigned(v, 0, n, 10, 255) {
            Ok(i) => Some(Color::Indexed(i as u8)),
            Err(_) => None,
        }
    }
}

/// The color ratatui reads from `s` (`Color::from_str`): names in any case,
/// `#RRGGBB`, or a color index; `None` where ratatui refuses the text.
pub fn parse_color(s: &str) -> (r: Option<Color>)
    ensures
        r == ratatui_color(s@),
{
    match ratatui_color_text(s) {
        Some(t) => {
            let v = chars_of(t.as_str());
            color_from_display_exec(&v)
        },
        None => None,
    }
}

/// The color of `v[lo..hi]` as ratatui reads it.
pub fn parse_color_range(v: &Vec<char>, lo: usize, hi: usize) -> (r: Option<Color>)
    requires
        lo <= hi <= v.len(),
    ensures
        r == ratatui_color(v@.subrange(lo as int, hi as int)),
{
    let s = string_of_range(v, lo, hi);
    parse_color(s.as_str())
}

} // verus!

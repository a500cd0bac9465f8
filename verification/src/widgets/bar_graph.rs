//! Graphs drawn with braille or octant characters: each character shows two
//! bars side by side, each filled to a level from 0 to 4.
use crate::text::{chars_of, range_eq};
use vstd::prelude::*;

verus! {

/// The character set a graph draws with.
#[derive(Clone, Copy, Debug, PartialEq, Eq, Structural)]
pub enum Marker {
    Braille,
    Octant,
}

impl Marker {
    /// Braille characters.
    pub fn default() -> (m: Marker)
        ensures
            m == Marker::Braille,
    {
        Marker::Braille
    }

    /// Reads a marker by its exact name, `Braille` or `Octant`.
    pub fn from_str(s: &str) -> (r: Option<Marker>)
        ensures
            r == (if s@ == seq!['B', 'r', 'a', 'i', 'l', 'l', 'e'] {
                Some(Marker::Braille)
            } else if s@ == seq!['O', 'c', 't', 'a', 'n', 't'] {
                Some(Marker::Octant)
            } else {
                None
            }),
    {
        let v = chars_of(s);
        assert(v@.subrange(0, v.len() as int) =~= v@);
        if range_eq(&v, 0, v.len(), &['B', 'r', 'a', 'i', 'l', 'l', 'e']) {
            Some(Marker::Braille)
        } else if range_eq(&v, 0, v.len(), &['O', 'c', 't', 'a', 'n', 't']) {
            Some(Marker::Octant)
        } else {
            None
        }
    }
}

/// The dots of the left bar at each level, as bits of a dot pattern.
pub open spec fn left_dots(a: u8) -> u8 {
    if a == 0 { 0x00 } else if a == 1 { 0x40 } else if a == 2 { 0x50 } else if a == 3 { 0x54 } else { 0x55 }
}

/// The dots of the right bar at each level, as bits of a dot pattern.
pub open spec fn right_dots(b: u8) -> u8 {
    if b == 0 { 0x00 } else if b == 1 { 0x80 } else if b == 2 { 0xa0 } else if b == 3 { 0xa8 } else { 0xaa }
}

/// ratatui's braille symbol for the dot pattern `i` (`symbols::braille::BRAILLE`).
pub uninterp spec fn braille_symbol(i: u8) -> char;

/// ratatui's octant symbol for the dot pattern `i` (`symbols::pixel::OCTANTS`).
pub uninterp spec fn octant_symbol(i: u8) -> char;

/// Reads entry `i` of ratatui's `BRAILLE` table.
#[verifier::external_body]
fn braille_at(i: u8) -> (c: char)
    ensures
        c == braille_symbol(i),
{
    ratatui::symbols::braille::BRAILLE[i as usize]
}

/// Reads entry `i` of ratatui's `OCTANTS` table.
#[verifier::external_body]
fn octant_at(i: u8) -> (c: char)
    ensures
        c == octant_symbol(i),
{
    ratatui::symbols::pixel::OCTANTS[i as usize]
}

fn left_dots_exec(a: u8) -> (d: u8)
    ensures
        d == left_dots(a),
{
    if a == 0 { 0x00 } else if a == 1 { 0x40 } else if a == 2 { 0x50 } else if a == 3 { 0x54 } else { 0x55 }
}

fn right_dots_exec(b: u8) -> (d: u8)
    ensures
        d == right_dots(b),
{
    if b == 0 { 0x00 } else if b == 1 { 0x80 } else if b == 2 { 0xa0 } else if b == 3 { 0xa8 } else { 0xaa }
}

/// The character showing a left bar at level `a` and a right bar at level `b`.
pub fn gen_char(a: u8, b: u8, marker: Marker) -> (c: char)
    requires
        a < 5,
        b < 5,
    ensures
        c == (match marker {
            Marker::Braille => braille_symbol((left_dots(a) + right_dots(b)) as u8),
            Marker::Octant => octant_symbol((left_dots(a) + right_dots(b)) as u8),
        }),
{
    let i = left_dots_exec(a) + right_dots_exec(b);
    match marker {
        Marker::Braille => braille_at(i),
        Marker::Octant => octant_at(i),
    }
}

/// The character std's `char::from_u32` gives for `u`: valid scalar values only.
#[verifier::external_body]
fn char_from_u32(u: u32) -> (r: Option<char>)
    ensures
        r is Some <==> (u < 0xd800 || (0xe000 <= u && u <= 0x10ffff)),
        r matches Some(c) ==> c as u32 == u,
{
    char::from_u32(u)
}

/// Offsets of the left bar's dots from U+2800 at each level.
pub open spec fn braille_left(a: u8) -> u32 {
    if a == 0 { 0x00 } else if a == 1 { 0x40 } else if a == 2 { 0x44 } else if a == 3 { 0x46 } else { 0x47 }
}

/// Offsets of the right bar's dots from U+2800 at each level.
pub open spec fn braille_right(b: u8) -> u32 {
    if b == 0 { 0x00 } else if b == 1 { 0x80 } else if b == 2 { 0xa0 } else if b == 3 { 0xb0 } else { 0xb8 }
}

/// The braille character (from U+2800 on) showing two bars at levels `a` and `b`.
pub fn braille_pair(a: u8, b: u8) -> (c: char)
    requires
        a < 5,
        b < 5,
    ensures
        c as u32 == 0x2800 + braille_left(a) + braille_right(b),
{
    let l: u32 = if a == 0 { 0x00 } else if a == 1 { 0x40 } else if a == 2 { 0x44 } else if a == 3 { 0x46 } else { 0x47 };
    let r: u32 = if b == 0 { 0x00 } else if b == 1 { 0x80 } else if b == 2 { 0xa0 } else if b == 3 { 0xb0 } else { 0xb8 };
    match char_from_u32(0x2800 + l + r) {
        Some(c) => c,
        None => {
            assert(false);
            ' '
        },
    }
}

/// The level a bar of height `level` (in quarter cells) shows in row `h` from
/// the bottom: what is left above `4 * h`, at most a full cell.
pub open spec fn row_level(level: u16, h: nat) -> u8 {
    if level <= 4 * h {
        0
    } else if level - 4 * h >= 4 {
        4
    } else {
        (level - 4 * h) as u8
    }
}

fn row_level_exec(level: u16, h: u16) -> (r: u8)
    requires
        4 * h <= u16::MAX,
    ensures
        r == row_level(level, h as nat),
        r < 5,
{
    let rest = level.saturating_sub(h * 4);
    if rest >= 4 {
        4
    } else {
        rest as u8
    }
}

/// The characters of a pair of bars `a` and `b` (heights in quarter cells),
/// one per row from the bottom, `height` rows.
pub fn column_chars(a: u16, b: u16, height: u16) -> (r: Vec<char>)
    requires
        4 * height <= u16::MAX + 4,
    ensures
        r.len() == height,
        forall|h: int| 0 <= h < height ==> #[trigger] r@[h] as u32 == 0x2800 + braille_left(row_level(a, h as nat))
            + braille_right(row_level(b, h as nat)),
{
    let mut r: Vec<char> = Vec::new();
    let mut h: u16 = 0;
    while h < height
        invariant
            h <= height,
            4 * height <= u16::MAX + 4,
            r.len() == h,
            forall|k: int| 0 <= k < h ==> #[trigger] r@[k] as u32 == 0x2800 + braille_left(row_level(a, k as nat))
                + braille_right(row_level(b, k as nat)),
        decreases height - h,
    {
        let c = braille_pair(row_level_exec(a, h), row_level_exec(b, h));
        r.push(c);
        h += 1;
    }
    r
}

/// Row `h` (from the bottom) of a graph whose columns are the bar pairs `levels`.
pub fn row_text(levels: &Vec<(u16, u16)>, h: u16) -> (r: Vec<char>)
    requires
        4 * h <= u16::MAX,
    ensures
        r.len() == levels.len(),
        forall|i: int| 0 <= i < levels.len() ==> #[trigger] r@[i] as u32 == 0x2800 + braille_left(
            row_level(levels@[i].0, h as nat),
        ) + braille_right(row_level(levels@[i].1, h as nat)),
{
    let mut r: Vec<char> = Vec::new();
    let mut i: usize = 0;
    while i < levels.len()
        invariant
            i <= levels.len(),
            4 * h <= u16::MAX,
            r.len() == i,
            forall|k: int| 0 <= k < i ==> #[trigger] r@[k] as u32 == 0x2800 + braille_left(
                row_level(levels@[k].0, h as nat),
            ) + braille_right(row_level(levels@[k].1, h as nat)),
        decreases levels.len() - i,
    {
        let (a, b) = levels[i];
        r.push(braille_pair(row_level_exec(a, h), row_level_exec(b, h)));
        i += 1;
    }
    r
}

} // verus!

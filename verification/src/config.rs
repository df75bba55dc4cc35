//! User configuration values the launcher decides on: the theme variant,
//! and the hex colours of a user's `theme.ron`.

use vstd::prelude::*;

use crate::text::{trim, trim_str};

verus! {

#[derive(Debug, Clone, Copy, PartialEq, Eq, Structural)]
pub enum ThemeVariant {
    Dark,
    Chrome,
}

impl Default for ThemeVariant {
    fn default() -> (t: Self)
        ensures
            t == ThemeVariant::Chrome,
    {
        ThemeVariant::Chrome
    }
}

/// `s` without its leading `#` characters.
pub open spec fn strip_hashes(s: Seq<char>) -> Seq<char>
    decreases s.len(),
{
    if s.len() > 0 && s[0] == '#' {
        strip_hashes(s.drop_first())
    } else {
        s
    }
}

pub open spec fn hex_digit_value(c: char) -> Option<u8> {
    if '0' <= c && c <= '9' {
        Some((c as int - '0' as int) as u8)
    } else if 'a' <= c && c <= 'f' {
        Some((c as int - 'a' as int + 10) as u8)
    } else if 'A' <= c && c <= 'F' {
        Some((c as int - 'A' as int + 10) as u8)
    } else {
        None
    }
}

/// Two characters read as std `u8::from_str_radix(_, 16)` reads them: an
/// optional `+`, then hex digits.
pub open spec fn hex_pair(a: char, b: char) -> Option<u8> {
    match (hex_digit_value(a), hex_digit_value(b)) {
        (Some(x), Some(y)) => Some((x * 16 + y) as u8),
        (None, Some(y)) => if a == '+' {
            Some(y)
        } else {
            None
        },
        _ => None,
    }
}

/// The colour of a `#RRGGBB` text (leading `#`s optional, surrounding
/// whitespace ignored): six characters, three hex pairs.
pub open spec fn hex_rgb_spec(s: Seq<char>) -> Option<(u8, u8, u8)> {
    let t = strip_hashes(trim(s));
    if t.len() == 6 {
        match (hex_pair(t[0], t[1]), hex_pair(t[2], t[3]), hex_pair(t[4], t[5])) {
            (Some(r), Some(g), Some(b)) => Some((r, g, b)),
            _ => None,
        }
    } else {
        None
    }
}

fn digit_of(c: char) -> (r: Option<u8>)
    ensures
        r == hex_digit_value(c),
{
    if '0' <= c && c <= '9' {
        Some(((c as u32) - ('0' as u32)) as u8)
    } else if 'a' <= c && c <= 'f' {
        Some(((c as u32) - ('a' as u32) + 10) as u8)
    } else if 'A' <= c && c <= 'F' {
        Some(((c as u32) - ('A' as u32) + 10) as u8)
    } else {
        None
    }
}

fn pair_of(a: char, b: char) -> (r: Option<u8>)
    ensures
        r == hex_pair(a, b),
{
    match (digit_of(a), digit_of(b)) {
        (Some(x), Some(y)) => Some(x * 16 + y),
        (None, Some(y)) => if a == '+' {
            Some(y)
        } else {
            None
        },
        _ => None,
    }
}

/// Parse a Pop!_OS-style 6-char hex colour: "#E0E3E8" (leading '#'
/// optional) into its red, green and blue bytes. Anything else, non-ASCII
/// text included, is no colour, so the field keeps its default.
pub fn parse_hex_rgb(s: &str) -> (r: Option<(u8, u8, u8)>)
    ensures
        r == hex_rgb_spec(s@),
{
    let t = trim_str(s);
    let mut i: usize = 0;
    assert(trim(s@).skip(0) =~= trim(s@));
    while i < t.len() && t[i] == '#'
        invariant
            t@ == trim(s@),
            i <= t@.len(),
            strip_hashes(trim(s@)) == strip_hashes(t@.skip(i as int)),
        decreases t@.len() - i,
    {
        assert(t@.skip(i as int).drop_first() =~= t@.skip(i + 1));
        i = i + 1;
    }
    let ghost h = t@.skip(i as int);
    assert(strip_hashes(h) == h);
    if t.len() - i != 6 {
        return None;
    }
    assert(h[0] == t@[i as int] && h[1] == t@[i + 1] && h[2] == t@[i + 2]);
    assert(h[3] == t@[i + 3] && h[4] == t@[i + 4] && h[5] == t@[i + 5]);
    let r = pair_of(t[i], t[i + 1]);
    let g = pair_of(t[i + 2], t[i + 3]);
    let b = pair_of(t[i + 4], t[i + 5]);
    match (r, g, b) {
        (Some(r), Some(g), Some(b)) => Some((r, g, b)),
        _ => None,
    }
}

} // verus!

//! Where the launcher sits: which COSMIC bar and wing hold the applet, and
//! how thick that bar is, read from the bar's configuration texts.

use vstd::prelude::*;

use crate::text::{
    chars_eq_str, chars_of, ends_with_str, find_spec, find_str, has_prefix, has_substring,
    has_suffix, parse_i32_chars, parse_i32_spec, starts_with_str, sub_vec, trim, trim_chars,
    contains_str,
};

verus! {

/// Which array of a COSMIC bar's wings the applet is in. First/Second are
/// orientation-neutral: for a horizontal bar First is left and Second right;
/// for a vertical bar First is top and Second bottom.
#[derive(Clone, Copy, Debug, PartialEq, Eq, Structural)]
pub enum Wing {
    First,
    Second,
    Center,
}

/// The screen edge a bar is anchored to.
#[derive(Clone, Copy, Debug, PartialEq, Eq, Structural)]
pub enum BarEdge {
    Top,
    Left,
    Right,
    Bottom,
}

/// The two configuration values of one bar that locate an applet:
/// `plugins_wings`, e.g. `Some(([left...], [right...]))`, and
/// `plugins_center`, e.g. `Some([...])`.
pub struct BarPlugins {
    pub wings: String,
    pub center: String,
}

#[derive(Debug, Clone, Copy, PartialEq, Eq, Structural)]
pub struct LauncherPosition;

pub const APPLET_ID: &'static str = "com.github.hmrdsmoke.soulless-applet";

/// The wing of a `plugins_wings` text that holds the applet: the first
/// array if the applet comes before the `], [` (or `],[`) boundary or there
/// is no boundary, else the second. Positions are compared in characters,
/// which orders them as byte offsets do.
pub open spec fn wing_in(wings: Seq<char>) -> Wing {
    let pos = find_spec(wings, APPLET_ID@);
    let boundary = if has_substring(wings, "], ["@) {
        find_spec(wings, "], ["@)
    } else {
        find_spec(wings, "],["@)
    };
    if boundary == -1 || pos < boundary {
        Wing::First
    } else {
        Wing::Second
    }
}

/// Panel first, then Dock; in each, the wings before the center list.
/// Neither holding the applet means the Panel's center.
pub open spec fn applet_bar(
    panel_wings: Seq<char>,
    panel_center: Seq<char>,
    dock_wings: Seq<char>,
    dock_center: Seq<char>,
) -> (Seq<char>, Wing) {
    if has_substring(panel_wings, APPLET_ID@) {
        ("Panel"@, wing_in(panel_wings))
    } else if has_substring(panel_center, APPLET_ID@) {
        ("Panel"@, Wing::Center)
    } else if has_substring(dock_wings, APPLET_ID@) {
        ("Dock"@, wing_in(dock_wings))
    } else if has_substring(dock_center, APPLET_ID@) {
        ("Dock"@, Wing::Center)
    } else {
        ("Panel"@, Wing::Center)
    }
}

/// The number inside a `Custom(n)` size, as std `parse::<i32>` reads it
/// after trimming.
pub open spec fn custom_size(t: Seq<char>) -> Option<int> {
    if has_prefix(t, "Custom("@) && has_suffix(t.skip(7), ")"@) {
        parse_i32_spec(trim(t.subrange(7, t.len() - 1)))
    } else {
        None
    }
}

/// Bar thickness in px from the COSMIC size value: the named sizes, a
/// custom size plus 12, else 44.
pub open spec fn bar_size_spec(text: Seq<char>) -> int {
    let t = trim(text);
    if t == "XS"@ {
        32
    } else if t == "S"@ {
        40
    } else if t == "M"@ {
        52
    } else if t == "L"@ {
        64
    } else if t == "XL"@ {
        78
    } else {
        match custom_size(t) {
            Some(s) => s + 12,
            None => 44,
        }
    }
}

/// A custom size whose padded value fits in an `i32`.
pub open spec fn bar_size_fits(text: Seq<char>) -> bool {
    match custom_size(trim(text)) {
        Some(s) => s + 12 <= i32::MAX,
        None => true,
    }
}

pub open spec fn bar_edge_spec(text: Seq<char>) -> BarEdge {
    let t = trim(text);
    if t == "Top"@ {
        BarEdge::Top
    } else if t == "Left"@ {
        BarEdge::Left
    } else if t == "Right"@ {
        BarEdge::Right
    } else {
        BarEdge::Bottom
    }
}

fn wing_of(wings: &[char]) -> (w: Wing)
    requires
        has_substring(wings@, APPLET_ID@),
    ensures
        w == wing_in(wings@),
{
    let pos = match find_str(wings, APPLET_ID) {
        Some(p) => p,
        None => 0,
    };
    let boundary = match find_str(wings, "], [") {
        Some(b) => Some(b),
        None => find_str(wings, "],["),
    };
    match boundary {
        Some(b) => {
            if pos < b {
                Wing::First
            } else {
                Wing::Second
            }
        },
        None => Wing::First,
    }
}

impl LauncherPosition {
    /// Find which bar + wing the soulless applet is in. Searches Panel
    /// first, then Dock. Returns (bar, wing). Defaults to ("Panel", Center)
    /// if not found.
    pub fn find_applet_bar(panel: &BarPlugins, dock: &BarPlugins) -> (r: (&'static str, Wing))
        ensures
            (r.0@, r.1) == applet_bar(panel.wings@, panel.center@, dock.wings@, dock.center@),
    {
        let pw = chars_of(panel.wings.as_str());
        if contains_str(pw.as_slice(), APPLET_ID) {
            return ("Panel", wing_of(pw.as_slice()));
        }
        let pc = chars_of(panel.center.as_str());
        if contains_str(pc.as_slice(), APPLET_ID) {
            return ("Panel", Wing::Center);
        }
        let dw = chars_of(dock.wings.as_str());
        if contains_str(dw.as_slice(), APPLET_ID) {
            return ("Dock", wing_of(dw.as_slice()));
        }
        let dc = chars_of(dock.center.as_str());
        if contains_str(dc.as_slice(), APPLET_ID) {
            return ("Dock", Wing::Center);
        }
        ("Panel", Wing::Center)
    }

    /// Bar thickness in px from the COSMIC size enum (XS..XL or Custom).
    pub fn bar_size_px(size: &str) -> (px: i32)
        requires
            bar_size_fits(size@),
        ensures
            px == bar_size_spec(size@),
    {
        let t = crate::text::trim_str(size);
        if chars_eq_str(t.as_slice(), "XS") {
            return 32;
        }
        if chars_eq_str(t.as_slice(), "S") {
            return 40;
        }
        if chars_eq_str(t.as_slice(), "M") {
            return 52;
        }
        if chars_eq_str(t.as_slice(), "L") {
            return 64;
        }
        if chars_eq_str(t.as_slice(), "XL") {
            return 78;
        }
        match Self::custom_size_of(t.as_slice()) {
            Some(s) => s + 12,
            None => 44,
        }
    }

    fn custom_size_of(t: &[char]) -> (r: Option<i32>)
        ensures
            match r {
                Some(s) => custom_size(t@) == Some(s as int),
                None => custom_size(t@) is None,
            },
    {
        proof {
            reveal_strlit("Custom(");
            reveal_strlit(")");
        }
        if !starts_with_str(t, "Custom(") {
            return None;
        }
        let rest = sub_vec(t, 7, t.len());
        assert(rest@ == t@.skip(7));
        if !ends_with_str(rest.as_slice(), ")") {
            return None;
        }
        let inner = sub_vec(t, 7, t.len() - 1);
        let trimmed = trim_chars(inner.as_slice());
        parse_i32_chars(trimmed.as_slice())
    }

    /// Read a bar's edge anchor.
    pub fn bar_anchor(anchor: &str) -> (e: BarEdge)
        ensures
            e == bar_edge_spec(anchor@),
    {
        let t = crate::text::trim_str(anchor);
        if chars_eq_str(t.as_slice(), "Top") {
            BarEdge::Top
        } else if chars_eq_str(t.as_slice(), "Left") {
            BarEdge::Left
        } else if chars_eq_str(t.as_slice(), "Right") {
            BarEdge::Right
        } else {
            BarEdge::Bottom
        }
    }
}

} // verus!

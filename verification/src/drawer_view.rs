//! What the drawer view shows for dropped files: an emoji by extension,
//! and file names decoded from the drop payload.

use vstd::prelude::*;

use crate::text::{
    chars_eq_str, chars_of, from_utf8_lossy, lines, lower_text, split_lines, starts_with, string_of,
    string_views, to_lowercase, trim, trim_chars, utf8_lossy, views,
};
use crate::utils::{
    file_scheme, file_uri_lines, hex_nibble, hex_value, strip_all_prefix, strip_all_prefix_chars,
};
use vstd::utf8::encode_utf8;

verus! {

/// The text after the last `sep`, or all of `s` when there is none (the
/// first item of std `str::rsplit`).
pub open spec fn last_segment(s: Seq<char>, sep: char) -> Seq<char>
    decreases s.len(),
{
    if s.len() == 0 {
        s
    } else if s.last() == sep {
        Seq::empty()
    } else {
        last_segment(s.drop_last(), sep).push(s.last())
    }
}

pub fn last_segment_of(cs: &[char], sep: char) -> (r: Vec<char>)
    ensures
        r@ == last_segment(cs@, sep),
{
    let n = cs.len();
    let mut start: usize = n;
    assert(cs@.take(n as int) =~= cs@);
    assert(last_segment(cs@.take(n as int), sep) == last_segment(cs@, sep));
    while start > 0 && cs[start - 1] != sep
        invariant
            n == cs@.len(),
            start <= n,
            last_segment(cs@, sep) == last_segment(cs@.take(start as int), sep) + cs@.subrange(
                start as int,
                n as int,
            ),
        decreases start,
    {
        let ghost t = cs@.take(start as int);
        assert(t.drop_last() =~= cs@.take(start - 1));
        assert(t.last() == cs@[start - 1]);
        assert(cs@.subrange(start - 1, n as int) =~= seq![cs@[start - 1]] + cs@.subrange(
            start as int,
            n as int,
        ));
        assert(last_segment(t, sep) == last_segment(cs@.take(start - 1), sep).push(cs@[start - 1]));
        assert(last_segment(t, sep) + cs@.subrange(start as int, n as int) =~= last_segment(
            cs@.take(start - 1),
            sep,
        ) + cs@.subrange(start - 1, n as int));
        start = start - 1;
    }
    assert(last_segment(cs@.take(start as int), sep) =~= Seq::<char>::empty()) by {
        if start > 0 {
            assert(cs@.take(start as int).last() == sep);
        }
    }
    let mut v: Vec<char> = Vec::new();
    let mut k: usize = start;
    while k < n
        invariant
            n == cs@.len(),
            start <= k <= n,
            v@ == cs@.subrange(start as int, k as int),
        decreases n - k,
    {
        v.push(cs[k]);
        assert(cs@.subrange(start as int, k + 1) =~= cs@.subrange(start as int, k as int).push(cs@[k as int]));
        k = k + 1;
    }
    assert(last_segment(cs@, sep) =~= v@);
    v
}

/// The emoji for a lowercased extension.
pub open spec fn emoji_for(ext: Seq<char>) -> Seq<char> {
    if ext == "pdf"@ {
        "📄"@
    } else if ext == "doc"@ || ext == "docx"@ || ext == "odt"@ || ext == "rtf"@ {
        "📝"@
    } else if ext == "xls"@ || ext == "xlsx"@ || ext == "ods"@ || ext == "csv"@ {
        "📊"@
    } else if ext == "ppt"@ || ext == "pptx"@ || ext == "odp"@ {
        "📋"@
    } else if ext == "txt"@ || ext == "md"@ || ext == "rst"@ {
        "📃"@
    } else if ext == "png"@ || ext == "jpg"@ || ext == "jpeg"@ || ext == "gif"@ || ext == "webp"@ || ext == "bmp"@ || ext == "svg"@ {
        "🖼"@
    } else if ext == "mp4"@ || ext == "mkv"@ || ext == "avi"@ || ext == "mov"@ || ext == "webm"@ {
        "🎬"@
    } else if ext == "mp3"@ || ext == "flac"@ || ext == "ogg"@ || ext == "wav"@ || ext == "aac"@ || ext == "m4a"@ {
        "🎵"@
    } else if ext == "zip"@ || ext == "tar"@ || ext == "gz"@ || ext == "xz"@ || ext == "7z"@ || ext == "rar"@ {
        "🗜"@
    } else if ext == "rs"@ || ext == "py"@ || ext == "js"@ || ext == "ts"@ || ext == "go"@ || ext == "c"@ || ext == "cpp"@ || ext == "h"@ || ext == "java"@ || ext == "kt"@ || ext == "swift"@ {
        "💻"@
    } else if ext == "sh"@ || ext == "bash"@ || ext == "zsh"@ || ext == "fish"@ {
        "⚙"@
    } else if ext == "json"@ || ext == "toml"@ || ext == "yaml"@ || ext == "yml"@ || ext == "xml"@ || ext == "ini"@ || ext == "conf"@ {
        "🔧"@
    } else {
        "📁"@
    }
}

/// The extension of a file name: after its last dot, lowercased.
pub open spec fn emoji_ext(name: Seq<char>) -> Seq<char> {
    lower_text(last_segment(name, '.'))
}

fn emoji_of_ext(e: &[char]) -> (r: &'static str)
    ensures
        r@ == emoji_for(e@),
{
    if chars_eq_str(e, "pdf") {
        "📄"
    } else if chars_eq_str(e, "doc") || chars_eq_str(e, "docx") || chars_eq_str(e, "odt") || chars_eq_str(e, "rtf") {
        "📝"
    } else if chars_eq_str(e, "xls") || chars_eq_str(e, "xlsx") || chars_eq_str(e, "ods") || chars_eq_str(e, "csv") {
        "📊"
    } else if chars_eq_str(e, "ppt") || chars_eq_str(e, "pptx") || chars_eq_str(e, "odp") {
        "📋"
    } else if chars_eq_str(e, "txt") || chars_eq_str(e, "md") || chars_eq_str(e, "rst") {
        "📃"
    } else if chars_eq_str(e, "png") || chars_eq_str(e, "jpg") || chars_eq_str(e, "jpeg") || chars_eq_str(e, "gif") || chars_eq_str(e, "webp") || chars_eq_str(e, "bmp") || chars_eq_str(e, "svg") {
        "🖼"
    } else if chars_eq_str(e, "mp4") || chars_eq_str(e, "mkv") || chars_eq_str(e, "avi") || chars_eq_str(e, "mov") || chars_eq_str(e, "webm") {
        "🎬"
    } else if chars_eq_str(e, "mp3") || chars_eq_str(e, "flac") || chars_eq_str(e, "ogg") || chars_eq_str(e, "wav") || chars_eq_str(e, "aac") || chars_eq_str(e, "m4a") {
        "🎵"
    } else if chars_eq_str(e, "zip") || chars_eq_str(e, "tar") || chars_eq_str(e, "gz") || chars_eq_str(e, "xz") || chars_eq_str(e, "7z") || chars_eq_str(e, "rar") {
        "🗜"
    } else if chars_eq_str(e, "rs") || chars_eq_str(e, "py") || chars_eq_str(e, "js") || chars_eq_str(e, "ts") || chars_eq_str(e, "go") || chars_eq_str(e, "c") || chars_eq_str(e, "cpp") || chars_eq_str(e, "h") || chars_eq_str(e, "java") || chars_eq_str(e, "kt") || chars_eq_str(e, "swift") {
        "💻"
    } else if chars_eq_str(e, "sh") || chars_eq_str(e, "bash") || chars_eq_str(e, "zsh") || chars_eq_str(e, "fish") {
        "⚙"
    } else if chars_eq_str(e, "json") || chars_eq_str(e, "toml") || chars_eq_str(e, "yaml") || chars_eq_str(e, "yml") || chars_eq_str(e, "xml") || chars_eq_str(e, "ini") || chars_eq_str(e, "conf") {
        "🔧"
    } else {
        "📁"
    }
}

/// Pick a representative emoji for a file by extension.
pub fn file_emoji(name: &str) -> (r: &'static str)
    ensures
        r@ == emoji_for(emoji_ext(name@)),
{
    let cs = chars_of(name);
    let seg = last_segment_of(cs.as_slice(), '.');
    let ext = to_lowercase(seg.as_slice());
    emoji_of_ext(ext.as_slice())
}

/// Percent-decoding byte by byte, each byte read as the character with that
/// code (Latin-1): `%` and two hex digits give one character; anything else
/// is copied.
pub open spec fn latin1_decode(b: Seq<u8>) -> Seq<char>
    decreases b.len(),
{
    if b.len() == 0 {
        Seq::empty()
    } else if b[0] == 0x25u8 && b.len() > 2 && hex_value(b[1]) is Some && hex_value(b[2]) is Some {
        seq![((hex_value(b[1])->0 * 16 + hex_value(b[2])->0) as u8) as char] + latin1_decode(
            b.skip(3),
        )
    } else {
        seq![b[0] as char] + latin1_decode(b.skip(1))
    }
}

/// URI percent-decoding used by the drawer file drop zone.
pub fn uri_decode(input: &str) -> (r: String)
    ensures
        r@ == latin1_decode(encode_utf8(input@)),
{
    let bytes = input.as_bytes();
    let ghost all = bytes@;
    let n = bytes.len();
    let mut out: Vec<char> = Vec::new();
    let mut i: usize = 0;
    assert(all.skip(0) =~= all);
    while i < n
        invariant
            n == all.len(),
            all == bytes@,
            i <= n,
            out@ + latin1_decode(all.skip(i as int)) == latin1_decode(all),
        decreases n - i,
    {
        let ghost rest = all.skip(i as int);
        assert(rest[0] == all[i as int]);
        if bytes[i] == 0x25u8 && n - i > 2 {
            match (hex_nibble(bytes[i + 1]), hex_nibble(bytes[i + 2])) {
                (Some(hi), Some(lo)) => {
                    assert(rest[1] == all[i + 1] && rest[2] == all[i + 2]);
                    assert(rest.skip(3) =~= all.skip(i + 3));
                    let c = (hi * 16 + lo) as char;
                    let ghost before = out@;
                    out.push(c);
                    assert(out@ + latin1_decode(all.skip(i + 3)) =~= before + latin1_decode(rest));
                    i = i + 3;
                    continue;
                },
                _ => {},
            }
        }
        assert(rest.skip(1) =~= all.skip(i + 1));
        let ghost before = out@;
        out.push(bytes[i] as char);
        proof {
            if rest[0] == 0x25u8 && rest.len() > 2 {
                assert(rest[1] == all[i + 1] && rest[2] == all[i + 2]);
            }
        }
        assert(out@ + latin1_decode(all.skip(i + 1)) =~= before + latin1_decode(rest));
        i = i + 1;
    }
    assert(all.skip(i as int) =~= Seq::<u8>::empty());
    assert(out@ + latin1_decode(all.skip(i as int)) =~= out@);
    string_of(out.as_slice())
}

/// A drawer tile's label: the text itself when it has at most `max`
/// characters, else its first `max` characters and an ellipsis.
pub open spec fn tile_label(text: Seq<char>, max: nat) -> Seq<char> {
    if text.len() <= max {
        text
    } else {
        text.take(max as int).push('\u{2026}')
    }
}

pub fn truncate_tile_label(text: &str, max: usize) -> (r: String)
    ensures
        r@ == tile_label(text@, max as nat),
{
    let cs = chars_of(text);
    if cs.len() <= max {
        string_of(cs.as_slice())
    } else {
        let mut v = crate::text::sub_vec(cs.as_slice(), 0, max);
        v.push('\u{2026}');
        string_of(v.as_slice())
    }
}

/// The path a drawer drop-zone line names: the scheme removed, then
/// percent-decoded byte by byte.
pub open spec fn drop_zone_path(l: Seq<char>) -> Seq<char> {
    latin1_decode(encode_utf8(strip_all_prefix(l, file_scheme())))
}

/// The candidate paths of a `text/uri-list` payload dropped on a drawer:
/// each trimmed `file://` line, decoded. `utils::existing_paths` keeps
/// those the caller found on disk.
pub open spec fn drop_zone_paths_spec(data: Seq<u8>) -> Seq<Seq<char>> {
    drop_zone_list(file_uri_lines(lines(utf8_lossy(data))))
}

pub open spec fn drop_zone_list(ls: Seq<Seq<char>>) -> Seq<Seq<char>> {
    ls.map_values(|l: Seq<char>| drop_zone_path(l))
}

pub fn drop_zone_paths(data: &[u8]) -> (r: Vec<String>)
    ensures
        string_views(r@) == drop_zone_paths_spec(data@),
{
    let payload = from_utf8_lossy(data);
    let ls = split_lines(payload.as_slice());
    let scheme = chars_of("file://");
    proof {
        reveal_strlit("file://");
    }
    assert(scheme@ =~= file_scheme());
    let ghost all = views(ls@);
    let mut out: Vec<String> = Vec::new();
    let mut i: usize = 0;
    assert(all.take(0) =~= seq![]);
    assert(string_views(out@) =~= seq![]);
    while i < ls.len()
        invariant
            i <= ls@.len(),
            all == views(ls@),
            all == lines(utf8_lossy(data@)),
            scheme@ == file_scheme(),
            string_views(out@) == drop_zone_list(file_uri_lines(all.take(i as int))),
        decreases ls@.len() - i,
    {
        let t = trim_chars(ls[i].as_slice());
        assert(all.take(i + 1).drop_last() =~= all.take(i as int));
        assert(all.take(i + 1).last() == ls@[i as int]@);
        let ghost prev = file_uri_lines(all.take(i as int));
        if starts_with(t.as_slice(), scheme.as_slice()) {
            let raw = strip_all_prefix_chars(t.as_slice(), scheme.as_slice());
            let raw_s = string_of(raw.as_slice());
            let item = uri_decode(raw_s.as_str());
            let ghost before = out@;
            assert(file_uri_lines(all.take(i + 1)) == prev.push(t@));
            assert(item@ == drop_zone_path(t@));
            out.push(item);
            assert(string_views(out@) =~= drop_zone_list(prev.push(t@))) by {
                assert(string_views(before) == drop_zone_list(prev));
                assert(string_views(before).len() == before.len());
                assert(drop_zone_list(prev).len() == prev.len());
                assert(drop_zone_list(prev.push(t@)).len() == prev.len() + 1);
                assert forall|k: int| 0 <= k < out@.len() implies #[trigger] string_views(out@)[k]
                    == drop_zone_list(prev.push(t@))[k] by {
                    assert(string_views(out@)[k] == out@[k]@);
                    assert(drop_zone_list(prev.push(t@))[k] == drop_zone_path(prev.push(t@)[k]));
                    if k < before.len() {
                        assert(out@[k] == before[k]);
                        assert(string_views(before)[k] == before[k]@);
                        assert(drop_zone_list(prev)[k] == drop_zone_path(prev[k]));
                    }
                }
            }
        } else {
            assert(file_uri_lines(all.take(i + 1)) == prev);
        }
        i = i + 1;
    }
    assert(all.take(ls@.len() as int) =~= all);
    out
}

/// The MIME types an app tile offers and a drawer accepts when an app is
/// dragged onto it, in order of preference.
pub open spec fn app_mime_types_spec() -> Seq<Seq<char>> {
    seq![
        seq!['t', 'e', 'x', 't', '/', 'p', 'l', 'a', 'i', 'n', ';', 'c', 'h', 'a', 'r', 's', 'e', 't', '=', 'u', 't', 'f', '-', '8'],
        seq!['t', 'e', 'x', 't', '/', 'p', 'l', 'a', 'i', 'n'],
        seq!['U', 'T', 'F', '8', '_', 'S', 'T', 'R', 'I', 'N', 'G'],
        seq!['S', 'T', 'R', 'I', 'N', 'G'],
    ]
}

pub fn app_mime_types() -> (r: Vec<String>)
    ensures
        string_views(r@) == app_mime_types_spec(),
{
    proof {
        reveal_strlit("text/plain;charset=utf-8");
        reveal_strlit("text/plain");
        reveal_strlit("UTF8_STRING");
        reveal_strlit("STRING");
    }
    let ghost m = app_mime_types_spec();
    let a = string_of(chars_of("text/plain;charset=utf-8").as_slice());
    assert(a@ =~= m[0]);
    let b = string_of(chars_of("text/plain").as_slice());
    assert(b@ =~= m[1]);
    let c = string_of(chars_of("UTF8_STRING").as_slice());
    assert(c@ =~= m[2]);
    let d = string_of(chars_of("STRING").as_slice());
    assert(d@ =~= m[3]);
    let mut r: Vec<String> = Vec::new();
    r.push(a);
    r.push(b);
    r.push(c);
    r.push(d);
    assert(string_views(r@) =~= app_mime_types_spec());
    r
}

/// The app id a dragged app tile carries: the payload's text, trimmed.
pub fn app_id_from_payload(data: &[u8]) -> (r: String)
    ensures
        r@ == trim(utf8_lossy(data@)),
{
    let text = from_utf8_lossy(data);
    let t = trim_chars(text.as_slice());
    string_of(t.as_slice())
}

} // verus!

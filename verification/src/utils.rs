//! Shared text utilities: desktop-entry exec cleaning, URI percent-decoding,
//! label truncation, `text/uri-list` parsing and shell quoting.

use vstd::prelude::*;

use crate::text::{
    chars_of, from_utf8_lossy, has_prefix, is_ascii_alpha, is_ascii_alphabetic, lines, split_lines,
    prefix_at, starts_with, string_of, string_views, sub_vec, trim, trim_chars, utf8_lossy, views,
};
use vstd::utf8::{decode_utf8, encode_utf8, valid_utf8};

verus! {

// ---------------------------------------------------------------------------
// Desktop-entry placeholders
// ---------------------------------------------------------------------------

/// Drops every `%` followed by an ASCII letter together with that letter.
pub open spec fn strip_placeholders_seq(s: Seq<char>) -> Seq<char>
    decreases s.len(),
{
    if s.len() == 0 {
        seq![]
    } else if s[0] == '%' && s.len() > 1 && is_ascii_alpha(s[1]) {
        strip_placeholders_seq(s.skip(2))
    } else {
        seq![s[0]] + strip_placeholders_seq(s.drop_first())
    }
}

pub fn strip_placeholders_chars(cs: &[char]) -> (r: Vec<char>)
    ensures
        r@ == strip_placeholders_seq(cs@),
{
    let n = cs.len();
    let mut out: Vec<char> = Vec::new();
    let mut i: usize = 0;
    assert(cs@.skip(0) =~= cs@);
    while i < n
        invariant
            n == cs@.len(),
            i <= n,
            out@ + strip_placeholders_seq(cs@.skip(i as int)) == strip_placeholders_seq(cs@),
        decreases n - i,
    {
        let ghost rest = cs@.skip(i as int);
        let ghost before = out@;
        if cs[i] == '%' && i + 1 < n && is_ascii_alphabetic(cs[i + 1]) {
            assert(rest.skip(2) =~= cs@.skip(i + 2));
            i = i + 2;
        } else {
            out.push(cs[i]);
            assert(rest.drop_first() =~= cs@.skip(i + 1));
            assert(before + strip_placeholders_seq(rest) =~= out@ + strip_placeholders_seq(
                cs@.skip(i + 1),
            ));
            i = i + 1;
        }
    }
    assert(cs@.skip(i as int) =~= seq![]);
    assert(out@ + seq![] =~= out@);
    out
}

/// Strip desktop entry exec field placeholders like %f, %u, %F, %U etc.
pub fn strip_desktop_placeholders(exec: &str) -> (r: String)
    ensures
        r@ == trim(strip_placeholders_seq(exec@)),
{
    let cs = chars_of(exec);
    let stripped = strip_placeholders_chars(cs.as_slice());
    let t = trim_chars(stripped.as_slice());
    string_of(t.as_slice())
}

/// The argument vector that launches an Exec line: through `sh -c`, and
/// through `flatpak-spawn --host` when running sandboxed, with the
/// placeholders removed.
pub open spec fn launch_argv_spec(exec_line: Seq<char>, sandboxed: bool) -> Seq<Seq<char>> {
    let clean = trim(strip_placeholders_seq(exec_line));
    if sandboxed {
        seq!["flatpak-spawn"@, "--host"@, "sh"@, "-c"@, clean]
    } else {
        seq!["sh"@, "-c"@, clean]
    }
}

pub fn launch_argv(exec_line: &str, sandboxed: bool) -> (argv: Vec<String>)
    ensures
        crate::text::string_views(argv@) == launch_argv_spec(exec_line@, sandboxed),
{
    let clean = strip_desktop_placeholders(exec_line);
    let mut argv: Vec<String> = Vec::new();
    if sandboxed {
        argv.push("flatpak-spawn".to_owned());
        argv.push("--host".to_owned());
    }
    argv.push("sh".to_owned());
    argv.push("-c".to_owned());
    let ghost c = clean@;
    argv.push(clean);
    assert(crate::text::string_views(argv@) =~= launch_argv_spec(exec_line@, sandboxed));
    argv
}

// ---------------------------------------------------------------------------
// Percent-decoding
// ---------------------------------------------------------------------------

pub open spec fn hex_value(b: u8) -> Option<u8> {
    if 0x30 <= b <= 0x39 {
        Some((b - 0x30) as u8)
    } else if 0x61 <= b <= 0x66 {
        Some((b - 0x61 + 10) as u8)
    } else if 0x41 <= b <= 0x46 {
        Some((b - 0x41 + 10) as u8)
    } else {
        None
    }
}

pub fn hex_nibble(b: u8) -> (r: Option<u8>)
    ensures
        r == hex_value(b),
        r matches Some(v) ==> v < 16,
{
    if 0x30u8 <= b && b <= 0x39u8 {
        Some(b - 0x30u8)
    } else if 0x61u8 <= b && b <= 0x66u8 {
        Some(b - 0x61u8 + 10)
    } else if 0x41u8 <= b && b <= 0x46u8 {
        Some(b - 0x41u8 + 10)
    } else {
        None
    }
}

/// `%XY` with two hex digits becomes the byte 0xXY; every other byte stays.
pub open spec fn pct_decode(b: Seq<u8>) -> Seq<u8>
    decreases b.len(),
{
    if b.len() == 0 {
        seq![]
    } else if b[0] == 0x25u8 && b.len() > 2 && hex_value(b[1]) is Some && hex_value(b[2]) is Some {
        seq![(hex_value(b[1])->0 * 16 + hex_value(b[2])->0) as u8] + pct_decode(b.skip(3))
    } else {
        seq![b[0]] + pct_decode(b.drop_first())
    }
}

pub fn percent_decode_bytes(bytes: &[u8]) -> (out: Vec<u8>)
    ensures
        out@ == pct_decode(bytes@),
{
    let n = bytes.len();
    let mut out: Vec<u8> = Vec::new();
    let mut i: usize = 0;
    assert(bytes@.skip(0) =~= bytes@);
    while i < n
        invariant
            n == bytes@.len(),
            i <= n,
            out@ + pct_decode(bytes@.skip(i as int)) == pct_decode(bytes@),
        decreases n - i,
    {
        let ghost rest = bytes@.skip(i as int);
        let ghost before = out@;
        if bytes[i] == 0x25u8 && n >= 3 && i < n - 2 {
            let hi = hex_nibble(bytes[i + 1]);
            let lo = hex_nibble(bytes[i + 2]);
            if let (Some(h), Some(l)) = (hi, lo) {
                let v = h << 4 | l;
                assert(v == h * 16 + l) by (bit_vector)
                    requires
                        h < 16,
                        l < 16,
                        v == h << 4 | l,
                ;
                out.push(v);
                assert(rest.skip(3) =~= bytes@.skip(i + 3));
                assert(before + pct_decode(rest) =~= out@ + pct_decode(bytes@.skip(i + 3)));
                i = i + 3;
                continue;
            }
        }
        out.push(bytes[i]);
        assert(rest.drop_first() =~= bytes@.skip(i + 1));
        assert(before + pct_decode(rest) =~= out@ + pct_decode(bytes@.skip(i + 1)));
        i = i + 1;
    }
    assert(bytes@.skip(i as int) =~= seq![]);
    assert(out@ + seq![] =~= out@);
    out
}

proof fn lemma_marked_bytes(y: u8)
    by (bit_vector)
    ensures
        (0x80u8 | y) != 0x25u8,
        (0xC0u8 | y) != 0x25u8,
        (0xE0u8 | y) != 0x25u8,
        (0xF0u8 | y) != 0x25u8,
{
}

proof fn lemma_ascii_byte(v: u32)
    by (bit_vector)
    requires
        v <= 0x7F,
        v != 0x25,
    ensures
        ((v & 0x7F) as u8) != 0x25u8,
{
}

pub open spec fn no_percent_byte(b: Seq<u8>) -> bool {
    forall|k: int| 0 <= k < b.len() ==> #[trigger] b[k] != 0x25u8
}

proof fn lemma_encode_without_percent(s: Seq<char>)
    requires
        !crate::text::has_char(s, '%'),
    ensures
        no_percent_byte(encode_utf8(s)),
    decreases s.len(),
{
    if s.len() > 0 {
        let c = s[0] as u32;
        assert(s[0] != '%');
        vstd::utf8::char_is_scalar(s[0]);
        assert(('%' as u32) == 0x25);
        if c == 0x25 {
            vstd::utf8::char_u32_cast(s[0], c);
            vstd::utf8::char_u32_cast('%', c);
        }
        assert(c != 0x25);
        let e = vstd::utf8::encode_scalar(c);
        lemma_marked_bytes(((c >> 6) & 0x1F) as u8);
        lemma_marked_bytes(((c >> 12) & 0x0F) as u8);
        lemma_marked_bytes(((c >> 18) & 0x7) as u8);
        lemma_marked_bytes((c & 0x3F) as u8);
        lemma_marked_bytes(((c >> 6) & 0x3F) as u8);
        lemma_marked_bytes(((c >> 12) & 0x3F) as u8);
        if c <= 0x7F {
            lemma_ascii_byte(c);
        }
        assert(no_percent_byte(e));
        assert(!crate::text::has_char(s.drop_first(), '%')) by {
            if crate::text::has_char(s.drop_first(), '%') {
                let k = choose|k: int| 0 <= k < s.drop_first().len() && s.drop_first()[k] == '%';
                assert(s[k + 1] == '%');
            }
        }
        lemma_encode_without_percent(s.drop_first());
        let r = encode_utf8(s.drop_first());
        assert forall|k: int| 0 <= k < (e + r).len() implies #[trigger] (e + r)[k] != 0x25u8 by {
            if k < e.len() {
                assert((e + r)[k] == e[k]);
            } else {
                assert((e + r)[k] == r[k - e.len()]);
            }
        }
    }
}

proof fn lemma_pct_decode_identity(b: Seq<u8>)
    requires
        no_percent_byte(b),
    ensures
        pct_decode(b) == b,
    decreases b.len(),
{
    if b.len() > 0 {
        assert(b[0] != 0x25u8);
        assert(no_percent_byte(b.drop_first())) by {
            assert forall|k: int| 0 <= k < b.drop_first().len() implies #[trigger] b.drop_first()[k]
                != 0x25u8 by {
                assert(b.drop_first()[k] == b[k + 1]);
            }
        }
        lemma_pct_decode_identity(b.drop_first());
        assert(seq![b[0]] + b.drop_first() =~= b);
    }
}

/// What `percent_decode_uri` gives for a text: its UTF-8 bytes decoded,
/// then read back as UTF-8 with invalid sequences replaced.
pub open spec fn percent_decoded(s: Seq<char>) -> Seq<char> {
    utf8_lossy(pct_decode(encode_utf8(s)))
}

fn percent_decode_chars(cs: &[char]) -> (r: Vec<char>)
    ensures
        r@ == percent_decoded(cs@),
        valid_utf8(pct_decode(encode_utf8(cs@))) ==> r@ == decode_utf8(
            pct_decode(encode_utf8(cs@)),
        ),
{
    let s = string_of(cs);
    let bytes = s.as_str().as_bytes();
    let decoded = percent_decode_bytes(bytes);
    from_utf8_lossy(decoded.as_slice())
}

/// Decode a percent-encoded URI path (e.g. file:// drag and drop payloads).
///
/// Decodes into bytes first, so that an encoded multi-byte character such as
/// `%C3%A9` comes back as the one character it encodes.
pub fn percent_decode_uri(input: &str) -> (r: String)
    ensures
        r@ == percent_decoded(input@),
        valid_utf8(pct_decode(encode_utf8(input@))) ==> r@ == decode_utf8(
            pct_decode(encode_utf8(input@)),
        ),
        !crate::text::has_char(input@, '%') ==> r@ == input@,
{
    let cs = chars_of(input);
    let d = percent_decode_chars(cs.as_slice());
    proof {
        if !crate::text::has_char(input@, '%') {
            lemma_encode_without_percent(input@);
            lemma_pct_decode_identity(encode_utf8(input@));
            vstd::utf8::encode_utf8_valid_utf8(input@);
            vstd::utf8::encode_utf8_decode_utf8(input@);
        }
    }
    string_of(d.as_slice())
}

// ---------------------------------------------------------------------------
// Labels and quoting
// ---------------------------------------------------------------------------

/// `text` when it has at most `max` characters; otherwise its first
/// `max - 1` characters followed by an ellipsis, `max` characters in all
/// (nothing at all when `max` is 0).
pub open spec fn truncated(text: Seq<char>, max: nat) -> Seq<char> {
    if text.len() <= max {
        text
    } else if max == 0 {
        Seq::empty()
    } else {
        text.take(max - 1).push('\u{2026}')
    }
}

/// Truncate a label to max characters, appending ellipsis if needed.
pub fn truncate_label(text: &str, max: usize) -> (r: String)
    ensures
        r@ == truncated(text@, max as nat),
        r@.len() <= max,
{
    let cs = chars_of(text);
    if cs.len() <= max {
        string_of(cs.as_slice())
    } else if max == 0 {
        String::new()
    } else {
        let keep = max - 1;
        let mut v = sub_vec(cs.as_slice(), 0, keep);
        v.push('\u{2026}');
        string_of(v.as_slice())
    }
}

/// Every single quote becomes `'\''`.
pub open spec fn escape_quotes(s: Seq<char>) -> Seq<char>
    decreases s.len(),
{
    if s.len() == 0 {
        seq![]
    } else {
        (if s[0] == '\'' { seq!['\'', '\\', '\'', '\''] } else { seq![s[0]] }) + escape_quotes(
            s.drop_first(),
        )
    }
}

/// Minimal shell escaping: wraps a string in single quotes and escapes any
/// embedded single quotes, so the result is one literal word for `sh -c`.
pub fn shell_escape(s: &str) -> (r: String)
    ensures
        r@ == seq!['\''] + escape_quotes(s@) + seq!['\''],
{
    let cs = chars_of(s);
    let n = cs.len();
    let mut out: Vec<char> = Vec::new();
    out.push('\'');
    let mut i: usize = 0;
    assert(cs@.skip(0) =~= cs@);
    while i < n
        invariant
            n == cs@.len(),
            i <= n,
            out@ + escape_quotes(cs@.skip(i as int)) == seq!['\''] + escape_quotes(cs@),
        decreases n - i,
    {
        let ghost rest = cs@.skip(i as int);
        let ghost before = out@;
        assert(rest.drop_first() =~= cs@.skip(i + 1));
        if cs[i] == '\'' {
            out.push('\'');
            out.push('\\');
            out.push('\'');
            out.push('\'');
        } else {
            out.push(cs[i]);
        }
        assert(before + escape_quotes(rest) =~= out@ + escape_quotes(cs@.skip(i + 1)));
        i = i + 1;
    }
    out.push('\'');
    assert(cs@.skip(i as int) =~= seq![]);
    string_of(out.as_slice())
}

// ---------------------------------------------------------------------------
// text/uri-list
// ---------------------------------------------------------------------------

/// Removes `p` from the front of `s` as many times as it occurs there
/// (std `str::trim_start_matches`).
pub open spec fn strip_all_prefix(s: Seq<char>, p: Seq<char>) -> Seq<char>
    decreases s.len(),
{
    if p.len() > 0 && has_prefix(s, p) {
        strip_all_prefix(s.skip(p.len() as int), p)
    } else {
        s
    }
}

pub fn strip_all_prefix_chars(s: &[char], p: &[char]) -> (r: Vec<char>)
    ensures
        r@ == strip_all_prefix(s@, p@),
{
    let n = s.len();
    let mut i: usize = 0;
    assert(s@.skip(0) =~= s@);
    if p.len() == 0 {
        return sub_vec(s, 0, n);
    }
    while i < n && prefix_at(s, p, i)
        invariant
            n == s@.len(),
            i <= n,
            p@.len() > 0,
            strip_all_prefix(s@, p@) == strip_all_prefix(s@.skip(i as int), p@),
        decreases n - i,
    {
        assert(s@.skip(i as int).skip(p@.len() as int) =~= s@.skip(i + p@.len()));
        i = i + p.len();
    }
    let r = sub_vec(s, i, n);
    assert(r@ =~= s@.skip(i as int));
    r
}

pub open spec fn file_scheme() -> Seq<char> {
    seq!['f', 'i', 'l', 'e', ':', '/', '/']
}

/// The trimmed lines that start with `file://`.
pub open spec fn file_uri_lines(ls: Seq<Seq<char>>) -> Seq<Seq<char>>
    decreases ls.len(),
{
    if ls.len() == 0 {
        seq![]
    } else {
        let rest = file_uri_lines(ls.drop_last());
        let t = trim(ls.last());
        if has_prefix(t, file_scheme()) { rest.push(t) } else { rest }
    }
}

/// The path a `file://` line names.
pub open spec fn uri_path(l: Seq<char>) -> Seq<char> {
    percent_decoded(strip_all_prefix(l, file_scheme()))
}

pub open spec fn uri_paths(ls: Seq<Seq<char>>) -> Seq<Seq<char>> {
    ls.map_values(|l: Seq<char>| uri_path(l))
}

/// The local paths a `text/uri-list` payload names: each `file://` line,
/// trimmed, with the scheme removed and percent-encoding decoded.
pub open spec fn uri_list_paths(data: Seq<u8>) -> Seq<Seq<char>> {
    uri_paths(file_uri_lines(lines(utf8_lossy(data))))
}

/// Parse a `text/uri-list` DnD payload into local file paths, decoding
/// percent-encoding and keeping only `file://` entries. These are the
/// candidates; `existing_paths` keeps those the caller found on disk.
pub fn parse_uri_list(data: &[u8]) -> (r: Vec<String>)
    ensures
        string_views(r@) == uri_list_paths(data@),
{
    let payload = from_utf8_lossy(data);
    let ls = split_lines(payload.as_slice());
    let scheme = chars_of("file://");
    proof {
        reveal_strlit("file://");
    }
    assert(scheme@ =~= file_scheme());
    let ghost all = views(ls@);
    let mut out: Vec<String> = Vec::new();
    let mut i: usize = 0;
    assert(all.take(0) =~= seq![]);
    assert(string_views(out@) =~= seq![]);
    while i < ls.len()
        invariant
            i <= ls@.len(),
            all == views(ls@),
            all == lines(utf8_lossy(data@)),
            scheme@ == file_scheme(),
            string_views(out@) == uri_paths(file_uri_lines(all.take(i as int))),
        decreases ls@.len() - i,
    {
        let t = trim_chars(ls[i].as_slice());
        assert(all.take(i + 1).drop_last() =~= all.take(i as int));
        assert(all.take(i + 1).last() == ls@[i as int]@);
        if starts_with(t.as_slice(), scheme.as_slice()) {
            let raw = strip_all_prefix_chars(t.as_slice(), scheme.as_slice());
            let decoded = percent_decode_chars(raw.as_slice());
            let ghost before = out@;
            let item = string_of(decoded.as_slice());
            assert(file_uri_lines(all.take(i + 1)) == file_uri_lines(all.take(i as int)).push(t@));
            assert(item@ == uri_path(t@));
            out.push(item);
            assert(out@ == before.push(item));
            let ghost prev = file_uri_lines(all.take(i as int));
            assert(string_views(before).len() == before.len());
            assert(uri_paths(prev).len() == prev.len());
            assert(before.len() == prev.len());
            assert forall|k: int| 0 <= k < out@.len() implies #[trigger] string_views(out@)[k]
                == uri_paths(prev.push(t@))[k] by {
                assert(string_views(out@)[k] == out@[k]@);
                assert(uri_paths(prev.push(t@))[k] == uri_path(prev.push(t@)[k]));
                if k < before.len() {
                    assert(out@[k] == before[k]);
                    assert(string_views(before)[k] == before[k]@);
                    assert(string_views(before)[k] == uri_paths(prev)[k]);
                    assert(uri_paths(prev)[k] == uri_path(prev[k]));
                } else {
                    assert(out@[k] == item);
                }
            }
            assert(string_views(out@) =~= uri_paths(file_uri_lines(all.take(i + 1))));
        } else {
            assert(file_uri_lines(all.take(i + 1)) == file_uri_lines(all.take(i as int)));
        }
        i = i + 1;
    }
    assert(all.take(ls@.len() as int) =~= all);
    out
}

/// The paths, in order, whose existence answer is yes: `exists[k]` answers
/// for `paths[k]`, and a path without an answer is dropped.
pub open spec fn kept_existing(paths: Seq<Seq<char>>, exists: Seq<bool>) -> Seq<Seq<char>>
    decreases paths.len(),
{
    if paths.len() == 0 {
        seq![]
    } else {
        let rest = kept_existing(paths.drop_last(), exists);
        let k = paths.len() - 1;
        if k < exists.len() && exists[k] {
            rest.push(paths.last())
        } else {
            rest
        }
    }
}

/// Keep the paths that exist on disk, given the caller's answer for each.
pub fn existing_paths(paths: Vec<String>, exists: &[bool]) -> (r: Vec<String>)
    ensures
        string_views(r@) == kept_existing(string_views(paths@), exists@),
{
    let ghost all = string_views(paths@);
    let mut out: Vec<String> = Vec::new();
    let mut i: usize = 0;
    assert(all.take(0) =~= seq![]);
    assert(string_views(out@) =~= seq![]);
    while i < paths.len()
        invariant
            all == string_views(paths@),
            i <= paths@.len(),
            string_views(out@) == kept_existing(all.take(i as int), exists@),
        decreases paths@.len() - i,
    {
        let ghost t = all.take(i + 1);
        assert(t.drop_last() =~= all.take(i as int));
        assert(t.last() == paths@[i as int]@);
        if i < exists.len() && exists[i] {
            let ghost before = out@;
            out.push(paths[i].clone());
            assert(string_views(out@) =~= string_views(before).push(paths@[i as int]@));
        }
        i = i + 1;
    }
    assert(all.take(paths@.len() as int) =~= all);
    out
}

} // verus!

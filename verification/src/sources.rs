//! Text rules of the app sources: which desktop entries to skip, fields of
//! desktop entries and Steam manifests, JetBrains product names, and the
//! numbers read from `/proc/meminfo` and `dmidecode`.

use vstd::prelude::*;

use crate::text::{chars_eq_str, chars_of, contains_str, find_chars, find_spec, from_utf8_lossy, has_char, has_prefix, has_substring, lines, lower_text, parse_unsigned, parse_unsigned_chars, split_lines, split_whitespace, starts_with, starts_with_str, string_of, sub_vec, to_lowercase, trim, trim_chars, trim_start, utf8_lossy, views, words};

verus! {

// ---------------------------------------------------------------------------
// Desktop entries
// ---------------------------------------------------------------------------

/// Background services, handlers and other non-launchable commands.
pub open spec fn exec_skipped(lower_exec: Seq<char>) -> bool {
    ||| has_substring(lower_exec, "handler"@)
    ||| has_substring(lower_exec, "oauth"@)
    ||| has_substring(lower_exec, "daemon"@)
    ||| has_substring(lower_exec, "service"@)
    ||| has_substring(lower_exec, "portal"@)
    ||| has_substring(lower_exec, "agent"@)
    ||| has_substring(lower_exec, "polkit"@)
    ||| has_substring(lower_exec, "pkexec"@)
    ||| has_substring(lower_exec, "gksu"@)
    ||| has_substring(lower_exec, "kdesu"@)
}

/// Settings panels and system components.
pub open spec fn name_skipped(lower_name: Seq<char>) -> bool {
    ||| has_substring(lower_name, "settings panel"@)
    ||| has_substring(lower_name, "control center module"@)
    ||| has_substring(lower_name, "system settings module"@)
}

pub open spec fn skip_entry_spec(exec: Seq<char>, name: Seq<char>) -> bool {
    exec_skipped(lower_text(exec)) || name_skipped(lower_text(name))
}

/// Words in an Exec line (any letter case) that mark a background
/// service, handler or privilege helper rather than an app.
pub open spec fn exec_skip_words() -> Seq<Seq<char>> {
    seq!["handler"@, "oauth"@, "daemon"@, "service"@, "portal"@, "agent"@, "polkit"@, "pkexec"@, "gksu"@, "kdesu"@]
}

/// Words in a name (any letter case) that mark a settings panel or system
/// component.
pub open spec fn name_skip_words() -> Seq<Seq<char>> {
    seq!["settings panel"@, "control center module"@, "system settings module"@]
}

/// An entry is skipped exactly when its Exec line names one of the
/// service words or its name one of the panel words, in any letter case.
pub proof fn law_skip_words(exec: Seq<char>, name: Seq<char>)
    ensures
        skip_entry_spec(exec, name) <==> (
            (exists|k: int| 0 <= k < exec_skip_words().len() && has_substring(lower_text(exec), #[trigger] exec_skip_words()[k]))
            || (exists|k: int| 0 <= k < name_skip_words().len() && has_substring(lower_text(name), #[trigger] name_skip_words()[k]))),
{
    let e = lower_text(exec);
    let n = lower_text(name);
    if exec_skipped(e) {
        if has_substring(e, "handler"@) {
            assert(exec_skip_words()[0] == "handler"@);
        }
        if has_substring(e, "oauth"@) {
            assert(exec_skip_words()[1] == "oauth"@);
        }
        if has_substring(e, "daemon"@) {
            assert(exec_skip_words()[2] == "daemon"@);
        }
        if has_substring(e, "service"@) {
            assert(exec_skip_words()[3] == "service"@);
        }
        if has_substring(e, "portal"@) {
            assert(exec_skip_words()[4] == "portal"@);
        }
        if has_substring(e, "agent"@) {
            assert(exec_skip_words()[5] == "agent"@);
        }
        if has_substring(e, "polkit"@) {
            assert(exec_skip_words()[6] == "polkit"@);
        }
        if has_substring(e, "pkexec"@) {
            assert(exec_skip_words()[7] == "pkexec"@);
        }
        if has_substring(e, "gksu"@) {
            assert(exec_skip_words()[8] == "gksu"@);
        }
        if has_substring(e, "kdesu"@) {
            assert(exec_skip_words()[9] == "kdesu"@);
        }
    }
    if name_skipped(n) {
        if has_substring(n, "settings panel"@) {
            assert(name_skip_words()[0] == "settings panel"@);
        }
        if has_substring(n, "control center module"@) {
            assert(name_skip_words()[1] == "control center module"@);
        }
        if has_substring(n, "system settings module"@) {
            assert(name_skip_words()[2] == "system settings module"@);
        }
    }
    if exists|k: int| 0 <= k < exec_skip_words().len() && has_substring(e, #[trigger] exec_skip_words()[k]) {
        let k = choose|k: int| 0 <= k < exec_skip_words().len() && has_substring(e, #[trigger] exec_skip_words()[k]);
        if k == 0 {
            assert(exec_skip_words()[0] == "handler"@);
        }
        if k == 1 {
            assert(exec_skip_words()[1] == "oauth"@);
        }
        if k == 2 {
            assert(exec_skip_words()[2] == "daemon"@);
        }
        if k == 3 {
            assert(exec_skip_words()[3] == "service"@);
        }
        if k == 4 {
            assert(exec_skip_words()[4] == "portal"@);
        }
        if k == 5 {
            assert(exec_skip_words()[5] == "agent"@);
        }
        if k == 6 {
            assert(exec_skip_words()[6] == "polkit"@);
        }
        if k == 7 {
            assert(exec_skip_words()[7] == "pkexec"@);
        }
        if k == 8 {
            assert(exec_skip_words()[8] == "gksu"@);
        }
        if k == 9 {
            assert(exec_skip_words()[9] == "kdesu"@);
        }
    }
    if exists|k: int| 0 <= k < name_skip_words().len() && has_substring(n, #[trigger] name_skip_words()[k]) {
        let k = choose|k: int| 0 <= k < name_skip_words().len() && has_substring(n, #[trigger] name_skip_words()[k]);
        if k == 0 {
            assert(name_skip_words()[0] == "settings panel"@);
        }
        if k == 1 {
            assert(name_skip_words()[1] == "control center module"@);
        }
        if k == 2 {
            assert(name_skip_words()[2] == "system settings module"@);
        }
    }
}

pub fn should_skip_entry(exec: &str, name: &str) -> (b: bool)
    ensures
        b == skip_entry_spec(exec@, name@),
{
    let ec = chars_of(exec);
    let e = to_lowercase(ec.as_slice());
    let nc = chars_of(name);
    let n = to_lowercase(nc.as_slice());
    let es = e.as_slice();
    let ns = n.as_slice();
    let exec_hit = contains_str(es, "handler") || contains_str(es, "oauth") || contains_str(
        es,
        "daemon",
    ) || contains_str(es, "service") || contains_str(es, "portal") || contains_str(es, "agent")
        || contains_str(es, "polkit") || contains_str(es, "pkexec") || contains_str(es, "gksu")
        || contains_str(es, "kdesu");
    let name_hit = contains_str(ns, "settings panel") || contains_str(ns, "control center module")
        || contains_str(ns, "system settings module");
    exec_hit || name_hit
}

/// The value of the first line that starts with `prefix`, trimmed.
pub open spec fn prefixed_value(ls: Seq<Seq<char>>, prefix: Seq<char>) -> Option<Seq<char>>
    decreases ls.len(),
{
    if ls.len() == 0 {
        None
    } else if has_prefix(ls[0], prefix) {
        Some(trim(ls[0].skip(prefix.len() as int)))
    } else {
        prefixed_value(ls.drop_first(), prefix)
    }
}

/// `field=value` in a desktop entry: the value of the first such line.
pub open spec fn desktop_field_spec(contents: Seq<char>, field: Seq<char>) -> Option<Seq<char>> {
    prefixed_value(lines(contents), field.push('='))
}

pub fn extract_desktop_field(contents: &str, field: &str) -> (r: Option<String>)
    ensures
        crate::paths::opt_view(r) == desktop_field_spec(contents@, field@),
{
    let mut prefix = chars_of(field);
    prefix.push('=');
    let cs = chars_of(contents);
    let ls = split_lines(cs.as_slice());
    let ghost all = views(ls@);
    let mut i: usize = 0;
    assert(all.skip(0) =~= all);
    while i < ls.len()
        invariant
            i <= ls@.len(),
            all == views(ls@),
            all == lines(contents@),
            prefix@ == field@.push('='),
            prefixed_value(all, prefix@) == prefixed_value(all.skip(i as int), prefix@),
        decreases ls@.len() - i,
    {
        let l = &ls[i];
        assert(all.skip(i as int)[0] == l@);
        assert(all.skip(i as int).drop_first() =~= all.skip(i + 1));
        if starts_with(l.as_slice(), prefix.as_slice()) {
            let rest = sub_vec(l.as_slice(), prefix.len(), l.len());
            assert(rest@ == l@.skip(prefix@.len() as int));
            let t = trim_chars(rest.as_slice());
            return Some(string_of(t.as_slice()));
        }
        i = i + 1;
    }
    assert(all.skip(i as int) =~= seq![]);
    None
}

// ---------------------------------------------------------------------------
// JetBrains
// ---------------------------------------------------------------------------

/// The product name for a JetBrains launcher name, matched in lowercase;
/// other names are kept as they are.
pub open spec fn product_name(raw: Seq<char>) -> Seq<char> {
    let l = lower_text(raw);
    if l == "idea"@ {
        "IntelliJ IDEA"@
    } else if l == "pycharm"@ {
        "PyCharm"@
    } else if l == "webstorm"@ {
        "WebStorm"@
    } else if l == "clion"@ {
        "CLion"@
    } else if l == "goland"@ {
        "GoLand"@
    } else if l == "rider"@ {
        "Rider"@
    } else if l == "datagrip"@ {
        "DataGrip"@
    } else if l == "rubymine"@ {
        "RubyMine"@
    } else if l == "phpstorm"@ {
        "PhpStorm"@
    } else if l == "rustrover"@ {
        "RustRover"@
    } else if l == "fleet"@ {
        "Fleet"@
    } else {
        raw
    }
}

/// "idea" -> "IntelliJ IDEA", "pycharm" -> "PyCharm", etc.
pub fn format_name(raw: &str) -> (r: String)
    ensures
        r@ == product_name(raw@),
{
    let rc = chars_of(raw);
    let l = to_lowercase(rc.as_slice());
    let ls = l.as_slice();
    if chars_eq_str(ls, "idea") {
        "IntelliJ IDEA".to_owned()
    } else if chars_eq_str(ls, "pycharm") {
        "PyCharm".to_owned()
    } else if chars_eq_str(ls, "webstorm") {
        "WebStorm".to_owned()
    } else if chars_eq_str(ls, "clion") {
        "CLion".to_owned()
    } else if chars_eq_str(ls, "goland") {
        "GoLand".to_owned()
    } else if chars_eq_str(ls, "rider") {
        "Rider".to_owned()
    } else if chars_eq_str(ls, "datagrip") {
        "DataGrip".to_owned()
    } else if chars_eq_str(ls, "rubymine") {
        "RubyMine".to_owned()
    } else if chars_eq_str(ls, "phpstorm") {
        "PhpStorm".to_owned()
    } else if chars_eq_str(ls, "rustrover") {
        "RustRover".to_owned()
    } else if chars_eq_str(ls, "fleet") {
        "Fleet".to_owned()
    } else {
        raw.to_owned()
    }
}

// ---------------------------------------------------------------------------
// Steam manifests
// ---------------------------------------------------------------------------

/// The quoted value after `key` on a trimmed manifest line, if the line
/// starts with the key and a quoted value follows.
pub open spec fn quoted_after(t: Seq<char>, key: Seq<char>) -> Option<Seq<char>> {
    if has_prefix(t, key) {
        let after = trim_start(t.skip(key.len() as int));
        if after.len() > 0 && after[0] == '"' && has_char(after.skip(1), '"') {
            Some(after.skip(1).take(find_spec(after.skip(1), seq!['"'])))
        } else {
            None
        }
    } else {
        None
    }
}

/// The first line, trimmed, that carries a quoted value for `key`.
pub open spec fn manifest_value(ls: Seq<Seq<char>>, key: Seq<char>) -> Option<Seq<char>>
    decreases ls.len(),
{
    if ls.len() == 0 {
        None
    } else {
        match quoted_after(trim(ls[0]), key) {
            Some(v) => Some(v),
            None => manifest_value(ls.drop_first(), key),
        }
    }
}

/// `"field"  "value"` in a Steam .acf manifest.
pub open spec fn steam_field_spec(contents: Seq<char>, field: Seq<char>) -> Option<Seq<char>> {
    manifest_value(lines(contents), seq!['"'] + field + seq!['"'])
}

fn quoted_after_exec(t: &[char], key: &[char]) -> (r: Option<String>)
    ensures
        crate::paths::opt_view(r) == quoted_after(t@, key@),
{
    if !starts_with(t, key) {
        return None;
    }
    let rest = sub_vec(t, key.len(), t.len());
    assert(rest@ == t@.skip(key@.len() as int));
    let after = crate::text::trim_start_chars(rest.as_slice());
    if after.len() == 0 || after[0] != '"' {
        return None;
    }
    let inner = sub_vec(after.as_slice(), 1, after.len());
    assert(inner@ == after@.skip(1));
    let quote = vec!['"'];
    assert(quote@ == seq!['"']);
    match find_chars(inner.as_slice(), quote.as_slice()) {
        Some(end) => {
            proof {
                crate::text::lemma_find_spec_bounds(inner@, quote@);
                assert(inner@.subrange(end as int, end + 1) == seq!['"']);
                assert(inner@[end as int] == '"');
            }
            let v = sub_vec(inner.as_slice(), 0, end);
            assert(v@ =~= inner@.take(end as int));
            Some(string_of(v.as_slice()))
        },
        None => {
            proof {
                if has_char(inner@, '"') {
                    let k = choose|k: int| 0 <= k < inner@.len() && inner@[k] == '"';
                    assert(inner@.subrange(k, k + 1) =~= seq!['"']);
                    assert(crate::text::occurs_at(inner@, quote@, k));
                }
            }
            None
        },
    }
}

/// Extracts a quoted string value from a Steam .acf manifest field.
///
/// Example line: `"name"  "Portal 2"`  → returns `Some("Portal 2")`
pub fn extract_field(contents: &str, field: &str) -> (r: Option<String>)
    ensures
        crate::paths::opt_view(r) == steam_field_spec(contents@, field@),
{
    let mut key: Vec<char> = Vec::new();
    key.push('"');
    let fc = chars_of(field);
    crate::text::append_chars(&mut key, fc.as_slice());
    key.push('"');
    assert(key@ =~= seq!['"'] + field@ + seq!['"']);
    let cs = chars_of(contents);
    let ls = split_lines(cs.as_slice());
    let ghost all = views(ls@);
    let mut i: usize = 0;
    assert(all.skip(0) =~= all);
    while i < ls.len()
        invariant
            i <= ls@.len(),
            all == views(ls@),
            all == lines(contents@),
            key@ == seq!['"'] + field@ + seq!['"'],
            manifest_value(all, key@) == manifest_value(all.skip(i as int), key@),
        decreases ls@.len() - i,
    {
        assert(all.skip(i as int)[0] == ls@[i as int]@);
        assert(all.skip(i as int).drop_first() =~= all.skip(i + 1));
        let t = trim_chars(ls[i].as_slice());
        match quoted_after_exec(t.as_slice(), key.as_slice()) {
            Some(v) => {
                return Some(v);
            },
            None => {},
        }
        i = i + 1;
    }
    assert(all.skip(i as int) =~= seq![]);
    None
}

// ---------------------------------------------------------------------------
// /proc/meminfo
// ---------------------------------------------------------------------------

/// The second word of a meminfo line, as a `u64`.
pub open spec fn kb_spec(line: Seq<char>) -> Option<nat> {
    if words(line).len() > 1 {
        parse_unsigned(words(line)[1], u64::MAX as nat)
    } else {
        None
    }
}

/// `MemTotal:  16318480 kB` → 16318480.
pub fn parse_kb(line: &str) -> (r: Option<u64>)
    ensures
        match r {
            Some(v) => kb_spec(line@) == Some(v as nat),
            None => kb_spec(line@) is None,
        },
{
    let cs = chars_of(line);
    let ws = split_whitespace(cs.as_slice());
    assert(views(ws@) == words(line@));
    if ws.len() > 1 {
        assert(ws@[1]@ == words(line@)[1]);
        parse_unsigned_chars(ws[1].as_slice(), u64::MAX)
    } else {
        None
    }
}

// ---------------------------------------------------------------------------
// dmidecode
// ---------------------------------------------------------------------------

/// The MHz figure of a `Key: 3200 MT/s` line: the first word after the
/// first colon, as a `u32` strictly between 0 and 20000.
pub open spec fn mhz_spec(line: Seq<char>) -> Option<nat> {
    if has_char(line, ':') {
        let after = trim(line.skip(find_spec(line, seq![':']) + 1));
        if words(after).len() > 0 {
            match parse_unsigned(words(after)[0], u32::MAX as nat) {
                Some(n) => if 0 < n && n < 20000 {
                    Some(n)
                } else {
                    None
                },
                None => None,
            }
        } else {
            None
        }
    } else {
        None
    }
}

pub fn extract_mhz(line: &str) -> (r: Option<u32>)
    ensures
        match r {
            Some(v) => mhz_spec(line@) == Some(v as nat),
            None => mhz_spec(line@) is None,
        },
{
    let cs = chars_of(line);
    let colon = vec![':'];
    assert(colon@ == seq![':']);
    let idx = match find_chars(cs.as_slice(), colon.as_slice()) {
        Some(i) => i,
        None => {
            proof {
                if has_char(line@, ':') {
                    let k = choose|k: int| 0 <= k < line@.len() && line@[k] == ':';
                    assert(line@.subrange(k, k + 1) =~= seq![':']);
                    assert(crate::text::occurs_at(line@, colon@, k));
                }
            }
            return None;
        },
    };
    proof {
        crate::text::lemma_find_spec_bounds(cs@, colon@);
        assert(has_substring(cs@, colon@));
        assert(crate::text::occurs_at(cs@, colon@, idx as int));
        assert(colon@.len() == 1);
        assert(idx + 1 <= cs@.len());
        assert(cs@.subrange(idx as int, idx + 1) == seq![':']);
        assert(cs@[idx as int] == ':');
    }
    let n = cs.len();
    assert(idx < n);
    let rest = sub_vec(cs.as_slice(), idx + 1, n);
    assert(rest@ == line@.skip(idx + 1));
    let after = trim_chars(rest.as_slice());
    let ws = split_whitespace(after.as_slice());
    assert(views(ws@) == words(after@));
    if ws.len() == 0 {
        return None;
    }
    assert(ws@[0]@ == words(after@)[0]);
    match parse_unsigned_chars(ws[0].as_slice(), 0xffff_ffff) {
        Some(n) => {
            if 0 < n && n < 20000 {
                Some(n as u32)
            } else {
                None
            }
        },
        None => None,
    }
}

pub open spec fn is_configured_line(t: Seq<char>) -> bool {
    has_prefix(t, "Configured Memory Speed:"@)
}

pub open spec fn is_speed_line(t: Seq<char>) -> bool {
    has_prefix(t, "Speed:"@) && !has_substring(t, "Unknown"@)
}

pub open spec fn max_with(acc: Option<nat>, m: nat) -> Option<nat> {
    match acc {
        Some(a) => if a >= m {
            Some(a)
        } else {
            Some(m)
        },
        None => Some(m),
    }
}

/// The largest configured speed and the largest plain speed over the lines.
pub open spec fn dmi_scan(ls: Seq<Seq<char>>) -> (Option<nat>, Option<nat>)
    decreases ls.len(),
{
    if ls.len() == 0 {
        (None, None)
    } else {
        let (c, s) = dmi_scan(ls.drop_last());
        let t = trim(ls.last());
        let c2 = if is_configured_line(t) && mhz_spec(t) is Some {
            max_with(c, mhz_spec(t)->0)
        } else {
            c
        };
        let s2 = if is_speed_line(t) && mhz_spec(t) is Some {
            max_with(s, mhz_spec(t)->0)
        } else {
            s
        };
        (c2, s2)
    }
}

/// The RAM speed in the text of `dmidecode -t 17` output: the highest
/// "Configured Memory Speed" (XMP/OC), else the highest known "Speed".
pub open spec fn dmi_text_speed(text: Seq<char>) -> Option<nat> {
    let (c, s) = dmi_scan(lines(text));
    if c is Some {
        c
    } else {
        s
    }
}

/// The RAM speed in `dmidecode -t 17` output bytes, read as UTF-8 with
/// invalid sequences replaced.
pub open spec fn dmi_speed_spec(stdout: Seq<u8>) -> Option<nat> {
    dmi_text_speed(utf8_lossy(stdout))
}

fn max_opt(acc: Option<u32>, m: u32) -> (r: Option<u32>)
    ensures
        match r {
            Some(v) => max_with(
                match acc {
                    Some(a) => Some(a as nat),
                    None => None,
                },
                m as nat,
            ) == Some(v as nat),
            None => false,
        },
{
    match acc {
        Some(a) => if a >= m {
            Some(a)
        } else {
            Some(m)
        },
        None => Some(m),
    }
}

pub open spec fn nat_opt(o: Option<u32>) -> Option<nat> {
    match o {
        Some(v) => Some(v as nat),
        None => None,
    }
}

pub fn parse_dmidecode_speed(stdout: &[u8]) -> (r: Option<u32>)
    ensures
        nat_opt(r) == dmi_speed_spec(stdout@),
        vstd::utf8::valid_utf8(stdout@) ==> nat_opt(r) == dmi_text_speed(vstd::utf8::decode_utf8(stdout@)),
{
    let text = from_utf8_lossy(stdout);
    let ls = split_lines(text.as_slice());
    let ghost all = views(ls@);
    let mut configured: Option<u32> = None;
    let mut speed: Option<u32> = None;
    let mut i: usize = 0;
    assert(all.take(0) =~= seq![]);
    while i < ls.len()
        invariant
            i <= ls@.len(),
            all == views(ls@),
            all == lines(utf8_lossy(stdout@)),
            vstd::utf8::valid_utf8(stdout@) ==> utf8_lossy(stdout@) == vstd::utf8::decode_utf8(stdout@),
            (nat_opt(configured), nat_opt(speed)) == dmi_scan(all.take(i as int)),
        decreases ls@.len() - i,
    {
        assert(all.take(i + 1).drop_last() =~= all.take(i as int));
        assert(all.take(i + 1).last() == ls@[i as int]@);
        let t = trim_chars(ls[i].as_slice());
        let ts = string_of(t.as_slice());
        if starts_with_str(t.as_slice(), "Configured Memory Speed:") {
            match extract_mhz(ts.as_str()) {
                Some(m) => {
                    configured = max_opt(configured, m);
                },
                None => {},
            }
        }
        if starts_with_str(t.as_slice(), "Speed:") && !contains_str(t.as_slice(), "Unknown") {
            match extract_mhz(ts.as_str()) {
                Some(m) => {
                    speed = max_opt(speed, m);
                },
                None => {},
            }
        }
        i = i + 1;
    }
    assert(all.take(i as int) =~= all);
    match configured {
        Some(c) => Some(c),
        None => speed,
    }
}

} // verus!

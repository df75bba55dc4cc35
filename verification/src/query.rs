//! Smart search queries ("files", "today", "last 5", ...) and result scoring.

use vstd::prelude::*;

use crate::catalog::{AppEntry, AppSource};
use crate::text::{short_tag, nat_decimal, is_ascii_digit, chars_eq_str, chars_of, contains, contains_str, has_prefix, has_substring, lower_text, parse_unsigned, parse_unsigned_chars, split_whitespace, starts_with, to_lowercase, trim, trim_str, views, words};

verus! {

pub const DAY: u64 = 86400;

/// Seconds since the UNIX epoch, read from the system clock (std
/// `SystemTime::now`). Nothing is promised of the value.
#[verifier::external_body]
fn now_secs() -> u64 {
    std::time::SystemTime::now().duration_since(std::time::UNIX_EPOCH).unwrap_or_default().as_secs()
}

// ---------------------------------------------------------------------------
// Counts in queries ("last 5", "last ten")
// ---------------------------------------------------------------------------

pub open spec fn number_word(w: Seq<char>) -> Option<usize> {
    if w == "one"@ {
        Some(1)
    } else if w == "two"@ {
        Some(2)
    } else if w == "three"@ {
        Some(3)
    } else if w == "four"@ {
        Some(4)
    } else if w == "five"@ {
        Some(5)
    } else if w == "six"@ {
        Some(6)
    } else if w == "seven"@ {
        Some(7)
    } else if w == "eight"@ {
        Some(8)
    } else if w == "nine"@ {
        Some(9)
    } else if w == "ten"@ {
        Some(10)
    } else if w == "fifteen"@ {
        Some(15)
    } else if w == "twenty"@ {
        Some(20)
    } else if w == "thirty"@ {
        Some(30)
    } else if w == "fifty"@ {
        Some(50)
    } else if w == "hundred"@ {
        Some(100)
    } else {
        None
    }
}

/// A word read as a count: a decimal number, else a number word.
pub open spec fn word_count(w: Seq<char>) -> Option<usize> {
    match parse_unsigned(w, usize::MAX as nat) {
        Some(n) => Some(n as usize),
        None => number_word(w),
    }
}

pub open spec fn first_count(ws: Seq<Seq<char>>, default: usize) -> usize
    decreases ws.len(),
{
    if ws.len() == 0 {
        default
    } else {
        match word_count(ws[0]) {
            Some(n) => n,
            None => first_count(ws.drop_first(), default),
        }
    }
}

/// The first word of the query that reads as a count, else `default`.
pub open spec fn count_in(query: Seq<char>, default: usize) -> usize {
    first_count(words(query), default)
}

/// The count words a query may use, and what each counts.
pub open spec fn count_words() -> Seq<(Seq<char>, nat)> {
    seq![
        ("one"@, 1),
        ("two"@, 2),
        ("three"@, 3),
        ("four"@, 4),
        ("five"@, 5),
        ("six"@, 6),
        ("seven"@, 7),
        ("eight"@, 8),
        ("nine"@, 9),
        ("ten"@, 10),
        ("fifteen"@, 15),
        ("twenty"@, 20),
        ("thirty"@, 30),
        ("fifty"@, 50),
        ("hundred"@, 100),
    ]
}

/// Each count word counts its value, exactly as the same number written
/// in digits does, so `last five` and `last 5` ask for as many entries;
/// as the first count word of a query it sets the count.
pub proof fn law_number_words_count(k: int, ws: Seq<Seq<char>>, default: usize)
    requires
        0 <= k < count_words().len(),
    ensures
        word_count(count_words()[k].0) == Some(count_words()[k].1 as usize),
        word_count(count_words()[k].0) == word_count(nat_decimal(count_words()[k].1)),
        ws.len() > 0 && ws[0] == count_words()[k].0 ==> first_count(ws, default) == count_words()[k].1,
{
    reveal_strlit("one");
    reveal_strlit("two");
    reveal_strlit("three");
    reveal_strlit("four");
    reveal_strlit("five");
    reveal_strlit("six");
    reveal_strlit("seven");
    reveal_strlit("eight");
    reveal_strlit("nine");
    reveal_strlit("ten");
    reveal_strlit("fifteen");
    reveal_strlit("twenty");
    reveal_strlit("thirty");
    reveal_strlit("fifty");
    reveal_strlit("hundred");
    assert(short_tag("one"@) == 7107246852933363);
    assert(short_tag("two"@) == 7810934596699971);
    assert(short_tag("three"@) == 31258000896933085538846508869);
    assert(short_tag("four"@) == 16823438828369904404068);
    assert(short_tag("five"@) == 14904977515072653887076);
    assert(short_tag("six"@) == 8444252824536883);
    assert(short_tag("seven"@) == 34043365985325472632245585717);
    assert(short_tag("eight"@) == 35900276486974345282595063381);
    assert(short_tag("nine"@) == 14904976952122700465892);
    assert(short_tag("ten"@) == 7740565248542531);
    assert(short_tag("fifteen"@) == 149724306997992020929194178997453265569383);
    assert(short_tag("twenty"@) == 78533525885616640299443840614401862);
    assert(short_tag("thirty"@) == 78533525885617230595535673793447750);
    assert(short_tag("fifty"@) == 37447703306968431333591746149);
    assert(short_tag("hundred"@) == 136113012321158505693425689507591492732551);
    let w = count_words()[k].0;
    let n = count_words()[k].1;
    if k == 0 {
        assert(w == "one"@);
        assert(short_tag(w) == 7107246852933363);
        assert(w[0] == 'o');
    }
    if k == 1 {
        assert(w == "two"@);
        assert(short_tag(w) == 7810934596699971);
        assert(w[0] == 't');
    }
    if k == 2 {
        assert(w == "three"@);
        assert(short_tag(w) == 31258000896933085538846508869);
        assert(w[0] == 't');
    }
    if k == 3 {
        assert(w == "four"@);
        assert(short_tag(w) == 16823438828369904404068);
        assert(w[0] == 'f');
    }
    if k == 4 {
        assert(w == "five"@);
        assert(short_tag(w) == 14904977515072653887076);
        assert(w[0] == 'f');
    }
    if k == 5 {
        assert(w == "six"@);
        assert(short_tag(w) == 8444252824536883);
        assert(w[0] == 's');
    }
    if k == 6 {
        assert(w == "seven"@);
        assert(short_tag(w) == 34043365985325472632245585717);
        assert(w[0] == 's');
    }
    if k == 7 {
        assert(w == "eight"@);
        assert(short_tag(w) == 35900276486974345282595063381);
        assert(w[0] == 'e');
    }
    if k == 8 {
        assert(w == "nine"@);
        assert(short_tag(w) == 14904976952122700465892);
        assert(w[0] == 'n');
    }
    if k == 9 {
        assert(w == "ten"@);
        assert(short_tag(w) == 7740565248542531);
        assert(w[0] == 't');
    }
    if k == 10 {
        assert(w == "fifteen"@);
        assert(short_tag(w) == 149724306997992020929194178997453265569383);
        assert(w[0] == 'f');
    }
    if k == 11 {
        assert(w == "twenty"@);
        assert(short_tag(w) == 78533525885616640299443840614401862);
        assert(w[0] == 't');
    }
    if k == 12 {
        assert(w == "thirty"@);
        assert(short_tag(w) == 78533525885617230595535673793447750);
        assert(w[0] == 't');
    }
    if k == 13 {
        assert(w == "fifty"@);
        assert(short_tag(w) == 37447703306968431333591746149);
        assert(w[0] == 'f');
    }
    if k == 14 {
        assert(w == "hundred"@);
        assert(short_tag(w) == 136113012321158505693425689507591492732551);
        assert(w[0] == 'h');
    }
    assert(!is_ascii_digit(w[0]) && w[0] != '+');
    assert(parse_unsigned(w, usize::MAX as nat) is None);
    crate::text::lemma_decimal_parses(n, usize::MAX as nat);
}

fn number_word_exec(w: &[char]) -> (r: Option<usize>)
    ensures
        r == number_word(w@),
{
    if chars_eq_str(w, "one") {
        Some(1)
    } else if chars_eq_str(w, "two") {
        Some(2)
    } else if chars_eq_str(w, "three") {
        Some(3)
    } else if chars_eq_str(w, "four") {
        Some(4)
    } else if chars_eq_str(w, "five") {
        Some(5)
    } else if chars_eq_str(w, "six") {
        Some(6)
    } else if chars_eq_str(w, "seven") {
        Some(7)
    } else if chars_eq_str(w, "eight") {
        Some(8)
    } else if chars_eq_str(w, "nine") {
        Some(9)
    } else if chars_eq_str(w, "ten") {
        Some(10)
    } else if chars_eq_str(w, "fifteen") {
        Some(15)
    } else if chars_eq_str(w, "twenty") {
        Some(20)
    } else if chars_eq_str(w, "thirty") {
        Some(30)
    } else if chars_eq_str(w, "fifty") {
        Some(50)
    } else if chars_eq_str(w, "hundred") {
        Some(100)
    } else {
        None
    }
}

fn count_in_chars(q: &[char], default: usize) -> (n: usize)
    ensures
        n == count_in(q@, default),
{
    let ws = split_whitespace(q);
    let ghost all = views(ws@);
    let mut i: usize = 0;
    assert(all.skip(0) =~= all);
    while i < ws.len()
        invariant
            i <= ws@.len(),
            all == views(ws@),
            all == words(q@),
            first_count(all, default) == first_count(all.skip(i as int), default),
        decreases ws@.len() - i,
    {
        let w = ws[i].as_slice();
        assert(all.skip(i as int)[0] == w@);
        assert(all.skip(i as int).drop_first() =~= all.skip(i + 1));
        match parse_unsigned_chars(w, usize::MAX as u64) {
            Some(v) => {
                return v as usize;
            },
            None => {},
        }
        match number_word_exec(w) {
            Some(v) => {
                return v;
            },
            None => {},
        }
        i = i + 1;
    }
    default
}

/// Parse a number word or digit from a query string.
/// "last 5" → 5, "last ten" → 10, "last" → default
pub fn parse_count(query: &str, default: usize) -> (n: usize)
    ensures
        n == count_in(query@, default),
{
    let cs = chars_of(query);
    count_in_chars(cs.as_slice(), default)
}

// ---------------------------------------------------------------------------
// Filters
// ---------------------------------------------------------------------------

#[derive(Clone, Copy, Debug, PartialEq, Eq, Structural)]
pub enum QueryFilter {
    Files,
    Apps,
    Games,
    Flatpaks,
    AppImages,
    Cli,
    Today,
    Yesterday,
    Week,
    NeverUsed,
}

/// The query key: trimmed, then lowercased.
pub open spec fn query_key(query: Seq<char>) -> Seq<char> {
    lower_text(trim(query))
}

pub open spec fn query_filter(q: Seq<char>) -> Option<QueryFilter> {
    if q == "files"@ || q == "file"@ {
        Some(QueryFilter::Files)
    } else if q == "apps"@ || q == "app"@ {
        Some(QueryFilter::Apps)
    } else if q == "games"@ || q == "game"@ {
        Some(QueryFilter::Games)
    } else if q == "flatpak"@ || q == "flatpaks"@ {
        Some(QueryFilter::Flatpaks)
    } else if q == "appimage"@ || q == "appimages"@ {
        Some(QueryFilter::AppImages)
    } else if q == "cli"@ || q == "terminal"@ || q == "commands"@ {
        Some(QueryFilter::Cli)
    } else if q == "today"@ {
        Some(QueryFilter::Today)
    } else if q == "yesterday"@ {
        Some(QueryFilter::Yesterday)
    } else if q == "this week"@ || q == "week"@ {
        Some(QueryFilter::Week)
    } else if q == "never used"@ || q == "unused"@ {
        Some(QueryFilter::NeverUsed)
    } else {
        None
    }
}

pub open spec fn is_time_filter(f: QueryFilter) -> bool {
    f == QueryFilter::Today || f == QueryFilter::Yesterday || f == QueryFilter::Week
}

/// The filter words of a smart query and the filter each names.
pub open spec fn filter_words() -> Seq<(Seq<char>, QueryFilter)> {
    seq![
        ("files"@, QueryFilter::Files),
        ("file"@, QueryFilter::Files),
        ("apps"@, QueryFilter::Apps),
        ("app"@, QueryFilter::Apps),
        ("games"@, QueryFilter::Games),
        ("game"@, QueryFilter::Games),
        ("flatpak"@, QueryFilter::Flatpaks),
        ("flatpaks"@, QueryFilter::Flatpaks),
        ("appimage"@, QueryFilter::AppImages),
        ("appimages"@, QueryFilter::AppImages),
        ("cli"@, QueryFilter::Cli),
        ("terminal"@, QueryFilter::Cli),
        ("commands"@, QueryFilter::Cli),
        ("today"@, QueryFilter::Today),
        ("yesterday"@, QueryFilter::Yesterday),
        ("this week"@, QueryFilter::Week),
        ("week"@, QueryFilter::Week),
        ("never used"@, QueryFilter::NeverUsed),
        ("unused"@, QueryFilter::NeverUsed),
    ]
}

/// Each filter word, as the whole (trimmed, lowercased) query, names its
/// filter: files, apps, games, Flatpaks, AppImages, commands, launched
/// today, yesterday or this week, or never used.
pub proof fn law_filter_words(k: int)
    requires
        0 <= k < filter_words().len(),
    ensures
        query_filter(filter_words()[k].0) == Some(filter_words()[k].1),
{
    reveal_strlit("files");
    reveal_strlit("file");
    reveal_strlit("apps");
    reveal_strlit("app");
    reveal_strlit("games");
    reveal_strlit("game");
    reveal_strlit("flatpak");
    reveal_strlit("flatpaks");
    reveal_strlit("appimage");
    reveal_strlit("appimages");
    reveal_strlit("cli");
    reveal_strlit("terminal");
    reveal_strlit("commands");
    reveal_strlit("today");
    reveal_strlit("yesterday");
    reveal_strlit("this week");
    reveal_strlit("week");
    reveal_strlit("never used");
    reveal_strlit("unused");
    assert(short_tag("files"@) == 35590791034431494288561931877);
    assert(short_tag("file"@) == 14904976811385212110436);
    assert(short_tag("apps"@) == 16971012429115893483028);
    assert(short_tag("app"@) == 7881303105996307);
    assert(short_tag("games"@) == 35590791034431564657037674101);
    assert(short_tag("game"@) == 14904976881753687852660);
    assert(short_tag("flatpak"@) == 145640915998795734435327903886936234788455);
    assert(short_tag("flatpaks"@) == 328267114963286771439140208301287768304266511976);
    assert(short_tag("appimage"@) == 288304174123002024033564329089931727415940220440);
    assert(short_tag("appimages"@) == 288304174123002024033564329089931727415940220441);
    assert(short_tag("cli"@) == 7388721762534963);
    assert(short_tag("terminal"@) == 308285633654117093747014389187141013840322365256);
    assert(short_tag("commands"@) == 328267105435388935130616074241358122537715762744);
    assert(short_tag("today"@) == 37447700503063191392452872005);
    assert(short_tag("yesterday"@) == 276886188497976975562184987827294033490865031065);
    assert(short_tag("this week"@) == 288304171400757367458587247878408789850178193225);
    assert(short_tag("week"@) == 15790420034341927126900);
    assert(short_tag("never used"@) == 328267128574539260865322119167825134328016275178);
    assert(short_tag("unused"@) == 64903741989688308325264104865400662);
    let q = filter_words()[k].0;
    if k == 0 {
        assert(q == "files"@);
        assert(short_tag(q) == 35590791034431494288561931877);
    }
    if k == 1 {
        assert(q == "file"@);
        assert(short_tag(q) == 14904976811385212110436);
    }
    if k == 2 {
        assert(q == "apps"@);
        assert(short_tag(q) == 16971012429115893483028);
    }
    if k == 3 {
        assert(q == "app"@);
        assert(short_tag(q) == 7881303105996307);
    }
    if k == 4 {
        assert(q == "games"@);
        assert(short_tag(q) == 35590791034431564657037674101);
    }
    if k == 5 {
        assert(q == "game"@);
        assert(short_tag(q) == 14904976881753687852660);
    }
    if k == 6 {
        assert(q == "flatpak"@);
        assert(short_tag(q) == 145640915998795734435327903886936234788455);
    }
    if k == 7 {
        assert(q == "flatpaks"@);
        assert(short_tag(q) == 328267114963286771439140208301287768304266511976);
    }
    if k == 8 {
        assert(q == "appimage"@);
        assert(short_tag(q) == 288304174123002024033564329089931727415940220440);
    }
    if k == 9 {
        assert(q == "appimages"@);
        assert(short_tag(q) == 288304174123002024033564329089931727415940220441);
    }
    if k == 10 {
        assert(q == "cli"@);
        assert(short_tag(q) == 7388721762534963);
    }
    if k == 11 {
        assert(q == "terminal"@);
        assert(short_tag(q) == 308285633654117093747014389187141013840322365256);
    }
    if k == 12 {
        assert(q == "commands"@);
        assert(short_tag(q) == 328267105435388935130616074241358122537715762744);
    }
    if k == 13 {
        assert(q == "today"@);
        assert(short_tag(q) == 37447700503063191392452872005);
    }
    if k == 14 {
        assert(q == "yesterday"@);
        assert(short_tag(q) == 276886188497976975562184987827294033490865031065);
    }
    if k == 15 {
        assert(q == "this week"@);
        assert(short_tag(q) == 288304171400757367458587247878408789850178193225);
    }
    if k == 16 {
        assert(q == "week"@);
        assert(short_tag(q) == 15790420034341927126900);
    }
    if k == 17 {
        assert(q == "never used"@);
        assert(short_tag(q) == 328267128574539260865322119167825134328016275178);
    }
    if k == 18 {
        assert(q == "unused"@);
        assert(short_tag(q) == 64903741989688308325264104865400662);
    }
}

/// The time since a launch at `t`, as the `now - t` of a release build
/// computes it: wrapping around 2^64, so a launch stamped after `now` reads
/// as one long ago.
pub open spec fn age(now: u64, t: u64) -> nat {
    if t <= now {
        (now - t) as nat
    } else {
        (now as int + 0x1_0000_0000_0000_0000int - t as int) as nat
    }
}

fn age_exec(now: u64, t: u64) -> (r: u64)
    ensures
        r as nat == age(now, t),
{
    if t <= now {
        now - t
    } else {
        u64::MAX - (t - now - 1)
    }
}

pub open spec fn keeps(f: QueryFilter, a: AppEntry, now: u64) -> bool {
    match f {
        QueryFilter::Files => a.source == AppSource::File,
        QueryFilter::Apps => a.source == AppSource::Desktop || a.source == AppSource::Flatpak
            || a.source == AppSource::AppImage,
        QueryFilter::Games => a.source == AppSource::Steam,
        QueryFilter::Flatpaks => a.source == AppSource::Flatpak,
        QueryFilter::AppImages => a.source == AppSource::AppImage,
        QueryFilter::Cli => a.source == AppSource::Binary,
        QueryFilter::Today => a.last_launched matches Some(t) && age(now, t) < DAY,
        QueryFilter::Yesterday => a.last_launched matches Some(t) && DAY <= age(now, t) < 2 * DAY,
        QueryFilter::Week => a.last_launched matches Some(t) && age(now, t) < 7 * DAY,
        QueryFilter::NeverUsed => a.launch_count == 0,
    }
}

/// Indices of the entries the filter keeps, in order.
pub open spec fn selected(apps: Seq<AppEntry>, f: QueryFilter, now: u64) -> Seq<usize> {
    Seq::new(apps.len(), |i: int| i as usize).filter(|i: usize| keeps(f, apps[i as int], now))
}

fn keeps_exec(f: QueryFilter, a: &AppEntry, now: u64) -> (b: bool)
    ensures
        b == keeps(f, *a, now),
{
    match f {
        QueryFilter::Files => a.source == AppSource::File,
        QueryFilter::Apps => a.source == AppSource::Desktop || a.source == AppSource::Flatpak
            || a.source == AppSource::AppImage,
        QueryFilter::Games => a.source == AppSource::Steam,
        QueryFilter::Flatpaks => a.source == AppSource::Flatpak,
        QueryFilter::AppImages => a.source == AppSource::AppImage,
        QueryFilter::Cli => a.source == AppSource::Binary,
        QueryFilter::Today => match a.last_launched {
            Some(t) => age_exec(now, t) < DAY,
            None => false,
        },
        QueryFilter::Yesterday => match a.last_launched {
            Some(t) => DAY <= age_exec(now, t) && age_exec(now, t) < DAY * 2,
            None => false,
        },
        QueryFilter::Week => match a.last_launched {
            Some(t) => age_exec(now, t) < DAY * 7,
            None => false,
        },
        QueryFilter::NeverUsed => a.launch_count == 0,
    }
}

fn select_exec(apps: &[AppEntry], f: QueryFilter, now: u64) -> (r: Vec<usize>)
    ensures
        r@ == selected(apps@, f, now),
{
    let ghost idx = Seq::new(apps@.len(), |i: int| i as usize);
    let ghost pred = |i: usize| keeps(f, apps@[i as int], now);
    let mut r: Vec<usize> = Vec::new();
    let mut i: usize = 0;
    assert(idx.take(0).filter(pred) =~= seq![]) by {
        reveal_with_fuel(Seq::filter, 1);
    }
    while i < apps.len()
        invariant
            i <= apps@.len(),
            idx == Seq::new(apps@.len(), |i: int| i as usize),
            pred == (|i: usize| keeps(f, apps@[i as int], now)),
            r@ == idx.take(i as int).filter(pred),
        decreases apps@.len() - i,
    {
        proof {
            crate::seqs::lemma_filter_take_step(idx, pred, i as int);
        }
        assert(idx[i as int] == i);
        if keeps_exec(f, &apps[i], now) {
            r.push(i);
        }
        i = i + 1;
    }
    assert(idx.take(apps@.len() as int) =~= idx);
    r
}

fn classify(q: &[char]) -> (r: Option<QueryFilter>)
    ensures
        r == query_filter(q@),
{
    if chars_eq_str(q, "files") || chars_eq_str(q, "file") {
        Some(QueryFilter::Files)
    } else if chars_eq_str(q, "apps") || chars_eq_str(q, "app") {
        Some(QueryFilter::Apps)
    } else if chars_eq_str(q, "games") || chars_eq_str(q, "game") {
        Some(QueryFilter::Games)
    } else if chars_eq_str(q, "flatpak") || chars_eq_str(q, "flatpaks") {
        Some(QueryFilter::Flatpaks)
    } else if chars_eq_str(q, "appimage") || chars_eq_str(q, "appimages") {
        Some(QueryFilter::AppImages)
    } else if chars_eq_str(q, "cli") || chars_eq_str(q, "terminal") || chars_eq_str(q, "commands") {
        Some(QueryFilter::Cli)
    } else if chars_eq_str(q, "today") {
        Some(QueryFilter::Today)
    } else if chars_eq_str(q, "yesterday") {
        Some(QueryFilter::Yesterday)
    } else if chars_eq_str(q, "this week") || chars_eq_str(q, "week") {
        Some(QueryFilter::Week)
    } else if chars_eq_str(q, "never used") || chars_eq_str(q, "unused") {
        Some(QueryFilter::NeverUsed)
    } else {
        None
    }
}

// ---------------------------------------------------------------------------
// Recent launches
// ---------------------------------------------------------------------------

pub open spec fn launched(apps: Seq<AppEntry>, i: int) -> bool {
    0 <= i < apps.len() && apps[i].last_launched is Some
}

pub open spec fn launch_time(apps: Seq<AppEntry>, i: int) -> u64 {
    apps[i].last_launched->0
}

/// Entry `x` comes before entry `y` in the recent list: launched later, or
/// at the same time and listed earlier.
pub open spec fn recent_before(apps: Seq<AppEntry>, x: int, y: int) -> bool {
    launch_time(apps, x) > launch_time(apps, y) || (launch_time(apps, x) == launch_time(apps, y)
        && x < y)
}

/// How many entries have been launched.
pub open spec fn launched_count(apps: Seq<AppEntry>) -> nat {
    Seq::new(apps.len(), |i: int| i as usize).filter(|i: usize| launched(apps, i as int)).len()
}

/// `v` lists the `count` most recently launched entries, most recent first,
/// ties in catalog order: the first `count` of all launched entries sorted
/// that way.
pub open spec fn is_top_recent(apps: Seq<AppEntry>, v: Seq<usize>, count: nat) -> bool {
    &&& v.len() == if count < launched_count(apps) { count } else { launched_count(apps) }
    &&& forall|k: int| 0 <= k < v.len() ==> launched(apps, #[trigger] v[k] as int)
    &&& forall|a: int, b: int|
        0 <= a < b < v.len() ==> recent_before(apps, #[trigger] v[a] as int, #[trigger] v[b] as int)
    &&& forall|i: int, k: int|
        #![trigger launched(apps, i), v[k]]
        launched(apps, i) && !v.contains(i as usize) && 0 <= k < v.len() ==> recent_before(
            apps,
            v[k] as int,
            i,
        )
}

fn recent_before_exec(apps: &[AppEntry], x: usize, y: usize) -> (b: bool)
    requires
        launched(apps@, x as int),
        launched(apps@, y as int),
    ensures
        b == recent_before(apps@, x as int, y as int),
{
    let tx = match apps[x].last_launched {
        Some(t) => t,
        None => 0,
    };
    let ty = match apps[y].last_launched {
        Some(t) => t,
        None => 0,
    };
    tx > ty || (tx == ty && x < y)
}

/// The `count` most recently launched entries, most recent first.
pub fn top_recent(apps: &[AppEntry], count: usize) -> (r: Vec<usize>)
    ensures
        is_top_recent(apps@, r@, count as nat),
{
    let ghost idx = Seq::new(apps@.len(), |i: int| i as usize);
    let ghost pred = |i: usize| launched(apps@, i as int);
    // Launched entries, in catalog order.
    let mut cand: Vec<usize> = Vec::new();
    let mut i: usize = 0;
    assert(idx.take(0).filter(pred) =~= seq![]) by {
        reveal_with_fuel(Seq::filter, 1);
    }
    while i < apps.len()
        invariant
            i <= apps@.len(),
            idx == Seq::new(apps@.len(), |i: int| i as usize),
            pred == (|i: usize| launched(apps@, i as int)),
            cand@.len() == idx.take(i as int).filter(pred).len(),
            forall|a: int, b: int| 0 <= a < b < cand@.len() ==> cand@[a] < cand@[b],
            forall|x: usize| #[trigger] cand@.contains(x) <==> (x < i && launched(apps@, x as int)),
        decreases apps@.len() - i,
    {
        proof {
            crate::seqs::lemma_filter_take_step(idx, pred, i as int);
        }
        assert(idx[i as int] == i);
        if apps[i].last_launched.is_some() {
            let ghost before = cand@;
            cand.push(i);
            assert forall|x: usize| #[trigger] cand@.contains(x) <==> (x < i + 1 && launched(
                apps@,
                x as int,
            )) by {
                if x == i {
                    assert(cand@[before.len() as int] == i);
                }
                if cand@.contains(x) && x != i {
                    let k = choose|k: int| 0 <= k < cand@.len() && cand@[k] == x;
                    assert(k < before.len());
                    assert(before[k] == x);
                    assert(before.contains(x));
                }
                if x < i && launched(apps@, x as int) {
                    assert(before.contains(x));
                    let k = choose|k: int| 0 <= k < before.len() && before[k] == x;
                    assert(cand@[k] == x);
                }
            }
            assert forall|a: int, b: int| 0 <= a < b < cand@.len() implies cand@[a] < cand@[b] by {
                if b == before.len() {
                    assert(before.contains(before[a]));
                }
            }
        } else {
            assert(!launched(apps@, i as int));
            assert forall|x: usize| #[trigger] cand@.contains(x) <==> (x < i + 1 && launched(
                apps@,
                x as int,
            )) by {
                if x == i {
                    assert(!launched(apps@, x as int));
                }
            }
        }
        i = i + 1;
    }
    assert(idx.take(apps@.len() as int) =~= idx);
    let ghost m = cand@.len();
    assert(m == launched_count(apps@));
    // Repeatedly move the most recent remaining candidate to the result.
    assert forall|k: int| 0 <= k < cand@.len() implies launched(apps@, #[trigger] cand@[k] as int) by {
        assert(cand@.contains(cand@[k]));
    }
    let mut out: Vec<usize> = Vec::new();
    while out.len() < count && cand.len() > 0
        invariant
            out@.len() + cand@.len() == m,
            out@.len() <= count,
            m == launched_count(apps@),
            forall|a: int, b: int| 0 <= a < b < cand@.len() ==> cand@[a] != cand@[b],
            forall|x: usize|
                launched(apps@, x as int) <==> (#[trigger] cand@.contains(x) || out@.contains(x)),
            forall|k: int| 0 <= k < out@.len() ==> launched(apps@, #[trigger] out@[k] as int),
            forall|k: int| 0 <= k < cand@.len() ==> launched(apps@, #[trigger] cand@[k] as int),
            forall|k: int, c: int|
                0 <= k < out@.len() && 0 <= c < cand@.len() ==> !(#[trigger] out@[k] == #[trigger] cand@[c]),
            forall|a: int, b: int|
                0 <= a < b < out@.len() ==> recent_before(apps@, #[trigger] out@[a] as int, #[trigger] out@[b] as int),
            forall|k: int, c: int|
                0 <= k < out@.len() && 0 <= c < cand@.len() ==> recent_before(
                    apps@,
                    #[trigger] out@[k] as int,
                    #[trigger] cand@[c] as int,
                ),
        decreases cand@.len(),
    {
        let mut best: usize = 0;
        let mut j: usize = 1;
        while j < cand.len()
            invariant
                0 <= best < j <= cand@.len(),
                forall|k: int| 0 <= k < cand@.len() ==> launched(apps@, #[trigger] cand@[k] as int),
                forall|a: int, b: int| 0 <= a < b < cand@.len() ==> cand@[a] != cand@[b],
                forall|c: int|
                    0 <= c < j && c != best ==> recent_before(
                        apps@,
                        cand@[best as int] as int,
                        #[trigger] cand@[c] as int,
                    ),
            decreases cand@.len() - j,
        {
            if recent_before_exec(apps, cand[j], cand[best]) {
                let ghost old_best = best;
                best = j;
                assert forall|c: int| 0 <= c < j + 1 && c != best implies recent_before(
                    apps@,
                    cand@[best as int] as int,
                    #[trigger] cand@[c] as int,
                ) by {
                    if c != old_best {
                        assert(recent_before(apps@, cand@[old_best as int] as int, cand@[c] as int));
                    }
                }
            } else {
                assert(cand@[j as int] != cand@[best as int]);
            }
            j = j + 1;
        }
        let ghost old_cand = cand@;
        let ghost old_out = out@;
        let x = cand.remove(best);
        out.push(x);
        assert forall|y: usize|
            launched(apps@, y as int) <==> (#[trigger] cand@.contains(y) || out@.contains(y)) by {
            if old_cand.contains(y) {
                let k = choose|k: int| 0 <= k < old_cand.len() && old_cand[k] == y;
                if k < best {
                    assert(cand@[k] == y);
                } else if k > best {
                    assert(cand@[k - 1] == y);
                } else {
                    assert(out@[old_out.len() as int] == y);
                }
            }
            if old_out.contains(y) {
                let k = choose|k: int| 0 <= k < old_out.len() && old_out[k] == y;
                assert(out@[k] == y);
            }
            if cand@.contains(y) {
                let k = choose|k: int| 0 <= k < cand@.len() && cand@[k] == y;
                if k < best {
                    assert(old_cand[k] == y);
                } else {
                    assert(old_cand[k + 1] == y);
                }
            }
            if out@.contains(y) {
                let k = choose|k: int| 0 <= k < out@.len() && out@[k] == y;
                if k < old_out.len() {
                    assert(old_out[k] == y);
                }
            }
        }
        assert forall|k: int, c: int|
            0 <= k < out@.len() && 0 <= c < cand@.len() implies !(#[trigger] out@[k]
            == #[trigger] cand@[c]) by {
            let oc = if c < best { c } else { c + 1 };
            assert(cand@[c] == old_cand[oc]);
            if k < old_out.len() {
                assert(out@[k] == old_out[k]);
            } else {
                assert(out@[k] == old_cand[best as int]);
            }
        }
        assert forall|k: int, c: int|
            0 <= k < out@.len() && 0 <= c < cand@.len() implies recent_before(
            apps@,
            #[trigger] out@[k] as int,
            #[trigger] cand@[c] as int,
        ) by {
            let oc = if c < best { c } else { c + 1 };
            assert(cand@[c] == old_cand[oc]);
            if k < old_out.len() {
                assert(out@[k] == old_out[k]);
            } else {
                assert(out@[k] == old_cand[best as int]);
            }
        }
        assert forall|a: int, b: int| 0 <= a < b < out@.len() implies recent_before(
            apps@,
            #[trigger] out@[a] as int,
            #[trigger] out@[b] as int,
        ) by {
            if b == old_out.len() {
                assert(out@[b] == old_cand[best as int]);
                assert(out@[a] == old_out[a]);
            } else {
                assert(out@[a] == old_out[a]);
                assert(out@[b] == old_out[b]);
            }
        }
        assert forall|a: int, b: int| 0 <= a < b < cand@.len() implies cand@[a] != cand@[b] by {
            let oa = if a < best { a } else { a + 1 };
            let ob = if b < best { b } else { b + 1 };
            assert(cand@[a] == old_cand[oa]);
            assert(cand@[b] == old_cand[ob]);
        }
    }
    assert forall|y: int, k: int|
        #![trigger launched(apps@, y), out@[k]]
        launched(apps@, y) && !out@.contains(y as usize) && 0 <= k < out@.len() implies recent_before(
        apps@,
        out@[k] as int,
        y,
    ) by {
        assert(cand@.contains(y as usize));
        let c = choose|c: int| 0 <= c < cand@.len() && cand@[c] == y as usize;
        assert(recent_before(apps@, out@[k] as int, cand@[c] as int));
    }
    out
}

// ---------------------------------------------------------------------------
// Query interpretation
// ---------------------------------------------------------------------------

pub open spec fn is_recent_query(q: Seq<char>) -> bool {
    has_substring(q, "last"@) || has_substring(q, "recent"@)
}

/// What a smart query gives, for the query key `q` at time `now`: the kept
/// indices for a filter word, the top recent launches for a query naming
/// "last" or "recent", nothing for any other query.
pub open spec fn interprets_as(apps: Seq<AppEntry>, q: Seq<char>, now: u64, r: Option<Seq<usize>>) -> bool {
    match query_filter(q) {
        Some(f) => r == Some(selected(apps, f, now)),
        None => if is_recent_query(q) {
            r matches Some(v) && is_top_recent(apps, v, count_in(q, 10) as nat)
        } else {
            r is None
        },
    }
}

/// Returns the filtered indices if the query is a smart query at time
/// `now`, `None` otherwise.
pub fn interpret_at(query: &str, apps: &[AppEntry], now: u64) -> (r: Option<Vec<usize>>)
    ensures
        interprets_as(apps@, query_key(query@), now, match r {
            Some(v) => Some(v@),
            None => None,
        }),
{
    let t = trim_str(query);
    let q = to_lowercase(t.as_slice());
    match classify(q.as_slice()) {
        Some(f) => Some(select_exec(apps, f, now)),
        None => {
            if contains_str(q.as_slice(), "last") || contains_str(q.as_slice(), "recent") {
                let count = count_in_chars(q.as_slice(), 10);
                Some(top_recent(apps, count))
            } else {
                None
            }
        },
    }
}

pub open spec fn indices_view(r: Option<Vec<usize>>) -> Option<Seq<usize>> {
    match r {
        Some(v) => Some(v@),
        None => None,
    }
}

/// Returns Some(filtered indices) if the query is a smart query, None
/// otherwise, reading the clock once for the time-based queries: the
/// answer is `interpret_at`'s at that reading.
pub fn interpret(query: &str, apps: &[AppEntry]) -> (r: Option<Vec<usize>>)
    ensures
        exists|now: u64| #[trigger] interprets_as(apps@, query_key(query@), now, indices_view(r)),
        r is None <==> (query_filter(query_key(query@)) is None && !is_recent_query(query_key(query@))),
{
    let now = now_secs();
    let r = interpret_at(query, apps, now);
    assert(interprets_as(apps@, query_key(query@), now, indices_view(r)));
    r
}

// ---------------------------------------------------------------------------
// Scoring
// ---------------------------------------------------------------------------

pub open spec fn tier_score(name: Seq<char>, q: Seq<char>) -> u32 {
    if name == q {
        100_000
    } else if has_prefix(name, q) {
        75_000
    } else if has_substring(name, q) {
        50_000
    } else {
        25_000
    }
}

pub open spec fn recency_score(last: Option<u64>, now: u64) -> u32 {
    match last {
        Some(t) => {
            let age = if now >= t { now - t } else { 0 };
            if age < DAY {
                500
            } else if age < DAY * 3 {
                300
            } else if age < DAY * 7 {
                100
            } else {
                0
            }
        },
        None => 0,
    }
}

/// Match tier for the lowercased name against the query key, plus ten
/// points a launch (at most 1000), plus up to 500 for a recent launch.
pub open spec fn app_score(app: AppEntry, query: Seq<char>, now: u64) -> int {
    let usage = if app.launch_count * 10 < 1000 { app.launch_count * 10 } else { 1000 };
    tier_score(lower_text(app.name@), query_key(query)) + usage + recency_score(app.last_launched, now)
}

/// Score an app for ranking within search results.
/// Higher = better match. Combines match tier with usage habits.
pub fn score_app(app: &AppEntry, query: &str, now: u64) -> (s: u32)
    requires
        app.launch_count <= u32::MAX / 10,
    ensures
        s as int == app_score(*app, query@, now),
{
    let name = chars_of(app.name.as_str());
    let lower_name = to_lowercase(name.as_slice());
    let t = trim_str(query);
    let q = to_lowercase(t.as_slice());
    let tier: u32 = if crate::text::chars_eq(lower_name.as_slice(), q.as_slice()) {
        100_000
    } else if starts_with(lower_name.as_slice(), q.as_slice()) {
        75_000
    } else if contains(lower_name.as_slice(), q.as_slice()) {
        50_000
    } else {
        25_000
    };
    let scaled = app.launch_count * 10;
    let usage: u32 = if scaled < 1000 { scaled } else { 1000 };
    let recency: u32 = match app.last_launched {
        Some(last) => {
            let age = now.saturating_sub(last);
            if age < DAY {
                500
            } else if age < DAY * 3 {
                300
            } else if age < DAY * 7 {
                100
            } else {
                0
            }
        },
        None => 0,
    };
    tier + usage + recency
}

/// The match tier decides the ranking: an app in a better tier (exact over
/// prefix over contains over fuzzy) outscores any app in a worse one,
/// whatever their launch counts and recency.
pub proof fn law_tier_dominates(a: AppEntry, b: AppEntry, query: Seq<char>, now: u64)
    requires
        tier_score(lower_text(a.name@), query_key(query)) > tier_score(lower_text(b.name@), query_key(query)),
    ensures
        app_score(a, query, now) > app_score(b, query, now),
{
}

} // verus!

//! Web lookups: choosing the service for a query, building request addresses,
//! and turning what the services answer into text for the language model.

use vstd::prelude::*;
use vstd::utf8::encode_utf8;
use crate::text::{
    byte_len, chars_of, concat_vec, join, join_vec, lowercase, replace_lit, replace_vec, starts_with,
    starts_with_vec, string_of, sub_vec, to_lowercase, trim, trim_vec,
};

verus! {

/// A byte that URL encoding keeps as it is: ASCII letters and digits, `-`, `.`, `_`, `~`.
pub open spec fn url_safe(b: u8) -> bool {
    (0x30 <= b <= 0x39) || (0x41 <= b <= 0x5A) || (0x61 <= b <= 0x7A) || b == 0x2D || b == 0x2E
        || b == 0x5F || b == 0x7E
}

/// Upper-case hexadecimal digit of `d` (below 16).
pub open spec fn hex_digit(d: u8) -> char {
    if d < 10 {
        (0x30 + d) as char
    } else {
        (0x41 + d - 10) as char
    }
}

/// Percent-encoding of the bytes `b`: safe bytes stay, every other byte `x`
/// becomes `%` and two upper-case hexadecimal digits.
pub open spec fn percent_encode(b: Seq<u8>) -> Seq<char>
    decreases b.len(),
{
    if b.len() == 0 {
        Seq::empty()
    } else {
        (if url_safe(b[0]) {
            seq![b[0] as char]
        } else {
            seq!['%', hex_digit(b[0] / 16), hex_digit(b[0] % 16)]
        }) + percent_encode(b.drop_first())
    }
}

/// Calls `urlencoding::encode`, which percent-encodes every byte of the UTF-8
/// form of `s` except ASCII letters, digits, `-`, `_`, `.` and `~`, writing the
/// hexadecimal digits in upper case.
#[verifier::external_body]
fn url_encode(s: &str) -> (r: String)
    ensures
        r@ == percent_encode(encode_utf8(s@)),
{
    urlencoding::encode(s).into_owned()
}

/// Description of an Open-Meteo (WMO) weather code.
pub open spec fn weather_text(code: int) -> Seq<char> {
    if code == 0 {
        "Klarer Himmel"@
    } else if code == 1 {
        "Überwiegend klar"@
    } else if code == 2 {
        "Teilweise bewölkt"@
    } else if code == 3 {
        "Bedeckt"@
    } else if code == 45 || code == 48 {
        "Nebel"@
    } else if code == 51 {
        "Leichter Nieselregen"@
    } else if code == 53 {
        "Mäßiger Nieselregen"@
    } else if code == 55 {
        "Starker Nieselregen"@
    } else if code == 56 || code == 57 {
        "Gefrierender Nieselregen"@
    } else if code == 61 {
        "Leichter Regen"@
    } else if code == 63 {
        "Mäßiger Regen"@
    } else if code == 65 {
        "Starker Regen"@
    } else if code == 66 || code == 67 {
        "Gefrierender Regen"@
    } else if code == 71 {
        "Leichter Schneefall"@
    } else if code == 73 {
        "Mäßiger Schneefall"@
    } else if code == 75 {
        "Starker Schneefall"@
    } else if code == 77 {
        "Schneekörner"@
    } else if code == 80 {
        "Leichte Regenschauer"@
    } else if code == 81 {
        "Mäßige Regenschauer"@
    } else if code == 82 {
        "Starke Regenschauer"@
    } else if code == 85 {
        "Leichte Schneeschauer"@
    } else if code == 86 {
        "Starke Schneeschauer"@
    } else if code == 95 {
        "Gewitter"@
    } else if code == 96 {
        "Gewitter mit leichtem Hagel"@
    } else if code == 99 {
        "Gewitter mit starkem Hagel"@
    } else {
        "Unbekannt"@
    }
}

/// Describes an Open-Meteo weather code in German.
pub fn weather_code_desc(code: i64) -> (r: &'static str)
    ensures
        r@ == weather_text(code as int),
{
    match code {
        0 => "Klarer Himmel",
        1 => "Überwiegend klar",
        2 => "Teilweise bewölkt",
        3 => "Bedeckt",
        45 | 48 => "Nebel",
        51 => "Leichter Nieselregen",
        53 => "Mäßiger Nieselregen",
        55 => "Starker Nieselregen",
        56 | 57 => "Gefrierender Nieselregen",
        61 => "Leichter Regen",
        63 => "Mäßiger Regen",
        65 => "Starker Regen",
        66 | 67 => "Gefrierender Regen",
        71 => "Leichter Schneefall",
        73 => "Mäßiger Schneefall",
        75 => "Starker Schneefall",
        77 => "Schneekörner",
        80 => "Leichte Regenschauer",
        81 => "Mäßige Regenschauer",
        82 => "Starke Regenschauer",
        85 => "Leichte Schneeschauer",
        86 => "Starke Schneeschauer",
        95 => "Gewitter",
        96 => "Gewitter mit leichtem Hagel",
        99 => "Gewitter mit starkem Hagel",
        _ => "Unbekannt",
    }
}


/// The DuckDuckGo Lite results page for `query`.
pub open spec fn lite_url(query: Seq<char>) -> Seq<char> {
    "https://lite.duckduckgo.com/lite/?q="@ + percent_encode(encode_utf8(query))
}

/// The German Wikipedia search for `query`: up to three articles, as JSON.
pub open spec fn wikipedia_url(query: Seq<char>) -> Seq<char> {
    "https://de.wikipedia.org/w/api.php?action=query&list=search&srsearch="@ + percent_encode(
        encode_utf8(query),
    ) + "&srlimit=3&format=json"@
}

/// What follows the first space of `q` (`q.splitn(2, ' ').nth(1)`), or empty.
pub open spec fn after_first_space(q: Seq<char>) -> Seq<char> {
    match crate::text::find(q, seq![' ']) {
        Some(i) => q.skip(i + 1),
        None => Seq::empty(),
    }
}

/// Where a query goes: a page to fetch, a place to get the weather for, or a
/// general web search at the given address.
pub enum SearchRoute {
    FetchPage(String),
    Weather(String),
    Web { lite: String, wikipedia: String },
}

/// The route for `q`: `WEBFETCH:<url>` fetches the page; a query that starts
/// with "wetter " or "weather " (in any case) and names a place asks for the
/// weather there; anything else is searched on DuckDuckGo Lite and on Wikipedia.
pub open spec fn route_agrees(r: SearchRoute, q: Seq<char>) -> bool {
    if starts_with(q, "WEBFETCH:"@) {
        r matches SearchRoute::FetchPage(u) && u@ == q.skip("WEBFETCH:"@.len() as int)
    } else {
        let l = lowercase(q);
        let place = trim(after_first_space(q));
        if (starts_with(l, "wetter "@) || starts_with(l, "weather "@)) && place.len() > 0 {
            r matches SearchRoute::Weather(p) && p@ == place
        } else {
            r matches SearchRoute::Web { lite, wikipedia } && lite@ == lite_url(q) && wikipedia@
                == wikipedia_url(q)
        }
    }
}

/// Builds `head`, the encoded `query`, then `tail`.
fn encoded_address(head: &str, query: &str, tail: &str) -> (r: String)
    ensures
        r@ == head@ + percent_encode(encode_utf8(query@)) + tail@,
{
    let h = chars_of(head);
    let enc = url_encode(query);
    let ev = chars_of(enc.as_str());
    let t = chars_of(tail);
    let a = concat_vec(&h, &ev);
    let b = concat_vec(&a, &t);
    string_of(&b)
}

/// The DuckDuckGo Lite address for `query`.
pub fn lite_address(query: &str) -> (r: String)
    ensures
        r@ == lite_url(query@),
{
    let r = encoded_address("https://lite.duckduckgo.com/lite/?q=", query, "");
    assert(r@ == lite_url(query@)) by {
        reveal_strlit("");
        assert(""@ == Seq::<char>::empty());
    }
    r
}

/// The Wikipedia search address for `query`.
pub fn wikipedia_address(query: &str) -> (r: String)
    ensures
        r@ == wikipedia_url(query@),
{
    encoded_address(
        "https://de.wikipedia.org/w/api.php?action=query&list=search&srsearch=",
        query,
        "&srlimit=3&format=json",
    )
}

/// Chooses where to look up `query`.
pub fn route_query(query: &str) -> (r: SearchRoute)
    ensures
        route_agrees(r, query@),
{
    let q = chars_of(query);
    let prefix = chars_of("WEBFETCH:");
    if starts_with_vec(&q, &prefix) {
        let url = sub_vec(&q, prefix.len(), q.len());
        return SearchRoute::FetchPage(string_of(&url));
    }
    let lower = to_lowercase(query);
    let lv = chars_of(lower.as_str());
    let w1 = chars_of("wetter ");
    let w2 = chars_of("weather ");
    if starts_with_vec(&lv, &w1) || starts_with_vec(&lv, &w2) {
        let mut i: usize = 0;
        while i < q.len() && q[i] != ' '
            invariant
                i <= q@.len(),
                crate::text::find(q@, seq![' ']) == crate::text::find_from(q@, seq![' '], i as int),
            decreases q.len() - i,
        {
            assert(q@.subrange(i as int, i + 1) == seq![q@[i as int]]);
            assert(seq![q@[i as int]][0] == q@[i as int]);
            assert(!crate::text::matches_at(q@, seq![' '], i as int));
            i += 1;
        }
        let rest = if i < q.len() {
            assert(q@.subrange(i as int, i + 1) == seq![q@[i as int]]);
            sub_vec(&q, i + 1, q.len())
        } else {
            Vec::new()
        };
        let place = trim_vec(&rest);
        if place.len() > 0 {
            return SearchRoute::Weather(string_of(&place));
        }
    }
    SearchRoute::Web { lite: lite_address(query), wikipedia: wikipedia_address(query) }
}

pub open spec fn part_views(parts: Seq<Vec<char>>) -> Seq<Seq<char>> {
    parts.map_values(|p: Vec<char>| p@)
}

pub(crate) proof fn lemma_views_push(parts: Seq<Vec<char>>, v: Vec<char>)
    ensures
        part_views(parts.push(v)) == part_views(parts).push(v@),
{
    assert(part_views(parts.push(v)) =~= part_views(parts).push(v@));
}

#[verifier::external_type_specification]
#[verifier::external_body]
pub struct ExRegex(regex::Regex);

/// Whether `regex::Regex::new` accepts `pattern`.
pub uninterp spec fn regex_compiles(pattern: Seq<char>) -> bool;

/// What `regex::Regex::replace_all` gives for the regex compiled from `pattern`,
/// the haystack, and a replacement string.
pub uninterp spec fn regex_replaced(
    pattern: Seq<char>,
    haystack: Seq<char>,
    replacement: Seq<char>,
) -> Seq<char>;

/// Calls `regex::Regex::new`; whether it succeeds depends on `pattern` alone and
/// is named `regex_compiles`.
#[verifier::external_body]
fn regex_new(pattern: &str) -> (r: Option<regex::Regex>)
    ensures
        r is Some <==> regex_compiles(pattern@),
{
    regex::Regex::new(pattern).ok()
}

/// A compiled regular expression together with the pattern it was compiled from.
pub struct Pattern {
    source: String,
    re: regex::Regex,
}

impl Pattern {
    /// The pattern text.
    pub closed spec fn source(&self) -> Seq<char> {
        self.source@
    }

    /// Compiles `pattern`, or `None` where the regex crate refuses it.
    pub fn new(pattern: &str) -> (r: Option<Pattern>)
        ensures
            r is Some <==> regex_compiles(pattern@),
            r matches Some(p) ==> p.source() == pattern@,
    {
        match regex_new(pattern) {
            Some(re) => Some(Pattern { source: pattern.to_owned(), re }),
            None => None,
        }
    }
}

/// Calls `regex::Regex::replace_all` on the regex of `p`, which `Pattern::new`
/// compiled from `p.source()` (no other code builds a `Pattern`); the result is
/// a function of that pattern, the haystack and the replacement, named
/// `regex_replaced`.
#[verifier::external_body]
fn regex_replace_all(p: &Pattern, haystack: &str, replacement: &str) -> (r: String)
    ensures
        r@ == regex_replaced(p.source(), haystack@, replacement@),
{
    p.re.replace_all(haystack, replacement).into_owned()
}

/// Compiles `pattern`, which the regex crate accepts, and replaces all its
/// matches in `haystack` by `replacement`.
fn replace_pattern(pattern: &str, haystack: &str, replacement: &str) -> (r: String)
    requires
        regex_compiles(pattern@),
    ensures
        r@ == regex_replaced(pattern@, haystack@, replacement@),
{
    match Pattern::new(pattern) {
        Some(p) => regex_replace_all(&p, haystack, replacement),
        None => {
            proof {
                assert(false);
            }
            String::new()
        },
    }
}

pub open spec fn script_pattern() -> Seq<char> {
    "(?i)<script[^>]*>[\\s\\S]*?</script>"@
}

pub open spec fn style_pattern() -> Seq<char> {
    "(?i)<style[^>]*>[\\s\\S]*?</style>"@
}

pub open spec fn tag_pattern() -> Seq<char> {
    "<[^>]+>"@
}

pub open spec fn space_pattern() -> Seq<char> {
    "\\s+"@
}

/// The HTML entities that page text decodes, in the order they are replaced.
pub open spec fn decode_entities(s: Seq<char>) -> Seq<char> {
    let s = replace_lit(s, "&amp;"@, "&"@);
    let s = replace_lit(s, "&lt;"@, "<"@);
    let s = replace_lit(s, "&gt;"@, ">"@);
    let s = replace_lit(s, "&quot;"@, "\""@);
    let s = replace_lit(s, "&nbsp;"@, " "@);
    let s = replace_lit(s, "&auml;"@, "ä"@);
    let s = replace_lit(s, "&ouml;"@, "ö"@);
    let s = replace_lit(s, "&uuml;"@, "ü"@);
    let s = replace_lit(s, "&Auml;"@, "Ä"@);
    let s = replace_lit(s, "&Ouml;"@, "Ö"@);
    let s = replace_lit(s, "&Uuml;"@, "Ü"@);
    replace_lit(s, "&szlig;"@, "ß"@)
}

/// Whether the regex crate compiles the four patterns that page text is read with.
pub open spec fn html_patterns_compile() -> bool {
    regex_compiles(script_pattern()) && regex_compiles(style_pattern()) && regex_compiles(
        tag_pattern(),
    ) && regex_compiles(space_pattern())
}

/// The readable text of an HTML page: scripts, styles and tags become spaces,
/// common entities are decoded, runs of white space collapse to one space, and
/// the ends are trimmed.
pub open spec fn stripped_html(html: Seq<char>) -> Seq<char> {
    let s1 = regex_replaced(script_pattern(), html, " "@);
    let s2 = regex_replaced(style_pattern(), s1, " "@);
    let s3 = regex_replaced(tag_pattern(), s2, " "@);
    let s4 = decode_entities(s3);
    trim(regex_replaced(space_pattern(), s4, " "@))
}

/// Checks that the regex crate compiles the patterns that page text is read with.
pub fn html_patterns_ok() -> (r: bool)
    ensures
        r == html_patterns_compile(),
{
    Pattern::new("(?i)<script[^>]*>[\\s\\S]*?</script>").is_some() && Pattern::new(
        "(?i)<style[^>]*>[\\s\\S]*?</style>",
    ).is_some() && Pattern::new("<[^>]+>").is_some() && Pattern::new("\\s+").is_some()
}

pub(crate) fn decode_entities_vec(v: &Vec<char>) -> (r: Vec<char>)
    ensures
        r@ == decode_entities(v@),
{
    proof {
        reveal_strlit("&amp;");
        reveal_strlit("&lt;");
        reveal_strlit("&gt;");
        reveal_strlit("&quot;");
        reveal_strlit("&nbsp;");
        reveal_strlit("&auml;");
        reveal_strlit("&ouml;");
        reveal_strlit("&uuml;");
        reveal_strlit("&Auml;");
        reveal_strlit("&Ouml;");
        reveal_strlit("&Uuml;");
        reveal_strlit("&szlig;");
    }
    let s = replace_vec(v, "&amp;", "&");
    let s = replace_vec(&s, "&lt;", "<");
    let s = replace_vec(&s, "&gt;", ">");
    let s = replace_vec(&s, "&quot;", "\"");
    let s = replace_vec(&s, "&nbsp;", " ");
    let s = replace_vec(&s, "&auml;", "ä");
    let s = replace_vec(&s, "&ouml;", "ö");
    let s = replace_vec(&s, "&uuml;", "ü");
    let s = replace_vec(&s, "&Auml;", "Ä");
    let s = replace_vec(&s, "&Ouml;", "Ö");
    let s = replace_vec(&s, "&Uuml;", "Ü");
    replace_vec(&s, "&szlig;", "ß")
}

/// The readable text of an HTML page (the page-text patterns must compile,
/// as `html_patterns_ok` checks; elsewhere compiling them panics).
pub fn strip_html(html: &str) -> (r: String)
    requires
        html_patterns_compile(),
    ensures
        r@ == stripped_html(html@),
{
    let s1 = replace_pattern("(?i)<script[^>]*>[\\s\\S]*?</script>", html, " ");
    let s2 = replace_pattern("(?i)<style[^>]*>[\\s\\S]*?</style>", s1.as_str(), " ");
    let s3 = replace_pattern("<[^>]+>", s2.as_str(), " ");
    let v3 = chars_of(s3.as_str());
    let v4 = decode_entities_vec(&v3);
    let s4 = string_of(&v4);
    let s5 = replace_pattern("\\s+", s4.as_str(), " ");
    let v5 = chars_of(s5.as_str());
    let t = trim_vec(&v5);
    string_of(&t)
}

/// The most bytes of page text that are passed on.
pub const PAGE_TEXT_LIMIT: usize = 8000;

/// Page text cut to its first 8000 bytes, with a note, where it is longer;
/// `None` where byte 8000 falls inside a character (slicing there panics).
pub open spec fn clipped_page(text: Seq<char>) -> Option<Seq<char>> {
    if byte_len(text) > 8000 {
        match crate::text::head_to_byte(text, 8000) {
            Some(h) => Some(h + "\n\n[Text gekürzt auf 8000 Zeichen]"@),
            None => None,
        }
    } else {
        Some(text)
    }
}

/// Cuts page text to the length limit, with a note where it was cut.
pub fn clip_page_text(text: &str) -> (r: Option<String>)
    ensures
        match r {
            Some(t) => clipped_page(text@) == Some(t@),
            None => clipped_page(text@) is None,
        },
{
    let v = chars_of(text);
    if crate::text::byte_len_at_least(&v, PAGE_TEXT_LIMIT + 1) {
        match crate::text::head_to_byte_vec(&v, PAGE_TEXT_LIMIT) {
            Some(h) => {
                let note = chars_of("\n\n[Text gekürzt auf 8000 Zeichen]");
                let c = concat_vec(&h, &note);
                Some(string_of(&c))
            },
            None => None,
        }
    } else {
        Some(string_of(&v))
    }
}

/// The text passed on for a fetched page: its readable text, cut to the limit;
/// `None` where a pattern does not compile or the cut falls inside a character.
pub open spec fn page_text_of(html: Seq<char>) -> Option<Seq<char>> {
    if html_patterns_compile() {
        clipped_page(stripped_html(html))
    } else {
        None
    }
}

/// Turns a fetched HTML page into the text passed on to the language model.
pub fn page_text(html: &str) -> (r: Option<String>)
    ensures
        match r {
            Some(t) => page_text_of(html@) == Some(t@),
            None => page_text_of(html@) is None,
        },
{
    if !html_patterns_ok() {
        return None;
    }
    let t = strip_html(html);
    clip_page_text(t.as_str())
}


/// A step of a web lookup that can fail.
pub enum LookupStep {
    SearchRequest,
    SearchBody,
    PageRequest,
    PageBody,
    GeocodeRequest,
    GeocodeBody,
    ForecastRequest,
    ForecastBody,
}

/// How a failed lookup step is reported, before the error's own text.
pub open spec fn failure_prefix(step: LookupStep) -> Seq<char> {
    match step {
        LookupStep::SearchRequest => "Fehler bei der Suchanfrage: "@,
        LookupStep::SearchBody => "Fehler beim Lesen der Suchergebnisse: "@,
        LookupStep::PageRequest | LookupStep::PageBody => "Fehler beim Abrufen der Seite: "@,
        LookupStep::GeocodeRequest | LookupStep::GeocodeBody => "Fehler bei der Geokodierung: "@,
        LookupStep::ForecastRequest | LookupStep::ForecastBody => "Fehler bei der Wetterabfrage: "@,
    }
}

/// The text that reports a failed lookup step with the error's description.
pub fn failure_message(step: LookupStep, error: &str) -> (r: String)
    ensures
        r@ == failure_prefix(step) + error@,
{
    let prefix = match step {
        LookupStep::SearchRequest => chars_of("Fehler bei der Suchanfrage: "),
        LookupStep::SearchBody => chars_of("Fehler beim Lesen der Suchergebnisse: "),
        LookupStep::PageRequest | LookupStep::PageBody => chars_of("Fehler beim Abrufen der Seite: "),
        LookupStep::GeocodeRequest | LookupStep::GeocodeBody => chars_of(
            "Fehler bei der Geokodierung: ",
        ),
        LookupStep::ForecastRequest | LookupStep::ForecastBody => chars_of(
            "Fehler bei der Wetterabfrage: ",
        ),
    };
    let e = chars_of(error);
    let r = concat_vec(&prefix, &e);
    string_of(&r)
}

/// The Open-Meteo geocoding address for `place`.
pub open spec fn geocode_url(place: Seq<char>) -> Seq<char> {
    "https://geocoding-api.open-meteo.com/v1/search?name="@ + percent_encode(encode_utf8(place))
        + "&count=1&language=de&format=json"@
}

/// Builds the geocoding address for `place`.
pub fn geocode_address(place: &str) -> (r: String)
    ensures
        r@ == geocode_url(place@),
{
    encoded_address(
        "https://geocoding-api.open-meteo.com/v1/search?name=",
        place,
        "&count=1&language=de&format=json",
    )
}

/// A geocoding result; coordinates are given as the decimal text of the numbers.
pub struct Place {
    pub latitude: Option<String>,
    pub longitude: Option<String>,
    pub name: Option<String>,
    pub country: Option<String>,
    pub region: Option<String>,
}

/// The text of an optional field, or `default` where it is missing.
pub open spec fn text_or(f: Option<String>, default: Seq<char>) -> Seq<char> {
    match f {
        Some(x) => x@,
        None => default,
    }
}

fn text_or_exec(f: &Option<String>, default: &str) -> (r: Vec<char>)
    ensures
        r@ == text_or(*f, default@),
{
    match f {
        Some(x) => chars_of(x.as_str()),
        None => chars_of(default),
    }
}

/// The message for a place that geocoding does not know.
pub open spec fn place_not_found(location: Seq<char>) -> Seq<char> {
    "Konnte '"@ + location + "' nicht finden."@
}

/// Reports that `location` was not found.
pub fn place_not_found_message(location: &str) -> (r: String)
    ensures
        r@ == place_not_found(location@),
{
    let a = chars_of("Konnte '");
    let l = chars_of(location);
    let b = chars_of("' nicht finden.");
    let al = concat_vec(&a, &l);
    let r = concat_vec(&al, &b);
    string_of(&r)
}

/// The place to report on: the first geocoding result, if there is one
/// (`results` is `None` where the response held no result list).
pub fn first_place(results: &Option<Vec<Place>>) -> (r: Option<&Place>)
    ensures
        match results {
            Some(v) => if v@.len() > 0 {
                r == Some(&v@[0])
            } else {
                r is None
            },
            None => r is None,
        },
{
    match results {
        Some(v) => if v.len() > 0 {
            Some(&v[0])
        } else {
            None
        },
        None => None,
    }
}

/// The Open-Meteo forecast address for a place (latitude and longitude 0 where missing).
pub open spec fn forecast_url(place: Place) -> Seq<char> {
    "https://api.open-meteo.com/v1/forecast?latitude="@ + text_or(place.latitude, "0"@)
        + "&longitude="@ + text_or(place.longitude, "0"@)
        + "&current_weather=true&daily=temperature_2m_max,temperature_2m_min,precipitation_sum,weathercode&timezone=Europe/Berlin&forecast_days=3"@
}

/// Builds the forecast address for `place`.
pub fn forecast_address(place: &Place) -> (r: String)
    ensures
        r@ == forecast_url(*place),
{
    let a = chars_of("https://api.open-meteo.com/v1/forecast?latitude=");
    let lat = text_or_exec(&place.latitude, "0");
    let b = chars_of("&longitude=");
    let lon = text_or_exec(&place.longitude, "0");
    let c = chars_of(
        "&current_weather=true&daily=temperature_2m_max,temperature_2m_min,precipitation_sum,weathercode&timezone=Europe/Berlin&forecast_days=3",
    );
    let r = concat_vec(&a, &lat);
    let r = concat_vec(&r, &b);
    let r = concat_vec(&r, &lon);
    let r = concat_vec(&r, &c);
    string_of(&r)
}

/// Current conditions; numbers are given as their decimal text.
pub struct CurrentWeather {
    pub temperature: Option<String>,
    pub windspeed: Option<String>,
    pub weathercode: Option<i64>,
}

/// The daily series of a forecast; numbers are given as their decimal text.
pub struct DailyWeather {
    pub time: Option<Vec<Option<String>>>,
    pub temperature_max: Option<Vec<Option<String>>>,
    pub temperature_min: Option<Vec<Option<String>>>,
    pub precipitation: Option<Vec<Option<String>>>,
    pub weathercode: Option<Vec<Option<i64>>>,
}

/// A forecast as far as the report reads it.
pub struct Forecast {
    pub current: Option<CurrentWeather>,
    pub daily: Option<DailyWeather>,
}

/// Entry `i` of an optional series of texts, or `default`.
pub open spec fn series_text(a: Option<Vec<Option<String>>>, i: int, default: Seq<char>) -> Seq<
    char,
> {
    match a {
        Some(v) => if 0 <= i < v@.len() {
            text_or(v@[i], default)
        } else {
            default
        },
        None => default,
    }
}

/// Entry `i` of an optional series of codes, or 0.
pub open spec fn series_code(a: Option<Vec<Option<i64>>>, i: int) -> int {
    match a {
        Some(v) => if 0 <= i < v@.len() {
            match v@[i] {
                Some(c) => c as int,
                None => 0,
            }
        } else {
            0
        },
        None => 0,
    }
}

/// The heading line of a weather report.
pub open spec fn report_heading(place: Place, location: Seq<char>) -> Seq<char> {
    "Wetter für "@ + text_or(place.name, location) + ", "@ + text_or(place.region, ""@) + " ("@
        + text_or(place.country, ""@) + ")"@
}

/// The line on current conditions.
pub open spec fn current_line(c: CurrentWeather) -> Seq<char> {
    "Aktuell: "@ + text_or(c.temperature, "0"@) + "°C, "@ + weather_text(
        match c.weathercode {
            Some(x) => x as int,
            None => 0,
        },
    ) + ", Wind: "@ + text_or(c.windspeed, "0"@) + " km/h"@
}

/// The line for day `i` of the daily series.
pub open spec fn day_line(d: DailyWeather, i: int) -> Seq<char> {
    series_text(d.time, i, ""@) + ": "@ + series_text(d.temperature_min, i, "0"@) + "°C - "@
        + series_text(d.temperature_max, i, "0"@) + "°C, "@ + weather_text(
        series_code(d.weathercode, i),
    ) + ", Niederschlag: "@ + series_text(d.precipitation, i, "0"@) + " mm"@
}

/// The number of days reported: those listed, three at most.
pub open spec fn days_reported(d: DailyWeather) -> nat {
    match d.time {
        Some(t) => if t@.len() < 3 {
            t@.len()
        } else {
            3
        },
        None => 0,
    }
}

/// The lines of a weather report.
pub open spec fn weather_lines(place: Place, location: Seq<char>, f: Forecast) -> Seq<Seq<char>> {
    seq![report_heading(place, location)] + (match f.current {
        Some(c) => seq![current_line(c)],
        None => Seq::empty(),
    }) + (match f.daily {
        Some(d) => Seq::new(days_reported(d), |i: int| day_line(d, i)),
        None => Seq::empty(),
    })
}

/// The weather report for `place` (found for `location`); `forecast` is `None`
/// where the forecast response was no valid JSON.
pub open spec fn weather_report_of(place: Place, location: Seq<char>, forecast: Option<Forecast>) -> Seq<
    char,
> {
    match forecast {
        Some(f) => join(weather_lines(place, location, f), "\n"@),
        None => "Fehler beim Parsen der Wetterdaten."@,
    }
}

fn series_text_exec(a: &Option<Vec<Option<String>>>, i: usize, default: &str) -> (r: Vec<char>)
    ensures
        r@ == series_text(*a, i as int, default@),
{
    match a {
        Some(v) => if i < v.len() {
            text_or_exec(&v[i], default)
        } else {
            chars_of(default)
        },
        None => chars_of(default),
    }
}

fn series_code_exec(a: &Option<Vec<Option<i64>>>, i: usize) -> (r: i64)
    ensures
        r as int == series_code(*a, i as int),
{
    match a {
        Some(v) => if i < v.len() {
            match v[i] {
                Some(c) => c,
                None => 0,
            }
        } else {
            0
        },
        None => 0,
    }
}

fn day_line_exec(d: &DailyWeather, i: usize) -> (r: Vec<char>)
    ensures
        r@ == day_line(*d, i as int),
{
    let r = series_text_exec(&d.time, i, "");
    let r = concat_vec(&r, &chars_of(": "));
    let r = concat_vec(&r, &series_text_exec(&d.temperature_min, i, "0"));
    let r = concat_vec(&r, &chars_of("°C - "));
    let r = concat_vec(&r, &series_text_exec(&d.temperature_max, i, "0"));
    let r = concat_vec(&r, &chars_of("°C, "));
    let r = concat_vec(&r, &chars_of(weather_code_desc(series_code_exec(&d.weathercode, i))));
    let r = concat_vec(&r, &chars_of(", Niederschlag: "));
    let r = concat_vec(&r, &series_text_exec(&d.precipitation, i, "0"));
    concat_vec(&r, &chars_of(" mm"))
}

/// Builds the weather report for `place`, found for `location`.
pub fn weather_report(place: &Place, location: &str, forecast: &Option<Forecast>) -> (r: String)
    ensures
        r@ == weather_report_of(*place, location@, *forecast),
{
    match forecast {
        None => string_of(&chars_of("Fehler beim Parsen der Wetterdaten.")),
        Some(f) => {
            let mut lines: Vec<Vec<char>> = Vec::new();
            let h = chars_of("Wetter für ");
            let h = concat_vec(&h, &text_or_exec(&place.name, location));
            let h = concat_vec(&h, &chars_of(", "));
            let h = concat_vec(&h, &text_or_exec(&place.region, ""));
            let h = concat_vec(&h, &chars_of(" ("));
            let h = concat_vec(&h, &text_or_exec(&place.country, ""));
            let h = concat_vec(&h, &chars_of(")"));
            proof {
                lemma_views_push(lines@, h);
            }
            lines.push(h);
            match &f.current {
                Some(c) => {
                    let code = match c.weathercode {
                        Some(x) => x,
                        None => 0,
                    };
                    let l = chars_of("Aktuell: ");
                    let l = concat_vec(&l, &text_or_exec(&c.temperature, "0"));
                    let l = concat_vec(&l, &chars_of("°C, "));
                    let l = concat_vec(&l, &chars_of(weather_code_desc(code)));
                    let l = concat_vec(&l, &chars_of(", Wind: "));
                    let l = concat_vec(&l, &text_or_exec(&c.windspeed, "0"));
                    let l = concat_vec(&l, &chars_of(" km/h"));
                    proof {
                        lemma_views_push(lines@, l);
                    }
                    lines.push(l);
                },
                None => {},
            }
            let ghost head = part_views(lines@);
            match &f.daily {
                Some(d) => {
                    let n: usize = match &d.time {
                        Some(t) => if t.len() < 3 {
                            t.len()
                        } else {
                            3
                        },
                        None => 0,
                    };
                    let mut i: usize = 0;
                    while i < n
                        invariant
                            i <= n,
                            n == days_reported(*d),
                            part_views(lines@) == head + Seq::new(i as nat, |k: int| day_line(*d, k)),
                        decreases n - i,
                    {
                        let l = day_line_exec(d, i);
                        proof {
                            lemma_views_push(lines@, l);
                        }
                        lines.push(l);
                        assert(Seq::new((i + 1) as nat, |k: int| day_line(*d, k)) == Seq::new(
                            i as nat,
                            |k: int| day_line(*d, k),
                        ).push(day_line(*d, i as int)));
                        i += 1;
                    }
                },
                None => {
                    assert(part_views(lines@) == head + Seq::<Seq<char>>::empty());
                },
            }
            assert(part_views(lines@) == weather_lines(*place, location@, *f));
            let nl = chars_of("\n");
            string_of(&join_vec(&lines, &nl))
        },
    }
}

} // verus!

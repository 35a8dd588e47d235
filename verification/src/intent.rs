//! Deciding from a transcribed utterance whether, and what, to look up on the web.

use vstd::prelude::*;
use vstd::utf8::encode_utf8;
use crate::text::{
    ascii_lower, byte_len, byte_len_at_least, chars_of, concat_vec, contains_bytes, contains_in, find, find_in,
    first_word, first_word_vec, has_char, lemma_find_in_bounds, lowercase, same_chars, starts_with,
    starts_with_vec, string_of, strip_trailing, strip_trailing_vec, tail_from_byte, tail_from_byte_vec,
    to_lowercase, trim, trim_vec,
};

verus! {

/// A likely domain name: holds a dot, no space, and at least four bytes.
pub open spec fn likely_domain(s: Seq<char>) -> bool {
    s.contains('.') && !s.contains(' ') && byte_len(s) >= 4
}

fn likely_domain_vec(v: &Vec<char>) -> (r: bool)
    ensures
        r == likely_domain(v@),
{
    has_char(v, '.') && !has_char(v, ' ') && byte_len_at_least(v, 4)
}

/// Whether `s` looks like a domain name that the user wants fetched.
pub fn is_likely_domain(s: &str) -> (r: bool)
    ensures
        r == likely_domain(s@),
{
    let v = chars_of(s);
    likely_domain_vec(&v)
}

/// An undecided step (`Some(None)`) gives way to the next one; a query or a
/// slicing fault (`None`) stands.
pub open spec fn or_else(
    a: Option<Option<Seq<char>>>,
    b: Option<Option<Seq<char>>>,
) -> Option<Option<Seq<char>>> {
    if a == Some(None::<Seq<char>>) {
        b
    } else {
        a
    }
}

pub open spec fn opt_view(r: Option<Option<Vec<char>>>) -> Option<Option<Seq<char>>> {
    match r {
        None => None,
        Some(None) => Some(None),
        Some(Some(v)) => Some(Some(v@)),
    }
}

/// The query that follows keyword `kw`: find `kw` in the lowercased text and
/// take the trimmed rest of the original text from the same byte offset on.
pub open spec fn query_after(text: Seq<char>, lower: Seq<char>, kw: Seq<char>) -> Option<
    Option<Seq<char>>,
> {
    match find(encode_utf8(lower), encode_utf8(kw)) {
        None => Some(None),
        Some(idx) => match tail_from_byte(text, idx + encode_utf8(kw).len()) {
            None => None,
            Some(rest) => if trim(rest).len() > 0 {
                Some(Some(trim(rest)))
            } else {
                Some(None)
            },
        },
    }
}

/// A search command ("such nach", "suche nach", "such mal nach", "google").
pub open spec fn command_query(text: Seq<char>, lower: Seq<char>) -> Option<Option<Seq<char>>> {
    or_else(
        query_after(text, lower, "such nach "@),
        or_else(
            query_after(text, lower, "suche nach "@),
            or_else(
                query_after(text, lower, "such mal nach "@),
                query_after(text, lower, "google "@),
            ),
        ),
    )
}

/// The page to fetch for a domain `d`, with `https://` unless `d` starts with `http`.
pub open spec fn webfetch_query(d: Seq<char>) -> Seq<char> {
    "WEBFETCH:"@ + (if starts_with(d, "http"@) {
        Seq::<char>::empty()
    } else {
        "https://"@
    }) + d
}

/// The domain named after a preposition such as " auf ".
pub open spec fn domain_after(text: Seq<char>, lower: Seq<char>, prep: Seq<char>) -> Option<
    Option<Seq<char>>,
> {
    match find(encode_utf8(lower), encode_utf8(prep)) {
        None => Some(None),
        Some(idx) => match tail_from_byte(text, idx + encode_utf8(prep).len()) {
            None => None,
            Some(rest) => {
                let d = first_word(trim(strip_trailing(trim(rest), '?')));
                if likely_domain(d) {
                    Some(Some(webfetch_query(d)))
                } else {
                    Some(None)
                }
            },
        },
    }
}

/// A domain after " auf ", " von " or " von der ".
pub open spec fn domain_query(text: Seq<char>, lower: Seq<char>) -> Option<Option<Seq<char>>> {
    or_else(
        domain_after(text, lower, " auf "@),
        or_else(domain_after(text, lower, " von "@), domain_after(text, lower, " von der "@)),
    )
}

/// A weather question: the place after the first " in ", or else the whole text.
pub open spec fn weather_query(text: Seq<char>, lower: Seq<char>) -> Option<Option<Seq<char>>> {
    let whole = Some(Some("Wetter "@ + strip_trailing(text, '?')));
    match find(encode_utf8(lower), encode_utf8(" in "@)) {
        None => whole,
        Some(idx) => match tail_from_byte(text, idx + 4) {
            None => None,
            Some(rest) => {
                let place = trim(strip_trailing(trim(rest), '?'));
                if place.len() > 0 {
                    Some(Some("Wetter "@ + place))
                } else {
                    whole
                }
            },
        },
    }
}

pub open spec fn mentions(lower: Seq<char>, w: Seq<char>) -> bool {
    contains_bytes(encode_utf8(lower), encode_utf8(w))
}

/// What to search for in `text`, given its lowercase form `lower`: `Some(Some(q))`
/// for query `q`, `Some(None)` for none, and `None` where a byte offset found in
/// `lower` is no character boundary of `text`.
pub open spec fn search_intent(text: Seq<char>, lower: Seq<char>) -> Option<Option<Seq<char>>> {
    or_else(
        command_query(text, lower),
        or_else(
            domain_query(text, lower),
            if mentions(lower, "wetter"@) {
                weather_query(text, lower)
            } else if mentions(lower, "nachricht"@) || mentions(lower, "aktuell"@) || mentions(
                lower,
                "neuigkeit"@,
            ) {
                Some(Some(strip_trailing(text, '?')))
            } else if mentions(lower, "recherchier"@) || mentions(lower, "googel"@) || lower
                == "suche"@ {
                Some(Some(strip_trailing(text, '?')))
            } else {
                Some(None)
            },
        ),
    )
}

fn mentions_exec(lower: &str, w: &str) -> (r: bool)
    ensures
        r == mentions(lower@, w@),
{
    contains_in(lower.as_bytes(), w.as_bytes())
}

fn query_after_exec(tv: &Vec<char>, lower: &str, kw: &str) -> (r: Option<Option<Vec<char>>>)
    ensures
        opt_view(r) == query_after(tv@, lower@, kw@),
{
    let lb = lower.as_bytes();
    let kb = kw.as_bytes();
    let lbl = lb.len();
    match find_in(lb, kb) {
        None => Some(None),
        Some(idx) => {
            proof {
                lemma_find_in_bounds(lb@, kb@, 0);
            }
            match tail_from_byte_vec(tv, idx + kb.len()) {
                None => None,
                Some(rest) => {
                    let q = trim_vec(&rest);
                    if q.len() > 0 {
                        Some(Some(q))
                    } else {
                        Some(None)
                    }
                },
            }
        },
    }
}

fn webfetch_exec(d: &Vec<char>) -> (r: Vec<char>)
    ensures
        r@ == webfetch_query(d@),
{
    let http = chars_of("http");
    let head = chars_of("WEBFETCH:");
    let scheme = if starts_with_vec(d, &http) {
        Vec::new()
    } else {
        chars_of("https://")
    };
    let hs = concat_vec(&head, &scheme);
    concat_vec(&hs, d)
}

fn domain_after_exec(tv: &Vec<char>, lower: &str, prep: &str) -> (r: Option<Option<Vec<char>>>)
    ensures
        opt_view(r) == domain_after(tv@, lower@, prep@),
{
    let lb = lower.as_bytes();
    let pb = prep.as_bytes();
    let lbl = lb.len();
    match find_in(lb, pb) {
        None => Some(None),
        Some(idx) => {
            proof {
                lemma_find_in_bounds(lb@, pb@, 0);
            }
            match tail_from_byte_vec(tv, idx + pb.len()) {
                None => None,
                Some(rest) => {
                    let t = trim_vec(&rest);
                    let s = strip_trailing_vec(&t, '?');
                    let after = trim_vec(&s);
                    let d = first_word_vec(&after);
                    if likely_domain_vec(&d) {
                        Some(Some(webfetch_exec(&d)))
                    } else {
                        Some(None)
                    }
                },
            }
        },
    }
}

fn domain_query_exec(tv: &Vec<char>, lower: &str) -> (r: Option<Option<Vec<char>>>)
    ensures
        opt_view(r) == domain_query(tv@, lower@),
{
    let a = domain_after_exec(tv, lower, " auf ");
    if !matches!(a, Some(None)) {
        return a;
    }
    let b = domain_after_exec(tv, lower, " von ");
    if !matches!(b, Some(None)) {
        return b;
    }
    domain_after_exec(tv, lower, " von der ")
}

fn weather_query_exec(tv: &Vec<char>, lower: &str) -> (r: Option<Option<Vec<char>>>)
    ensures
        opt_view(r) == weather_query(tv@, lower@),
{
    let lb = lower.as_bytes();
    let ib = " in ".as_bytes();
    let lbl = lb.len();
    let word = chars_of("Wetter ");
    match find_in(lb, ib) {
        Some(idx) => {
            proof {
                lemma_find_in_bounds(lb@, ib@, 0);
            }
            assert(ib@.len() == 4) by {
                reveal_strlit(" in ");
                reveal_with_fuel(encode_utf8, 5);
            }
            match tail_from_byte_vec(tv, idx + 4) {
                None => {
                    return None;
                },
                Some(rest) => {
                    let t = trim_vec(&rest);
                    let s = strip_trailing_vec(&t, '?');
                    let place = trim_vec(&s);
                    if place.len() > 0 {
                        return Some(Some(concat_vec(&word, &place)));
                    }
                },
            }
        },
        None => {},
    }
    let whole = strip_trailing_vec(tv, '?');
    Some(Some(concat_vec(&word, &whole)))
}

fn intent_exec(tv: &Vec<char>, lower: &str) -> (r: Option<Option<Vec<char>>>)
    ensures
        opt_view(r) == search_intent(tv@, lower@),
{
    // Direct search commands.
    let a = query_after_exec(tv, lower, "such nach ");
    if !matches!(a, Some(None)) {
        return a;
    }
    let b = query_after_exec(tv, lower, "suche nach ");
    if !matches!(b, Some(None)) {
        return b;
    }
    let c = query_after_exec(tv, lower, "such mal nach ");
    if !matches!(c, Some(None)) {
        return c;
    }
    let d = query_after_exec(tv, lower, "google ");
    if !matches!(d, Some(None)) {
        return d;
    }
    // A page to summarise, named after a preposition; a named domain is
    // fetched whether or not a summary is asked for.
    let wants = mentions_exec(lower, "zusammenfass") || mentions_exec(lower, "neuigkeit")
        || mentions_exec(lower, "nachricht") || mentions_exec(lower, "aktuell") || mentions_exec(
        lower,
        "recherchier",
    ) || mentions_exec(lower, "artikel");
    if wants {
        let f = domain_query_exec(tv, lower);
        if !matches!(f, Some(None)) {
            return f;
        }
    }
    let g = domain_query_exec(tv, lower);
    if !matches!(g, Some(None)) {
        return g;
    }
    if mentions_exec(lower, "wetter") {
        return weather_query_exec(tv, lower);
    }
    if mentions_exec(lower, "nachricht") || mentions_exec(lower, "aktuell") || mentions_exec(
        lower,
        "neuigkeit",
    ) {
        return Some(Some(strip_trailing_vec(tv, '?')));
    }
    let lv = chars_of(lower);
    let suche = chars_of("suche");
    if mentions_exec(lower, "recherchier") || mentions_exec(lower, "googel") || same_chars(
        &lv,
        &suche,
    ) {
        return Some(Some(strip_trailing_vec(tv, '?')));
    }
    Some(None)
}

/// What `detect_search_intent` finds: a query, none, or a byte offset that is no
/// character boundary of the text (where slicing the text panics).
pub enum IntentOutcome {
    Query(String),
    NoQuery,
    SliceFault,
}

pub open spec fn outcome_agrees(o: IntentOutcome, s: Option<Option<Seq<char>>>) -> bool {
    match o {
        IntentOutcome::Query(q) => s == Some(Some(q@)),
        IntentOutcome::NoQuery => s == Some(None::<Seq<char>>),
        IntentOutcome::SliceFault => s is None,
    }
}

/// A text that is empty once its trailing `c` are stripped is made of `c` only.
proof fn lemma_strip_trailing_empty(s: Seq<char>, c: char)
    requires
        strip_trailing(s, c).len() == 0,
    ensures
        forall|i: int| 0 <= i < s.len() ==> s[i] == c,
    decreases s.len(),
{
    if s.len() > 0 {
        lemma_strip_trailing_empty(s.drop_last(), c);
        assert forall|i: int| 0 <= i < s.len() implies s[i] == c by {
            if i < s.len() - 1 {
                assert(s[i] == s.drop_last()[i]);
            }
        }
    }
}

/// A text of question marks mentions no ASCII word that starts otherwise.
proof fn lemma_marks_mention_nothing(s: Seq<char>, w: Seq<char>)
    requires
        forall|i: int| 0 <= i < s.len() ==> s[i] == '?',
        vstd::utf8::is_ascii_chars(w),
        w.len() > 0,
        w[0] != '?',
    ensures
        !mentions(s, w),
{
    assert(vstd::utf8::is_ascii_chars(s));
    vstd::utf8::is_ascii_chars_encode_utf8(s);
    vstd::utf8::is_ascii_chars_encode_utf8(w);
    let h = encode_utf8(s);
    let n = encode_utf8(w);
    if find(h, n) is Some {
        lemma_find_in_bounds(h, n, 0);
        let i = find(h, n)->0;
        assert(h.subrange(i, i + n.len())[0] == n[0]);
        assert(h[i] == s[i] as u8);
        assert(n[0] == w[0] as u8);
        assert(s[i] == '?');
        let x = w[0] as u32;
        assert(x != 63);
        assert(x < 128);
        assert((x as u8) != 63u8) by (bit_vector)
            requires
                x != 63,
                x < 128,
        ;
        assert(w[0] as u8 == x as u8);
    }
}

/// Every query that a search intent names is a non-empty text, where `lower`
/// lowercases an ASCII text as `str::to_lowercase` does.
proof fn lemma_query_not_empty(text: Seq<char>, lower: Seq<char>)
    requires
        vstd::utf8::is_ascii_chars(text) ==> lower == text.map_values(|c: char| ascii_lower(c)),
    ensures
        search_intent(text, lower) matches Some(Some(q)) ==> q.len() > 0,
{
    reveal_strlit("WEBFETCH:");
    reveal_strlit("Wetter ");
    let bare = strip_trailing(text, '?');
    if bare.len() == 0 {
        lemma_strip_trailing_empty(text, '?');
        assert(vstd::utf8::is_ascii_chars(text));
        assert(lower =~= text);
        reveal_strlit("nachricht");
        reveal_strlit("aktuell");
        reveal_strlit("neuigkeit");
        reveal_strlit("recherchier");
        reveal_strlit("googel");
        reveal_strlit("suche");
        lemma_marks_mention_nothing(lower, "nachricht"@);
        lemma_marks_mention_nothing(lower, "aktuell"@);
        lemma_marks_mention_nothing(lower, "neuigkeit"@);
        lemma_marks_mention_nothing(lower, "recherchier"@);
        lemma_marks_mention_nothing(lower, "googel"@);
        if lower == "suche"@ {
            assert(lower[0] == 's');
        }
    }
}

/// Decides the search intent of `text`, reporting a slicing fault as such
/// where `detect_search_intent` would slice inside a character.
pub fn search_intent_outcome(text: &str) -> (o: IntentOutcome)
    ensures
        outcome_agrees(o, search_intent(text@, lowercase(text@))),
        o matches IntentOutcome::Query(q) ==> q@.len() > 0,
{
    let lower = to_lowercase(text);
    proof {
        lemma_query_not_empty(text@, lower@);
    }
    let tv = chars_of(text);
    match intent_exec(&tv, lower.as_str()) {
        None => IntentOutcome::SliceFault,
        Some(_) => match detect_search_intent(text) {
            Some(q) => IntentOutcome::Query(q),
            None => IntentOutcome::NoQuery,
        },
    }
}

/// The web query that `text` asks for, if any. Every byte offset it finds in
/// the lowercase text must be a character boundary of `text` (elsewhere
/// slicing the text panics; `search_intent_outcome` reports that case).
pub fn detect_search_intent(text: &str) -> (r: Option<String>)
    requires
        search_intent(text@, lowercase(text@)) is Some,
    ensures
        match search_intent(text@, lowercase(text@)) {
            Some(Some(q)) => r matches Some(s) && s@ == q,
            _ => r is None,
        },
        r matches Some(q) ==> q@.len() > 0,
{
    let lower = to_lowercase(text);
    proof {
        lemma_query_not_empty(text@, lower@);
    }
    let tv = chars_of(text);
    match intent_exec(&tv, lower.as_str()) {
        Some(Some(q)) => Some(string_of(&q)),
        _ => None,
    }
}

} // verus!

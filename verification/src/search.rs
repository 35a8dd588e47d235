//! Reading the findings of a general web search: the result snippets of a
//! DuckDuckGo Lite page and the articles that a Wikipedia search names, put
//! together into text for the language model.

use vstd::prelude::*;
use crate::text::{
    chars_of, concat_vec, find_chars_from, find_from, is_white_space, join, join_vec,
    lemma_find_in_bounds, string_of, sub_vec, trim, trim_vec, white_space,
};
use crate::web::{decode_entities, decode_entities_vec, lemma_views_push, part_views, text_or};

verus! {

/// The raw text of each result snippet on a DuckDuckGo Lite page, from `pos`
/// on: what stands between the `>` that closes the tag naming `result-snippet`
/// and the next `</td>`.
pub open spec fn lite_snippets_from(html: Seq<char>, pos: int) -> Seq<Seq<char>>
    decreases html.len() - pos,
{
    if pos < 0 || pos > html.len() {
        Seq::empty()
    } else {
        match find_from(html, "result-snippet"@, pos) {
            None => Seq::empty(),
            Some(i) => match find_from(html, ">"@, i) {
                None => Seq::empty(),
                Some(j) => match find_from(html, "</td>"@, j + 1) {
                    None => Seq::empty(),
                    Some(k) => {
                        proof {
                            lemma_find_in_bounds(html, "result-snippet"@, pos);
                            lemma_find_in_bounds(html, ">"@, i);
                            lemma_find_in_bounds(html, "</td>"@, j + 1);
                        }
                        seq![html.subrange(j + 1, k)] + lite_snippets_from(
                            html,
                            k + "</td>"@.len(),
                        )
                    },
                },
            },
        }
    }
}

/// `s` with every tag (from `<` to `>`) replaced by a space; `in_tag` when
/// `s` starts inside a tag.
pub open spec fn remove_tags(s: Seq<char>, in_tag: bool) -> Seq<char>
    decreases s.len(),
{
    if s.len() == 0 {
        Seq::empty()
    } else if in_tag {
        if s[0] == '>' {
            seq![' '] + remove_tags(s.drop_first(), false)
        } else {
            remove_tags(s.drop_first(), true)
        }
    } else if s[0] == '<' {
        remove_tags(s.drop_first(), true)
    } else {
        seq![s[0]] + remove_tags(s.drop_first(), false)
    }
}

/// `s` with every run of white space turned into one space; `after_space`
/// when the text before `s` ended in such a space.
pub open spec fn collapse_spaces(s: Seq<char>, after_space: bool) -> Seq<char>
    decreases s.len(),
{
    if s.len() == 0 {
        Seq::empty()
    } else if is_white_space(s[0]) {
        (if after_space {
            Seq::empty()
        } else {
            seq![' ']
        }) + collapse_spaces(s.drop_first(), true)
    } else {
        seq![s[0]] + collapse_spaces(s.drop_first(), false)
    }
}

/// The readable text of an HTML fragment: tags removed, common entities
/// decoded, white space collapsed and trimmed.
pub open spec fn clean_fragment(s: Seq<char>) -> Seq<char> {
    trim(collapse_spaces(decode_entities(remove_tags(s, false)), false))
}

/// An article that a Wikipedia search names: its title and its snippet (an
/// HTML fragment); missing fields are `None`.
pub struct WikiHit {
    pub title: Option<String>,
    pub snippet: Option<String>,
}

/// Bullet lines for the snippets that are not blank once cleaned, at most `budget`.
pub open spec fn snippet_lines(snips: Seq<Seq<char>>, budget: nat) -> Seq<Seq<char>>
    decreases snips.len(),
{
    if snips.len() == 0 || budget == 0 {
        Seq::empty()
    } else {
        let c = clean_fragment(snips[0]);
        if c.len() > 0 {
            seq!["- "@ + c] + snippet_lines(snips.drop_first(), (budget - 1) as nat)
        } else {
            snippet_lines(snips.drop_first(), budget)
        }
    }
}

/// The lines for a DuckDuckGo Lite page: its first five non-blank snippets.
pub open spec fn lite_lines(html: Seq<char>) -> Seq<Seq<char>> {
    snippet_lines(lite_snippets_from(html, 0), 5)
}

/// The line for a Wikipedia article: its title and, where not blank, its
/// cleaned snippet; none for an article without a title.
pub open spec fn wiki_line(h: WikiHit) -> Option<Seq<char>> {
    match h.title {
        None => None,
        Some(t) => {
            let c = clean_fragment(text_or(h.snippet, Seq::empty()));
            Some(
                "Wikipedia: "@ + t@ + if c.len() > 0 {
                    ": "@ + c
                } else {
                    Seq::empty()
                },
            )
        },
    }
}

/// Lines for the articles with a title, at most `budget`.
pub open spec fn wiki_lines(hits: Seq<WikiHit>, budget: nat) -> Seq<Seq<char>>
    decreases hits.len(),
{
    if hits.len() == 0 || budget == 0 {
        Seq::empty()
    } else {
        match wiki_line(hits[0]) {
            Some(l) => seq![l] + wiki_lines(hits.drop_first(), (budget - 1) as nat),
            None => wiki_lines(hits.drop_first(), budget),
        }
    }
}

/// The lines found by both lookups: DuckDuckGo Lite first, then up to three
/// Wikipedia articles. `lite` is the Lite page, `wiki` the articles of the
/// Wikipedia search (`None` where its answer held no result list); each is the
/// report of its failure where it failed.
pub open spec fn found_lines(
    lite: Result<String, String>,
    wiki: Result<Option<Vec<WikiHit>>, String>,
) -> Seq<Seq<char>> {
    (match lite {
        Ok(b) => lite_lines(b@),
        Err(_) => Seq::empty(),
    }) + (match wiki {
        Ok(Some(h)) => wiki_lines(h@, 3),
        _ => Seq::empty(),
    })
}

/// The reports of the lookups that failed, Lite first.
pub open spec fn failure_lines(
    lite: Result<String, String>,
    wiki: Result<Option<Vec<WikiHit>>, String>,
) -> Seq<Seq<char>> {
    (match lite {
        Err(e) => seq![e@],
        Ok(_) => Seq::empty(),
    }) + (match wiki {
        Err(e) => seq![e@],
        Ok(_) => Seq::empty(),
    })
}

/// The message for a search that found nothing.
pub open spec fn no_results(query: Seq<char>) -> Seq<char> {
    "Keine Suchergebnisse für '"@ + query + "' gefunden."@
}

/// The text for a general search of `query`: the lines found, one per line;
/// where nothing was found, the failures; where nothing failed either, that
/// nothing was found.
pub open spec fn search_report(
    query: Seq<char>,
    lite: Result<String, String>,
    wiki: Result<Option<Vec<WikiHit>>, String>,
) -> Seq<char> {
    let found = found_lines(lite, wiki);
    let failed = failure_lines(lite, wiki);
    if found.len() > 0 {
        join(found, "\n"@)
    } else if failed.len() > 0 {
        join(failed, "\n"@)
    } else {
        no_results(query)
    }
}

fn push_part(parts: &mut Vec<Vec<char>>, v: Vec<char>)
    ensures
        part_views(final(parts)@) == part_views(old(parts)@).push(v@),
{
    proof {
        lemma_views_push(parts@, v);
    }
    parts.push(v);
}

/// Cuts the raw snippets out of a DuckDuckGo Lite page.
pub fn lite_snippets(html: &Vec<char>) -> (r: Vec<Vec<char>>)
    ensures
        part_views(r@) == lite_snippets_from(html@, 0),
{
    let marker = chars_of("result-snippet");
    let close = chars_of(">");
    let end = chars_of("</td>");
    proof {
        reveal_strlit(">");
        reveal_strlit("</td>");
    }
    let mut out: Vec<Vec<char>> = Vec::new();
    let mut pos: usize = 0;
    assert(part_views(out@) + lite_snippets_from(html@, 0) == lite_snippets_from(html@, 0));
    loop
        invariant
            pos <= html@.len(),
            marker@ == "result-snippet"@,
            close@ == ">"@,
            end@ == "</td>"@,
            end@.len() == 5,
            close@.len() == 1,
            lite_snippets_from(html@, 0) == part_views(out@) + lite_snippets_from(
                html@,
                pos as int,
            ),
        decreases html@.len() - pos,
    {
        let i = match find_chars_from(html, &marker, pos) {
            Some(i) => i,
            None => {
                assert(part_views(out@) + Seq::<Seq<char>>::empty() == part_views(out@));
                return out;
            },
        };
        proof {
            lemma_find_in_bounds(html@, marker@, pos as int);
        }
        let j = match find_chars_from(html, &close, i) {
            Some(j) => j,
            None => {
                assert(part_views(out@) + Seq::<Seq<char>>::empty() == part_views(out@));
                return out;
            },
        };
        proof {
            lemma_find_in_bounds(html@, close@, i as int);
            assert(crate::text::matches_at(html@, close@, j as int));
        }
        let hl = html.len();
        assert(j + 1 <= hl);
        let k = match find_chars_from(html, &end, j + 1) {
            Some(k) => k,
            None => {
                assert(part_views(out@) + Seq::<Seq<char>>::empty() == part_views(out@));
                return out;
            },
        };
        proof {
            lemma_find_in_bounds(html@, end@, j + 1);
        }
        let piece = sub_vec(html, j + 1, k);
        let ghost before = part_views(out@);
        let ghost rest = lite_snippets_from(html@, k + 5);
        push_part(&mut out, piece);
        assert(before + (seq![piece@] + rest) == before.push(piece@) + rest);
        pos = k + 5;
    }
}

fn remove_tags_vec(s: &Vec<char>) -> (r: Vec<char>)
    ensures
        r@ == remove_tags(s@, false),
{
    let mut out: Vec<char> = Vec::new();
    let mut in_tag = false;
    let mut i: usize = 0;
    assert(s@.skip(0) == s@);
    while i < s.len()
        invariant
            i <= s@.len(),
            remove_tags(s@, false) == out@ + remove_tags(s@.skip(i as int), in_tag),
        decreases s.len() - i,
    {
        let c = s[i];
        let ghost rest = remove_tags(s@.skip(i + 1), if in_tag {
            c != '>'
        } else {
            c == '<'
        });
        assert(s@.skip(i as int)[0] == c);
        assert(s@.skip(i as int).drop_first() == s@.skip(i + 1));
        let ghost before = out@;
        if in_tag {
            if c == '>' {
                out.push(' ');
                in_tag = false;
                assert(before + (seq![' '] + rest) == out@ + rest);
            }
        } else if c == '<' {
            in_tag = true;
        } else {
            out.push(c);
            assert(before + (seq![c] + rest) == out@ + rest);
        }
        i += 1;
    }
    assert(out@ + Seq::<char>::empty() == out@);
    out
}

fn collapse_spaces_vec(s: &Vec<char>) -> (r: Vec<char>)
    ensures
        r@ == collapse_spaces(s@, false),
{
    let mut out: Vec<char> = Vec::new();
    let mut after = false;
    let mut i: usize = 0;
    assert(s@.skip(0) == s@);
    while i < s.len()
        invariant
            i <= s@.len(),
            collapse_spaces(s@, false) == out@ + collapse_spaces(s@.skip(i as int), after),
        decreases s.len() - i,
    {
        let c = s[i];
        let ws = white_space(c);
        let ghost rest = collapse_spaces(s@.skip(i + 1), ws);
        assert(s@.skip(i as int)[0] == c);
        assert(s@.skip(i as int).drop_first() == s@.skip(i + 1));
        let ghost before = out@;
        if ws {
            if !after {
                out.push(' ');
                assert(before + (seq![' '] + rest) == out@ + rest);
            } else {
                assert(before + (Seq::<char>::empty() + rest) == out@ + rest);
            }
        } else {
            out.push(c);
            assert(before + (seq![c] + rest) == out@ + rest);
        }
        after = ws;
        i += 1;
    }
    assert(out@ + Seq::<char>::empty() == out@);
    out
}

/// The readable text of an HTML fragment.
pub fn clean_fragment_vec(s: &Vec<char>) -> (r: Vec<char>)
    ensures
        r@ == clean_fragment(s@),
{
    let a = remove_tags_vec(s);
    let b = decode_entities_vec(&a);
    let c = collapse_spaces_vec(&b);
    trim_vec(&c)
}

fn snippet_lines_vec(snips: &Vec<Vec<char>>, budget: usize) -> (r: Vec<Vec<char>>)
    ensures
        part_views(r@) == snippet_lines(part_views(snips@), budget as nat),
{
    let ghost all = part_views(snips@);
    let dash = chars_of("- ");
    let mut out: Vec<Vec<char>> = Vec::new();
    let mut left = budget;
    let mut i: usize = 0;
    assert(all.skip(0) == all);
    assert(part_views(out@) + snippet_lines(all, budget as nat) == snippet_lines(all, budget as nat));
    while i < snips.len() && left > 0
        invariant
            i <= snips@.len(),
            all == part_views(snips@),
            dash@ == "- "@,
            snippet_lines(all, budget as nat) == part_views(out@) + snippet_lines(
                all.skip(i as int),
                left as nat,
            ),
        decreases snips.len() - i,
    {
        assert(all.skip(i as int)[0] == snips@[i as int]@);
        assert(all.skip(i as int).drop_first() == all.skip(i + 1));
        let c = clean_fragment_vec(&snips[i]);
        if c.len() > 0 {
            let ghost before = part_views(out@);
            let ghost rest = snippet_lines(all.skip(i + 1), (left - 1) as nat);
            let line = concat_vec(&dash, &c);
            push_part(&mut out, line);
            assert(before + (seq![line@] + rest) == part_views(out@) + rest);
            left = left - 1;
        }
        i += 1;
    }
    assert(snippet_lines(all.skip(i as int), left as nat) == Seq::<Seq<char>>::empty());
    assert(part_views(out@) + Seq::<Seq<char>>::empty() == part_views(out@));
    out
}

fn wiki_line_vec(h: &WikiHit) -> (r: Option<Vec<char>>)
    ensures
        match wiki_line(*h) {
            Some(l) => r matches Some(v) && v@ == l,
            None => r is None,
        },
{
    match &h.title {
        None => None,
        Some(t) => {
            let raw = match &h.snippet {
                Some(x) => chars_of(x.as_str()),
                None => Vec::new(),
            };
            let c = clean_fragment_vec(&raw);
            let head = concat_vec(&chars_of("Wikipedia: "), &chars_of(t.as_str()));
            if c.len() > 0 {
                let tail = concat_vec(&chars_of(": "), &c);
                let l = concat_vec(&head, &tail);
                assert(l@ == "Wikipedia: "@ + t@ + (": "@ + c@));
                Some(l)
            } else {
                assert(head@ + Seq::<char>::empty() == head@);
                Some(head)
            }
        },
    }
}

fn wiki_lines_vec(hits: &Vec<WikiHit>, budget: usize) -> (r: Vec<Vec<char>>)
    ensures
        part_views(r@) == wiki_lines(hits@, budget as nat),
{
    let mut out: Vec<Vec<char>> = Vec::new();
    let mut left = budget;
    let mut i: usize = 0;
    assert(hits@.skip(0) == hits@);
    assert(part_views(out@) + wiki_lines(hits@, budget as nat) == wiki_lines(hits@, budget as nat));
    while i < hits.len() && left > 0
        invariant
            i <= hits@.len(),
            wiki_lines(hits@, budget as nat) == part_views(out@) + wiki_lines(
                hits@.skip(i as int),
                left as nat,
            ),
        decreases hits.len() - i,
    {
        assert(hits@.skip(i as int)[0] == hits@[i as int]);
        assert(hits@.skip(i as int).drop_first() == hits@.skip(i + 1));
        match wiki_line_vec(&hits[i]) {
            Some(l) => {
                let ghost before = part_views(out@);
                let ghost rest = wiki_lines(hits@.skip(i + 1), (left - 1) as nat);
                push_part(&mut out, l);
                assert(before + (seq![l@] + rest) == part_views(out@) + rest);
                left = left - 1;
            },
            None => {},
        }
        i += 1;
    }
    assert(wiki_lines(hits@.skip(i as int), left as nat) == Seq::<Seq<char>>::empty());
    assert(part_views(out@) + Seq::<Seq<char>>::empty() == part_views(out@));
    out
}

fn append_parts(a: &mut Vec<Vec<char>>, b: Vec<Vec<char>>)
    ensures
        part_views(final(a)@) == part_views(old(a)@) + part_views(b@),
{
    let mut i: usize = 0;
    while i < b.len()
        invariant
            i <= b@.len(),
            part_views(a@) == part_views(old(a)@) + part_views(b@.take(i as int)),
        decreases b.len() - i,
    {
        let ghost before = part_views(a@);
        push_part(a, sub_vec(&b[i], 0, b[i].len()));
        assert(b@[i as int]@.subrange(0, b@[i as int]@.len() as int) == b@[i as int]@);
        assert(part_views(b@.take(i + 1)) == part_views(b@.take(i as int)).push(b@[i as int]@));
        i += 1;
    }
    assert(b@.take(b@.len() as int) == b@);
}

/// The text for a general search of `query`, from the outcome of each lookup:
/// the DuckDuckGo Lite page or the report of its failure, and the Wikipedia
/// articles (`None` where the answer held no result list) or the report of
/// its failure.
pub fn format_search_results(
    query: &str,
    lite: &Result<String, String>,
    wiki: &Result<Option<Vec<WikiHit>>, String>,
) -> (r: String)
    ensures
        r@ == search_report(query@, *lite, *wiki),
{
    let mut found: Vec<Vec<char>> = Vec::new();
    match lite {
        Ok(b) => {
            let snips = lite_snippets(&chars_of(b.as_str()));
            let lines = snippet_lines_vec(&snips, 5);
            append_parts(&mut found, lines);
        },
        Err(_) => {},
    }
    match wiki {
        Ok(Some(h)) => {
            let lines = wiki_lines_vec(h, 3);
            append_parts(&mut found, lines);
        },
        _ => {},
    }
    assert(part_views(found@) == found_lines(*lite, *wiki)) by {
        assert(Seq::<Seq<char>>::empty() + Seq::<Seq<char>>::empty() =~= Seq::<Seq<char>>::empty());
    }
    let nl = chars_of("\n");
    if found.len() > 0 {
        return string_of(&join_vec(&found, &nl));
    }
    let mut failed: Vec<Vec<char>> = Vec::new();
    match lite {
        Err(e) => push_part(&mut failed, chars_of(e.as_str())),
        Ok(_) => {},
    }
    match wiki {
        Err(e) => push_part(&mut failed, chars_of(e.as_str())),
        Ok(_) => {},
    }
    assert(part_views(failed@) == failure_lines(*lite, *wiki));
    if failed.len() > 0 {
        string_of(&join_vec(&failed, &nl))
    } else {
        let t = concat_vec(&chars_of("Keine Suchergebnisse für '"), &chars_of(query));
        string_of(&concat_vec(&t, &chars_of("' gefunden.")))
    }
}

} // verus!

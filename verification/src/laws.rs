//! Properties that hold across the library's operations.

use vstd::prelude::*;
use vstd::utf8::encode_utf8;
use crate::chat::{drops_context, search_context};
use crate::intent::{mentions, query_after, search_intent, webfetch_query};
use crate::search::{
    WikiHit, clean_fragment, found_lines, lite_lines, lite_snippets_from, snippet_lines, wiki_line,
    wiki_lines,
};
use crate::session::{
    Action, ChatViewModel, Event, Phase, Session, absorb_all, saves_conversation, session_step,
};
use crate::stream::{
    StreamLine, ends_sentence, lemma_without_backticks, pending_after, reply_contents, speakable, without_backticks,
};
use crate::speech::meaningful_speech;
use crate::text::{strip_trailing, replace_lit, contains_bytes, find, lowercase, tail_from_byte, utf8_width, byte_len, head_to_byte, lemma_head_to_byte, starts_with, trim, trim_end, trim_start};
use crate::view::wrap_text;
use crate::web::{decode_entities, SearchRoute, weather_text, clipped_page, percent_encode, route_agrees, url_safe};

verus! {

/// The strings of `ss` one after another.
pub open spec fn concat_all(ss: Seq<Seq<char>>) -> Seq<char>
    decreases ss.len(),
{
    if ss.len() == 0 {
        Seq::empty()
    } else {
        ss[0] + concat_all(ss.drop_first())
    }
}

/// The text handed over for speaking from reply texts `cs`, when the reply
/// so far was `full`: each text that is outside code, without its backticks.
pub open spec fn spoken_text(full: Seq<char>, cs: Seq<Seq<char>>) -> Seq<char>
    decreases cs.len(),
{
    if cs.len() == 0 {
        Seq::empty()
    } else {
        let f1 = full + cs[0];
        (if speakable(f1, cs[0]) {
            without_backticks(cs[0])
        } else {
            Seq::empty()
        }) + spoken_text(f1, cs.drop_first())
    }
}

/// The reply text kept is everything received, in order.
pub proof fn law_reply_keeps_all_text(full: Seq<char>, pending: Seq<char>, cs: Seq<Seq<char>>)
    ensures
        absorb_all(full, pending, cs).0 == full + concat_all(cs),
    decreases cs.len(),
{
    if cs.len() > 0 {
        let f1 = full + cs[0];
        let p1 = pending_after(pending, f1, cs[0]).0;
        law_reply_keeps_all_text(f1, p1, cs.drop_first());
        assert(f1 + concat_all(cs.drop_first()) == full + (cs[0] + concat_all(cs.drop_first())));
    } else {
        assert(full + Seq::<char>::empty() == full);
    }
}

/// Every piece of speakable reply text is handed over for speaking exactly
/// once and in order: the segments handed over, then what still waits, are
/// what waited before followed by the speakable text taken in.
pub proof fn law_speech_loses_nothing(full: Seq<char>, pending: Seq<char>, cs: Seq<Seq<char>>)
    ensures
        ({
            let (f, p, segs) = absorb_all(full, pending, cs);
            concat_all(segs) + p == pending + spoken_text(full, cs)
        }),
    decreases cs.len(),
{
    if cs.len() == 0 {
        assert(Seq::<char>::empty() + pending == pending + Seq::<char>::empty());
    } else {
        let c = cs[0];
        let f1 = full + c;
        let (p1, seg) = pending_after(pending, f1, c);
        law_speech_loses_nothing(f1, p1, cs.drop_first());
        let (f2, p2, segs) = absorb_all(f1, p1, cs.drop_first());
        let rest = spoken_text(f1, cs.drop_first());
        assert(concat_all(segs) + p2 == p1 + rest);
        match seg {
            Some(s) => {
                assert(s == pending + without_backticks(c));
                assert((seq![s] + segs).drop_first() == segs);
                assert(concat_all(seq![s] + segs) == s + concat_all(segs));
                assert(p1 == Seq::<char>::empty());
                assert(s + concat_all(segs) + p2 == s + (concat_all(segs) + p2));
                assert(Seq::<char>::empty() + rest == rest);
                assert(pending + without_backticks(c) + rest == pending + (without_backticks(c)
                    + rest));
            },
            None => {
                if speakable(f1, c) {
                    assert(p1 == pending + without_backticks(c));
                    assert(pending + without_backticks(c) + rest == pending + (without_backticks(c)
                        + rest));
                } else {
                    assert(p1 == pending);
                    assert(Seq::<char>::empty() + rest == rest);
                }
            },
        }
    }
}

/// A segment handed over for speaking holds no backtick, takes at least 80
/// bytes and ends a sentence.
pub proof fn law_segments_are_sentences(pending: Seq<char>, full: Seq<char>, content: Seq<char>)
    requires
        !pending.contains('`'),
    ensures
        pending_after(pending, full, content).1 matches Some(seg) ==> !seg.contains('`') && byte_len(
            seg,
        ) >= 80 && ends_sentence(seg),
        !pending_after(pending, full, content).0.contains('`'),
{
    lemma_without_backticks(content);
    if speakable(full, content) {
        lemma_no_backtick_concat(pending, without_backticks(content));
    }
}

proof fn lemma_no_backtick_concat(a: Seq<char>, b: Seq<char>)
    requires
        !a.contains('`'),
    ensures
        !b.contains('`') ==> !(a + b).contains('`'),
{
    if !b.contains('`') {
        assert forall|i: int| 0 <= i < (a + b).len() implies (a + b)[i] != '`' by {
            if i < a.len() {
                assert((a + b)[i] == a[i]);
            } else {
                assert((a + b)[i] == b[i - a.len()]);
            }
        }
    }
}

/// A search that removes its result from the history: after the user's
/// words, the search result and a non-empty reply are added, dropping the
/// search context leaves the history with the user's words and the reply only.
pub proof fn law_search_context_removed(
    h: Seq<(Seq<char>, Seq<char>)>,
    user: Seq<char>,
    query: Seq<char>,
    result: Seq<char>,
    reply: Seq<char>,
)
    requires
        h.len() >= 1,
    ensures
        ({
            let h3 = h.push(("user"@, user)).push(("system"@, search_context(query, result))).push(
                ("assistant"@, reply),
            );
            drops_context(h3) && h3.remove(h3.len() - 2) == h.push(("user"@, user)).push(
                ("assistant"@, reply),
            )
        }),
{
    let h3 = h.push(("user"@, user)).push(("system"@, search_context(query, result))).push(
        ("assistant"@, reply),
    );
    let marker = "Web search result"@;
    let ctx = search_context(query, result);
    assert(starts_with(ctx, marker)) by {
        reveal_strlit("Web search result");
        reveal_strlit("Web search result for '");
        assert(ctx.take(marker.len() as int) =~= marker);
    }
    assert(h3[h3.len() - 2] == ("system"@, ctx));
    assert(h3.remove(h3.len() - 2) =~= h.push(("user"@, user)).push(("assistant"@, reply)));
}

/// The views `v`, sessions `s` and actions `rs` follow from the events `es`,
/// one step per event.
pub open spec fn steps_through(
    v: Seq<ChatViewModel>,
    s: Seq<Session>,
    es: Seq<Event>,
    rs: Seq<Action>,
) -> bool {
    &&& v.len() == es.len() + 1
    &&& s.len() == es.len() + 1
    &&& rs.len() == es.len()
    &&& forall|i: int|
        #![trigger rs[i]]
        0 <= i < es.len() ==> step(v[i], v[i + 1], s[i], s[i + 1], es[i], rs[i])
}

/// One step of a session, as `Session::step` ensures it; kept folded in
/// proofs that chain several steps.
#[verifier::opaque]
pub open spec fn step(
    v0: ChatViewModel,
    v1: ChatViewModel,
    s0: Session,
    s1: Session,
    e: Event,
    r: Action,
) -> bool {
    session_step(v0, v1, s0, s1, e, r)
}

/// The reply text that one received chunk carries.
pub open spec fn chunk_reply(lines: Vec<Option<StreamLine>>) -> Seq<char> {
    concat_all(reply_contents(lines@, true))
}

proof fn lemma_asked_model(
    v0: ChatViewModel,
    v1: ChatViewModel,
    s0: Session,
    s1: Session,
    t: String,
    r: Action,
)
    requires
        step(v0, v1, s0, s1, Event::Transcribed(Ok(t)), r),
        r is SendChat,
    ensures
        s1.history() == s0.history().push(("user"@, t@)),
        s1.query() is None,
        s1.prompt() == s0.prompt(),
{
    reveal(step);
}

proof fn lemma_asked_search(
    v0: ChatViewModel,
    v1: ChatViewModel,
    s0: Session,
    s1: Session,
    t: String,
    r: Action,
)
    requires
        step(v0, v1, s0, s1, Event::Transcribed(Ok(t)), r),
        r is Search,
    ensures
        s1.history() == s0.history().push(("user"@, t@)),
        s1.query() is Some,
        s1.prompt() == s0.prompt(),
{
    reveal(step);
}

proof fn lemma_searched(
    v0: ChatViewModel,
    v1: ChatViewModel,
    s0: Session,
    s1: Session,
    result: String,
    r: Action,
)
    requires
        step(v0, v1, s0, s1, Event::SearchDone(result), r),
        s0.query() is Some,
    ensures
        s1.history() == s0.history().push(("system"@, search_context(s0.query()->0, result@))),
        s1.query() == s0.query(),
        s1.prompt() == s0.prompt(),
{
    reveal(step);
}

proof fn lemma_sent(v0: ChatViewModel, v1: ChatViewModel, s0: Session, s1: Session, r: Action)
    requires
        step(v0, v1, s0, s1, Event::ChatSent(Ok(())), r),
    ensures
        s1.history() == s0.history(),
        s1.query() == s0.query(),
        s1.prompt() == s0.prompt(),
        s1.reply_full() == Seq::<char>::empty(),
        s1.reply_pending() == Seq::<char>::empty(),
{
    reveal(step);
}

proof fn lemma_chunk(
    v0: ChatViewModel,
    v1: ChatViewModel,
    s0: Session,
    s1: Session,
    lines: Vec<Option<StreamLine>>,
    r: Action,
)
    requires
        step(v0, v1, s0, s1, Event::Chunk(lines), r),
    ensures
        s1.history() == s0.history(),
        s1.query() == s0.query(),
        s1.prompt() == s0.prompt(),
        s1.reply_full() == s0.reply_full() + chunk_reply(lines),
{
    reveal(step);
    law_reply_keeps_all_text(s0.reply_full(), s0.reply_pending(), reply_contents(lines@, true));
}

proof fn lemma_ended(v0: ChatViewModel, v1: ChatViewModel, s0: Session, s1: Session, r: Action)
    requires
        step(v0, v1, s0, s1, Event::StreamEnded, r),
    ensures
        s1.history() == s0.history(),
        s1.query() == s0.query(),
        s1.prompt() == s0.prompt(),
        s1.reply_full() == s0.reply_full(),
{
    reveal(step);
}

proof fn lemma_spoken(v0: ChatViewModel, v1: ChatViewModel, s0: Session, s1: Session, r: Action)
    requires
        step(v0, v1, s0, s1, Event::SpeechDone, r),
    ensures
        ({
            let h1 = if s0.reply_full().len() == 0 {
                s0.history()
            } else {
                s0.history().push(("assistant"@, s0.reply_full()))
            };
            s1.history() == if s0.query() is Some && drops_context(h1) {
                h1.remove(h1.len() - 2)
            } else {
                h1
            }
        }),
        s1.prompt() == s0.prompt(),
{
    reveal(step);
}

proof fn lemma_concat_all_push(ss: Seq<Seq<char>>, x: Seq<char>)
    ensures
        concat_all(ss.push(x)) == concat_all(ss) + x,
    decreases ss.len(),
{
    if ss.len() == 0 {
        assert(ss.push(x).drop_first() == Seq::<Seq<char>>::empty());
        assert(concat_all(Seq::<Seq<char>>::empty()) == Seq::<char>::empty());
        assert(ss.push(x)[0] == x);
        assert(x + Seq::<char>::empty() == x);
        assert(Seq::<char>::empty() + x == x);
    } else {
        assert(ss.push(x)[0] == ss[0]);
        assert(ss.push(x).drop_first() == ss.drop_first().push(x));
        lemma_concat_all_push(ss.drop_first(), x);
        assert(ss[0] + (concat_all(ss.drop_first()) + x) == ss[0] + concat_all(ss.drop_first())
            + x);
    }
}

/// The reply text that the chunks carry, one after another.
pub open spec fn stream_reply(chunks: Seq<Vec<Option<StreamLine>>>) -> Seq<char> {
    concat_all(chunks.map_values(|c: Vec<Option<StreamLine>>| chunk_reply(c)))
}

/// The events of a turn after `head`: the request is sent, the reply arrives
/// in `chunks`, the stream ends and speaking ends.
pub open spec fn reply_events(head: Seq<Event>, chunks: Seq<Vec<Option<StreamLine>>>) -> Seq<Event> {
    head + seq![Event::ChatSent(Ok(()))] + chunks.map_values(
        |c: Vec<Option<StreamLine>>| Event::Chunk(c),
    ) + seq![Event::StreamEnded, Event::SpeechDone]
}

/// The history once a reply `reply` is spoken, from history `h` with search
/// query `q`: a non-empty reply is kept, and the turn's search result dropped.
pub open spec fn history_after_reply(
    h: Seq<(Seq<char>, Seq<char>)>,
    q: Option<Seq<char>>,
    reply: Seq<char>,
) -> Seq<(Seq<char>, Seq<char>)> {
    let h1 = if reply.len() == 0 {
        h
    } else {
        h.push(("assistant"@, reply))
    };
    if q is Some && drops_context(h1) {
        h1.remove(h1.len() - 2)
    } else {
        h1
    }
}

proof fn lemma_chunk_steps(
    v: Seq<ChatViewModel>,
    s: Seq<Session>,
    head: Seq<Event>,
    chunks: Seq<Vec<Option<StreamLine>>>,
    rs: Seq<Action>,
    j: int,
)
    requires
        steps_through(v, s, reply_events(head, chunks), rs),
        0 <= j <= chunks.len(),
        s[head.len() + 1int].history() == s[head.len() as int].history(),
        s[head.len() + 1int].query() == s[head.len() as int].query(),
        s[head.len() + 1int].prompt() == s[head.len() as int].prompt(),
        s[head.len() + 1int].reply_full() == Seq::<char>::empty(),
    ensures
        ({
            let i = head.len() + 1 + j;
            &&& s[i].history() == s[head.len() as int].history()
            &&& s[i].query() == s[head.len() as int].query()
            &&& s[i].prompt() == s[head.len() as int].prompt()
            &&& s[i].reply_full() == concat_all(
                chunks.map_values(|c: Vec<Option<StreamLine>>| chunk_reply(c)).take(j),
            )
        }),
    decreases j,
{
    let replies = chunks.map_values(|c: Vec<Option<StreamLine>>| chunk_reply(c));
    if j == 0 {
        assert(replies.take(0) == Seq::<Seq<char>>::empty());
    } else {
        lemma_chunk_steps(v, s, head, chunks, rs, j - 1);
        let es = reply_events(head, chunks);
        let i = head.len() + j;
        assert(es[i] == Event::Chunk(chunks[j - 1]));
        assert(step(v[i], v[i + 1], s[i], s[i + 1], es[i], rs[i]));
        lemma_chunk(v[i], v[i + 1], s[i], s[i + 1], chunks[j - 1], rs[i]);
        assert(replies.take(j) == replies.take(j - 1).push(replies[j - 1]));
        lemma_concat_all_push(replies.take(j - 1), replies[j - 1]);
    }
}

proof fn lemma_reply_steps(
    v: Seq<ChatViewModel>,
    s: Seq<Session>,
    head: Seq<Event>,
    chunks: Seq<Vec<Option<StreamLine>>>,
    rs: Seq<Action>,
)
    requires
        steps_through(v, s, reply_events(head, chunks), rs),
    ensures
        s[head.len() + chunks.len() + 3int].history() == history_after_reply(
            s[head.len() as int].history(),
            s[head.len() as int].query(),
            stream_reply(chunks),
        ),
        s[head.len() + chunks.len() + 3int].prompt() == s[head.len() as int].prompt(),
{
    let es = reply_events(head, chunks);
    let h = head.len() as int;
    let n = chunks.len() as int;
    let replies = chunks.map_values(|c: Vec<Option<StreamLine>>| chunk_reply(c));
    assert(es[h] == Event::ChatSent(Ok(())));
    assert(step(v[h], v[h + 1], s[h], s[h + 1], es[h], rs[h]));
    lemma_sent(v[h], v[h + 1], s[h], s[h + 1], rs[h]);
    lemma_chunk_steps(v, s, head, chunks, rs, n);
    assert(replies.take(n) == replies);
    let e = h + 1 + n;
    assert(es[e] == Event::StreamEnded);
    assert(step(v[e], v[e + 1], s[e], s[e + 1], es[e], rs[e]));
    lemma_ended(v[e], v[e + 1], s[e], s[e + 1], rs[e]);
    assert(es[e + 1] == Event::SpeechDone);
    assert(step(v[e + 1], v[e + 2], s[e + 1], s[e + 2], es[e + 1], rs[e + 1]));
    lemma_spoken(v[e + 1], v[e + 2], s[e + 1], s[e + 2], rs[e + 1]);
}

/// The conversation is saved after every turn, fully spoken or cut short by
/// the user's voice, and at no other step.
pub proof fn law_every_turn_is_saved(
    v0: ChatViewModel,
    v1: ChatViewModel,
    s0: Session,
    s1: Session,
    e: Event,
    r: Action,
)
    requires
        session_step(v0, v1, s0, s1, e, r),
    ensures
        saves_conversation(r) <==> (e is SpeechDone || (e is VoiceHeard && v0.phase
            == Phase::Speaking)),
{
}

/// A voice heard while the reply is spoken interrupts it: the turn closes
/// as if speaking had ended, keeping the reply received so far, and the new
/// utterance is taken next.
pub proof fn law_voice_interrupts_reply(
    v0: ChatViewModel,
    v1: ChatViewModel,
    s0: Session,
    s1: Session,
    r: Action,
)
    requires
        session_step(v0, v1, s0, s1, Event::VoiceHeard, r),
        v0.phase == Phase::Speaking,
    ensures
        r is Interrupt,
        v1.phase == Phase::Listening,
        s1.history() == history_after_reply(s0.history(), s0.query(), s0.reply_full()),
        s1.prompt() == s0.prompt(),
{
}

/// A turn that the model answers without a web search adds the user's words
/// to the history and, where the reply is not empty, the whole reply after
/// them, however it arrives in chunks; nothing else changes in the history.
pub proof fn law_turn_adds_words_and_reply(
    v: Seq<ChatViewModel>,
    s: Seq<Session>,
    t: String,
    chunks: Seq<Vec<Option<StreamLine>>>,
    rs: Seq<Action>,
)
    requires
        steps_through(v, s, reply_events(seq![Event::Transcribed(Ok(t))], chunks), rs),
        rs[0] is SendChat,
    ensures
        s[chunks.len() + 4int].history() == if stream_reply(chunks).len() == 0 {
            s[0].history().push(("user"@, t@))
        } else {
            s[0].history().push(("user"@, t@)).push(("assistant"@, stream_reply(chunks)))
        },
        s[chunks.len() + 4int].prompt() == s[0].prompt(),
{
    let head = seq![Event::Transcribed(Ok(t))];
    let es = reply_events(head, chunks);
    assert(es[0] == Event::Transcribed(Ok(t)));
    assert(step(v[0], v[1], s[0], s[1], es[0], rs[0]));
    lemma_asked_model(v[0], v[1], s[0], s[1], t, rs[0]);
    lemma_reply_steps(v, s, head, chunks, rs);
}

/// A turn answered with a web search adds the user's words and the reply to
/// the history, however the reply arrives in chunks: the search result, given
/// to the model as context, is taken out again once the reply is in (where
/// the reply is not empty).
pub proof fn law_search_turn_adds_words_and_reply(
    v: Seq<ChatViewModel>,
    s: Seq<Session>,
    t: String,
    result: String,
    chunks: Seq<Vec<Option<StreamLine>>>,
    rs: Seq<Action>,
)
    requires
        steps_through(
            v,
            s,
            reply_events(seq![Event::Transcribed(Ok(t)), Event::SearchDone(result)], chunks),
            rs,
        ),
        rs[0] is Search,
        stream_reply(chunks).len() > 0,
    ensures
        s[chunks.len() + 5int].history() == s[0].history().push(("user"@, t@)).push(
            ("assistant"@, stream_reply(chunks)),
        ),
        s[chunks.len() + 5int].prompt() == s[0].prompt(),
{
    let head = seq![Event::Transcribed(Ok(t)), Event::SearchDone(result)];
    let es = reply_events(head, chunks);
    assert(es[0] == Event::Transcribed(Ok(t)));
    assert(step(v[0], v[1], s[0], s[1], es[0], rs[0]));
    lemma_asked_search(v[0], v[1], s[0], s[1], t, rs[0]);
    assert(es[1] == Event::SearchDone(result));
    assert(step(v[1], v[2], s[1], s[2], es[1], rs[1]));
    lemma_searched(v[1], v[2], s[1], s[2], result, rs[1]);
    lemma_reply_steps(v, s, head, chunks, rs);
    s[0].law_history_starts_with_prompt();
    let q = s[1].query()->0;
    law_search_context_removed(s[0].history(), t@, q, result@, stream_reply(chunks));
}

/// Trimming twice is trimming once.
pub proof fn law_trim_idempotent(s: Seq<char>)
    ensures
        trim(trim(s)) == trim(s),
{
    lemma_trim_start_idempotent(s);
    lemma_trim_start_of_trimmed(trim_start(s));
    lemma_trim_end_idempotent(trim_start(s));
}

proof fn lemma_trim_end_idempotent(s: Seq<char>)
    ensures
        trim_end(trim_end(s)) == trim_end(s),
    decreases s.len(),
{
    if s.len() > 0 && crate::text::is_white_space(s.last()) {
        lemma_trim_end_idempotent(s.drop_last());
    }
}

proof fn lemma_trim_start_idempotent(s: Seq<char>)
    ensures
        trim_start(trim_start(s)) == trim_start(s),
    decreases s.len(),
{
    if s.len() > 0 && crate::text::is_white_space(s[0]) {
        lemma_trim_start_idempotent(s.drop_first());
    }
}

proof fn lemma_trim_start_shorter(s: Seq<char>)
    ensures
        trim_start(s).len() <= s.len(),
    decreases s.len(),
{
    if s.len() > 0 && crate::text::is_white_space(s[0]) {
        lemma_trim_start_shorter(s.drop_first());
    }
}

/// Trimming the end of text that starts with no white space leaves it starting
/// with no white space (or empty).
proof fn lemma_trim_start_of_trimmed(s: Seq<char>)
    requires
        trim_start(s) == s,
    ensures
        trim_start(trim_end(s)) == trim_end(s),
    decreases s.len(),
{
    if s.len() > 0 && crate::text::is_white_space(s.last()) {
        let d = s.drop_last();
        lemma_trim_start_shorter(s.drop_first());
        if d.len() > 0 {
            assert(d[0] == s[0]);
            assert(!crate::text::is_white_space(s[0]));
        }
        lemma_trim_start_of_trimmed(d);
    }
}


/// Byte length adds up over concatenation.
pub proof fn lemma_byte_len_concat(a: Seq<char>, b: Seq<char>)
    ensures
        byte_len(a + b) == byte_len(a) + byte_len(b),
    decreases a.len(),
{
    if a.len() > 0 {
        lemma_byte_len_concat(a.drop_first(), b);
        assert((a + b).drop_first() == a.drop_first() + b);
    } else {
        assert(a + b == b);
    }
}

proof fn lemma_byte_len_prefix(s: Seq<char>, k: int, m: int)
    requires
        0 <= k <= m <= s.len(),
    ensures
        byte_len(s.take(k)) <= byte_len(s.take(m)),
{
    lemma_byte_len_concat(s.take(k), s.subrange(k, m));
    assert(s.take(k) + s.subrange(k, m) == s.take(m));
}

/// Wrapping loses nothing and keeps each piece within the width: the pieces,
/// one after another, are the text, and none is empty or longer than `w` bytes.
pub proof fn law_wrap_within_width(t: Seq<char>, w: nat)
    requires
        w > 0,
        wrap_text(t, w) is Some,
    ensures
        concat_all(wrap_text(t, w)->0) == t,
        forall|i: int|
            0 <= i < wrap_text(t, w)->0.len() ==> byte_len(#[trigger] wrap_text(t, w)->0[i]) <= w
                && wrap_text(t, w)->0[i].len() > 0,
    decreases t.len(),
{
    if t.len() == 0 {
    } else if byte_len(t) <= w {
        let ps = wrap_text(t, w)->0;
        assert(ps == seq![t]);
        assert(ps.drop_first().len() == 0);
        assert(concat_all(ps.drop_first()) == Seq::<char>::empty());
        assert(t + Seq::<char>::empty() == t);
        assert(concat_all(ps) == ps[0] + concat_all(ps.drop_first()));
    } else {
        let h = head_to_byte(t, w as int)->0;
        lemma_head_to_byte(t, w as int);
        let k = match crate::view::last_space(h) {
            Some(i) => i + 1,
            None => h.len() as int,
        };
        lemma_last_space_bound(h);
        lemma_byte_len_prefix(t, k, h.len() as int);
        law_wrap_within_width(t.skip(k), w);
        let rest = wrap_text(t.skip(k), w)->0;
        let ps = wrap_text(t, w)->0;
        assert(ps == seq![t.take(k)] + rest);
        assert(ps.drop_first() == rest);
        assert(t.take(k) + t.skip(k) == t);
        assert(ps[0] == t.take(k));
        assert(concat_all(ps) == ps[0] + concat_all(ps.drop_first()));
        assert forall|i: int| 0 <= i < ps.len() implies byte_len(#[trigger] ps[i]) <= w && ps[i].len()
            > 0 by {
            if i > 0 {
                assert(ps[i] == rest[i - 1]);
            }
        }
    }
}

proof fn lemma_last_space_bound(h: Seq<char>)
    ensures
        last_space_in(h),
    decreases h.len(),
{
    if h.len() > 0 && h.last() != ' ' {
        lemma_last_space_bound(h.drop_last());
    }
}

pub open spec fn last_space_in(h: Seq<char>) -> bool {
    crate::view::last_space(h) matches Some(i) ==> 0 <= i < h.len()
}

proof fn lemma_snippet_lines_bounded(snips: Seq<Seq<char>>, budget: nat)
    ensures
        snippet_lines(snips, budget).len() <= budget,
    decreases snips.len(),
{
    if snips.len() > 0 && budget > 0 {
        if clean_fragment(snips[0]).len() > 0 {
            lemma_snippet_lines_bounded(snips.drop_first(), (budget - 1) as nat);
        } else {
            lemma_snippet_lines_bounded(snips.drop_first(), budget);
        }
    }
}

proof fn lemma_wiki_lines_bounded(hits: Seq<WikiHit>, budget: nat)
    ensures
        wiki_lines(hits, budget).len() <= budget,
    decreases hits.len(),
{
    if hits.len() > 0 && budget > 0 {
        match wiki_line(hits[0]) {
            Some(_) => lemma_wiki_lines_bounded(hits.drop_first(), (budget - 1) as nat),
            None => lemma_wiki_lines_bounded(hits.drop_first(), budget),
        }
    }
}

/// A general search reports at most five DuckDuckGo Lite results and at most
/// three Wikipedia articles.
pub proof fn law_search_lines_bounded(
    lite: Result<String, String>,
    wiki: Result<Option<Vec<WikiHit>>, String>,
)
    ensures
        found_lines(lite, wiki).len() <= 8,
        match lite {
            Ok(b) => lite_lines(b@).len() <= 5,
            Err(_) => true,
        },
        match wiki {
            Ok(Some(h)) => wiki_lines(h@, 3).len() <= 3,
            _ => true,
        },
{
    match lite {
        Ok(b) => lemma_snippet_lines_bounded(lite_snippets_from(b@, 0), 5),
        Err(_) => {},
    }
    match wiki {
        Ok(Some(h)) => lemma_wiki_lines_bounded(h@, 3),
        _ => {},
    }
}

/// Whether the lowercase text names none of the words that ask for a search.
pub open spec fn names_no_search_word(lower: Seq<char>) -> bool {
    &&& !mentions(lower, "such nach "@)
    &&& !mentions(lower, "suche nach "@)
    &&& !mentions(lower, "such mal nach "@)
    &&& !mentions(lower, "google "@)
    &&& !mentions(lower, " auf "@)
    &&& !mentions(lower, " von "@)
    &&& !mentions(lower, " von der "@)
    &&& !mentions(lower, "wetter"@)
    &&& !mentions(lower, "nachricht"@)
    &&& !mentions(lower, "aktuell"@)
    &&& !mentions(lower, "neuigkeit"@)
    &&& !mentions(lower, "recherchier"@)
    &&& !mentions(lower, "googel"@)
    &&& lower != "suche"@
}

/// An utterance whose lowercase form names no search word asks for no search
/// (and, by the contract of `detect_search_intent`, a query it does name is
/// never empty).
pub proof fn law_no_search_word_no_search(text: Seq<char>, lower: Seq<char>)
    requires
        names_no_search_word(lower),
    ensures
        search_intent(text, lower) == Some(None::<Seq<char>>),
{
}

/// The weather codes that have a description of their own.
pub open spec fn known_weather_code(c: int) -> bool {
    c == 0 || c == 1 || c == 2 || c == 3 || c == 45 || c == 48 || c == 51 || c == 53 || c == 55 || c == 56 || c == 57 || c == 61 || c == 63 || c == 65 || c == 66 || c == 67 || c == 71 || c == 73 || c == 75 || c == 77 || c == 80 || c == 81 || c == 82 || c == 85 || c == 86 || c == 95 || c == 96 || c == 99
}

/// Whether two codes share one description: the same code, or one of the
/// pairs 45/48 (fog), 56/57 (freezing drizzle) and 66/67 (freezing rain).
pub open spec fn same_weather(a: int, b: int) -> bool {
    a == b || (a == 45 && b == 48) || (a == 48 && b == 45) || (a == 56 && b == 57) || (a == 57
        && b == 56) || (a == 66 && b == 67) || (a == 67 && b == 66)
}

/// A number that tells the weather descriptions apart: their length, first
/// character and eighth character.
pub open spec fn text_key(s: Seq<char>) -> int {
    let first: int = if s.len() > 0 {
        s[0] as int
    } else {
        0
    };
    let eighth: int = if s.len() > 7 {
        s[7] as int
    } else {
        0
    };
    s.len() * 0x1_0000_0000_0000 + first * 0x20_0000 + eighth
}

/// Every weather code has a non-empty description; "Unbekannt" is given
/// exactly for the codes without a description of their own; and two known
/// codes share a description only for the pairs 45/48, 56/57 and 66/67.
#[verifier::rlimit(100)]
pub proof fn law_weather_descriptions(a: int, b: int)
    ensures
        weather_text(a).len() > 0,
        weather_text(a) == "Unbekannt"@ <==> !known_weather_code(a),
        known_weather_code(a) && known_weather_code(b) ==> (weather_text(a) == weather_text(b)
            <==> same_weather(a, b)),
{
    reveal_strlit("Bedeckt");
    reveal_strlit("Gefrierender Nieselregen");
    reveal_strlit("Gefrierender Regen");
    reveal_strlit("Gewitter");
    reveal_strlit("Gewitter mit leichtem Hagel");
    reveal_strlit("Gewitter mit starkem Hagel");
    reveal_strlit("Klarer Himmel");
    reveal_strlit("Leichte Regenschauer");
    reveal_strlit("Leichte Schneeschauer");
    reveal_strlit("Leichter Nieselregen");
    reveal_strlit("Leichter Regen");
    reveal_strlit("Leichter Schneefall");
    reveal_strlit("Mäßige Regenschauer");
    reveal_strlit("Mäßiger Nieselregen");
    reveal_strlit("Mäßiger Regen");
    reveal_strlit("Mäßiger Schneefall");
    reveal_strlit("Nebel");
    reveal_strlit("Schneekörner");
    reveal_strlit("Starke Regenschauer");
    reveal_strlit("Starke Schneeschauer");
    reveal_strlit("Starker Nieselregen");
    reveal_strlit("Starker Regen");
    reveal_strlit("Starker Schneefall");
    reveal_strlit("Teilweise bewölkt");
    reveal_strlit("Unbekannt");
    reveal_strlit("Überwiegend klar");
    if weather_text(a) == weather_text(b) {
        assert(text_key(weather_text(a)) == text_key(weather_text(b)));
    }
    if weather_text(a) == "Unbekannt"@ {
        assert(text_key(weather_text(a)) == text_key("Unbekannt"@));
    }
}

/// A page's text passed on is either all of it (8000 bytes at most) or its
/// first 8000 bytes followed by the note that it was cut.
pub proof fn law_page_text_bounded(t: Seq<char>)
    requires
        clipped_page(t) is Some,
    ensures
        byte_len(t) <= 8000 ==> clipped_page(t)->0 == t,
        byte_len(t) > 8000 ==> ({
            let h = head_to_byte(t, 8000)->0;
            &&& clipped_page(t)->0 == h + "\n\n[Text gekürzt auf 8000 Zeichen]"@
            &&& byte_len(h) == 8000
            &&& h == t.take(h.len() as int)
        }),
{
    if byte_len(t) > 8000 {
        lemma_head_to_byte(t, 8000);
    }
}

/// A domain that a search intent asks to fetch is routed to fetching that
/// page, with `https://` in front unless it starts with `http`.
pub proof fn law_fetch_intent_routes_to_page(d: Seq<char>, r: SearchRoute)
    requires
        route_agrees(r, webfetch_query(d)),
    ensures
        r matches SearchRoute::FetchPage(u) && u@ == (if starts_with(d, "http"@) {
            Seq::<char>::empty()
        } else {
            "https://"@
        }) + d,
{
    let head = "WEBFETCH:"@;
    let scheme = if starts_with(d, "http"@) {
        Seq::<char>::empty()
    } else {
        "https://"@
    };
    let q = webfetch_query(d);
    assert(q == head + scheme + d);
    assert(q.take(head.len() as int) =~= head);
    assert(starts_with(q, head));
    assert(q.skip(head.len() as int) =~= scheme + d);
}

/// Reported transcription progress never exceeds 100 percent.
pub proof fn law_progress_at_most_100(line: Seq<char>)
    ensures
        crate::speech::progress_of(line) matches Some(v) ==> v <= 100,
{
}

/// Blank text is never taken for speech.
pub proof fn law_blank_is_not_speech(text: Seq<char>)
    requires
        trim(text).len() == 0,
    ensures
        !crate::speech::meaningful_speech(text),
{
}


/// A character that may stand in an encoded URL component: ASCII letters and
/// digits, `-`, `.`, `_`, `~`, and `%`.
pub open spec fn url_char(c: char) -> bool {
    ('0' <= c <= '9') || ('A' <= c <= 'Z') || ('a' <= c <= 'z') || c == '-' || c == '.' || c
        == '_' || c == '~' || c == '%'
}

proof fn lemma_hex_digit(d: u8)
    requires
        d < 16,
    ensures
        url_char(crate::web::hex_digit(d)),
{
    if d < 10 {
        assert(((0x30 + d) as char) as u32 == 0x30 + d);
    } else {
        assert(((0x41 + d - 10) as char) as u32 == 0x41 + d - 10);
    }
}

/// URL encoding yields only letters, digits, `-`, `.`, `_`, `~` and `%`, so an
/// encoded query cannot end or break up the address it is put in.
pub proof fn law_url_encoding_is_safe(b: Seq<u8>)
    ensures
        forall|i: int| 0 <= i < percent_encode(b).len() ==> url_char(#[trigger] percent_encode(b)[i]),
    decreases b.len(),
{
    if b.len() > 0 {
        law_url_encoding_is_safe(b.drop_first());
        let x = b[0];
        let head: Seq<char> = if url_safe(x) {
            seq![x as char]
        } else {
            seq!['%', crate::web::hex_digit(x / 16), crate::web::hex_digit(x % 16)]
        };
        if url_safe(x) {
            assert((x as char) as u32 == x as u32);
        } else {
            lemma_hex_digit(x / 16);
            lemma_hex_digit(x % 16);
        }
        let rest = percent_encode(b.drop_first());
        assert(percent_encode(b) == head + rest);
        assert forall|i: int| 0 <= i < (head + rest).len() implies url_char(#[trigger] (head
            + rest)[i]) by {
            if i < head.len() {
                assert((head + rest)[i] == head[i]);
            } else {
                assert((head + rest)[i] == rest[i - head.len()]);
            }
        }
    }
}


/// The German description of every weather code: each known WMO code has its
/// own fixed text, and every other code is "Unbekannt".
pub proof fn law_weather_code_table(code: int)
    ensures
        code == 0 ==> weather_text(code) == "Klarer Himmel"@,
        code == 1 ==> weather_text(code) == "Überwiegend klar"@,
        code == 2 ==> weather_text(code) == "Teilweise bewölkt"@,
        code == 3 ==> weather_text(code) == "Bedeckt"@,
        code == 45 ==> weather_text(code) == "Nebel"@,
        code == 48 ==> weather_text(code) == "Nebel"@,
        code == 51 ==> weather_text(code) == "Leichter Nieselregen"@,
        code == 53 ==> weather_text(code) == "Mäßiger Nieselregen"@,
        code == 55 ==> weather_text(code) == "Starker Nieselregen"@,
        code == 56 ==> weather_text(code) == "Gefrierender Nieselregen"@,
        code == 57 ==> weather_text(code) == "Gefrierender Nieselregen"@,
        code == 61 ==> weather_text(code) == "Leichter Regen"@,
        code == 63 ==> weather_text(code) == "Mäßiger Regen"@,
        code == 65 ==> weather_text(code) == "Starker Regen"@,
        code == 66 ==> weather_text(code) == "Gefrierender Regen"@,
        code == 67 ==> weather_text(code) == "Gefrierender Regen"@,
        code == 71 ==> weather_text(code) == "Leichter Schneefall"@,
        code == 73 ==> weather_text(code) == "Mäßiger Schneefall"@,
        code == 75 ==> weather_text(code) == "Starker Schneefall"@,
        code == 77 ==> weather_text(code) == "Schneekörner"@,
        code == 80 ==> weather_text(code) == "Leichte Regenschauer"@,
        code == 81 ==> weather_text(code) == "Mäßige Regenschauer"@,
        code == 82 ==> weather_text(code) == "Starke Regenschauer"@,
        code == 85 ==> weather_text(code) == "Leichte Schneeschauer"@,
        code == 86 ==> weather_text(code) == "Starke Schneeschauer"@,
        code == 95 ==> weather_text(code) == "Gewitter"@,
        code == 96 ==> weather_text(code) == "Gewitter mit leichtem Hagel"@,
        code == 99 ==> weather_text(code) == "Gewitter mit starkem Hagel"@,
        !known_weather_code(code) ==> weather_text(code) == "Unbekannt"@,
{
}

/// Transcriber markers are never taken for speech: a transcript whose trimmed,
/// lowercased text contains "[blank_audio]", "[music", "[laughter]", "[sound"
/// or "[noise]" is not answered; any other non-blank transcript is.
pub proof fn law_noise_markers_are_not_speech(t: Seq<char>)
    ensures
        contains_bytes(encode_utf8(lowercase(trim(t))), encode_utf8("[blank_audio]"@))
            ==> !meaningful_speech(t),
        contains_bytes(encode_utf8(lowercase(trim(t))), encode_utf8("[music"@))
            ==> !meaningful_speech(t),
        contains_bytes(encode_utf8(lowercase(trim(t))), encode_utf8("[laughter]"@))
            ==> !meaningful_speech(t),
        contains_bytes(encode_utf8(lowercase(trim(t))), encode_utf8("[sound"@))
            ==> !meaningful_speech(t),
        contains_bytes(encode_utf8(lowercase(trim(t))), encode_utf8("[noise]"@))
            ==> !meaningful_speech(t),
        trim(t).len() > 0 && !contains_bytes(
            encode_utf8(lowercase(trim(t))),
            encode_utf8("[blank_audio]"@),
        ) && !contains_bytes(encode_utf8(lowercase(trim(t))), encode_utf8("[music"@))
            && !contains_bytes(encode_utf8(lowercase(trim(t))), encode_utf8("[laughter]"@))
            && !contains_bytes(encode_utf8(lowercase(trim(t))), encode_utf8("[sound"@))
            && !contains_bytes(encode_utf8(lowercase(trim(t))), encode_utf8("[noise]"@))
            ==> meaningful_speech(t),
{
}

/// A sentence is handed over for speaking as soon as it is complete: when the
/// waiting text followed by the new text (without backticks, outside code) is
/// at least 80 bytes long and ends in '.', '!' or '?', all of it is handed
/// over and nothing waits.
pub proof fn law_complete_sentence_is_spoken(pending: Seq<char>, full: Seq<char>, content: Seq<char>)
    requires
        speakable(full, content),
        byte_len(pending + without_backticks(content)) >= 80,
        (pending + without_backticks(content)).len() > 0,
        ({
            let last = (pending + without_backticks(content)).last();
            last == '.' || last == '!' || last == '?'
        }),
    ensures
        pending_after(pending, full, content) == (
            Seq::<char>::empty(),
            Some(pending + without_backticks(content)),
        ),
{
}


proof fn lemma_encode_concat(a: Seq<char>, b: Seq<char>)
    ensures
        encode_utf8(a + b) == encode_utf8(a) + encode_utf8(b),
    decreases a.len(),
{
    if a.len() == 0 {
        assert(a + b =~= b);
        assert(encode_utf8(a) + encode_utf8(b) =~= encode_utf8(b));
    } else {
        assert((a + b).drop_first() =~= a.drop_first() + b);
        assert((a + b)[0] == a[0]);
        lemma_encode_concat(a.drop_first(), b);
        let e0 = vstd::utf8::encode_scalar(a[0] as u32);
        assert(e0 + (encode_utf8(a.drop_first()) + encode_utf8(b)) =~= (e0 + encode_utf8(
            a.drop_first(),
        )) + encode_utf8(b));
    }
}

proof fn lemma_tail_after_prefix(a: Seq<char>, b: Seq<char>)
    ensures
        tail_from_byte(a + b, encode_utf8(a).len() as int) == Some(b),
    decreases a.len(),
{
    if a.len() == 0 {
        assert(a + b =~= b);
    } else {
        vstd::utf8::char_is_scalar(a[0]);
        assert(vstd::utf8::encode_scalar(a[0] as u32).len() == utf8_width(a[0]));
        assert((a + b).drop_first() =~= a.drop_first() + b);
        assert((a + b)[0] == a[0]);
        lemma_tail_after_prefix(a.drop_first(), b);
    }
}

/// A search command at the start of the text asks for the trimmed rest.
proof fn lemma_command_query(kw: Seq<char>, q: Seq<char>, lq: Seq<char>)
    requires
        kw.len() > 0,
    ensures
        query_after(kw + q, kw + lq, kw) == if trim(q).len() > 0 {
            Some(Some(trim(q)))
        } else {
            Some(None::<Seq<char>>)
        },
{
    lemma_encode_concat(kw, lq);
    let n = encode_utf8(kw);
    let h = encode_utf8(kw + lq);
    vstd::utf8::char_is_scalar(kw[0]);
    assert(encode_utf8(kw) == vstd::utf8::encode_scalar(kw[0] as u32) + encode_utf8(
        kw.drop_first(),
    ));
    assert(n.len() > 0);
    assert(h.subrange(0, n.len() as int) =~= n);
    assert(find(h, n) == Some(0int));
    lemma_tail_after_prefix(kw, q);
}

/// A search command that opens the utterance asks to search for what
/// follows it (trimmed, where not blank): "such nach ", "suche nach ",
/// "such mal nach " and "google ", each where no command checked before it
/// occurs in the lowercase text. `lq` is the lowercase form of the rest.
pub proof fn law_search_commands(q: Seq<char>, lq: Seq<char>)
    ensures
        trim(q).len() > 0 ==> search_intent("such nach "@ + q, "such nach "@ + lq) == Some(
            Some(trim(q)),
        ),
        trim(q).len() > 0 && !mentions("suche nach "@ + lq, "such nach "@) ==> search_intent(
            "suche nach "@ + q,
            "suche nach "@ + lq,
        ) == Some(Some(trim(q))),
        trim(q).len() > 0 && !mentions("such mal nach "@ + lq, "such nach "@) && !mentions(
            "such mal nach "@ + lq,
            "suche nach "@,
        ) ==> search_intent("such mal nach "@ + q, "such mal nach "@ + lq) == Some(Some(trim(q))),
        trim(q).len() > 0 && !mentions("google "@ + lq, "such nach "@) && !mentions(
            "google "@ + lq,
            "suche nach "@,
        ) && !mentions("google "@ + lq, "such mal nach "@) ==> search_intent(
            "google "@ + q,
            "google "@ + lq,
        ) == Some(Some(trim(q))),
{
    reveal_strlit("such nach ");
    reveal_strlit("suche nach ");
    reveal_strlit("such mal nach ");
    reveal_strlit("google ");
    lemma_command_query("such nach "@, q, lq);
    lemma_command_query("suche nach "@, q, lq);
    lemma_command_query("such mal nach "@, q, lq);
    lemma_command_query("google "@, q, lq);
}


/// `s` holds no `&` and no `;`.
pub open spec fn plain_text(s: Seq<char>) -> bool {
    !s.contains('&') && !s.contains(';')
}

/// The form of an HTML entity: `&`, then characters other than `&` and `;`,
/// then `;`.
pub open spec fn entity_form(e: Seq<char>) -> bool {
    &&& e.len() >= 2
    &&& e[0] == '&'
    &&& e.last() == ';'
    &&& forall|i: int| 0 < i < e.len() - 1 ==> e[i] != '&' && e[i] != ';'
}

/// Replacing text that ends in `;` leaves text without `;` as it is.
proof fn lemma_replace_plain(s: Seq<char>, f: Seq<char>, t: Seq<char>)
    requires
        !s.contains(';'),
        f.len() > 0,
        f.last() == ';',
    ensures
        replace_lit(s, f, t) == s,
    decreases s.len(),
{
    if s.len() >= f.len() {
        if s.take(f.len() as int) == f {
            assert(s[f.len() - 1] == s.take(f.len() as int)[f.len() - 1]);
            assert(false);
        }
        assert(!s.drop_first().contains(';')) by {
            if s.drop_first().contains(';') {
                let i = choose|i: int| 0 <= i < s.drop_first().len() && s.drop_first()[i] == ';';
                assert(s[i + 1] == ';');
            }
        }
        lemma_replace_plain(s.drop_first(), f, t);
        assert(seq![s[0]] + s.drop_first() =~= s);
    }
}

/// Text without `&` in front of what is replaced is passed over unchanged.
proof fn lemma_replace_skips(a: Seq<char>, s: Seq<char>, f: Seq<char>, t: Seq<char>)
    requires
        !a.contains('&'),
        f.len() > 0,
        f[0] == '&',
    ensures
        replace_lit(a + s, f, t) == a + replace_lit(s, f, t),
    decreases a.len(),
{
    if a.len() == 0 {
        assert(a + s =~= s);
        assert(a + replace_lit(s, f, t) =~= replace_lit(s, f, t));
    } else {
        let x = a + s;
        assert(x[0] == a[0]);
        if x.len() >= f.len() {
            if x.take(f.len() as int) == f {
                assert(x.take(f.len() as int)[0] == a[0]);
                assert(a.contains(a[0]));
                assert(false);
            }
            assert(x.drop_first() =~= a.drop_first() + s);
            assert(!a.drop_first().contains('&')) by {
                if a.drop_first().contains('&') {
                    let i = choose|i: int| 0 <= i < a.drop_first().len() && a.drop_first()[i] == '&';
                    assert(a[i + 1] == '&');
                }
            }
            lemma_replace_skips(a.drop_first(), s, f, t);
            assert(seq![a[0]] + (a.drop_first() + replace_lit(s, f, t)) =~= a + replace_lit(s, f, t));
        } else {
            assert(s.len() < f.len());
            assert(a + s =~= a + s);
        }
    }
}

/// Replacing one entity leaves another entity, between plain texts, as it is.
proof fn lemma_replace_other(a: Seq<char>, e: Seq<char>, b: Seq<char>, f: Seq<char>, t: Seq<char>)
    requires
        plain_text(a),
        plain_text(b),
        entity_form(e),
        entity_form(f),
        e != f,
    ensures
        replace_lit(a + e + b, f, t) == a + e + b,
{
    let s = e + b;
    assert(a + e + b =~= a + s);
    lemma_replace_skips(a, s, f, t);
    if s.len() >= f.len() {
        if s.take(f.len() as int) == f {
            if f.len() <= e.len() {
                assert(e[f.len() - 1] == ';');
                assert(f.len() == e.len());
                assert(e =~= f);
            } else {
                assert(f[e.len() - 1] == s[e.len() - 1]);
            }
            assert(false);
        }
        let rest = s.drop_first();
        assert(rest =~= e.drop_first() + b);
        assert(!rest.contains('&')) by {
            if rest.contains('&') {
                let i = choose|i: int| 0 <= i < rest.len() && rest[i] == '&';
                if i < e.len() - 1 {
                    assert(e[i + 1] == '&');
                } else {
                    assert(b[i - (e.len() - 1)] == '&');
                }
            }
        }
        lemma_replace_skips(rest, Seq::empty(), f, t);
        assert(rest + Seq::<char>::empty() =~= rest);
        assert(replace_lit(Seq::<char>::empty(), f, t) == Seq::<char>::empty());
        assert(seq![s[0]] + rest =~= s);
    }
}

/// Replacing an entity between plain texts puts its replacement there.
proof fn lemma_replace_hit(a: Seq<char>, e: Seq<char>, b: Seq<char>, t: Seq<char>)
    requires
        plain_text(a),
        plain_text(b),
        entity_form(e),
    ensures
        replace_lit(a + e + b, e, t) == a + t + b,
{
    let s = e + b;
    assert(a + e + b =~= a + s);
    lemma_replace_skips(a, s, e, t);
    assert(s.take(e.len() as int) =~= e);
    assert(s.skip(e.len() as int) =~= b);
    lemma_replace_plain(b, e, t);
    assert(a + (t + b) =~= a + t + b);
}

proof fn lemma_no_semicolon_around(a: Seq<char>, r: Seq<char>, b: Seq<char>)
    requires
        plain_text(a),
        plain_text(b),
        !r.contains(';'),
    ensures
        !(a + r + b).contains(';'),
{
    let s = a + r + b;
    if s.contains(';') {
        let i = choose|i: int| 0 <= i < s.len() && s[i] == ';';
        if i < a.len() {
            assert(a[i] == ';');
        } else if i < a.len() + r.len() {
            assert(r[i - a.len()] == ';');
        } else {
            assert(b[i - a.len() - r.len()] == ';');
        }
    }
}

/// Each HTML entity that page text decodes is replaced by its character
/// wherever it stands between text holding no `&` and no `;`.
pub proof fn law_entities_are_decoded(a: Seq<char>, b: Seq<char>)
    requires
        plain_text(a),
        plain_text(b),
    ensures
        decode_entities(a + "&amp;"@ + b) == a + "&"@ + b,
        decode_entities(a + "&lt;"@ + b) == a + "<"@ + b,
        decode_entities(a + "&gt;"@ + b) == a + ">"@ + b,
        decode_entities(a + "&quot;"@ + b) == a + "\""@ + b,
        decode_entities(a + "&nbsp;"@ + b) == a + " "@ + b,
        decode_entities(a + "&auml;"@ + b) == a + "ä"@ + b,
        decode_entities(a + "&ouml;"@ + b) == a + "ö"@ + b,
        decode_entities(a + "&uuml;"@ + b) == a + "ü"@ + b,
        decode_entities(a + "&Auml;"@ + b) == a + "Ä"@ + b,
        decode_entities(a + "&Ouml;"@ + b) == a + "Ö"@ + b,
        decode_entities(a + "&Uuml;"@ + b) == a + "Ü"@ + b,
        decode_entities(a + "&szlig;"@ + b) == a + "ß"@ + b,
{
    reveal_strlit("&amp;");
    reveal_strlit("&");
    reveal_strlit("&lt;");
    reveal_strlit("<");
    reveal_strlit("&gt;");
    reveal_strlit(">");
    reveal_strlit("&quot;");
    reveal_strlit("\"");
    reveal_strlit("&nbsp;");
    reveal_strlit(" ");
    reveal_strlit("&auml;");
    reveal_strlit("ä");
    reveal_strlit("&ouml;");
    reveal_strlit("ö");
    reveal_strlit("&uuml;");
    reveal_strlit("ü");
    reveal_strlit("&Auml;");
    reveal_strlit("Ä");
    reveal_strlit("&Ouml;");
    reveal_strlit("Ö");
    reveal_strlit("&Uuml;");
    reveal_strlit("Ü");
    reveal_strlit("&szlig;");
    reveal_strlit("ß");
    {
        let e = "&amp;"@;
        let s1 = a + "&"@ + b;
        assert(entity_form(e));
        lemma_no_semicolon_around(a, "&"@, b);
        lemma_replace_hit(a, e, b, "&"@);
        lemma_replace_plain(s1, "&lt;"@, "<"@);
        lemma_replace_plain(s1, "&gt;"@, ">"@);
        lemma_replace_plain(s1, "&quot;"@, "\""@);
        lemma_replace_plain(s1, "&nbsp;"@, " "@);
        lemma_replace_plain(s1, "&auml;"@, "ä"@);
        lemma_replace_plain(s1, "&ouml;"@, "ö"@);
        lemma_replace_plain(s1, "&uuml;"@, "ü"@);
        lemma_replace_plain(s1, "&Auml;"@, "Ä"@);
        lemma_replace_plain(s1, "&Ouml;"@, "Ö"@);
        lemma_replace_plain(s1, "&Uuml;"@, "Ü"@);
        lemma_replace_plain(s1, "&szlig;"@, "ß"@);
    }
    {
        let e = "&lt;"@;
        let s1 = a + "<"@ + b;
        assert(entity_form(e));
        lemma_no_semicolon_around(a, "<"@, b);
        assert(entity_form("&amp;"@));
        assert(e.len() != "&amp;"@.len());
        lemma_replace_other(a, e, b, "&amp;"@, "&"@);
        lemma_replace_hit(a, e, b, "<"@);
        lemma_replace_plain(s1, "&gt;"@, ">"@);
        lemma_replace_plain(s1, "&quot;"@, "\""@);
        lemma_replace_plain(s1, "&nbsp;"@, " "@);
        lemma_replace_plain(s1, "&auml;"@, "ä"@);
        lemma_replace_plain(s1, "&ouml;"@, "ö"@);
        lemma_replace_plain(s1, "&uuml;"@, "ü"@);
        lemma_replace_plain(s1, "&Auml;"@, "Ä"@);
        lemma_replace_plain(s1, "&Ouml;"@, "Ö"@);
        lemma_replace_plain(s1, "&Uuml;"@, "Ü"@);
        lemma_replace_plain(s1, "&szlig;"@, "ß"@);
    }
    {
        let e = "&gt;"@;
        let s1 = a + ">"@ + b;
        assert(entity_form(e));
        lemma_no_semicolon_around(a, ">"@, b);
        assert(entity_form("&amp;"@));
        assert(e.len() != "&amp;"@.len());
        lemma_replace_other(a, e, b, "&amp;"@, "&"@);
        assert(entity_form("&lt;"@));
        assert(e[1] != "&lt;"@[1]);
        lemma_replace_other(a, e, b, "&lt;"@, "<"@);
        lemma_replace_hit(a, e, b, ">"@);
        lemma_replace_plain(s1, "&quot;"@, "\""@);
        lemma_replace_plain(s1, "&nbsp;"@, " "@);
        lemma_replace_plain(s1, "&auml;"@, "ä"@);
        lemma_replace_plain(s1, "&ouml;"@, "ö"@);
        lemma_replace_plain(s1, "&uuml;"@, "ü"@);
        lemma_replace_plain(s1, "&Auml;"@, "Ä"@);
        lemma_replace_plain(s1, "&Ouml;"@, "Ö"@);
        lemma_replace_plain(s1, "&Uuml;"@, "Ü"@);
        lemma_replace_plain(s1, "&szlig;"@, "ß"@);
    }
    {
        let e = "&quot;"@;
        let s1 = a + "\""@ + b;
        assert(entity_form(e));
        lemma_no_semicolon_around(a, "\""@, b);
        assert(entity_form("&amp;"@));
        assert(e.len() != "&amp;"@.len());
        lemma_replace_other(a, e, b, "&amp;"@, "&"@);
        assert(entity_form("&lt;"@));
        assert(e.len() != "&lt;"@.len());
        lemma_replace_other(a, e, b, "&lt;"@, "<"@);
        assert(entity_form("&gt;"@));
        assert(e.len() != "&gt;"@.len());
        lemma_replace_other(a, e, b, "&gt;"@, ">"@);
        lemma_replace_hit(a, e, b, "\""@);
        lemma_replace_plain(s1, "&nbsp;"@, " "@);
        lemma_replace_plain(s1, "&auml;"@, "ä"@);
        lemma_replace_plain(s1, "&ouml;"@, "ö"@);
        lemma_replace_plain(s1, "&uuml;"@, "ü"@);
        lemma_replace_plain(s1, "&Auml;"@, "Ä"@);
        lemma_replace_plain(s1, "&Ouml;"@, "Ö"@);
        lemma_replace_plain(s1, "&Uuml;"@, "Ü"@);
        lemma_replace_plain(s1, "&szlig;"@, "ß"@);
    }
    {
        let e = "&nbsp;"@;
        let s1 = a + " "@ + b;
        assert(entity_form(e));
        lemma_no_semicolon_around(a, " "@, b);
        assert(entity_form("&amp;"@));
        assert(e.len() != "&amp;"@.len());
        lemma_replace_other(a, e, b, "&amp;"@, "&"@);
        assert(entity_form("&lt;"@));
        assert(e.len() != "&lt;"@.len());
        lemma_replace_other(a, e, b, "&lt;"@, "<"@);
        assert(entity_form("&gt;"@));
        assert(e.len() != "&gt;"@.len());
        lemma_replace_other(a, e, b, "&gt;"@, ">"@);
        assert(entity_form("&quot;"@));
        assert(e[1] != "&quot;"@[1]);
        lemma_replace_other(a, e, b, "&quot;"@, "\""@);
        lemma_replace_hit(a, e, b, " "@);
        lemma_replace_plain(s1, "&auml;"@, "ä"@);
        lemma_replace_plain(s1, "&ouml;"@, "ö"@);
        lemma_replace_plain(s1, "&uuml;"@, "ü"@);
        lemma_replace_plain(s1, "&Auml;"@, "Ä"@);
        lemma_replace_plain(s1, "&Ouml;"@, "Ö"@);
        lemma_replace_plain(s1, "&Uuml;"@, "Ü"@);
        lemma_replace_plain(s1, "&szlig;"@, "ß"@);
    }
    {
        let e = "&auml;"@;
        let s1 = a + "ä"@ + b;
        assert(entity_form(e));
        lemma_no_semicolon_around(a, "ä"@, b);
        assert(entity_form("&amp;"@));
        assert(e.len() != "&amp;"@.len());
        lemma_replace_other(a, e, b, "&amp;"@, "&"@);
        assert(entity_form("&lt;"@));
        assert(e.len() != "&lt;"@.len());
        lemma_replace_other(a, e, b, "&lt;"@, "<"@);
        assert(entity_form("&gt;"@));
        assert(e.len() != "&gt;"@.len());
        lemma_replace_other(a, e, b, "&gt;"@, ">"@);
        assert(entity_form("&quot;"@));
        assert(e[1] != "&quot;"@[1]);
        lemma_replace_other(a, e, b, "&quot;"@, "\""@);
        assert(entity_form("&nbsp;"@));
        assert(e[1] != "&nbsp;"@[1]);
        lemma_replace_other(a, e, b, "&nbsp;"@, " "@);
        lemma_replace_hit(a, e, b, "ä"@);
        lemma_replace_plain(s1, "&ouml;"@, "ö"@);
        lemma_replace_plain(s1, "&uuml;"@, "ü"@);
        lemma_replace_plain(s1, "&Auml;"@, "Ä"@);
        lemma_replace_plain(s1, "&Ouml;"@, "Ö"@);
        lemma_replace_plain(s1, "&Uuml;"@, "Ü"@);
        lemma_replace_plain(s1, "&szlig;"@, "ß"@);
    }
    {
        let e = "&ouml;"@;
        let s1 = a + "ö"@ + b;
        assert(entity_form(e));
        lemma_no_semicolon_around(a, "ö"@, b);
        assert(entity_form("&amp;"@));
        assert(e.len() != "&amp;"@.len());
        lemma_replace_other(a, e, b, "&amp;"@, "&"@);
        assert(entity_form("&lt;"@));
        assert(e.len() != "&lt;"@.len());
        lemma_replace_other(a, e, b, "&lt;"@, "<"@);
        assert(entity_form("&gt;"@));
        assert(e.len() != "&gt;"@.len());
        lemma_replace_other(a, e, b, "&gt;"@, ">"@);
        assert(entity_form("&quot;"@));
        assert(e[1] != "&quot;"@[1]);
        lemma_replace_other(a, e, b, "&quot;"@, "\""@);
        assert(entity_form("&nbsp;"@));
        assert(e[1] != "&nbsp;"@[1]);
        lemma_replace_other(a, e, b, "&nbsp;"@, " "@);
        assert(entity_form("&auml;"@));
        assert(e[1] != "&auml;"@[1]);
        lemma_replace_other(a, e, b, "&auml;"@, "ä"@);
        lemma_replace_hit(a, e, b, "ö"@);
        lemma_replace_plain(s1, "&uuml;"@, "ü"@);
        lemma_replace_plain(s1, "&Auml;"@, "Ä"@);
        lemma_replace_plain(s1, "&Ouml;"@, "Ö"@);
        lemma_replace_plain(s1, "&Uuml;"@, "Ü"@);
        lemma_replace_plain(s1, "&szlig;"@, "ß"@);
    }
    {
        let e = "&uuml;"@;
        let s1 = a + "ü"@ + b;
        assert(entity_form(e));
        lemma_no_semicolon_around(a, "ü"@, b);
        assert(entity_form("&amp;"@));
        assert(e.len() != "&amp;"@.len());
        lemma_replace_other(a, e, b, "&amp;"@, "&"@);
        assert(entity_form("&lt;"@));
        assert(e.len() != "&lt;"@.len());
        lemma_replace_other(a, e, b, "&lt;"@, "<"@);
        assert(entity_form("&gt;"@));
        assert(e.len() != "&gt;"@.len());
        lemma_replace_other(a, e, b, "&gt;"@, ">"@);
        assert(entity_form("&quot;"@));
        assert(e[1] != "&quot;"@[1]);
        lemma_replace_other(a, e, b, "&quot;"@, "\""@);
        assert(entity_form("&nbsp;"@));
        assert(e[1] != "&nbsp;"@[1]);
        lemma_replace_other(a, e, b, "&nbsp;"@, " "@);
        assert(entity_form("&auml;"@));
        assert(e[1] != "&auml;"@[1]);
        lemma_replace_other(a, e, b, "&auml;"@, "ä"@);
        assert(entity_form("&ouml;"@));
        assert(e[1] != "&ouml;"@[1]);
        lemma_replace_other(a, e, b, "&ouml;"@, "ö"@);
        lemma_replace_hit(a, e, b, "ü"@);
        lemma_replace_plain(s1, "&Auml;"@, "Ä"@);
        lemma_replace_plain(s1, "&Ouml;"@, "Ö"@);
        lemma_replace_plain(s1, "&Uuml;"@, "Ü"@);
        lemma_replace_plain(s1, "&szlig;"@, "ß"@);
    }
    {
        let e = "&Auml;"@;
        let s1 = a + "Ä"@ + b;
        assert(entity_form(e));
        lemma_no_semicolon_around(a, "Ä"@, b);
        assert(entity_form("&amp;"@));
        assert(e.len() != "&amp;"@.len());
        lemma_replace_other(a, e, b, "&amp;"@, "&"@);
        assert(entity_form("&lt;"@));
        assert(e.len() != "&lt;"@.len());
        lemma_replace_other(a, e, b, "&lt;"@, "<"@);
        assert(entity_form("&gt;"@));
        assert(e.len() != "&gt;"@.len());
        lemma_replace_other(a, e, b, "&gt;"@, ">"@);
        assert(entity_form("&quot;"@));
        assert(e[1] != "&quot;"@[1]);
        lemma_replace_other(a, e, b, "&quot;"@, "\""@);
        assert(entity_form("&nbsp;"@));
        assert(e[1] != "&nbsp;"@[1]);
        lemma_replace_other(a, e, b, "&nbsp;"@, " "@);
        assert(entity_form("&auml;"@));
        assert(e[1] != "&auml;"@[1]);
        lemma_replace_other(a, e, b, "&auml;"@, "ä"@);
        assert(entity_form("&ouml;"@));
        assert(e[1] != "&ouml;"@[1]);
        lemma_replace_other(a, e, b, "&ouml;"@, "ö"@);
        assert(entity_form("&uuml;"@));
        assert(e[1] != "&uuml;"@[1]);
        lemma_replace_other(a, e, b, "&uuml;"@, "ü"@);
        lemma_replace_hit(a, e, b, "Ä"@);
        lemma_replace_plain(s1, "&Ouml;"@, "Ö"@);
        lemma_replace_plain(s1, "&Uuml;"@, "Ü"@);
        lemma_replace_plain(s1, "&szlig;"@, "ß"@);
    }
    {
        let e = "&Ouml;"@;
        let s1 = a + "Ö"@ + b;
        assert(entity_form(e));
        lemma_no_semicolon_around(a, "Ö"@, b);
        assert(entity_form("&amp;"@));
        assert(e.len() != "&amp;"@.len());
        lemma_replace_other(a, e, b, "&amp;"@, "&"@);
        assert(entity_form("&lt;"@));
        assert(e.len() != "&lt;"@.len());
        lemma_replace_other(a, e, b, "&lt;"@, "<"@);
        assert(entity_form("&gt;"@));
        assert(e.len() != "&gt;"@.len());
        lemma_replace_other(a, e, b, "&gt;"@, ">"@);
        assert(entity_form("&quot;"@));
        assert(e[1] != "&quot;"@[1]);
        lemma_replace_other(a, e, b, "&quot;"@, "\""@);
        assert(entity_form("&nbsp;"@));
        assert(e[1] != "&nbsp;"@[1]);
        lemma_replace_other(a, e, b, "&nbsp;"@, " "@);
        assert(entity_form("&auml;"@));
        assert(e[1] != "&auml;"@[1]);
        lemma_replace_other(a, e, b, "&auml;"@, "ä"@);
        assert(entity_form("&ouml;"@));
        assert(e[1] != "&ouml;"@[1]);
        lemma_replace_other(a, e, b, "&ouml;"@, "ö"@);
        assert(entity_form("&uuml;"@));
        assert(e[1] != "&uuml;"@[1]);
        lemma_replace_other(a, e, b, "&uuml;"@, "ü"@);
        assert(entity_form("&Auml;"@));
        assert(e[1] != "&Auml;"@[1]);
        lemma_replace_other(a, e, b, "&Auml;"@, "Ä"@);
        lemma_replace_hit(a, e, b, "Ö"@);
        lemma_replace_plain(s1, "&Uuml;"@, "Ü"@);
        lemma_replace_plain(s1, "&szlig;"@, "ß"@);
    }
    {
        let e = "&Uuml;"@;
        let s1 = a + "Ü"@ + b;
        assert(entity_form(e));
        lemma_no_semicolon_around(a, "Ü"@, b);
        assert(entity_form("&amp;"@));
        assert(e.len() != "&amp;"@.len());
        lemma_replace_other(a, e, b, "&amp;"@, "&"@);
        assert(entity_form("&lt;"@));
        assert(e.len() != "&lt;"@.len());
        lemma_replace_other(a, e, b, "&lt;"@, "<"@);
        assert(entity_form("&gt;"@));
        assert(e.len() != "&gt;"@.len());
        lemma_replace_other(a, e, b, "&gt;"@, ">"@);
        assert(entity_form("&quot;"@));
        assert(e[1] != "&quot;"@[1]);
        lemma_replace_other(a, e, b, "&quot;"@, "\""@);
        assert(entity_form("&nbsp;"@));
        assert(e[1] != "&nbsp;"@[1]);
        lemma_replace_other(a, e, b, "&nbsp;"@, " "@);
        assert(entity_form("&auml;"@));
        assert(e[1] != "&auml;"@[1]);
        lemma_replace_other(a, e, b, "&auml;"@, "ä"@);
        assert(entity_form("&ouml;"@));
        assert(e[1] != "&ouml;"@[1]);
        lemma_replace_other(a, e, b, "&ouml;"@, "ö"@);
        assert(entity_form("&uuml;"@));
        assert(e[1] != "&uuml;"@[1]);
        lemma_replace_other(a, e, b, "&uuml;"@, "ü"@);
        assert(entity_form("&Auml;"@));
        assert(e[1] != "&Auml;"@[1]);
        lemma_replace_other(a, e, b, "&Auml;"@, "Ä"@);
        assert(entity_form("&Ouml;"@));
        assert(e[1] != "&Ouml;"@[1]);
        lemma_replace_other(a, e, b, "&Ouml;"@, "Ö"@);
        lemma_replace_hit(a, e, b, "Ü"@);
        lemma_replace_plain(s1, "&szlig;"@, "ß"@);
    }
    {
        let e = "&szlig;"@;
        let s1 = a + "ß"@ + b;
        assert(entity_form(e));
        lemma_no_semicolon_around(a, "ß"@, b);
        assert(entity_form("&amp;"@));
        assert(e.len() != "&amp;"@.len());
        lemma_replace_other(a, e, b, "&amp;"@, "&"@);
        assert(entity_form("&lt;"@));
        assert(e.len() != "&lt;"@.len());
        lemma_replace_other(a, e, b, "&lt;"@, "<"@);
        assert(entity_form("&gt;"@));
        assert(e.len() != "&gt;"@.len());
        lemma_replace_other(a, e, b, "&gt;"@, ">"@);
        assert(entity_form("&quot;"@));
        assert(e.len() != "&quot;"@.len());
        lemma_replace_other(a, e, b, "&quot;"@, "\""@);
        assert(entity_form("&nbsp;"@));
        assert(e.len() != "&nbsp;"@.len());
        lemma_replace_other(a, e, b, "&nbsp;"@, " "@);
        assert(entity_form("&auml;"@));
        assert(e.len() != "&auml;"@.len());
        lemma_replace_other(a, e, b, "&auml;"@, "ä"@);
        assert(entity_form("&ouml;"@));
        assert(e.len() != "&ouml;"@.len());
        lemma_replace_other(a, e, b, "&ouml;"@, "ö"@);
        assert(entity_form("&uuml;"@));
        assert(e.len() != "&uuml;"@.len());
        lemma_replace_other(a, e, b, "&uuml;"@, "ü"@);
        assert(entity_form("&Auml;"@));
        assert(e.len() != "&Auml;"@.len());
        lemma_replace_other(a, e, b, "&Auml;"@, "Ä"@);
        assert(entity_form("&Ouml;"@));
        assert(e.len() != "&Ouml;"@.len());
        lemma_replace_other(a, e, b, "&Ouml;"@, "Ö"@);
        assert(entity_form("&Uuml;"@));
        assert(e.len() != "&Uuml;"@.len());
        lemma_replace_other(a, e, b, "&Uuml;"@, "Ü"@);
        lemma_replace_hit(a, e, b, "ß"@);
    }
}


/// Text without `&` is left as it is by entity decoding.
pub proof fn law_text_without_entities_is_kept(s: Seq<char>)
    requires
        !s.contains('&'),
    ensures
        decode_entities(s) == s,
{
    assert(s + Seq::<char>::empty() =~= s);
    reveal_strlit("&amp;");
    lemma_replace_skips(s, Seq::empty(), "&amp;"@, "&"@);
    reveal_strlit("&lt;");
    lemma_replace_skips(s, Seq::empty(), "&lt;"@, "<"@);
    reveal_strlit("&gt;");
    lemma_replace_skips(s, Seq::empty(), "&gt;"@, ">"@);
    reveal_strlit("&quot;");
    lemma_replace_skips(s, Seq::empty(), "&quot;"@, "\""@);
    reveal_strlit("&nbsp;");
    lemma_replace_skips(s, Seq::empty(), "&nbsp;"@, " "@);
    reveal_strlit("&auml;");
    lemma_replace_skips(s, Seq::empty(), "&auml;"@, "ä"@);
    reveal_strlit("&ouml;");
    lemma_replace_skips(s, Seq::empty(), "&ouml;"@, "ö"@);
    reveal_strlit("&uuml;");
    lemma_replace_skips(s, Seq::empty(), "&uuml;"@, "ü"@);
    reveal_strlit("&Auml;");
    lemma_replace_skips(s, Seq::empty(), "&Auml;"@, "Ä"@);
    reveal_strlit("&Ouml;");
    lemma_replace_skips(s, Seq::empty(), "&Ouml;"@, "Ö"@);
    reveal_strlit("&Uuml;");
    lemma_replace_skips(s, Seq::empty(), "&Uuml;"@, "Ü"@);
    reveal_strlit("&szlig;");
    lemma_replace_skips(s, Seq::empty(), "&szlig;"@, "ß"@);
}

/// How an utterance that names no search command and no page asks for a
/// search: a mention of the weather asks for a query starting "Wetter "
/// (unless a byte offset falls inside a character); otherwise a mention of
/// news ("nachricht", "aktuell", "neuigkeit") or of research ("recherchier",
/// "googel"), or the lone word "suche", searches the text without its
/// trailing question marks.
pub proof fn law_topic_searches(text: Seq<char>, lower: Seq<char>)
    requires
        !mentions(lower, "such nach "@),
        !mentions(lower, "suche nach "@),
        !mentions(lower, "such mal nach "@),
        !mentions(lower, "google "@),
        !mentions(lower, " auf "@),
        !mentions(lower, " von "@),
        !mentions(lower, " von der "@),
    ensures
        mentions(lower, "wetter"@) ==> match search_intent(text, lower) {
            Some(Some(q)) => starts_with(q, "Wetter "@),
            Some(None) => false,
            None => true,
        },
        !mentions(lower, "wetter"@) && (mentions(lower, "nachricht"@) || mentions(lower, "aktuell"@)
            || mentions(lower, "neuigkeit"@) || mentions(lower, "recherchier"@) || mentions(
            lower,
            "googel"@,
        ) || lower == "suche"@) ==> search_intent(text, lower) == Some(
            Some(strip_trailing(text, '?')),
        ),
{
    let w = "Wetter "@;
    assert forall|x: Seq<char>| #[trigger] starts_with(w + x, w) by {
        assert((w + x).take(w.len() as int) =~= w);
    }
}

} // verus!

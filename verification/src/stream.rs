//! The model's streamed reply: splitting received bytes into JSON lines,
//! collecting the reply text, and cutting it into sentences to be spoken.

use vstd::prelude::*;
use vstd::utf8::{decode_utf8, valid_utf8};
use crate::text::{
    byte_len, byte_len_at_least, chars_of, concat_vec, find, find_chars_from, find_from,
    lemma_find_in_bounds, matches_at, string_of, sub_vec, trim, trim_vec,
};

verus! {

/// The text that `String::from_utf8_lossy` makes of `bytes`.
pub uninterp spec fn utf8_lossy(bytes: Seq<u8>) -> Seq<char>;

/// Calls `String::from_utf8_lossy`: its result depends on the bytes alone (named
/// `utf8_lossy`), and where the bytes are valid UTF-8 it is the text they encode.
#[verifier::external_body]
pub(crate) fn from_utf8_lossy(bytes: &[u8]) -> (r: String)
    ensures
        r@ == utf8_lossy(bytes@),
        valid_utf8(bytes@) ==> r@ == decode_utf8(bytes@),
{
    String::from_utf8_lossy(bytes).into_owned()
}

/// `l` without one trailing carriage return.
pub open spec fn strip_cr(l: Seq<char>) -> Seq<char> {
    if l.len() > 0 && l.last() == '\r' {
        l.drop_last()
    } else {
        l
    }
}

/// The lines of `s` (`str::lines`): split at each line feed, a carriage return
/// before it dropped, with no empty line after a final line feed.
pub open spec fn lines_of(s: Seq<char>) -> Seq<Seq<char>>
    decreases s.len(),
{
    match find(s, seq!['\n']) {
        None => if s.len() == 0 {
            Seq::empty()
        } else {
            seq![s]
        },
        Some(i) => if 0 <= i < s.len() {
            seq![strip_cr(s.take(i))] + lines_of(s.skip(i + 1))
        } else {
            Seq::empty()
        },
    }
}

/// The lines that are not blank, in order.
pub open spec fn filled_lines(ls: Seq<Seq<char>>) -> Seq<Seq<char>>
    decreases ls.len(),
{
    if ls.len() == 0 {
        Seq::empty()
    } else if trim(ls[0]).len() > 0 {
        seq![ls[0]] + filled_lines(ls.drop_first())
    } else {
        filled_lines(ls.drop_first())
    }
}

/// The JSON lines of a received chunk: the non-blank lines of its text.
pub open spec fn chunk_lines(bytes: Seq<u8>) -> Seq<Seq<char>> {
    filled_lines(lines_of(utf8_lossy(bytes)))
}

pub open spec fn string_views(v: Seq<String>) -> Seq<Seq<char>> {
    v.map_values(|s: String| s@)
}

/// The lines of `s`.
pub fn split_lines(s: &Vec<char>) -> (r: Vec<Vec<char>>)
    ensures
        r@.map_values(|l: Vec<char>| l@) == lines_of(s@),
{
    let nl = chars_of("\n");
    assert(nl@ == seq!['\n']) by {
        reveal_strlit("\n");
    }
    let mut out: Vec<Vec<char>> = Vec::new();
    let mut start: usize = 0;
    assert(s@.skip(0) == s@);
    while start < s.len()
        invariant
            start <= s@.len(),
            nl@ == seq!['\n'],
            lines_of(s@) == out@.map_values(|l: Vec<char>| l@) + lines_of(s@.skip(start as int)),
        decreases s.len() - start,
    {
        let ghost rest = s@.skip(start as int);
        let end = match find_chars_from(s, &nl, start) {
            Some(j) => {
                proof {
                    lemma_find_in_bounds(s@, nl@, start as int);
                    lemma_find_shift(s@, nl@, start as int);
                }
                j
            },
            None => {
                proof {
                    lemma_find_shift(s@, nl@, start as int);
                }
                s.len()
            },
        };
        let mut line = sub_vec(s, start, end);
        if end < s.len() && line.len() > 0 && line[line.len() - 1] == '\r' {
            line = sub_vec(&line, 0, line.len() - 1);
        }
        let next = if end < s.len() {
            end + 1
        } else {
            end
        };
        proof {
            assert(rest.take(end - start) == s@.subrange(start as int, end as int));
            if end < s.len() {
                assert(rest.skip(end - start + 1) == s@.skip(end + 1));
                assert(lines_of(rest) == seq![line@] + lines_of(s@.skip(next as int)));
            } else {
                assert(s@.skip(next as int).len() == 0);
                assert(rest == s@.subrange(start as int, end as int));
                assert(lines_of(rest) == seq![line@]);
                assert(seq![line@] == seq![line@] + lines_of(s@.skip(next as int)));
            }
        }
        let ghost before = out@;
        out.push(line);
        assert(out@.map_values(|l: Vec<char>| l@) =~= before.map_values(|l: Vec<char>| l@) + seq![
            line@,
        ]);
        start = next;
    }
    assert(s@.skip(start as int).len() == 0);
    out
}

/// Splits a received chunk into its non-blank lines.
pub fn stream_lines(bytes: &[u8]) -> (r: Vec<String>)
    ensures
        string_views(r@) == chunk_lines(bytes@),
{
    let text = from_utf8_lossy(bytes);
    let s = chars_of(text.as_str());
    let ls = split_lines(&s);
    let ghost all = ls@.map_values(|l: Vec<char>| l@);
    let mut out: Vec<String> = Vec::new();
    let mut i: usize = 0;
    assert(all.skip(0) == all);
    while i < ls.len()
        invariant
            i <= ls@.len(),
            all == ls@.map_values(|l: Vec<char>| l@),
            filled_lines(all) == string_views(out@) + filled_lines(all.skip(i as int)),
        decreases ls.len() - i,
    {
        assert(all.skip(i as int)[0] == ls@[i as int]@);
        assert(all.skip(i as int).drop_first() == all.skip(i + 1));
        let t = trim_vec(&ls[i]);
        if t.len() > 0 {
            let ghost before = out@;
            out.push(string_of(&ls[i]));
            assert(string_views(out@) =~= string_views(before) + seq![ls@[i as int]@]);
        }
        i += 1;
    }
    assert(all.skip(i as int).len() == 0);
    out
}

/// Finding from an offset is finding in the rest, shifted by that offset.
proof fn lemma_find_shift(s: Seq<char>, n: Seq<char>, k: int)
    requires
        0 <= k <= s.len(),
    ensures
        match find_from(s, n, k) {
            Some(j) => find(s.skip(k), n) == Some(j - k),
            None => find(s.skip(k), n) is None,
        },
{
    lemma_find_shift_from(s, n, k, k);
}

proof fn lemma_find_shift_from(s: Seq<char>, n: Seq<char>, k: int, i: int)
    requires
        0 <= k <= i,
        k <= s.len(),
    ensures
        match find_from(s, n, i) {
            Some(j) => find_from(s.skip(k), n, i - k) == Some(j - k),
            None => find_from(s.skip(k), n, i - k) is None,
        },
    decreases s.len() + 1 - i,
{
    if i + n.len() > s.len() {
    } else {
        assert(s.skip(k).subrange(i - k, i - k + n.len()) == s.subrange(i, i + n.len()));
        if !matches_at(s, n, i) {
            lemma_find_shift_from(s, n, k, i + 1);
        }
    }
}


/// One parsed line of the model's stream: the reply text it carries and its
/// `done` flag.
pub struct StreamLine {
    pub content: Option<String>,
    pub done: Option<bool>,
}

/// The reply texts of the parsed lines of a chunk, in order; lines that failed
/// to parse (`None`) are skipped, and with `stop_at_done` the line flagged
/// `done` is the last one read.
pub open spec fn reply_contents(lines: Seq<Option<StreamLine>>, stop_at_done: bool) -> Seq<
    Seq<char>,
>
    decreases lines.len(),
{
    if lines.len() == 0 {
        Seq::empty()
    } else {
        match lines[0] {
            None => reply_contents(lines.drop_first(), stop_at_done),
            Some(l) => {
                let own: Seq<Seq<char>> = match l.content {
                    Some(c) => seq![c@],
                    None => Seq::empty(),
                };
                if stop_at_done && l.done == Some(true) {
                    own
                } else {
                    own + reply_contents(lines.drop_first(), stop_at_done)
                }
            },
        }
    }
}

fn copy_str(s: &String) -> (r: String)
    ensures
        r@ == s@,
{
    s.clone()
}

/// The reply texts carried by the parsed lines of a chunk.
pub fn line_contents(lines: &Vec<Option<StreamLine>>, stop_at_done: bool) -> (r: Vec<String>)
    ensures
        string_views(r@) == reply_contents(lines@, stop_at_done),
{
    let mut out: Vec<String> = Vec::new();
    let mut i: usize = 0;
    assert(lines@.skip(0) == lines@);
    while i < lines.len()
        invariant
            i <= lines@.len(),
            reply_contents(lines@, stop_at_done) == string_views(out@) + reply_contents(
                lines@.skip(i as int),
                stop_at_done,
            ),
        decreases lines.len() - i,
    {
        let ghost rest = lines@.skip(i as int);
        assert(rest[0] == lines@[i as int]);
        assert(rest.drop_first() == lines@.skip(i + 1));
        match &lines[i] {
            None => {},
            Some(l) => {
                match &l.content {
                    Some(c) => {
                        let ghost before = out@;
                        out.push(copy_str(c));
                        assert(string_views(out@) =~= string_views(before) + seq![c@]);
                    },
                    None => {},
                }
                if stop_at_done && matches!(l.done, Some(true)) {
                    assert(string_views(out@) + Seq::<Seq<char>>::empty() == string_views(out@));
                    return out;
                }
            },
        }
        i += 1;
    }
    assert(lines@.skip(i as int).len() == 0);
    out
}

/// Number of non-overlapping occurrences of `p` in `s`, scanning left to right
/// (`str::matches(p).count()`).
pub open spec fn count_occurrences(s: Seq<char>, p: Seq<char>) -> nat
    decreases s.len(),
{
    if p.len() == 0 || s.len() < p.len() {
        0
    } else if s.take(p.len() as int) == p {
        1 + count_occurrences(s.skip(p.len() as int), p)
    } else {
        count_occurrences(s.drop_first(), p)
    }
}

/// `s` without backticks.
pub open spec fn without_backticks(s: Seq<char>) -> Seq<char>
    decreases s.len(),
{
    if s.len() == 0 {
        Seq::empty()
    } else {
        (if s[0] == '`' {
            Seq::empty()
        } else {
            seq![s[0]]
        }) + without_backticks(s.drop_first())
    }
}

/// Whether `s` ends a sentence: its last character is `.`, `!` or `?`.
pub open spec fn ends_sentence(s: Seq<char>) -> bool {
    s.len() > 0 && (s.last() == '.' || s.last() == '!' || s.last() == '?')
}

/// Whether a reply text is spoken: the reply so far (`full`, this text
/// included) is outside a code block, and the text holds no code fence.
pub open spec fn speakable(full: Seq<char>, content: Seq<char>) -> bool {
    count_occurrences(full, "```"@) % 2 == 0 && find(content, "```"@) is None
}

/// The text waiting to be spoken after a reply text is taken in, and the
/// sentence segment that is handed over for speaking, if any: a segment goes
/// once the waiting text is at least 80 bytes long and ends a sentence.
pub open spec fn pending_after(pending: Seq<char>, full: Seq<char>, content: Seq<char>) -> (
    Seq<char>,
    Option<Seq<char>>,
) {
    if speakable(full, content) {
        let p = pending + without_backticks(content);
        if byte_len(p) >= 80 && ends_sentence(p) {
            (Seq::empty(), Some(p))
        } else {
            (p, None)
        }
    } else {
        (pending, None)
    }
}

fn count_occurrences_vec(s: &Vec<char>, p: &Vec<char>) -> (n: usize)
    requires
        p@.len() > 0,
    ensures
        n == count_occurrences(s@, p@),
{
    let mut n: usize = 0;
    let mut i: usize = 0;
    assert(s@.skip(0) == s@);
    while i < s.len()
        invariant
            i <= s@.len(),
            p@.len() > 0,
            n <= i,
            count_occurrences(s@, p@) == n + count_occurrences(s@.skip(i as int), p@),
        decreases s.len() - i,
    {
        let ghost rest = s@.skip(i as int);
        if p.len() <= s.len() - i && crate::text::match_at_chars(s, p, i) {
            assert(rest.take(p@.len() as int) == s@.subrange(i as int, i + p@.len()));
            assert(rest.skip(p@.len() as int) == s@.skip(i + p@.len()));
            n += 1;
            i += p.len();
        } else {
            if p.len() <= s.len() - i {
                assert(rest.take(p@.len() as int) == s@.subrange(i as int, i + p@.len()));
            }
            assert(rest.drop_first() == s@.skip(i + 1));
            i += 1;
        }
    }
    assert(s@.skip(i as int).len() == 0);
    n
}

fn without_backticks_vec(s: &Vec<char>) -> (r: Vec<char>)
    ensures
        r@ == without_backticks(s@),
{
    let mut r: Vec<char> = Vec::new();
    let mut i: usize = 0;
    assert(s@.skip(0) == s@);
    while i < s.len()
        invariant
            i <= s@.len(),
            without_backticks(s@) == r@ + without_backticks(s@.skip(i as int)),
        decreases s.len() - i,
    {
        assert(s@.skip(i as int).drop_first() == s@.skip(i + 1));
        if s[i] != '`' {
            r.push(s[i]);
        }
        i += 1;
    }
    assert(s@.skip(i as int).len() == 0);
    r
}

/// Text without backticks holds no backtick.
pub(crate) proof fn lemma_without_backticks(s: Seq<char>)
    ensures
        !without_backticks(s).contains('`'),
    decreases s.len(),
{
    if s.len() > 0 {
        lemma_without_backticks(s.drop_first());
        let h: Seq<char> = if s[0] == '`' {
            Seq::empty()
        } else {
            seq![s[0]]
        };
        let t = without_backticks(s.drop_first());
        assert forall|i: int| 0 <= i < (h + t).len() implies (h + t)[i] != '`' by {
            if i < h.len() {
            } else {
                assert((h + t)[i] == t[i - h.len()]);
            }
        }
    }
}

/// The model's reply as it streams in: all of its text, and the text not yet
/// handed over for speaking, which never holds a backtick.
pub struct ReplyState {
    full: Vec<char>,
    pending: Vec<char>,
}

impl ReplyState {
    #[verifier::type_invariant]
    spec fn pending_has_no_backtick(&self) -> bool {
        !self.pending@.contains('`')
    }

    /// All reply text received so far.
    pub closed spec fn full(&self) -> Seq<char> {
        self.full@
    }

    /// Text taken in for speaking but not yet handed over.
    pub closed spec fn pending(&self) -> Seq<char> {
        self.pending@
    }

    /// A reply that has not begun.
    pub fn new() -> (r: ReplyState)
        ensures
            r.full() == Seq::<char>::empty(),
            r.pending() == Seq::<char>::empty(),
    {
        ReplyState { full: Vec::new(), pending: Vec::new() }
    }

    /// All reply text received so far.
    pub fn full_text(&self) -> (r: String)
        ensures
            r@ == self.full(),
    {
        string_of(&self.full)
    }

    /// Whether no reply text has arrived.
    pub fn is_empty(&self) -> (r: bool)
        ensures
            r == (self.full().len() == 0),
    {
        self.full.len() == 0
    }

    /// Takes in one reply text; returns the sentence segment to speak, if one is
    /// complete. A segment holds no backtick, is at least 80 bytes long and ends
    /// a sentence.
    pub fn absorb(&mut self, content: &str) -> (r: Option<String>)
        ensures
            final(self).full() == old(self).full() + content@,
            final(self).pending() == pending_after(
                old(self).pending(),
                old(self).full() + content@,
                content@,
            ).0,
            match r {
                Some(seg) => pending_after(
                    old(self).pending(),
                    old(self).full() + content@,
                    content@,
                ).1 == Some(seg@),
                None => pending_after(
                    old(self).pending(),
                    old(self).full() + content@,
                    content@,
                ).1 is None,
            },
            r matches Some(seg) ==> !seg@.contains('`') && byte_len(seg@) >= 80 && ends_sentence(
                seg@,
            ),
    {
        proof {
            use_type_invariant(&*self);
        }
        let c = chars_of(content);
        let full = concat_vec(&self.full, &c);
        let fence = chars_of("```");
        assert(fence@.len() == 3) by {
            reveal_strlit("```");
        }
        let in_code = count_occurrences_vec(&full, &fence) % 2 == 1;
        let has_fence = find_chars_from(&c, &fence, 0).is_some();
        let ghost old_pending = self.pending@;
        let ghost old_full = self.full@;
        let mut seg: Option<String> = None;
        if !in_code && !has_fence {
            let cleaned = without_backticks_vec(&c);
            proof {
                lemma_without_backticks(c@);
            }
            let p = concat_vec(&self.pending, &cleaned);
            proof {
                assert forall|i: int| 0 <= i < p@.len() implies p@[i] != '`' by {
                    if i < old_pending.len() {
                        assert(p@[i] == old_pending[i]);
                    } else {
                        assert(p@[i] == without_backticks(c@)[i - old_pending.len()]);
                    }
                }
            }
            let n = p.len();
            let ends = n > 0 && (p[n - 1] == '.' || p[n - 1] == '!' || p[n - 1] == '?');
            if byte_len_at_least(&p, 80) && ends {
                seg = Some(string_of(&p));
                self.full = full;
                self.pending = Vec::new();
            } else {
                self.full = full;
                self.pending = p;
            }
        } else {
            self.full = full;
        }
        seg
    }

    /// Hands over what is left to speak at the end of the reply, if anything.
    pub fn finish(&mut self) -> (r: Option<String>)
        ensures
            final(self).full() == old(self).full(),
            final(self).pending() == Seq::<char>::empty(),
            match r {
                Some(seg) => old(self).pending().len() > 0 && seg@ == old(self).pending(),
                None => old(self).pending().len() == 0,
            },
    {
        if self.pending.len() > 0 {
            let seg = string_of(&self.pending);
            self.pending = Vec::new();
            Some(seg)
        } else {
            None
        }
    }
}

} // verus!

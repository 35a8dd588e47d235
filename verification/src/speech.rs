//! Recognised speech: telling real utterances from noise markers, reading the
//! transcriber's progress and assembling its output.

use vstd::prelude::*;
use vstd::utf8::encode_utf8;
use crate::text::{
    chars_of, concat_vec, contains_bytes, contains_in, find, find_chars_from, find_from,
    join, lemma_find_in_bounds, lowercase, parse_unsigned, parse_unsigned_vec, string_of,
    strip_trailing, strip_trailing_vec, to_lowercase, trim, trim_vec,
};

verus! {

/// Whether the lowercase form of `t` holds `w`.
pub open spec fn lower_mentions(t: Seq<char>, w: Seq<char>) -> bool {
    contains_bytes(encode_utf8(lowercase(t)), encode_utf8(w))
}

/// Speech worth answering: not blank, and not one of the transcriber's
/// markers for silence, music, laughter, sound or noise.
pub open spec fn meaningful_speech(text: Seq<char>) -> bool {
    let t = trim(text);
    t.len() > 0 && !(lower_mentions(t, "[blank_audio]"@) || lower_mentions(t, "[music"@)
        || lower_mentions(t, "[laughter]"@) || lower_mentions(t, "[sound"@) || lower_mentions(
        t,
        "[noise]"@,
    ))
}

/// Whether a transcription holds speech worth answering.
pub fn is_meaningful_speech(text: &str) -> (r: bool)
    ensures
        r == meaningful_speech(text@),
{
    let v = chars_of(text);
    let t = trim_vec(&v);
    if t.len() == 0 {
        return false;
    }
    let ts = string_of(&t);
    let lower = to_lowercase(ts.as_str());
    let lb = lower.as_str().as_bytes();
    !(contains_in(lb, "[blank_audio]".as_bytes()) || contains_in(lb, "[music".as_bytes())
        || contains_in(lb, "[laughter]".as_bytes()) || contains_in(lb, "[sound".as_bytes())
        || contains_in(lb, "[noise]".as_bytes()))
}

/// The second piece of `s` split at `p` (`s.split(p).nth(1)`): what lies between
/// the first occurrence of `p` and the next one, or the end.
pub open spec fn second_piece(s: Seq<char>, p: Seq<char>) -> Option<Seq<char>> {
    match find(s, p) {
        None => None,
        Some(i) => {
            let from = i + p.len();
            match find_from(s, p, from) {
                Some(j) => Some(s.subrange(from, j)),
                None => Some(s.subrange(from, s.len() as int)),
            }
        },
    }
}

/// The percentage that a progress line of the transcriber reports, capped at 100.
pub open spec fn progress_of(line: Seq<char>) -> Option<nat> {
    match second_piece(line, "progress ="@) {
        None => None,
        Some(p) => match parse_unsigned(strip_trailing(trim(p), '%'), 65535) {
            None => None,
            Some(v) => Some(if v <= 100 {
                v
            } else {
                100
            }),
        },
    }
}

/// Reads the progress percentage from a line that the transcriber writes to its
/// error stream, such as `whisper_print_progress_callback: progress =  42%`.
pub fn parse_progress_line(line: &str) -> (r: Option<u16>)
    ensures
        match r {
            Some(v) => progress_of(line@) == Some(v as nat),
            None => progress_of(line@) is None,
        },
{
    let h = chars_of(line);
    let hl = h.len();
    let marker = chars_of("progress =");
    let first = find_chars_from(&h, &marker, 0);
    match first {
        None => None,
        Some(i) => {
            proof {
                lemma_find_in_bounds(h@, marker@, 0);
            }
            let from = i + marker.len();
            let end = match find_chars_from(&h, &marker, from) {
                Some(j) => {
                    proof {
                        lemma_find_in_bounds(h@, marker@, from as int);
                    }
                    j
                },
                None => h.len(),
            };
            let mut piece: Vec<char> = Vec::new();
            let mut k = from;
            while k < end
                invariant
                    from <= k <= end <= h@.len(),
                    piece@ == h@.subrange(from as int, k as int),
                decreases end - k,
            {
                piece.push(h[k]);
                assert(h@.subrange(from as int, k + 1) == h@.subrange(from as int, k as int).push(
                    h@[k as int],
                ));
                k += 1;
            }
            let t = trim_vec(&piece);
            let s = strip_trailing_vec(&t, '%');
            match parse_unsigned_vec(&s, 65535) {
                None => None,
                Some(v) => Some(
                    if v <= 100 {
                        v as u16
                    } else {
                        100
                    },
                ),
            }
        },
    }
}

/// The lines that are not blank, in order.
pub open spec fn nonblank(lines: Seq<Seq<char>>) -> Seq<Seq<char>>
    decreases lines.len(),
{
    if lines.len() == 0 {
        Seq::empty()
    } else if trim(lines.last()).len() > 0 {
        nonblank(lines.drop_last()).push(lines.last())
    } else {
        nonblank(lines.drop_last())
    }
}

/// The transcript made of the transcriber's output lines.
pub open spec fn transcript_of(lines: Seq<Seq<char>>) -> Seq<char> {
    trim(join(nonblank(lines), " "@))
}

pub open spec fn views(lines: Seq<String>) -> Seq<Seq<char>> {
    lines.map_values(|l: String| l@)
}

/// Joins the transcriber's non-blank output lines with spaces, trimmed.
pub fn join_transcript(lines: &Vec<String>) -> (r: String)
    ensures
        r@ == transcript_of(views(lines@)),
{
    let ghost all = views(lines@);
    let sp = chars_of(" ");
    let mut acc: Vec<char> = Vec::new();
    let mut any = false;
    let mut i: usize = 0;
    while i < lines.len()
        invariant
            i <= lines@.len(),
            all == views(lines@),
            sp@ == " "@,
            acc@ == join(nonblank(all.take(i as int)), " "@),
            any == (nonblank(all.take(i as int)).len() > 0),
        decreases lines.len() - i,
    {
        let line = chars_of(lines[i].as_str());
        assert(all.take(i + 1).drop_last() == all.take(i as int));
        assert(all.take(i + 1).last() == line@);
        let t = trim_vec(&line);
        let ghost nb = nonblank(all.take(i as int));
        if t.len() > 0 {
            assert(nonblank(all.take(i + 1)) == nb.push(line@));
            assert(nb.push(line@).drop_last() == nb);
            if any {
                let with_sep = concat_vec(&acc, &sp);
                acc = concat_vec(&with_sep, &line);
            } else {
                acc = line;
            }
            any = true;
        } else {
            assert(nonblank(all.take(i + 1)) == nb);
        }
        i += 1;
    }
    assert(all.take(lines@.len() as int) == all);
    let t = trim_vec(&acc);
    string_of(&t)
}


/// The most samples kept while listening continuously: 30 seconds at 48 kHz.
pub const MAX_BUFFERED_SAMPLES: usize = 1_440_000;

/// The fewest samples worth transcribing: one second at 16 kHz.
pub const MIN_TRANSCRIBED_SAMPLES: usize = 16_000;

/// How many of the oldest samples to drop so that at most
/// `MAX_BUFFERED_SAMPLES` stay.
pub fn samples_to_drop(buffered: usize) -> (n: usize)
    ensures
        n == if buffered > MAX_BUFFERED_SAMPLES {
            buffered - MAX_BUFFERED_SAMPLES
        } else {
            0
        },
        buffered - n <= MAX_BUFFERED_SAMPLES,
{
    if buffered > MAX_BUFFERED_SAMPLES {
        buffered - MAX_BUFFERED_SAMPLES
    } else {
        0
    }
}

/// Whether enough audio is buffered to transcribe.
pub fn enough_audio(samples: usize) -> (r: bool)
    ensures
        r == (samples >= MIN_TRANSCRIBED_SAMPLES),
{
    samples >= MIN_TRANSCRIBED_SAMPLES
}

/// Milliseconds of quiet after the last loud block that end an utterance.
pub const SILENCE_TIMEOUT_MS: u64 = 1500;

/// What one block of microphone input does to the utterance being recorded.
pub struct VoiceStep {
    /// Speech has begun.
    pub speaking: bool,
    /// The block belongs to the utterance.
    pub keep: bool,
    /// The utterance is complete.
    pub done: bool,
}

/// Takes one block of input: a loud block begins or continues speech and is
/// kept; before speech began a quiet block is dropped; after it, a quiet block
/// is kept, and once `quiet_ms` (since the last loud block) reaches
/// `SILENCE_TIMEOUT_MS` the utterance is complete.
pub fn voice_step(speaking: bool, loud: bool, quiet_ms: u64) -> (r: VoiceStep)
    ensures
        r.speaking == (speaking || loud),
        r.keep == (speaking || loud),
        r.done == (!loud && speaking && quiet_ms >= SILENCE_TIMEOUT_MS),
{
    if loud {
        VoiceStep { speaking: true, keep: true, done: false }
    } else if speaking {
        VoiceStep { speaking: true, keep: true, done: quiet_ms >= SILENCE_TIMEOUT_MS }
    } else {
        VoiceStep { speaking: false, keep: false, done: false }
    }
}

/// The transcript to show: trimmed, and only when it is not blank and differs
/// from the one shown last.
pub open spec fn fresh_transcript_of(text: Seq<char>, last: Seq<char>) -> Option<Seq<char>> {
    let t = trim(text);
    if t.len() > 0 && t != last {
        Some(t)
    } else {
        None
    }
}

/// Decides whether a new transcript is shown.
pub fn fresh_transcript(text: &str, last: &str) -> (r: Option<String>)
    ensures
        match fresh_transcript_of(text@, last@) {
            Some(t) => r matches Some(s) && s@ == t,
            None => r is None,
        },
{
    let t = trim_vec(&chars_of(text));
    let l = chars_of(last);
    if t.len() > 0 && !crate::text::same_chars(&t, &l) {
        Some(string_of(&t))
    } else {
        None
    }
}

} // verus!

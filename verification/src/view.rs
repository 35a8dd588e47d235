//! What the terminal shows: the chat wrapped into lines, where it is scrolled
//! to, the pop-up's placement, and the voice level meter's frames.

use vstd::prelude::*;
use crate::session::{ChatView, Phase, entries_view};
use crate::stream::{lines_of, split_lines};
use crate::text::{
    byte_len, byte_len_at_least, chars_of, concat_vec, head_to_byte, head_to_byte_vec,
    lemma_head_to_byte, same_chars, string_of, sub_vec,
};

verus! {

/// Index of the last space of `s`.
pub open spec fn last_space(s: Seq<char>) -> Option<int>
    decreases s.len(),
{
    if s.len() == 0 {
        None
    } else if s.last() == ' ' {
        Some(s.len() - 1)
    } else {
        last_space(s.drop_last())
    }
}

fn last_space_vec(v: &Vec<char>) -> (r: Option<usize>)
    ensures
        match r {
            Some(i) => last_space(v@) == Some(i as int) && i < v@.len(),
            None => last_space(v@) is None,
        },
{
    let mut j: usize = v.len();
    assert(v@.take(v.len() as int) == v@);
    while j > 0
        invariant
            j <= v@.len(),
            last_space(v@) == last_space(v@.take(j as int)),
        decreases j,
    {
        assert(v@.take(j as int).drop_last() == v@.take(j - 1));
        if v[j - 1] == ' ' {
            return Some(j - 1);
        }
        j -= 1;
    }
    None
}

/// The pieces that a line of `t` is wrapped into at `w` bytes: each piece
/// takes at most `w` bytes, ending after the last space within them where
/// there is one; `None` where byte `w` of the rest falls inside a character
/// (slicing there panics).
pub open spec fn wrap_text(t: Seq<char>, w: nat) -> Option<Seq<Seq<char>>>
    decreases t.len(),
{
    if t.len() == 0 || w == 0 {
        Some(Seq::empty())
    } else if byte_len(t) <= w {
        Some(seq![t])
    } else {
        match head_to_byte(t, w as int) {
            None => None,
            Some(h) => {
                let k = match last_space(h) {
                    Some(i) => i + 1,
                    None => h.len() as int,
                };
                if 0 < k <= t.len() {
                    match wrap_text(t.skip(k), w) {
                        Some(rest) => Some(seq![t.take(k)] + rest),
                        None => None,
                    }
                } else {
                    None
                }
            },
        }
    }
}

pub open spec fn vec_views(v: Seq<Vec<char>>) -> Seq<Seq<char>> {
    v.map_values(|l: Vec<char>| l@)
}

/// Adds the wrapped pieces of `t` to `out`.
fn wrap_into(out: &mut Vec<Vec<char>>, t: &Vec<char>, w: usize) -> (ok: bool)
    requires
        0 < w <= 65535,
    ensures
        match wrap_text(t@, w as nat) {
            Some(p) => ok && vec_views(final(out)@) == vec_views(old(out)@) + p,
            None => !ok,
        },
{
    let mut pos: usize = 0;
    assert(t@.skip(0) == t@);
    assert(vec_views(out@) + Seq::<Seq<char>>::empty() == vec_views(out@));
    while pos < t.len()
        invariant
            pos <= t@.len(),
            0 < w <= 65535,
            wrap_text(t@, w as nat) == match wrap_text(t@.skip(pos as int), w as nat) {
                Some(r) => Some(vec_views(out@).subrange(
                    vec_views(old(out)@).len() as int,
                    vec_views(out@).len() as int,
                ) + r),
                None => None,
            },
            vec_views(out@).len() >= vec_views(old(out)@).len(),
            vec_views(out@).subrange(0, vec_views(old(out)@).len() as int) == vec_views(old(out)@),
        decreases t.len() - pos,
    {
        let rest = sub_vec(t, pos, t.len());
        assert(rest@ == t@.skip(pos as int));
        let ghost done = vec_views(out@).subrange(
            vec_views(old(out)@).len() as int,
            vec_views(out@).len() as int,
        );
        if !byte_len_at_least(&rest, w + 1) {
            let ghost before = out@;
            out.push(rest);
            assert(vec_views(out@) =~= vec_views(before).push(t@.skip(pos as int)));
            assert(vec_views(out@).subrange(
                vec_views(old(out)@).len() as int,
                vec_views(out@).len() as int,
            ) =~= done + seq![t@.skip(pos as int)]);
            assert(vec_views(out@).subrange(0, vec_views(old(out)@).len() as int) =~= vec_views(
                old(out)@,
            ));
            assert(t@.skip(t@.len() as int).len() == 0);
            pos = t.len();
        } else {
            match head_to_byte_vec(&rest, w) {
                None => {
                    return false;
                },
                Some(h) => {
                    proof {
                        lemma_head_to_byte(rest@, w as int);
                    }
                    let hl = h.len();
                    let k = match last_space_vec(&h) {
                        Some(i) => i + 1,
                        None => h.len(),
                    };
                    assert(h@.len() <= rest@.len());
                    let piece = sub_vec(&rest, 0, k);
                    assert(piece@ == rest@.take(k as int));
                    assert(rest@.skip(k as int) == t@.skip(pos + k));
                    let ghost before = out@;
                    out.push(piece);
                    assert(vec_views(out@) =~= vec_views(before).push(piece@));
                    assert(vec_views(out@).subrange(
                        vec_views(old(out)@).len() as int,
                        vec_views(out@).len() as int,
                    ) =~= done + seq![piece@]);
                    assert(vec_views(out@).subrange(0, vec_views(old(out)@).len() as int)
                        =~= vec_views(old(out)@));
                    proof {
                        match wrap_text(t@.skip(pos + k), w as nat) {
                            Some(r2) => {
                                assert(done + (seq![piece@] + r2) == done + seq![piece@] + r2);
                            },
                            None => {},
                        }
                    }
                    pos = pos + k;
                },
            }
        }
    }
    assert(t@.skip(pos as int).len() == 0);
    assert(vec_views(out@) =~= vec_views(old(out)@) + vec_views(out@).subrange(
        vec_views(old(out)@).len() as int,
        vec_views(out@).len() as int,
    ));
    true
}


/// The label in front of a chat entry's first line.
pub open spec fn speaker_prefix(role: Seq<char>) -> Seq<char> {
    if role == "user"@ {
        "You: "@
    } else {
        "AI: "@
    }
}

/// The display lines of an entry's text lines: empty lines stay empty; the
/// first non-empty line gets the speaker's label; each is wrapped at `w` bytes
/// where `w` is positive.
pub open spec fn content_lines(ls: Seq<Seq<char>>, prefix: Seq<char>, first: bool, w: nat) -> Option<
    Seq<Seq<char>>,
>
    decreases ls.len(),
{
    if ls.len() == 0 {
        Some(Seq::empty())
    } else if ls[0].len() == 0 {
        match content_lines(ls.drop_first(), prefix, first, w) {
            Some(r) => Some(seq![Seq::<char>::empty()] + r),
            None => None,
        }
    } else {
        let text = if first {
            prefix + ls[0]
        } else {
            ls[0]
        };
        let pieces = if w > 0 {
            wrap_text(text, w)
        } else {
            Some(seq![text])
        };
        match pieces {
            None => None,
            Some(p) => match content_lines(ls.drop_first(), prefix, false, w) {
                Some(r) => Some(p + r),
                None => None,
            },
        }
    }
}

/// The display lines of the chat entries, each entry followed by an empty line.
pub open spec fn entries_lines(es: Seq<(Seq<char>, Seq<char>)>, w: nat) -> Option<Seq<Seq<char>>>
    decreases es.len(),
{
    if es.len() == 0 {
        Some(Seq::empty())
    } else {
        match content_lines(lines_of(es[0].1), speaker_prefix(es[0].0), true, w) {
            None => None,
            Some(a) => match entries_lines(es.drop_first(), w) {
                Some(b) => Some(a.push(Seq::empty()) + b),
                None => None,
            },
        }
    }
}

/// All lines of the chat panel: the entries, then the error where there is one;
/// `None` where wrapping would slice inside a character.
pub open spec fn chat_lines_of(
    es: Seq<(Seq<char>, Seq<char>)>,
    error: Option<Seq<char>>,
    w: nat,
) -> Option<Seq<Seq<char>>> {
    match entries_lines(es, w) {
        None => None,
        Some(ls) => match error {
            Some(e) => Some(ls.push("Error: "@ + e)),
            None => Some(ls),
        },
    }
}

fn push_line(out: &mut Vec<Vec<char>>, l: Vec<char>)
    ensures
        vec_views(final(out)@) == vec_views(old(out)@).push(l@),
{
    let ghost before = out@;
    out.push(l);
    assert(vec_views(out@) =~= vec_views(before).push(l@));
}

fn content_into(out: &mut Vec<Vec<char>>, content: &Vec<char>, prefix: &Vec<char>, w: usize) -> (ok: bool)
    requires
        w <= 65535,
    ensures
        match content_lines(lines_of(content@), prefix@, true, w as nat) {
            Some(p) => ok && vec_views(final(out)@) == vec_views(old(out)@) + p,
            None => !ok,
        },
{
    let ls = split_lines(content);
    let ghost all = ls@.map_values(|l: Vec<char>| l@);
    let mut first = true;
    let mut i: usize = 0;
    assert(all.skip(0) == all);
    assert(vec_views(out@) + Seq::<Seq<char>>::empty() == vec_views(out@));
    while i < ls.len()
        invariant
            i <= ls@.len(),
            w <= 65535,
            all == ls@.map_values(|l: Vec<char>| l@),
            all == lines_of(content@),
            content_lines(all, prefix@, true, w as nat) == match content_lines(
                all.skip(i as int),
                prefix@,
                first,
                w as nat,
            ) {
                Some(r) => Some(vec_views(out@).subrange(
                    vec_views(old(out)@).len() as int,
                    vec_views(out@).len() as int,
                ) + r),
                None => None,
            },
            vec_views(out@).len() >= vec_views(old(out)@).len(),
            vec_views(out@).subrange(0, vec_views(old(out)@).len() as int) == vec_views(old(out)@),
        decreases ls.len() - i,
    {
        let ghost rest = all.skip(i as int);
        assert(rest[0] == ls@[i as int]@);
        assert(rest.drop_first() == all.skip(i + 1));
        let ghost done = vec_views(out@).subrange(
            vec_views(old(out)@).len() as int,
            vec_views(out@).len() as int,
        );
        let ghost mid = out@;
        let line = &ls[i];
        if line.len() == 0 {
            push_line(out, Vec::new());
            assert(vec_views(out@).subrange(
                vec_views(old(out)@).len() as int,
                vec_views(out@).len() as int,
            ) =~= done + seq![Seq::<char>::empty()]);
            assert(vec_views(out@).subrange(0, vec_views(old(out)@).len() as int) =~= vec_views(
                old(out)@,
            ));
            proof {
                match content_lines(all.skip(i + 1), prefix@, first, w as nat) {
                    Some(r2) => {
                        assert(done + (seq![Seq::<char>::empty()] + r2) == done + seq![
                            Seq::<char>::empty(),
                        ] + r2);
                    },
                    None => {},
                }
            }
        } else {
            let text = if first {
                concat_vec(prefix, line)
            } else {
                sub_vec(line, 0, line.len())
            };
            assert(line@.subrange(0, line@.len() as int) == line@);
            if w > 0 {
                if !wrap_into(out, &text, w) {
                    return false;
                }
            } else {
                push_line(out, text);
            }
            let ghost pieces = if w > 0 {
                wrap_text(text@, w as nat)->0
            } else {
                seq![text@]
            };
            assert(vec_views(out@) == vec_views(mid) + pieces);
            assert(vec_views(out@).subrange(
                vec_views(old(out)@).len() as int,
                vec_views(out@).len() as int,
            ) =~= done + pieces);
            assert(vec_views(out@).subrange(0, vec_views(old(out)@).len() as int) =~= vec_views(
                old(out)@,
            ));
            proof {
                match content_lines(all.skip(i + 1), prefix@, false, w as nat) {
                    Some(r2) => {
                        assert(done + (pieces + r2) == done + pieces + r2);
                    },
                    None => {},
                }
            }
            first = false;
        }
        i += 1;
    }
    assert(all.skip(i as int).len() == 0);
    assert(vec_views(out@) =~= vec_views(old(out)@) + vec_views(out@).subrange(
        vec_views(old(out)@).len() as int,
        vec_views(out@).len() as int,
    ));
    true
}

/// The lines of the chat panel for the given entries and error, wrapped at
/// `width` bytes where `width` is positive; `None` where wrapping would slice
/// inside a character.
pub fn chat_lines(view: &ChatView, width: u16) -> (r: Option<Vec<String>>)
    ensures
        match chat_lines_of(view@.messages, view@.error, width as nat) {
            Some(ls) => r matches Some(v) && v@.map_values(|s: String| s@) == ls,
            None => r is None,
        },
{
    let w = width as usize;
    let es = &view.messages;
    let ghost all = entries_view(es@);
    let mut out: Vec<Vec<char>> = Vec::new();
    let user = chars_of("user");
    let you = chars_of("You: ");
    let ai = chars_of("AI: ");
    let mut i: usize = 0;
    assert(all.skip(0) == all);
    assert(vec_views(out@) =~= Seq::<Seq<char>>::empty());
    while i < es.len()
        invariant
            i <= es@.len(),
            w <= 65535,
            all == entries_view(es@),
            all == view@.messages,
            w as nat == width as nat,
            user@ == "user"@,
            you@ == "You: "@,
            ai@ == "AI: "@,
            entries_lines(all, w as nat) == match entries_lines(all.skip(i as int), w as nat) {
                Some(r) => Some(vec_views(out@) + r),
                None => None,
            },
        decreases es.len() - i,
    {
        let ghost rest = all.skip(i as int);
        assert(rest[0] == (es@[i as int].role@, es@[i as int].content@));
        assert(rest.drop_first() == all.skip(i + 1));
        let role = chars_of(es[i].role.as_str());
        let content = chars_of(es[i].content.as_str());
        let prefix = if same_chars(&role, &user) {
            sub_vec(&you, 0, you.len())
        } else {
            sub_vec(&ai, 0, ai.len())
        };
        assert(you@.subrange(0, you@.len() as int) == you@);
        assert(ai@.subrange(0, ai@.len() as int) == ai@);
        let ghost before = vec_views(out@);
        assert(prefix@ == speaker_prefix(rest[0].0));
        assert(content@ == rest[0].1);
        if !content_into(&mut out, &content, &prefix, w) {
            assert(entries_lines(rest, w as nat) is None);
            assert(entries_lines(all, w as nat) is None);
            assert(view@.messages == all);
            assert(chat_lines_of(view@.messages, view@.error, width as nat) is None);
            return None;
        }
        let ghost a = vec_views(out@).subrange(before.len() as int, vec_views(out@).len() as int);
        assert(vec_views(out@) == before + a);
        push_line(&mut out, Vec::new());
        proof {
            match entries_lines(all.skip(i + 1), w as nat) {
                Some(b) => {
                    assert(before + (a.push(Seq::<char>::empty()) + b) == vec_views(out@) + b);
                },
                None => {},
            }
        }
        i += 1;
    }
    assert(all.skip(i as int).len() == 0);
    match &view.error {
        Some(e) => {
            let l = concat_vec(&chars_of("Error: "), &chars_of(e.as_str()));
            push_line(&mut out, l);
        },
        None => {},
    }
    let ghost lines = vec_views(out@);
    let mut res: Vec<String> = Vec::new();
    let mut j: usize = 0;
    while j < out.len()
        invariant
            j <= out@.len(),
            lines == vec_views(out@),
            res@.map_values(|s: String| s@) == lines.take(j as int),
        decreases out.len() - j,
    {
        let ghost before = res@;
        res.push(string_of(&out[j]));
        assert(res@.map_values(|s: String| s@) =~= before.map_values(|s: String| s@).push(
            out@[j as int]@,
        ));
        assert(lines.take(j + 1) == lines.take(j as int).push(out@[j as int]@));
        j += 1;
    }
    assert(lines.take(out@.len() as int) == lines);
    Some(res)
}

/// The width that chat lines are wrapped at for a chat panel `panel_width`
/// columns wide: the panel's inside, less two columns.
pub fn wrap_width(panel_width: u16) -> (w: u16)
    ensures
        w as int == if panel_width >= 4 {
            panel_width - 4
        } else {
            0
        },
{
    panel_width.saturating_sub(2).saturating_sub(2)
}

/// Where the chat panel is scrolled: the offset from the bottom kept (reset to
/// the bottom while the assistant is busy, and at most the scrollable range),
/// and the first line shown.
pub open spec fn scroll_of(phase: Phase, lines: nat, height: nat, offset: nat) -> (nat, nat) {
    let max = if lines > height {
        (lines - height) as nat
    } else {
        0
    };
    let o = if phase == Phase::Listening {
        offset
    } else {
        0
    };
    let o2 = if o < max {
        o
    } else {
        max
    };
    (o2, (max - o2) as nat)
}

/// Computes the kept scroll offset and the first line shown.
pub fn chat_scroll(phase: Phase, lines: usize, height: usize, offset: usize) -> (r: (usize, usize))
    ensures
        (r.0 as nat, r.1 as nat) == scroll_of(phase, lines as nat, height as nat, offset as nat),
        r.0 + r.1 == if lines > height {
            lines - height
        } else {
            0
        },
{
    let max = lines.saturating_sub(height);
    let o = if phase == Phase::Listening {
        offset
    } else {
        0
    };
    let o2 = if o < max {
        o
    } else {
        max
    };
    (o2, max - o2)
}

/// The lengths before, of and after a centred part taking `percent` of `total`
/// cells: the part takes `total * percent / 100`, each margin
/// `total * (100 - percent) / 200`.
pub fn centered_lengths(total: u16, percent: u16) -> (r: (u16, u16, u16))
    requires
        percent <= 100,
        total * (100 - percent) <= u16::MAX,
        total * percent <= u16::MAX,
    ensures
        r.0 == total * (100 - percent) / 200,
        r.1 == total * percent / 100,
        r.2 == r.0,
{
    let margin = (total * (100 - percent)) / 200;
    let part = (total * percent) / 100;
    (margin, part, margin)
}

/// The number of samples in one frame of the voice level meter: a twentieth of
/// a second (at least one sample per channel), over all channels.
pub fn vu_frame_len(sample_rate: u32, channels: u16) -> (n: usize)
    requires
        (if sample_rate / 20 > 1 {
            sample_rate / 20
        } else {
            1
        }) * channels <= usize::MAX,
    ensures
        n == (if sample_rate / 20 > 1 {
            sample_rate / 20
        } else {
            1
        }) * channels,
{
    let per = (sample_rate / 20) as usize;
    let per = if per > 1 {
        per
    } else {
        1
    };
    per * (channels as usize)
}

/// The meter frame shown `elapsed_ms` milliseconds into playback: frames last
/// 50 ms, and the last frame stays shown.
pub fn vu_frame_index(elapsed_ms: u64, frames: usize) -> (i: usize)
    requires
        frames > 0,
    ensures
        i == (if elapsed_ms / 50 < frames {
            (elapsed_ms / 50) as int
        } else {
            frames - 1
        }),
{
    let f = elapsed_ms / 50;
    if f < frames as u64 {
        f as usize
    } else {
        frames - 1
    }
}

} // verus!

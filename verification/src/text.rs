//! Character-level string primitives with their specifications.

use vstd::prelude::*;
use vstd::utf8::is_ascii_chars;

verus! {

broadcast use vstd::string::group_string_axioms;

/// Unicode `White_Space`, the set of characters that `char::is_whitespace` accepts.
pub open spec fn is_white_space(c: char) -> bool {
    let u = c as u32;
    ||| 0x09 <= u <= 0x0D
    ||| u == 0x20
    ||| u == 0x85
    ||| u == 0xA0
    ||| u == 0x1680
    ||| 0x2000 <= u <= 0x200A
    ||| u == 0x2028
    ||| u == 0x2029
    ||| u == 0x202F
    ||| u == 0x205F
    ||| u == 0x3000
}

pub fn white_space(c: char) -> (r: bool)
    ensures
        r == is_white_space(c),
{
    let u = c as u32;
    (0x09 <= u && u <= 0x0D) || u == 0x20 || u == 0x85 || u == 0xA0 || u == 0x1680 || (0x2000 <= u
        && u <= 0x200A) || u == 0x2028 || u == 0x2029 || u == 0x202F || u == 0x205F || u == 0x3000
}

/// The characters of a string slice, in order.
pub fn chars_of(s: &str) -> (v: Vec<char>)
    ensures
        v@ == s@,
{
    let mut v: Vec<char> = Vec::new();
    for c in iter: s.chars()
        invariant
            v@ == iter.seq().take(iter.index()),
    {
        v.push(c);
    }
    v
}

/// Appends one character to a string (`String::push`).
#[verifier::external_body]
fn push_char(s: &mut String, c: char)
    ensures
        final(s)@ == old(s)@.push(c),
{
    s.push(c);
}

/// The string made of the given characters.
pub fn string_of(v: &Vec<char>) -> (s: String)
    ensures
        s@ == v@,
{
    let mut s = String::new();
    let mut i: usize = 0;
    while i < v.len()
        invariant
            i <= v.len(),
            s@ == v@.take(i as int),
        decreases v.len() - i,
    {
        push_char(&mut s, v[i]);
        assert(v@.take(i + 1) == v@.take(i as int).push(v@[i as int]));
        i += 1;
    }
    assert(v@.take(v.len() as int) == v@);
    s
}


/// Copy of `v[lo..hi]`.
pub fn sub_vec(v: &Vec<char>, lo: usize, hi: usize) -> (r: Vec<char>)
    requires
        lo <= hi <= v.len(),
    ensures
        r@ == v@.subrange(lo as int, hi as int),
{
    let mut r: Vec<char> = Vec::new();
    let mut i = lo;
    while i < hi
        invariant
            lo <= i <= hi <= v.len(),
            r@ == v@.subrange(lo as int, i as int),
        decreases hi - i,
    {
        r.push(v[i]);
        assert(v@.subrange(lo as int, i + 1) == v@.subrange(lo as int, i as int).push(v@[i as int]));
        i += 1;
    }
    r
}

/// The characters of `a` followed by those of `b`.
pub fn concat_vec(a: &Vec<char>, b: &Vec<char>) -> (r: Vec<char>)
    ensures
        r@ == a@ + b@,
{
    let mut r: Vec<char> = Vec::new();
    let mut i: usize = 0;
    while i < a.len()
        invariant
            i <= a.len(),
            r@ == a@.take(i as int),
        decreases a.len() - i,
    {
        r.push(a[i]);
        assert(a@.take(i + 1) == a@.take(i as int).push(a@[i as int]));
        i += 1;
    }
    assert(a@.take(a.len() as int) == a@);
    let mut j: usize = 0;
    while j < b.len()
        invariant
            j <= b.len(),
            r@ == a@ + b@.take(j as int),
        decreases b.len() - j,
    {
        r.push(b[j]);
        assert(b@.take(j + 1) == b@.take(j as int).push(b@[j as int]));
        assert(a@ + b@.take(j + 1) == (a@ + b@.take(j as int)).push(b@[j as int]));
        j += 1;
    }
    assert(b@.take(b.len() as int) == b@);
    r
}

/// `s` with leading Unicode white space removed (`str::trim_start`).
pub open spec fn trim_start(s: Seq<char>) -> Seq<char>
    decreases s.len(),
{
    if s.len() > 0 && is_white_space(s[0]) {
        trim_start(s.drop_first())
    } else {
        s
    }
}

/// `s` with trailing Unicode white space removed (`str::trim_end`).
pub open spec fn trim_end(s: Seq<char>) -> Seq<char>
    decreases s.len(),
{
    if s.len() > 0 && is_white_space(s.last()) {
        trim_end(s.drop_last())
    } else {
        s
    }
}

/// `s` with white space removed at both ends (`str::trim`).
pub open spec fn trim(s: Seq<char>) -> Seq<char> {
    trim_end(trim_start(s))
}

/// `s` with every trailing `c` removed (`str::trim_end_matches` with a `char`).
pub open spec fn strip_trailing(s: Seq<char>, c: char) -> Seq<char>
    decreases s.len(),
{
    if s.len() > 0 && s.last() == c {
        strip_trailing(s.drop_last(), c)
    } else {
        s
    }
}

proof fn lemma_trim_start_skip(s: Seq<char>, i: int)
    requires
        0 <= i < s.len(),
        is_white_space(s[i]),
    ensures
        trim_start(s.skip(i)) == trim_start(s.skip(i + 1)),
{
    assert(s.skip(i).drop_first() == s.skip(i + 1));
}

proof fn lemma_trim_end_take(s: Seq<char>, j: int)
    requires
        0 < j <= s.len(),
        is_white_space(s[j - 1]),
    ensures
        trim_end(s.take(j)) == trim_end(s.take(j - 1)),
{
    assert(s.take(j).drop_last() == s.take(j - 1));
}

/// Index of the first character of `v` that is not white space (or its length).
fn trim_start_index(v: &Vec<char>) -> (i: usize)
    ensures
        i <= v.len(),
        trim_start(v@) == v@.skip(i as int),
{
    let mut i: usize = 0;
    assert(v@.skip(0) == v@);
    while i < v.len() && white_space(v[i])
        invariant
            i <= v.len(),
            trim_start(v@) == trim_start(v@.skip(i as int)),
        decreases v.len() - i,
    {
        proof {
            lemma_trim_start_skip(v@, i as int);
        }
        i += 1;
    }
    i
}

/// One past the last character of `v` that is not white space (or 0).
fn trim_end_index(v: &Vec<char>) -> (j: usize)
    ensures
        j <= v.len(),
        trim_end(v@) == v@.take(j as int),
{
    let mut j: usize = v.len();
    assert(v@.take(v.len() as int) == v@);
    while j > 0 && white_space(v[j - 1])
        invariant
            j <= v.len(),
            trim_end(v@) == trim_end(v@.take(j as int)),
        decreases j,
    {
        proof {
            lemma_trim_end_take(v@, j as int);
        }
        j -= 1;
    }
    j
}

/// `v` with white space removed at both ends.
pub fn trim_vec(v: &Vec<char>) -> (r: Vec<char>)
    ensures
        r@ == trim(v@),
{
    let i = trim_start_index(v);
    let rest = sub_vec(v, i, v.len());
    assert(rest@ == v@.skip(i as int));
    let j = trim_end_index(&rest);
    sub_vec(&rest, 0, j)
}

/// `v` with leading white space removed.
pub fn trim_start_vec(v: &Vec<char>) -> (r: Vec<char>)
    ensures
        r@ == trim_start(v@),
{
    let i = trim_start_index(v);
    sub_vec(v, i, v.len())
}

/// `v` with every trailing `c` removed.
pub fn strip_trailing_vec(v: &Vec<char>, c: char) -> (r: Vec<char>)
    ensures
        r@ == strip_trailing(v@, c),
{
    let mut j: usize = v.len();
    assert(v@.take(v.len() as int) == v@);
    while j > 0 && v[j - 1] == c
        invariant
            j <= v.len(),
            strip_trailing(v@, c) == strip_trailing(v@.take(j as int), c),
        decreases j,
    {
        assert(v@.take(j as int).drop_last() == v@.take(j - 1));
        j -= 1;
    }
    sub_vec(v, 0, j)
}


/// Number of bytes of the UTF-8 encoding of `c` (`char::len_utf8`).
pub open spec fn utf8_width(c: char) -> nat {
    let u = c as u32;
    if u <= 0x7F {
        1
    } else if u <= 0x7FF {
        2
    } else if u <= 0xFFFF {
        3
    } else {
        4
    }
}

pub fn utf8_width_of(c: char) -> (w: usize)
    ensures
        w == utf8_width(c),
{
    let u = c as u32;
    if u <= 0x7F {
        1
    } else if u <= 0x7FF {
        2
    } else if u <= 0xFFFF {
        3
    } else {
        4
    }
}

/// Length in bytes of the UTF-8 encoding of `s` (`str::len`).
pub open spec fn byte_len(s: Seq<char>) -> nat
    decreases s.len(),
{
    if s.len() == 0 {
        0
    } else {
        utf8_width(s[0]) + byte_len(s.drop_first())
    }
}

/// The characters of `s` from byte offset `b` on (`&s[b..]`), or `None` where
/// `b` is not a character boundary of `s`, on which that slice panics.
pub open spec fn tail_from_byte(s: Seq<char>, b: int) -> Option<Seq<char>>
    decreases s.len(),
{
    if b == 0 {
        Some(s)
    } else if s.len() == 0 || b < utf8_width(s[0]) {
        None
    } else {
        tail_from_byte(s.drop_first(), b - utf8_width(s[0]))
    }
}

/// The characters of `v` from byte offset `b` on.
pub fn tail_from_byte_vec(v: &Vec<char>, b: usize) -> (r: Option<Vec<char>>)
    ensures
        match r {
            Some(t) => tail_from_byte(v@, b as int) == Some(t@),
            None => tail_from_byte(v@, b as int) is None,
        },
{
    let mut k: usize = 0;
    let mut rem: usize = b;
    assert(v@.skip(0) == v@);
    while rem > 0 && k < v.len() && rem >= utf8_width_of(v[k])
        invariant
            k <= v.len(),
            tail_from_byte(v@, b as int) == tail_from_byte(v@.skip(k as int), rem as int),
        decreases v.len() - k,
    {
        assert(v@.skip(k as int).drop_first() == v@.skip(k + 1));
        rem -= utf8_width_of(v[k]);
        k += 1;
    }
    if rem == 0 {
        Some(sub_vec(v, k, v.len()))
    } else {
        None
    }
}

/// The characters of `s` before byte offset `b` (`&s[..b]`), or `None` where
/// `b` is not a character boundary of `s`, on which that slice panics.
pub open spec fn head_to_byte(s: Seq<char>, b: int) -> Option<Seq<char>>
    decreases s.len(),
{
    if b == 0 {
        Some(Seq::empty())
    } else if s.len() == 0 || b < utf8_width(s[0]) {
        None
    } else {
        match head_to_byte(s.drop_first(), b - utf8_width(s[0])) {
            Some(h) => Some(seq![s[0]] + h),
            None => None,
        }
    }
}

/// The characters of `v` before byte offset `b`.
pub fn head_to_byte_vec(v: &Vec<char>, b: usize) -> (r: Option<Vec<char>>)
    ensures
        match r {
            Some(t) => head_to_byte(v@, b as int) == Some(t@),
            None => head_to_byte(v@, b as int) is None,
        },
{
    let mut k: usize = 0;
    let mut rem: usize = b;
    assert(v@.skip(0) == v@);
    while rem > 0 && k < v.len() && rem >= utf8_width_of(v[k])
        invariant
            k <= v.len(),
            head_to_byte(v@, b as int) == match head_to_byte(v@.skip(k as int), rem as int) {
                Some(h) => Some(v@.take(k as int) + h),
                None => None,
            },
        decreases v.len() - k,
    {
        assert(v@.skip(k as int).drop_first() == v@.skip(k + 1));
        assert(v@.take(k + 1) == v@.take(k as int) + seq![v@[k as int]]);
        proof {
            let rest = v@.skip(k as int);
            let w = utf8_width(rest[0]);
            match head_to_byte(v@.skip(k + 1), rem - w) {
                Some(h) => {
                    assert(v@.take(k as int) + (seq![rest[0]] + h) == v@.take(k + 1) + h);
                },
                None => {},
            }
        }
        rem -= utf8_width_of(v[k]);
        k += 1;
    }
    if rem == 0 {
        assert(v@.take(k as int) + Seq::<char>::empty() == v@.take(k as int));
        Some(sub_vec(v, 0, k))
    } else {
        None
    }
}

/// A head found by `head_to_byte` is a prefix of `s`, `b` bytes long, and not
/// empty when `b` is positive.
pub proof fn lemma_head_to_byte(s: Seq<char>, b: int)
    requires
        head_to_byte(s, b) is Some,
    ensures
        head_to_byte(s, b)->0 == s.take(head_to_byte(s, b)->0.len() as int),
        byte_len(head_to_byte(s, b)->0) == b,
        b > 0 ==> head_to_byte(s, b)->0.len() > 0,
        head_to_byte(s, b)->0.len() <= s.len(),
    decreases s.len(),
{
    if b == 0 {
        assert(s.take(0) =~= Seq::<char>::empty());
    } else {
        let t = s.drop_first();
        lemma_head_to_byte(t, b - utf8_width(s[0]));
        let h = head_to_byte(t, b - utf8_width(s[0]))->0;
        assert((seq![s[0]] + h).drop_first() == h);
        assert forall|i: int| 0 <= i < h.len() + 1 implies (seq![s[0]] + h)[i] == s.take(
            h.len() + 1 as int,
        )[i] by {
            if i > 0 {
                assert(h[i - 1] == t.take(h.len() as int)[i - 1]);
            }
        }
        assert(seq![s[0]] + h =~= s.take(h.len() + 1 as int));
    }
}

/// Whether `n` occurs in `h` at position `i`.
pub open spec fn matches_at<A>(h: Seq<A>, n: Seq<A>, i: int) -> bool {
    0 <= i && i + n.len() <= h.len() && h.subrange(i, i + n.len()) == n
}

/// The first position at or after `i` at which `n` occurs in `h`.
pub open spec fn find_from<A>(h: Seq<A>, n: Seq<A>, i: int) -> Option<int>
    decreases h.len() + 1 - i,
{
    if i < 0 || i + n.len() > h.len() {
        None
    } else if matches_at(h, n, i) {
        Some(i)
    } else {
        find_from(h, n, i + 1)
    }
}

/// The first byte index at which `n` occurs in `h` (`str::find` with a string pattern).
pub open spec fn find<A>(h: Seq<A>, n: Seq<A>) -> Option<int> {
    find_from(h, n, 0)
}

/// Whether the string encoded by `h` contains the one encoded by `n` (`str::contains`).
pub open spec fn contains_bytes(h: Seq<u8>, n: Seq<u8>) -> bool {
    find(h, n) is Some
}

/// Whether `n` occurs in `h` at `i`, comparing elements with `same`, which
/// tells equal elements apart from unequal ones.
fn match_at<T>(h: &[T], n: &[T], i: usize, same: impl Fn(&T, &T) -> bool) -> (r: bool)
    requires
        i + n@.len() <= h@.len(),
        forall|a: &T, b: &T| #[trigger] same.requires((a, b)),
        forall|a: &T, b: &T, x: bool| #[trigger] same.ensures((a, b), x) ==> x == (*a == *b),
    ensures
        r == matches_at(h@, n@, i as int),
{
    let hl = h.len();
    let mut j: usize = 0;
    while j < n.len()
        invariant
            hl == h@.len(),
            i + n@.len() <= h@.len(),
            j <= n@.len(),
            forall|a: &T, b: &T| #[trigger] same.requires((a, b)),
            forall|a: &T, b: &T, x: bool| #[trigger] same.ensures((a, b), x) ==> x == (*a == *b),
            forall|t: int| 0 <= t < j ==> h@[i + t] == n@[t],
        decreases n@.len() - j,
    {
        if !same(&h[i + j], &n[j]) {
            assert(h@.subrange(i as int, i + n@.len())[j as int] != n@[j as int]);
            return false;
        }
        j += 1;
    }
    assert(h@.subrange(i as int, i + n@.len()) =~= n@);
    true
}

fn same_byte(a: &u8, b: &u8) -> (r: bool)
    ensures
        r == (*a == *b),
{
    *a == *b
}

fn same_char(a: &char, b: &char) -> (r: bool)
    ensures
        r == (*a == *b),
{
    *a == *b
}

/// First byte index at which `n` occurs in `h`.
pub fn find_in(h: &[u8], n: &[u8]) -> (r: Option<usize>)
    ensures
        match r {
            Some(i) => find(h@, n@) == Some(i as int),
            None => find(h@, n@) is None,
        },
{
    let mut i: usize = 0;
    while n.len() <= h.len() - i
        invariant
            i <= h@.len(),
            find(h@, n@) == find_from(h@, n@, i as int),
        decreases h@.len() - i,
    {
        if match_at(h, n, i, same_byte) {
            return Some(i);
        }
        if i == h.len() {
            assert(find_from(h@, n@, i + 1) is None);
            return None;
        }
        i += 1;
    }
    None
}

/// Whether `h` contains `n`.
pub fn contains_in(h: &[u8], n: &[u8]) -> (r: bool)
    ensures
        r == contains_bytes(h@, n@),
{
    find_in(h, n).is_some()
}

/// Whether `v` holds `c`.
pub fn has_char(v: &Vec<char>, c: char) -> (r: bool)
    ensures
        r == v@.contains(c),
{
    let mut i: usize = 0;
    while i < v.len()
        invariant
            i <= v.len(),
            forall|t: int| 0 <= t < i ==> v@[t] != c,
        decreases v.len() - i,
    {
        if v[i] == c {
            return true;
        }
        i += 1;
    }
    false
}

/// Whether `v` begins with `p`.
pub fn starts_with_vec(v: &Vec<char>, p: &Vec<char>) -> (r: bool)
    ensures
        r == starts_with(v@, p@),
{
    if p.len() > v.len() {
        return false;
    }
    let mut i: usize = 0;
    while i < p.len()
        invariant
            p@.len() <= v@.len(),
            i <= p@.len(),
            forall|t: int| 0 <= t < i ==> v@[t] == p@[t],
        decreases p@.len() - i,
    {
        if v[i] != p[i] {
            assert(v@.take(p@.len() as int)[i as int] != p@[i as int]);
            return false;
        }
        i += 1;
    }
    assert(v@.take(p@.len() as int) =~= p@);
    true
}

/// Whether byte length of `v` is at least `n`.
pub fn byte_len_at_least(v: &Vec<char>, n: usize) -> (r: bool)
    ensures
        r == (byte_len(v@) >= n),
{
    if n == 0 {
        return true;
    }
    let mut k: usize = 0;
    let mut rem: usize = n;
    assert(v@.skip(0) == v@);
    while k < v.len()
        invariant
            k <= v.len(),
            0 < rem <= n,
            (n - rem) + byte_len(v@.skip(k as int)) == byte_len(v@),
        decreases v.len() - k,
    {
        assert(v@.skip(k as int).drop_first() == v@.skip(k + 1));
        let w = utf8_width_of(v[k]);
        if w >= rem {
            return true;
        }
        rem = rem - w;
        k += 1;
    }
    assert(v@.skip(k as int).len() == 0);
    false
}

/// The leading run of non-white-space characters of `s`.
pub open spec fn take_word(s: Seq<char>) -> Seq<char>
    decreases s.len(),
{
    if s.len() == 0 || is_white_space(s[0]) {
        Seq::empty()
    } else {
        seq![s[0]] + take_word(s.drop_first())
    }
}

/// The first white-space separated word of `s`, or empty
/// (`s.split_whitespace().next().unwrap_or("")`).
pub open spec fn first_word(s: Seq<char>) -> Seq<char> {
    take_word(trim_start(s))
}

pub fn first_word_vec(v: &Vec<char>) -> (r: Vec<char>)
    ensures
        r@ == first_word(v@),
{
    let t = trim_start_vec(v);
    let mut i: usize = 0;
    assert(t@.skip(0) == t@);
    assert(t@.take(0) + take_word(t@) == take_word(t@));
    while i < t.len() && !white_space(t[i])
        invariant
            i <= t.len(),
            take_word(t@) == t@.take(i as int) + take_word(t@.skip(i as int)),
        decreases t.len() - i,
    {
        assert(t@.skip(i as int).drop_first() == t@.skip(i + 1));
        assert(t@.take(i + 1) == t@.take(i as int) + seq![t@[i as int]]);
        i += 1;
    }
    assert(t@.take(i as int) + take_word(t@.skip(i as int)) == t@.take(i as int));
    sub_vec(&t, 0, i)
}

/// Whether `s` begins with `p` (`str::starts_with`).
pub open spec fn starts_with(s: Seq<char>, p: Seq<char>) -> bool {
    p.len() <= s.len() && s.take(p.len() as int) == p
}

/// Whether `a` and `b` hold the same characters.
pub fn same_chars(a: &Vec<char>, b: &Vec<char>) -> (r: bool)
    ensures
        r == (a@ == b@),
{
    if a.len() != b.len() {
        return false;
    }
    let mut i: usize = 0;
    while i < a.len()
        invariant
            a@.len() == b@.len(),
            i <= a@.len(),
            forall|t: int| 0 <= t < i ==> a@[t] == b@[t],
        decreases a@.len() - i,
    {
        if a[i] != b[i] {
            return false;
        }
        i += 1;
    }
    assert(a@ =~= b@);
    true
}

/// A match found by `find` lies inside the haystack.
pub proof fn lemma_find_in_bounds<A>(h: Seq<A>, n: Seq<A>, i: int)
    requires
        0 <= i,
        find_from(h, n, i) is Some,
    ensures
        matches_at(h, n, find_from(h, n, i)->0),
        i <= find_from(h, n, i)->0,
    decreases h.len() + 1 - i,
{
    if i + n.len() > h.len() {
    } else if matches_at(h, n, i) {
    } else {
        lemma_find_in_bounds(h, n, i + 1);
    }
}

/// Whether `n` occurs in `h` at `i`.
pub fn match_at_chars(h: &Vec<char>, n: &Vec<char>, i: usize) -> (r: bool)
    requires
        i + n@.len() <= h@.len(),
    ensures
        r == matches_at(h@, n@, i as int),
{
    match_at(h.as_slice(), n.as_slice(), i, same_char)
}

/// First position at or after `from` at which `n` occurs in `h`.
pub fn find_chars_from(h: &Vec<char>, n: &Vec<char>, from: usize) -> (r: Option<usize>)
    requires
        from <= h@.len(),
    ensures
        match r {
            Some(i) => find_from(h@, n@, from as int) == Some(i as int),
            None => find_from(h@, n@, from as int) is None,
        },
{
    let mut i: usize = from;
    while n.len() <= h.len() - i
        invariant
            from <= i <= h@.len(),
            find_from(h@, n@, from as int) == find_from(h@, n@, i as int),
        decreases h@.len() - i,
    {
        if match_at_chars(h, n, i) {
            return Some(i);
        }
        if i == h.len() {
            assert(find_from(h@, n@, i + 1) is None);
            return None;
        }
        i += 1;
    }
    None
}

/// A decimal digit.
pub open spec fn is_digit(c: char) -> bool {
    '0' <= c <= '9'
}

/// Value of a string of decimal digits.
pub open spec fn digits_value(s: Seq<char>) -> nat
    decreases s.len(),
{
    if s.len() == 0 {
        0
    } else {
        digits_value(s.drop_last()) * 10 + (s.last() as nat - '0' as nat) as nat
    }
}

/// The digits part of an unsigned number: without one leading `+`.
pub open spec fn unsigned_digits(s: Seq<char>) -> Seq<char> {
    if s.len() > 0 && s[0] == '+' {
        s.drop_first()
    } else {
        s
    }
}

/// Whether all characters of `s` are decimal digits.
pub open spec fn all_digits(s: Seq<char>) -> bool {
    forall|i: int| 0 <= i < s.len() ==> is_digit(#[trigger] s[i])
}

/// What `str::parse` gives for an unsigned integer type whose largest value is
/// `max`: an optional `+`, then one or more decimal digits whose value is at most `max`.
pub open spec fn parse_unsigned(s: Seq<char>, max: nat) -> Option<nat> {
    let digits = unsigned_digits(s);
    if digits.len() > 0 && all_digits(digits) && digits_value(digits) <= max {
        Some(digits_value(digits))
    } else {
        None
    }
}

proof fn lemma_digits_value_grows(s: Seq<char>, k: int)
    requires
        0 <= k <= s.len(),
    ensures
        digits_value(s.take(k)) <= digits_value(s),
    decreases s.len() - k,
{
    if k < s.len() {
        lemma_digits_value_grows(s, k + 1);
        assert(s.take(k + 1).drop_last() == s.take(k));
    } else {
        assert(s.take(k) == s);
    }
}

/// Parses `v` as an unsigned integer of largest value `max` (`str::parse::<u16>`, `u32`).
pub fn parse_unsigned_vec(v: &Vec<char>, max: u32) -> (r: Option<u32>)
    ensures
        match r {
            Some(n) => parse_unsigned(v@, max as nat) == Some(n as nat),
            None => parse_unsigned(v@, max as nat) is None,
        },
{
    let start: usize = if v.len() > 0 && v[0] == '+' {
        1
    } else {
        0
    };
    let ghost digits = unsigned_digits(v@);
    assert(digits == v@.skip(start as int));
    if start >= v.len() {
        return None;
    }
    let mut acc: u64 = 0;
    let mut i: usize = start;
    assert(digits.take(0) =~= Seq::<char>::empty());
    while i < v.len()
        invariant
            start <= i <= v@.len(),
            digits == v@.skip(start as int),
            digits == unsigned_digits(v@),
            forall|t: int| 0 <= t < i - start ==> is_digit(#[trigger] digits[t]),
            acc == digits_value(digits.take(i - start)),
            acc <= max,
        decreases v.len() - i,
    {
        let c = v[i];
        assert(digits[i - start] == c);
        if !('0' <= c && c <= '9') {
            assert(!is_digit(digits[i - start]));
            assert(!all_digits(digits));
            return None;
        }
        let d = (c as u32 - '0' as u32) as u64;
        let ghost pre = digits.take(i - start + 1);
        assert(pre.drop_last() == digits.take(i - start));
        assert(pre.last() == c);
        assert(digits_value(pre) == acc * 10 + d);
        let next = acc * 10 + d;
        if next > max as u64 {
            proof {
                lemma_digits_value_grows(digits, i - start + 1);
            }
            return None;
        }
        acc = next;
        i += 1;
    }
    assert(digits.take(i - start) == digits);
    Some(acc as u32)
}

/// The parts joined with `sep` between neighbours (`join`).
pub open spec fn join(parts: Seq<Seq<char>>, sep: Seq<char>) -> Seq<char>
    decreases parts.len(),
{
    if parts.len() == 0 {
        Seq::empty()
    } else if parts.len() == 1 {
        parts[0]
    } else {
        join(parts.drop_last(), sep) + sep + parts.last()
    }
}

/// The parts joined with `sep` between neighbours.
pub fn join_vec(parts: &Vec<Vec<char>>, sep: &Vec<char>) -> (r: Vec<char>)
    ensures
        r@ == join(parts@.map_values(|p: Vec<char>| p@), sep@),
{
    let ghost all = parts@.map_values(|p: Vec<char>| p@);
    let mut acc: Vec<char> = Vec::new();
    let mut i: usize = 0;
    while i < parts.len()
        invariant
            i <= parts@.len(),
            all == parts@.map_values(|p: Vec<char>| p@),
            acc@ == join(all.take(i as int), sep@),
        decreases parts.len() - i,
    {
        assert(all.take(i + 1).drop_last() == all.take(i as int));
        if i == 0 {
            acc = sub_vec(&parts[0], 0, parts[0].len());
            assert(parts[0]@.subrange(0, parts[0]@.len() as int) == parts[0]@);
        } else {
            let with_sep = concat_vec(&acc, sep);
            acc = concat_vec(&with_sep, &parts[i]);
        }
        i += 1;
    }
    assert(all.take(parts@.len() as int) == all);
    acc
}

/// `s` with every occurrence of `from` replaced by `to`, scanning left to right
/// (`str::replace`).
pub open spec fn replace_lit(s: Seq<char>, from: Seq<char>, to: Seq<char>) -> Seq<char>
    decreases s.len(),
{
    if from.len() == 0 || s.len() < from.len() {
        s
    } else if s.take(from.len() as int) == from {
        to + replace_lit(s.skip(from.len() as int), from, to)
    } else {
        seq![s[0]] + replace_lit(s.drop_first(), from, to)
    }
}

/// Replaces every occurrence of `from` in `s` by `to`.
pub fn replace_vec(s: &Vec<char>, from: &str, to: &str) -> (r: Vec<char>)
    requires
        from@.len() > 0,
    ensures
        r@ == replace_lit(s@, from@, to@),
{
    let f = chars_of(from);
    let t = chars_of(to);
    let mut acc: Vec<char> = Vec::new();
    let mut i: usize = 0;
    assert(s@.skip(0) == s@);
    while i < s.len()
        invariant
            i <= s@.len(),
            f@ == from@,
            t@ == to@,
            f@.len() > 0,
            replace_lit(s@, f@, t@) == acc@ + replace_lit(s@.skip(i as int), f@, t@),
        decreases s.len() - i,
    {
        let ghost rest = s@.skip(i as int);
        if f.len() <= s.len() - i && match_at_chars(s, &f, i) {
            assert(rest.take(f@.len() as int) == s@.subrange(i as int, i + f@.len()));
            assert(rest.skip(f@.len() as int) == s@.skip(i + f@.len()));
            acc = concat_vec(&acc, &t);
            i += f.len();
        } else {
            if f.len() <= s.len() - i {
                assert(rest.take(f@.len() as int) == s@.subrange(i as int, i + f@.len()));
            }
            assert(rest.drop_first() == s@.skip(i + 1));
            acc.push(s[i]);
            i += 1;
        }
    }
    assert(s@.skip(i as int).len() == 0);
    acc
}

/// ASCII lowercase of `c`.
pub open spec fn ascii_lower(c: char) -> char {
    if 'A' <= c <= 'Z' {
        ((c as u32) + 32) as char
    } else {
        c
    }
}

/// Lowercase form of a string (`str::to_lowercase`).
pub uninterp spec fn lowercase(s: Seq<char>) -> Seq<char>;

/// Calls `str::to_lowercase`; the result is the Unicode lowercase mapping of `s`,
/// a function of `s` alone, named `lowercase`. Of that mapping the contract
/// states only its ASCII part: each character of an ASCII string maps to one
/// character, `A`-`Z` to `a`-`z` and every other ASCII character to itself
/// (the Unicode lowercase mapping, which `char::to_lowercase` documents, and
/// the same as `str::to_ascii_lowercase` there).
#[verifier::external_body]
pub(crate) fn to_lowercase(s: &str) -> (r: String)
    ensures
        r@ == lowercase(s@),
        is_ascii_chars(s@) ==> r@ == s@.map_values(|c: char| ascii_lower(c)),
{
    s.to_lowercase()
}

} // verus!

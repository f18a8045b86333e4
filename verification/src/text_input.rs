use vstd::prelude::*;
use vstd::utf8::*;
use crate::keys::{KeyCode, KeyEvent, KeyModifiers};

verus! {

broadcast use {
    is_char_boundary_iff_not_is_continuation_byte,
    is_char_boundary_start_end_of_seq,
};

/// The largest character boundary of `s` at or before `j`.
pub open spec fn boundary_at_or_before(s: Seq<u8>, j: int) -> int
    decreases j,
{
    if j <= 0 {
        0
    } else if is_char_boundary(s, j) {
        j
    } else {
        boundary_at_or_before(s, j - 1)
    }
}

/// The smallest character boundary of `s` at or after `j`, or the length of
/// `s` when there is none.
pub open spec fn boundary_at_or_after(s: Seq<u8>, j: int) -> int
    decreases s.len() - j,
{
    if j >= s.len() {
        s.len() as int
    } else if j < 0 {
        0
    } else if is_char_boundary(s, j) {
        j
    } else {
        boundary_at_or_after(s, j + 1)
    }
}

/// A cursor moved onto text: at most the text's length and moved back onto
/// the start of the character it points into.
pub open spec fn clamped_cursor(s: Seq<u8>, c: int) -> int {
    boundary_at_or_before(s, if c < s.len() { c } else { s.len() as int })
}

/// The start of the character before the cursor, or 0 at the start.
pub open spec fn previous_char_boundary_spec(s: Seq<u8>, c: int) -> int {
    let c = if c < s.len() { c } else { s.len() as int };
    if c <= 0 {
        0
    } else {
        boundary_at_or_before(s, c - 1)
    }
}

/// The end of the character at the cursor, or the cursor at the end.
pub open spec fn next_char_boundary_spec(s: Seq<u8>, c: int) -> int {
    let c = if c < s.len() { c } else { s.len() as int };
    if c >= s.len() {
        c
    } else {
        boundary_at_or_after(s, c + 1)
    }
}

/// The start of the line holding the cursor: just past the last line feed
/// before it, or 0.
pub open spec fn line_start_spec(s: Seq<u8>, c: int) -> int
    decreases c,
{
    if c > s.len() {
        line_start_spec(s, s.len() as int)
    } else if c <= 0 {
        0
    } else if s[c - 1] == 0x0a {
        c
    } else {
        line_start_spec(s, c - 1)
    }
}

/// The end of the line holding the cursor: the first line feed at or after
/// it, or the end of the text.
pub open spec fn line_end_spec(s: Seq<u8>, c: int) -> int
    decreases s.len() - c,
{
    if c >= s.len() {
        s.len() as int
    } else if c < 0 {
        line_end_spec(s, 0)
    } else if s[c] == 0x0a {
        c
    } else {
        line_end_spec(s, c + 1)
    }
}

/// True when `p` is a cursor position in `s`: within the text and on a
/// character boundary.
pub open spec fn is_cursor(s: Seq<u8>, p: int) -> bool {
    0 <= p <= s.len() && is_char_boundary(s, p)
}

proof fn lemma_boundary_at_or_before(s: Seq<u8>, j: int)
    requires
        valid_utf8(s),
        j <= s.len(),
    ensures
        is_cursor(s, boundary_at_or_before(s, j)),
        boundary_at_or_before(s, j) <= if j < 0 { 0 } else { j },
        forall|k: int|
            boundary_at_or_before(s, j) < k <= j ==> !is_char_boundary(s, k),
    decreases j,
{
    if j > 0 && !is_char_boundary(s, j) {
        lemma_boundary_at_or_before(s, j - 1);
    }
}

proof fn lemma_boundary_at_or_after(s: Seq<u8>, j: int)
    requires
        valid_utf8(s),
        0 <= j,
    ensures
        is_cursor(s, boundary_at_or_after(s, j)),
        j <= s.len() ==> j <= boundary_at_or_after(s, j),
        forall|k: int| j <= k < boundary_at_or_after(s, j) ==> !is_char_boundary(s, k),
    decreases s.len() - j,
{
    if j < s.len() && !is_char_boundary(s, j) {
        lemma_boundary_at_or_after(s, j + 1);
    }
}

proof fn lemma_line_start(s: Seq<u8>, c: int)
    requires
        0 <= c <= s.len(),
    ensures
        0 <= line_start_spec(s, c) <= c,
        line_start_spec(s, c) > 0 ==> s[line_start_spec(s, c) - 1] == 0x0a,
        forall|k: int| line_start_spec(s, c) <= k < c ==> s[k] != 0x0a,
    decreases c,
{
    if c > 0 && s[c - 1] != 0x0a {
        lemma_line_start(s, c - 1);
    }
}

proof fn lemma_line_end(s: Seq<u8>, c: int)
    requires
        0 <= c <= s.len(),
    ensures
        c <= line_end_spec(s, c) <= s.len(),
        line_end_spec(s, c) < s.len() ==> s[line_end_spec(s, c)] == 0x0a,
        forall|k: int| c <= k < line_end_spec(s, c) ==> s[k] != 0x0a,
    decreases s.len() - c,
{
    if c < s.len() && s[c] != 0x0a {
        lemma_line_end(s, c + 1);
    }
}

/// A line feed is a single-byte character, so the positions next to it are
/// character boundaries.
proof fn lemma_newline_boundaries(s: Seq<u8>, k: int)
    requires
        valid_utf8(s),
        0 <= k < s.len(),
        s[k] == 0x0a,
    ensures
        is_char_boundary(s, k),
        is_char_boundary(s, k + 1),
{
    is_char_boundary_iff_not_is_continuation_byte(s, k);
    is_char_boundary_start_end_of_seq(s);
    if k + 1 < s.len() {
        valid_utf8_split(s, k);
        let tail = s.subrange(k, s.len() as int);
        assert(tail[0] == 0x0a);
        assert(valid_first_scalar(tail));
        assert(valid_utf8(pop_first_scalar(tail)));
        assert(pop_first_scalar(tail)[0] == s[k + 1]);
        assert(valid_first_scalar(pop_first_scalar(tail)));
        is_char_boundary_iff_not_is_continuation_byte(s, k + 1);
    }
}

fn is_char_boundary_exec(s: &[u8], i: usize) -> (r: bool)
    requires
        valid_utf8(s@),
        i <= s@.len(),
    ensures
        r == is_char_boundary(s@, i as int),
{
    proof {
        is_char_boundary_start_end_of_seq(s@);
    }
    if i == s.len() {
        true
    } else {
        proof {
            is_char_boundary_iff_not_is_continuation_byte(s@, i as int);
        }
        let b = s[i];
        b < 0x80 || b > 0xbf
    }
}

/// Moves a cursor onto the text: no further than its end, and back onto the
/// start of the character it points into.
pub fn clamp_text_cursor(input: &[u8], cursor: &mut usize)
    requires
        valid_utf8(input@),
    ensures
        *final(cursor) == clamped_cursor(input@, *old(cursor) as int),
        is_cursor(input@, *final(cursor) as int),
{
    if *cursor > input.len() {
        *cursor = input.len();
    }
    proof {
        lemma_boundary_at_or_before(input@, *cursor as int);
    }
    while *cursor > 0 && !is_char_boundary_exec(input, *cursor)
        invariant
            valid_utf8(input@),
            *cursor <= input@.len(),
            clamped_cursor(input@, *old(cursor) as int) == boundary_at_or_before(
                input@,
                *cursor as int,
            ),
        decreases *cursor,
    {
        *cursor = *cursor - 1;
    }
    proof {
        lemma_boundary_at_or_before(input@, *cursor as int);
    }
}

/// The start of the character before `cursor` (0 at the start of the text).
pub fn previous_char_boundary(input: &[u8], cursor: usize) -> (r: usize)
    requires
        valid_utf8(input@),
        cursor > input@.len() || is_char_boundary(input@, cursor as int),
    ensures
        r == previous_char_boundary_spec(input@, cursor as int),
        is_cursor(input@, r as int),
        cursor > 0 && input@.len() > 0 ==> r < cursor,
{
    let c = if cursor < input.len() {
        cursor
    } else {
        input.len()
    };
    if c == 0 {
        return 0;
    }
    let mut j = c - 1;
    proof {
        lemma_boundary_at_or_before(input@, j as int);
    }
    while j > 0 && !is_char_boundary_exec(input, j)
        invariant
            valid_utf8(input@),
            j < input@.len(),
            previous_char_boundary_spec(input@, cursor as int) == boundary_at_or_before(
                input@,
                j as int,
            ),
        decreases j,
    {
        j = j - 1;
    }
    j
}

/// The end of the character at `cursor` (the cursor itself at the end of
/// the text).
pub fn next_char_boundary(input: &[u8], cursor: usize) -> (r: usize)
    requires
        valid_utf8(input@),
        cursor > input@.len() || is_char_boundary(input@, cursor as int),
    ensures
        r == next_char_boundary_spec(input@, cursor as int),
        is_cursor(input@, r as int),
        cursor < input@.len() ==> cursor < r,
        cursor >= input@.len() ==> r == input@.len(),
{
    let c = if cursor < input.len() {
        cursor
    } else {
        input.len()
    };
    if c >= input.len() {
        return c;
    }
    let mut j = c + 1;
    proof {
        lemma_boundary_at_or_after(input@, j as int);
    }
    while j < input.len() && !is_char_boundary_exec(input, j)
        invariant
            valid_utf8(input@),
            c < j <= input@.len(),
            next_char_boundary_spec(input@, cursor as int) == boundary_at_or_after(
                input@,
                j as int,
            ),
        decreases input@.len() - j,
    {
        j = j + 1;
    }
    j
}

/// The start of the line holding `cursor`.
pub fn line_start(input: &[u8], cursor: usize) -> (r: usize)
    requires
        valid_utf8(input@),
    ensures
        r == line_start_spec(input@, cursor as int),
        is_cursor(input@, r as int),
{
    let mut j = if cursor < input.len() {
        cursor
    } else {
        input.len()
    };
    proof {
        lemma_line_start(input@, j as int);
    }
    while j > 0 && input[j - 1] != 0x0a
        invariant
            j <= input@.len(),
            line_start_spec(input@, cursor as int) == line_start_spec(input@, j as int),
        decreases j,
    {
        j = j - 1;
    }
    proof {
        if j > 0 {
            lemma_newline_boundaries(input@, j - 1);
        }
    }
    j
}

/// The end of the line holding `cursor`.
pub fn line_end(input: &[u8], cursor: usize) -> (r: usize)
    requires
        valid_utf8(input@),
    ensures
        r == line_end_spec(input@, cursor as int),
        is_cursor(input@, r as int),
{
    let mut j = if cursor < input.len() {
        cursor
    } else {
        input.len()
    };
    proof {
        lemma_line_end(input@, j as int);
    }
    while j < input.len() && input[j] != 0x0a
        invariant
            j <= input@.len(),
            line_end_spec(input@, cursor as int) == line_end_spec(input@, j as int),
        decreases input@.len() - j,
    {
        j = j + 1;
    }
    proof {
        if j < input@.len() {
            lemma_newline_boundaries(input@, j as int);
        }
    }
    j
}


/// True when the character encoded at byte `p` of `s` has the Unicode
/// White_Space property (U+0009 to U+000D, U+0020, U+0085, U+00A0, U+1680,
/// U+2000 to U+200A, U+2028, U+2029, U+202F, U+205F and U+3000), read from
/// its UTF-8 bytes.
pub open spec fn is_whitespace_at(s: Seq<u8>, p: int) -> bool {
    &&& 0 <= p < s.len()
    &&& {
        ||| (0x09 <= s[p] <= 0x0d || s[p] == 0x20)
        ||| (p + 1 < s.len() && s[p] == 0xc2 && (s[p + 1] == 0x85 || s[p + 1] == 0xa0))
        ||| (p + 2 < s.len() && s[p] == 0xe1 && s[p + 1] == 0x9a && s[p + 2] == 0x80)
        ||| (p + 2 < s.len() && s[p] == 0xe2 && s[p + 1] == 0x80 && (0x80 <= s[p + 2] <= 0x8a
            || s[p + 2] == 0xa8 || s[p + 2] == 0xa9 || s[p + 2] == 0xaf))
        ||| (p + 2 < s.len() && s[p] == 0xe2 && s[p + 1] == 0x81 && s[p + 2] == 0x9f)
        ||| (p + 2 < s.len() && s[p] == 0xe3 && s[p + 1] == 0x80 && s[p + 2] == 0x80)
    }
}

/// Moves back from `i` over whitespace characters.
pub open spec fn skip_space_back(s: Seq<u8>, i: int) -> int
    decreases i,
{
    if i <= 0 {
        0
    } else {
        let p = previous_char_boundary_spec(s, i);
        if 0 <= p < i && is_whitespace_at(s, p) {
            skip_space_back(s, p)
        } else {
            i
        }
    }
}

/// Moves back from `i` over non-whitespace characters.
pub open spec fn skip_word_back(s: Seq<u8>, i: int) -> int
    decreases i,
{
    if i <= 0 {
        0
    } else {
        let p = previous_char_boundary_spec(s, i);
        if 0 <= p < i && !is_whitespace_at(s, p) {
            skip_word_back(s, p)
        } else {
            i
        }
    }
}

/// Moves forward from `i` over non-whitespace characters.
pub open spec fn skip_word_forward(s: Seq<u8>, i: int) -> int
    decreases s.len() - i,
{
    if i >= s.len() {
        i
    } else {
        let n = next_char_boundary_spec(s, i);
        if i < n <= s.len() && !is_whitespace_at(s, i) {
            skip_word_forward(s, n)
        } else {
            i
        }
    }
}

/// Moves forward from `i` over whitespace characters.
pub open spec fn skip_space_forward(s: Seq<u8>, i: int) -> int
    decreases s.len() - i,
{
    if i >= s.len() {
        i
    } else {
        let n = next_char_boundary_spec(s, i);
        if i < n <= s.len() && is_whitespace_at(s, i) {
            skip_space_forward(s, n)
        } else {
            i
        }
    }
}

/// The start of the word before the cursor: whitespace just before the
/// cursor is skipped, then the word before it.
pub open spec fn previous_word_boundary_spec(s: Seq<u8>, c: int) -> int {
    skip_word_back(s, skip_space_back(s, if c < s.len() { c } else { s.len() as int }))
}

/// The start of the next word after the cursor: the rest of the current
/// word is skipped, then the whitespace after it.
pub open spec fn next_word_boundary_spec(s: Seq<u8>, c: int) -> int {
    skip_space_forward(s, skip_word_forward(s, if c < s.len() { c } else { s.len() as int }))
}

fn is_whitespace_at_exec(s: &[u8], p: usize) -> (r: bool)
    requires
        p < s@.len(),
    ensures
        r == is_whitespace_at(s@, p as int),
{
    let n = s.len();
    let b = s[p];
    if (0x09 <= b && b <= 0x0d) || b == 0x20 {
        return true;
    }
    if n - p > 1 && b == 0xc2 && (s[p + 1] == 0x85 || s[p + 1] == 0xa0) {
        return true;
    }
    if n - p > 2 {
        let b1 = s[p + 1];
        let b2 = s[p + 2];
        if b == 0xe1 && b1 == 0x9a && b2 == 0x80 {
            return true;
        }
        if b == 0xe2 && b1 == 0x80 && ((0x80 <= b2 && b2 <= 0x8a) || b2 == 0xa8 || b2 == 0xa9
            || b2 == 0xaf) {
            return true;
        }
        if b == 0xe2 && b1 == 0x81 && b2 == 0x9f {
            return true;
        }
        if b == 0xe3 && b1 == 0x80 && b2 == 0x80 {
            return true;
        }
    }
    false
}

/// The start of the word before `cursor`, skipping whitespace first.
pub fn previous_word_boundary(input: &[u8], cursor: usize) -> (r: usize)
    requires
        valid_utf8(input@),
        cursor > input@.len() || is_char_boundary(input@, cursor as int),
    ensures
        r == previous_word_boundary_spec(input@, cursor as int),
        is_cursor(input@, r as int),
        r <= cursor,
{
    let mut index = if cursor < input.len() {
        cursor
    } else {
        input.len()
    };
    while index > 0
        invariant
            valid_utf8(input@),
            is_cursor(input@, index as int),
            index <= cursor,
            skip_space_back(input@, if cursor < input@.len() { cursor as int } else { input@.len() as int }) == skip_space_back(input@, index as int),
        ensures
            is_cursor(input@, index as int),
            index <= cursor,
            skip_space_back(input@, if cursor < input@.len() { cursor as int } else { input@.len() as int }) == index as int,
        decreases index,
    {
        let prev = previous_char_boundary(input, index);
        if !is_whitespace_at_exec(input, prev) {
            break;
        }
        index = prev;
    }
    while index > 0
        invariant
            valid_utf8(input@),
            is_cursor(input@, index as int),
            index <= cursor,
            previous_word_boundary_spec(input@, cursor as int) == skip_word_back(input@, index as int),
        ensures
            is_cursor(input@, index as int),
            index <= cursor,
            previous_word_boundary_spec(input@, cursor as int) == index as int,
        decreases index,
    {
        let prev = previous_char_boundary(input, index);
        if is_whitespace_at_exec(input, prev) {
            break;
        }
        index = prev;
    }
    index
}

/// The start of the next word after `cursor`.
pub fn next_word_boundary(input: &[u8], cursor: usize) -> (r: usize)
    requires
        valid_utf8(input@),
        cursor > input@.len() || is_char_boundary(input@, cursor as int),
    ensures
        r == next_word_boundary_spec(input@, cursor as int),
        is_cursor(input@, r as int),
        cursor <= input@.len() ==> cursor <= r,
{
    let mut index = if cursor < input.len() {
        cursor
    } else {
        input.len()
    };
    while index < input.len()
        invariant
            valid_utf8(input@),
            is_cursor(input@, index as int),
            cursor <= input@.len() ==> cursor <= index,
            skip_word_forward(input@, if cursor < input@.len() { cursor as int } else { input@.len() as int }) == skip_word_forward(input@, index as int),
        ensures
            is_cursor(input@, index as int),
            cursor <= input@.len() ==> cursor <= index,
            skip_word_forward(input@, if cursor < input@.len() { cursor as int } else { input@.len() as int }) == index as int,
        decreases input@.len() - index,
    {
        let next = next_char_boundary(input, index);
        if is_whitespace_at_exec(input, index) {
            break;
        }
        index = next;
    }
    while index < input.len()
        invariant
            valid_utf8(input@),
            is_cursor(input@, index as int),
            cursor <= input@.len() ==> cursor <= index,
            next_word_boundary_spec(input@, cursor as int) == skip_space_forward(input@, index as int),
        ensures
            is_cursor(input@, index as int),
            cursor <= input@.len() ==> cursor <= index,
            next_word_boundary_spec(input@, cursor as int) == index as int,
        decreases input@.len() - index,
    {
        let next = next_char_boundary(input, index);
        if !is_whitespace_at_exec(input, index) {
            break;
        }
        index = next;
    }
    index
}


/// The text and cursor after removing the bytes between `start` and `end`
/// (each limited to the text's length), when both are character boundaries
/// and `start < end`; otherwise nothing changes. The cursor moves to the
/// start of the removed range.
pub open spec fn delete_range_spec(s: Seq<u8>, c: int, start: int, end: int) -> (Seq<u8>, int) {
    let start = if start < s.len() { start } else { s.len() as int };
    let end = if end < s.len() { end } else { s.len() as int };
    if start < end && is_char_boundary(s, start) && is_char_boundary(s, end) {
        (s.subrange(0, start) + s.subrange(end, s.len() as int), start)
    } else {
        (s, c)
    }
}

/// Joining two valid UTF-8 texts puts a character boundary at the seam.
pub proof fn lemma_concat_boundary(a: Seq<u8>, b: Seq<u8>)
    requires
        valid_utf8(a),
        valid_utf8(b),
    ensures
        valid_utf8(a + b),
        is_char_boundary(a + b, a.len() as int),
{
    valid_utf8_concat(a, b);
    is_char_boundary_start_end_of_seq(a + b);
    if b.len() > 0 {
        assert((a + b)[a.len() as int] == b[0]);
        is_char_boundary_iff_not_is_continuation_byte(a + b, a.len() as int);
    } else {
        assert(a + b =~= a);
    }
}

/// Removes the bytes between `start` and `end` when both are character
/// boundaries (after limiting them to the text's length) and `start < end`,
/// and puts the cursor at `start`; otherwise leaves text and cursor alone.
pub fn delete_range(input: &mut Vec<u8>, cursor: &mut usize, start: usize, end: usize)
    requires
        valid_utf8(old(input)@),
    ensures
        (final(input)@, *final(cursor) as int) == delete_range_spec(
            old(input)@,
            *old(cursor) as int,
            start as int,
            end as int,
        ),
        valid_utf8(final(input)@),
        is_cursor(old(input)@, *old(cursor) as int) ==> is_cursor(final(input)@, *final(cursor) as int),
{
    let len = input.len();
    let start = if start < len {
        start
    } else {
        len
    };
    let end = if end < len {
        end
    } else {
        len
    };
    if start >= end || !is_char_boundary_exec(input.as_slice(), start) || !is_char_boundary_exec(
        input.as_slice(),
        end,
    ) {
        return;
    }
    let ghost s = input@;
    let mut kept: Vec<u8> = Vec::new();
    let mut k: usize = 0;
    while k < start
        invariant
            k <= start <= input@.len(),
            kept@ == input@.subrange(0, k as int),
        decreases start - k,
    {
        kept.push(input[k]);
        assert(kept@ =~= input@.subrange(0, k + 1));
        k = k + 1;
    }
    let mut k = end;
    while k < len
        invariant
            start <= end <= k <= len,
            len == input@.len(),
            kept@ == input@.subrange(0, start as int) + input@.subrange(end as int, k as int),
        decreases len - k,
    {
        kept.push(input[k]);
        assert(kept@ =~= input@.subrange(0, start as int) + input@.subrange(end as int, k + 1));
        k = k + 1;
    }
    proof {
        valid_utf8_split(s, start as int);
        valid_utf8_split(s, end as int);
        lemma_concat_boundary(s.subrange(0, start as int), s.subrange(end as int, s.len() as int));
    }
    *input = kept;
    *cursor = start;
}

/// The UTF-8 encoding of `ch`.
pub fn encode_char(ch: char) -> (r: Vec<u8>)
    ensures
        r@ == encode_scalar(ch as u32),
        r@ == encode_utf8(seq![ch]),
        1 <= r@.len() <= 4,
{
    proof {
        char_is_scalar(ch);
        assert(seq![ch].drop_first() =~= Seq::<char>::empty());
    }
    let v = ch as u32;
    let r = if v <= 0x7f {
        vec![(v & 0x7f) as u8]
    } else if v <= 0x7ff {
        vec![0xc0u8 | ((v >> 6) & 0x1f) as u8, 0x80u8 | (v & 0x3f) as u8]
    } else if v <= 0xffff {
        vec![
            0xe0u8 | ((v >> 12) & 0x0f) as u8,
            0x80u8 | ((v >> 6) & 0x3f) as u8,
            0x80u8 | (v & 0x3f) as u8,
        ]
    } else {
        vec![
            0xf0u8 | ((v >> 18) & 0x7) as u8,
            0x80u8 | ((v >> 12) & 0x3f) as u8,
            0x80u8 | ((v >> 6) & 0x3f) as u8,
            0x80u8 | (v & 0x3f) as u8,
        ]
    };
    assert(r@ =~= encode_scalar(v));
    assert(encode_utf8(seq![ch]) =~= encode_scalar(v) + encode_utf8(Seq::<char>::empty()));
    r
}

/// The text and cursor after inserting `ch` at the cursor.
pub open spec fn insert_char_spec(s: Seq<u8>, c: int, ch: char) -> (Seq<u8>, int) {
    (
        s.subrange(0, c) + encode_utf8(seq![ch]) + s.subrange(c, s.len() as int),
        c + encode_utf8(seq![ch]).len(),
    )
}

/// Inserts `ch` at the cursor, a character boundary, and moves the cursor
/// past it.
pub fn insert_char(input: &mut Vec<u8>, cursor: &mut usize, ch: char)
    requires
        valid_utf8(old(input)@),
        is_cursor(old(input)@, *old(cursor) as int),
        old(input)@.len() + 4 <= usize::MAX,
    ensures
        (final(input)@, *final(cursor) as int) == insert_char_spec(old(input)@, *old(cursor) as int, ch),
        valid_utf8(final(input)@),
        is_cursor(final(input)@, *final(cursor) as int),
{
    let ghost s = input@;
    let c = *cursor;
    let encoded = encode_char(ch);
    let len = input.len();
    let mut out: Vec<u8> = Vec::new();
    let mut k: usize = 0;
    while k < c
        invariant
            k <= c <= len,
            len == input@.len(),
            out@ == input@.subrange(0, k as int),
        decreases c - k,
    {
        out.push(input[k]);
        assert(out@ =~= input@.subrange(0, k + 1));
        k = k + 1;
    }
    let mut k: usize = 0;
    while k < encoded.len()
        invariant
            k <= encoded@.len(),
            out@ == input@.subrange(0, c as int) + encoded@.subrange(0, k as int),
        decreases encoded@.len() - k,
    {
        out.push(encoded[k]);
        assert(out@ =~= input@.subrange(0, c as int) + encoded@.subrange(0, k + 1));
        k = k + 1;
    }
    assert(encoded@.subrange(0, encoded@.len() as int) =~= encoded@);
    let mut k = c;
    while k < len
        invariant
            c <= k <= len,
            len == input@.len(),
            out@ == input@.subrange(0, c as int) + encoded@ + input@.subrange(c as int, k as int),
        decreases len - k,
    {
        out.push(input[k]);
        assert(out@ =~= input@.subrange(0, c as int) + encoded@ + input@.subrange(c as int, k + 1));
        k = k + 1;
    }
    proof {
        valid_utf8_split(s, c as int);
        encode_utf8_valid_utf8(seq![ch]);
        lemma_concat_boundary(s.subrange(0, c as int), encoded@);
        lemma_concat_boundary(s.subrange(0, c as int) + encoded@, s.subrange(c as int, s.len() as int));
        assert(out@.len() == s.len() + encoded@.len());
    }
    *input = out;
    *cursor = c + encoded.len();
}


/// How a key press changed a text input.
#[derive(Debug, Clone, Copy, PartialEq, Eq, Structural)]
pub enum TextInputKeyResult {
    /// The key is not a text-editing key (or does nothing on empty text).
    Ignored,
    /// The key was handled but changed nothing.
    Handled,
    /// The cursor moved.
    Moved,
    /// The text changed.
    Edited,
}

/// The edit that a key press asks for.
pub enum TextEdit {
    MoveTo(int),
    Delete(int, int),
    Insert(char),
    Unhandled,
}

/// Characters are typed without Control, Alt, Super, Hyper or Meta held
/// (Shift is allowed).
pub open spec fn is_text_input_character_spec(m: KeyModifiers) -> bool {
    !(m.control || m.alt || m.super_key || m.hyper || m.meta)
}

/// Super or Meta turn horizontal movement and deletion into whole-line
/// operations.
pub open spec fn key_has_command_modifier_spec(m: KeyModifiers) -> bool {
    m.super_key || m.meta
}

/// Alt or Control turn horizontal movement and deletion into word
/// operations.
pub open spec fn key_has_word_modifier_spec(m: KeyModifiers) -> bool {
    m.alt || m.control
}

/// The edit for `key` on text `s` with the cursor at `c`.
pub open spec fn text_edit_for_key(s: Seq<u8>, c: int, key: KeyEvent) -> TextEdit {
    let m = key.modifiers;
    match key.code {
        KeyCode::Char(ch) => if m.control && ch == 'a' {
            TextEdit::MoveTo(line_start_spec(s, c))
        } else if m.control && ch == 'e' {
            TextEdit::MoveTo(line_end_spec(s, c))
        } else if m.control && ch == 'u' {
            TextEdit::Delete(line_start_spec(s, c), c)
        } else if m.control && ch == 'k' {
            TextEdit::Delete(c, line_end_spec(s, c))
        } else if m.control && ch == 'w' {
            TextEdit::Delete(previous_word_boundary_spec(s, c), c)
        } else if is_text_input_character_spec(m) {
            TextEdit::Insert(ch)
        } else {
            TextEdit::Unhandled
        },
        KeyCode::Home => TextEdit::MoveTo(line_start_spec(s, c)),
        KeyCode::End => TextEdit::MoveTo(line_end_spec(s, c)),
        KeyCode::Left => if key_has_command_modifier_spec(m) {
            TextEdit::MoveTo(line_start_spec(s, c))
        } else if key_has_word_modifier_spec(m) {
            TextEdit::MoveTo(previous_word_boundary_spec(s, c))
        } else {
            TextEdit::MoveTo(previous_char_boundary_spec(s, c))
        },
        KeyCode::Right => if key_has_command_modifier_spec(m) {
            TextEdit::MoveTo(line_end_spec(s, c))
        } else if key_has_word_modifier_spec(m) {
            TextEdit::MoveTo(next_word_boundary_spec(s, c))
        } else {
            TextEdit::MoveTo(next_char_boundary_spec(s, c))
        },
        KeyCode::Backspace => if key_has_command_modifier_spec(m) {
            TextEdit::Delete(line_start_spec(s, c), c)
        } else if key_has_word_modifier_spec(m) {
            TextEdit::Delete(previous_word_boundary_spec(s, c), c)
        } else {
            TextEdit::Delete(previous_char_boundary_spec(s, c), c)
        },
        KeyCode::Delete => if key_has_command_modifier_spec(m) {
            TextEdit::Delete(line_start_spec(s, c), c)
        } else if key_has_word_modifier_spec(m) {
            TextEdit::Delete(c, next_word_boundary_spec(s, c))
        } else {
            TextEdit::Delete(c, next_char_boundary_spec(s, c))
        },
        _ => TextEdit::Unhandled,
    }
}

/// Keys that do nothing on empty text: moves, deletions, and the Control
/// line commands.
pub open spec fn ignored_on_empty(key: KeyEvent) -> bool {
    match key.code {
        KeyCode::Home | KeyCode::End | KeyCode::Left | KeyCode::Right | KeyCode::Backspace
        | KeyCode::Delete => true,
        KeyCode::Char(ch) => key.modifiers.control && (ch == 'a' || ch == 'e' || ch == 'u' || ch
            == 'k' || ch == 'w'),
        _ => false,
    }
}

/// Text, cursor and result after a key press on text `s` with cursor `c`.
pub open spec fn text_input_key_spec(s: Seq<u8>, c: int, key: KeyEvent) -> (
    Seq<u8>,
    int,
    TextInputKeyResult,
) {
    let c0 = clamped_cursor(s, c);
    if s.len() == 0 && ignored_on_empty(key) {
        (s, c0, TextInputKeyResult::Ignored)
    } else {
        let (s2, c2) = match text_edit_for_key(s, c0, key) {
            TextEdit::MoveTo(t) => (s, t),
            TextEdit::Delete(a, b) => delete_range_spec(s, c0, a, b),
            TextEdit::Insert(ch) => insert_char_spec(s, c0, ch),
            TextEdit::Unhandled => (s, c0),
        };
        let result = if text_edit_for_key(s, c0, key) is Unhandled {
            TextInputKeyResult::Ignored
        } else if s2 != s {
            TextInputKeyResult::Edited
        } else if c2 != c0 {
            TextInputKeyResult::Moved
        } else {
            TextInputKeyResult::Handled
        };
        (s2, c2, result)
    }
}

/// Characters are typed without Control, Alt, Super, Hyper or Meta held.
pub fn is_text_input_character(modifiers: KeyModifiers) -> (r: bool)
    ensures
        r == is_text_input_character_spec(modifiers),
{
    !(modifiers.control || modifiers.alt || modifiers.super_key || modifiers.hyper
        || modifiers.meta)
}

/// Super or Meta is held.
pub fn key_has_command_modifier(modifiers: KeyModifiers) -> (r: bool)
    ensures
        r == key_has_command_modifier_spec(modifiers),
{
    modifiers.super_key || modifiers.meta
}

/// Alt or Control is held.
pub fn key_has_word_modifier(modifiers: KeyModifiers) -> (r: bool)
    ensures
        r == key_has_word_modifier_spec(modifiers),
{
    modifiers.alt || modifiers.control
}

/// Applies a key press to a single- or multi-line text input: typing
/// inserts at the cursor; Left/Right move by character (by word with Alt or
/// Control, to the line's ends with Super or Meta); Home/End and Control-A /
/// Control-E move to the line's ends; Backspace/Delete remove a character
/// (a word, or up to the line start); Control-U, Control-K and Control-W
/// delete to the line start, to the line end and the previous word. The
/// cursor is first moved onto the text. Reports whether the text changed,
/// only the cursor moved, the key was handled without effect, or ignored.
pub fn handle_text_input_key(input: &mut Vec<u8>, cursor: &mut usize, key: KeyEvent) -> (r:
    TextInputKeyResult)
    requires
        valid_utf8(old(input)@),
        old(input)@.len() + 4 <= usize::MAX,
    ensures
        (final(input)@, *final(cursor) as int, r) == text_input_key_spec(
            old(input)@,
            *old(cursor) as int,
            key,
        ),
        valid_utf8(final(input)@),
        is_cursor(final(input)@, *final(cursor) as int),
{
    clamp_text_cursor(input.as_slice(), cursor);
    let ghost s = input@;
    let ghost c0 = *cursor as int;
    let m = key.modifiers;
    if input.len() == 0 {
        let ignored = match key.code {
            KeyCode::Home | KeyCode::End | KeyCode::Left | KeyCode::Right | KeyCode::Backspace
            | KeyCode::Delete => true,
            KeyCode::Char(ch) => m.control && (ch == 'a' || ch == 'e' || ch == 'u' || ch == 'k'
                || ch == 'w'),
            _ => false,
        };
        if ignored {
            return TextInputKeyResult::Ignored;
        }
    }
    let before_len = input.len();
    let before_cursor = *cursor;
    let handled = match key.code {
        KeyCode::Char(ch) => {
            if m.control && ch == 'a' {
                *cursor = line_start(input.as_slice(), *cursor);
                true
            } else if m.control && ch == 'e' {
                *cursor = line_end(input.as_slice(), *cursor);
                true
            } else if m.control && ch == 'u' {
                let start = line_start(input.as_slice(), *cursor);
                let end = *cursor;
                delete_range(input, cursor, start, end);
                true
            } else if m.control && ch == 'k' {
                let start = *cursor;
                let end = line_end(input.as_slice(), *cursor);
                delete_range(input, cursor, start, end);
                true
            } else if m.control && ch == 'w' {
                let start = previous_word_boundary(input.as_slice(), *cursor);
                let end = *cursor;
                delete_range(input, cursor, start, end);
                true
            } else if is_text_input_character(m) {
                insert_char(input, cursor, ch);
                true
            } else {
                false
            }
        },
        KeyCode::Home => {
            *cursor = line_start(input.as_slice(), *cursor);
            true
        },
        KeyCode::End => {
            *cursor = line_end(input.as_slice(), *cursor);
            true
        },
        KeyCode::Left => {
            if key_has_command_modifier(m) {
                *cursor = line_start(input.as_slice(), *cursor);
            } else if key_has_word_modifier(m) {
                *cursor = previous_word_boundary(input.as_slice(), *cursor);
            } else {
                *cursor = previous_char_boundary(input.as_slice(), *cursor);
            }
            true
        },
        KeyCode::Right => {
            if key_has_command_modifier(m) {
                *cursor = line_end(input.as_slice(), *cursor);
            } else if key_has_word_modifier(m) {
                *cursor = next_word_boundary(input.as_slice(), *cursor);
            } else {
                *cursor = next_char_boundary(input.as_slice(), *cursor);
            }
            true
        },
        KeyCode::Backspace => {
            let end = *cursor;
            let start = if key_has_command_modifier(m) {
                line_start(input.as_slice(), *cursor)
            } else if key_has_word_modifier(m) {
                previous_word_boundary(input.as_slice(), *cursor)
            } else {
                previous_char_boundary(input.as_slice(), *cursor)
            };
            delete_range(input, cursor, start, end);
            true
        },
        KeyCode::Delete => {
            if key_has_command_modifier(m) {
                let start = line_start(input.as_slice(), *cursor);
                let end = *cursor;
                delete_range(input, cursor, start, end);
            } else if key_has_word_modifier(m) {
                let start = *cursor;
                let end = next_word_boundary(input.as_slice(), *cursor);
                delete_range(input, cursor, start, end);
            } else {
                let start = *cursor;
                let end = next_char_boundary(input.as_slice(), *cursor);
                delete_range(input, cursor, start, end);
            }
            true
        },
        _ => false,
    };
    proof {
        if input@.len() == s.len() {
            assert(input@ == s);
        }
    }
    if !handled {
        TextInputKeyResult::Ignored
    } else if input.len() != before_len {
        TextInputKeyResult::Edited
    } else if *cursor != before_cursor {
        TextInputKeyResult::Moved
    } else {
        TextInputKeyResult::Handled
    }
}

/// The UTF-8 encoding of one character is a leading byte followed by
/// continuation bytes.
proof fn lemma_encoded_char(ch: char)
    ensures
        1 <= encode_utf8(seq![ch]).len() <= 4,
        !is_continuation_byte(encode_utf8(seq![ch])[0]),
        forall|k: int| 1 <= k < encode_utf8(seq![ch]).len() ==> is_continuation_byte(#[trigger] encode_utf8(seq![ch])[k]),
{
    let v = ch as u32;
    char_is_scalar(ch);
    assert(seq![ch].drop_first() =~= Seq::<char>::empty());
    assert(encode_utf8(seq![ch]) =~= encode_scalar(v)) by {
        reveal_with_fuel(encode_utf8, 2);
    }
    assert(0x80 <= (0x80u8 | (v & 0x3F) as u8) <= 0xbf) by (bit_vector);
    assert(0x80 <= (0x80u8 | ((v >> 6) & 0x3F) as u8) <= 0xbf) by (bit_vector);
    assert(0x80 <= (0x80u8 | ((v >> 12) & 0x3F) as u8) <= 0xbf) by (bit_vector);
    assert(v <= 0x7f ==> (v & 0x7F) as u8 <= 0x7f) by (bit_vector);
    assert(0xc0 <= (0xC0u8 | ((v >> 6) & 0x1F) as u8)) by (bit_vector);
    assert(0xe0 <= (0xE0u8 | ((v >> 12) & 0x0F) as u8)) by (bit_vector);
    assert(0xf0 <= (0xF0u8 | ((v >> 18) & 0x7) as u8)) by (bit_vector);
}

/// Walking back from inside a typed character's encoding finds its start.
proof fn lemma_back_to_typed_start(s1: Seq<u8>, c: int, e: Seq<u8>, j: int)
    requires
        valid_utf8(s1),
        0 <= c,
        c + e.len() <= s1.len(),
        s1.subrange(c, c + e.len()) == e,
        is_char_boundary(s1, c),
        forall|k: int| 1 <= k < e.len() ==> is_continuation_byte(#[trigger] e[k]),
        c <= j < c + e.len(),
    ensures
        boundary_at_or_before(s1, j) == c,
    decreases j - c,
{
    if j > c {
        assert(s1[j] == e[j - c]);
        is_char_boundary_iff_not_is_continuation_byte(s1, j);
        lemma_back_to_typed_start(s1, c, e, j - 1);
    }
}

/// Typing a character and then pressing Backspace gives back the text and
/// the cursor as they were before.
pub proof fn law_backspace_undoes_typed_character(s: Seq<u8>, c: int, ch: char, m: KeyModifiers)
    requires
        valid_utf8(s),
        is_cursor(s, c),
        is_text_input_character_spec(m),
    ensures
        ({
            let typed = text_input_key_spec(s, c, KeyEvent { code: KeyCode::Char(ch), modifiers: m });
            &&& typed.2 == TextInputKeyResult::Edited
            &&& text_input_key_spec(
                typed.0,
                typed.1,
                KeyEvent {
                    code: KeyCode::Backspace,
                    modifiers: KeyModifiers {
                        shift: false,
                        control: false,
                        alt: false,
                        super_key: false,
                        hyper: false,
                        meta: false,
                    },
                },
            ) == (s, c, TextInputKeyResult::Edited)
        }),
{
    let e = encode_utf8(seq![ch]);
    let a = s.subrange(0, c);
    let b = s.subrange(c, s.len() as int);
    lemma_encoded_char(ch);
    encode_utf8_valid_utf8(seq![ch]);
    valid_utf8_split(s, c);
    assert(clamped_cursor(s, c) == c);
    let s1 = a + e + b;
    let c1 = c + e.len();
    assert(insert_char_spec(s, c, ch) == (s1, c1));
    lemma_concat_boundary(a, e);
    lemma_concat_boundary(a + e, b);
    assert(a + e + b =~= s1);
    assert(is_char_boundary(s1, c)) by {
        assert(s1[c] == e[0]);
        is_char_boundary_iff_not_is_continuation_byte(s1, c);
    }
    assert(s1.len() > s.len());
    assert(clamped_cursor(s1, c1) == c1);
    assert(s1.subrange(c, c + e.len()) =~= e);
    lemma_back_to_typed_start(s1, c, e, c1 - 1);
    assert(previous_char_boundary_spec(s1, c1) == c);
    assert(s1.subrange(0, c) + s1.subrange(c1, s1.len() as int) =~= s);
}

/// Delete with no modifier removes exactly the character after the cursor:
/// the cursor stays where it is, the text before it is kept, and the text
/// after that one character follows it.
pub proof fn law_delete_removes_the_character_after_the_cursor(s: Seq<u8>, c: int)
    requires
        valid_utf8(s),
        is_cursor(s, c),
        c < s.len(),
    ensures
        ({
            let none = KeyModifiers { shift: false, control: false, alt: false, super_key: false, hyper: false, meta: false };
            let edited = text_input_key_spec(s, c, KeyEvent { code: KeyCode::Delete, modifiers: none });
            &&& edited.1 == c
            &&& edited.2 == TextInputKeyResult::Edited
            &&& edited.0.subrange(0, c) == s.subrange(0, c)
            &&& exists|n: int|
                c < n <= s.len() && is_char_boundary(s, n) && (forall|k: int| c < k < n ==> !is_char_boundary(s, k))
                    && edited.0 == s.subrange(0, c) + s.subrange(n, s.len() as int)
        }),
{
    let n = boundary_at_or_after(s, c + 1);
    lemma_boundary_at_or_after(s, c + 1);
    assert(clamped_cursor(s, c) == c);
    assert(next_char_boundary_spec(s, c) == n);
    let rest = s.subrange(0, c) + s.subrange(n, s.len() as int);
    assert(rest.len() < s.len());
    assert(rest.subrange(0, c) =~= s.subrange(0, c));
    assert(c < n <= s.len() && is_char_boundary(s, n) && (forall|k: int| c < k < n ==> !is_char_boundary(s, k)));
}

} // verus!

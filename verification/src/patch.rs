use vstd::prelude::*;
use crate::terminal::{stripped, strip_terminal_escapes};

verus! {

/// The bytes of `diff --git `, the header that opens each file of a git patch.
pub open spec fn git_header_spec() -> Seq<u8> {
    seq![0x64u8, 0x69, 0x66, 0x66, 0x20, 0x2d, 0x2d, 0x67, 0x69, 0x74, 0x20]
}

/// The bytes of `--- `, the old-file header of a unified diff.
pub open spec fn old_header_spec() -> Seq<u8> {
    seq![0x2du8, 0x2d, 0x2d, 0x20]
}

/// The bytes of `+++ `, the new-file header of a unified diff.
pub open spec fn new_header_spec() -> Seq<u8> {
    seq![0x2bu8, 0x2b, 0x2b, 0x20]
}

/// The bytes of `@@ `, the start of a hunk header.
pub open spec fn hunk_header_spec() -> Seq<u8> {
    seq![0x40u8, 0x40, 0x20]
}

/// The index of the line feed that ends the line holding index `i`, or the
/// length of `t` when that line is the last one and has no line feed.
pub open spec fn line_end(t: Seq<u8>, i: int) -> int
    decreases t.len() - i,
{
    if i < 0 || i >= t.len() {
        t.len() as int
    } else if t[i] == 0x0a {
        i
    } else {
        line_end(t, i + 1)
    }
}

/// True when `p` occurs in `t` starting at index `i`.
pub open spec fn has_prefix_at(t: Seq<u8>, i: int, p: Seq<u8>) -> bool {
    0 <= i && i + p.len() <= t.len() && t.subrange(i, i + p.len()) == p
}

/// True when the line starting at `i` opens a patch: either a git file
/// header, or a `--- ` line followed by a `+++ ` line and a hunk header.
pub open spec fn is_patch_start(t: Seq<u8>, i: int) -> bool {
    ||| has_prefix_at(t, i, git_header_spec())
    ||| {
        &&& has_prefix_at(t, i, old_header_spec())
        &&& has_prefix_at(t, line_end(t, i) + 1, new_header_spec())
        &&& has_prefix_at(t, line_end(t, line_end(t, i) + 1) + 1, hunk_header_spec())
    }
}

/// The first line start at or after the line start `i` that opens a patch.
pub open spec fn first_patch_start(t: Seq<u8>, i: int) -> Option<int>
    decreases t.len() - i,
{
    if i < 0 || i >= t.len() {
        None
    } else if is_patch_start(t, i) {
        Some(i)
    } else if i <= line_end(t, i) < t.len() {
        first_patch_start(t, line_end(t, i) + 1)
    } else {
        None
    }
}

/// Where the patch in `input` begins, once its terminal colors are removed.
pub open spec fn patch_offset(input: Seq<u8>) -> Option<int> {
    first_patch_start(stripped(input), 0)
}

proof fn lemma_line_end_bounds(t: Seq<u8>, i: int)
    requires
        0 <= i,
    ensures
        i <= t.len() ==> i <= line_end(t, i) <= t.len(),
        i > t.len() ==> line_end(t, i) == t.len(),
        line_end(t, i) < t.len() ==> t[line_end(t, i)] == 0x0a,
    decreases t.len() - i,
{
    if i < t.len() && t[i] != 0x0a {
        lemma_line_end_bounds(t, i + 1);
    }
}

fn line_end_exec(t: &[u8], i: usize) -> (r: usize)
    requires
        i <= t@.len(),
    ensures
        r == line_end(t@, i as int),
        i <= r <= t@.len(),
{
    proof {
        lemma_line_end_bounds(t@, i as int);
    }
    let mut j = i;
    while j < t.len()
        invariant
            i <= j <= t@.len(),
            line_end(t@, i as int) == line_end(t@, j as int),
        decreases t@.len() - j,
    {
        if t[j] == 0x0a {
            return j;
        }
        j = j + 1;
    }
    j
}

fn has_prefix_at_exec(t: &[u8], i: usize, p: &[u8]) -> (r: bool)
    ensures
        r == has_prefix_at(t@, i as int, p@),
{
    if i > t.len() || p.len() > t.len() - i {
        return false;
    }
    let tl = t.len();
    let mut k: usize = 0;
    while k < p.len()
        invariant
            tl == t@.len(),
            k <= p@.len(),
            i + p@.len() <= t@.len(),
            i + k <= t@.len(),
            forall|m: int| 0 <= m < k ==> t@[i + m] == p@[m],
        decreases p@.len() - k,
    {
        let j = i + k;
        if t[j] != p[k] {
            assert(t@.subrange(i as int, i + p@.len())[k as int] != p@[k as int]);
            return false;
        }
        k = k + 1;
    }
    assert(t@.subrange(i as int, i + p@.len()) =~= p@);
    true
}

fn is_patch_start_exec(t: &[u8], i: usize) -> (r: bool)
    requires
        i <= t@.len(),
    ensures
        r == is_patch_start(t@, i as int),
{
    let git_header: Vec<u8> = vec![0x64u8, 0x69, 0x66, 0x66, 0x20, 0x2d, 0x2d, 0x67, 0x69, 0x74, 0x20];
    let old_header: Vec<u8> = vec![0x2du8, 0x2d, 0x2d, 0x20];
    let new_header: Vec<u8> = vec![0x2bu8, 0x2b, 0x2b, 0x20];
    let hunk_header: Vec<u8> = vec![0x40u8, 0x40, 0x20];
    assert(git_header@ =~= git_header_spec());
    assert(old_header@ =~= old_header_spec());
    assert(new_header@ =~= new_header_spec());
    assert(hunk_header@ =~= hunk_header_spec());
    if has_prefix_at_exec(t, i, git_header.as_slice()) {
        return true;
    }
    if !has_prefix_at_exec(t, i, old_header.as_slice()) {
        return false;
    }
    let first_end = line_end_exec(t, i);
    if first_end >= t.len() {
        proof {
            lemma_line_end_bounds(t@, first_end + 1);
        }
        return false;
    }
    if !has_prefix_at_exec(t, first_end + 1, new_header.as_slice()) {
        return false;
    }
    let second_end = line_end_exec(t, first_end + 1);
    if second_end >= t.len() {
        return false;
    }
    has_prefix_at_exec(t, second_end + 1, hunk_header.as_slice())
}

/// Finds the first line of `t` that opens a patch.
fn first_patch_start_exec(t: &[u8]) -> (r: Option<usize>)
    ensures
        r matches Some(k) ==> first_patch_start(t@, 0) == Some(k as int),
        r is None ==> first_patch_start(t@, 0) is None,
{
    let mut i: usize = 0;
    while i < t.len()
        invariant
            i <= t@.len(),
            first_patch_start(t@, 0) == first_patch_start(t@, i as int),
        decreases t@.len() - i,
    {
        if is_patch_start_exec(t, i) {
            return Some(i);
        }
        let e = line_end_exec(t, i);
        if e >= t.len() {
            return None;
        }
        i = e + 1;
    }
    None
}

/// Decides whether pager input holds a patch: a `diff --git` header, or a
/// `---`/`+++` header pair directly followed by a hunk header, at the start
/// of a line once terminal colors are removed. Hunk markers without headers
/// and header pairs without hunks do not count.
pub fn looks_like_patch_input(input: &[u8]) -> (r: bool)
    ensures
        r == (patch_offset(input@) is Some),
{
    let text = strip_terminal_escapes(input);
    first_patch_start_exec(text.as_slice()).is_some()
}

/// True when text (such as the commit header of `git show`) comes before the
/// patch in the input.
pub fn patch_input_has_prelude(input: &[u8]) -> (r: bool)
    ensures
        r == (patch_offset(input@) matches Some(k) && k > 0),
{
    let text = strip_terminal_escapes(input);
    match first_patch_start_exec(text.as_slice()) {
        Some(k) => k > 0,
        None => false,
    }
}

/// Splits uncolored patch input into the text before the patch and the patch
/// itself; input without a patch is all prelude.
pub fn split_patch_prelude(input: &[u8]) -> (r: (Vec<u8>, Vec<u8>))
    ensures
        first_patch_start(input@, 0) matches Some(k) ==> r.0@ == input@.subrange(0, k)
            && r.1@ == input@.subrange(k, input@.len() as int),
        first_patch_start(input@, 0) is None ==> r.0@ == input@ && r.1@.len() == 0,
        r.0@ + r.1@ == input@,
{
    let k = match first_patch_start_exec(input) {
        Some(k) => k,
        None => input.len(),
    };
    proof {
        if first_patch_start(input@, 0) is Some {
            lemma_first_patch_start_bounds(input@, 0);
        }
    }
    let mut prelude: Vec<u8> = Vec::new();
    let mut patch: Vec<u8> = Vec::new();
    let mut i: usize = 0;
    while i < input.len()
        invariant
            k <= input@.len(),
            i <= input@.len(),
            i <= k ==> prelude@ == input@.subrange(0, i as int) && patch@.len() == 0,
            i > k ==> prelude@ == input@.subrange(0, k as int) && patch@ == input@.subrange(
                k as int,
                i as int,
            ),
        decreases input@.len() - i,
    {
        if i < k {
            prelude.push(input[i]);
            assert(prelude@ =~= input@.subrange(0, i + 1));
        } else {
            patch.push(input[i]);
            assert(patch@ =~= input@.subrange(k as int, i + 1));
        }
        i = i + 1;
    }
    assert(prelude@ + patch@ =~= input@);
    (prelude, patch)
}

proof fn lemma_first_patch_start_bounds(t: Seq<u8>, i: int)
    ensures
        first_patch_start(t, i) matches Some(k) ==> 0 <= k < t.len(),
    decreases t.len() - i,
{
    if 0 <= i < t.len() && !is_patch_start(t, i) && i <= line_end(t, i) < t.len() {
        lemma_first_patch_start_bounds(t, line_end(t, i) + 1);
    }
}

proof fn lemma_line_end_at(t: Seq<u8>, i: int, e: int)
    requires
        0 <= i <= e < t.len(),
        t[e] == 0x0a,
        forall|k: int| i <= k < e ==> #[trigger] t[k] != 0x0a,
    ensures
        line_end(t, i) == e,
    decreases e - i,
{
    if i < e {
        lemma_line_end_at(t, i + 1, e);
    }
}

proof fn lemma_line_end_before(t: Seq<u8>, i: int, e: int)
    requires
        0 <= i <= e < t.len(),
        t[e] == 0x0a,
    ensures
        line_end(t, i) <= e,
    decreases e - i,
{
    if i < e && t[i] != 0x0a {
        lemma_line_end_before(t, i + 1, e);
    }
}

/// Scanning line by line from a line start `i` up to a patch start at the
/// line start `p` finds a patch start no later than `p`.
proof fn lemma_scan_reaches(t: Seq<u8>, i: int, p: int)
    requires
        0 <= i <= p < t.len(),
        i == 0 || t[i - 1] == 0x0a,
        p == 0 || t[p - 1] == 0x0a,
        is_patch_start(t, p),
    ensures
        first_patch_start(t, i) matches Some(k) && i <= k <= p,
        (forall|j: int| i <= j < p && (j == 0 || t[j - 1] == 0x0a) ==> !is_patch_start(t, j))
            ==> first_patch_start(t, i) == Some(p),
    decreases p - i,
{
    if i < p && !is_patch_start(t, i) {
        lemma_line_end_before(t, i, p - 1);
        lemma_line_end_bounds(t, i);
        lemma_scan_reaches(t, line_end(t, i) + 1, p);
    }
}

/// Unified diff headers (`--- x`, `+++ y`, `@@ ...`) mark a patch wherever
/// they start a line, after any text such as the command line of `diff -u`:
/// the input is detected as a patch that starts no later than the headers,
/// and exactly at them when no earlier line opens a patch.
pub proof fn law_unified_headers_after_text_are_a_patch(prelude: Seq<u8>, x: Seq<u8>, y: Seq<u8>, z: Seq<u8>)
    requires
        prelude.len() == 0 || prelude[prelude.len() - 1] == 0x0a,
        forall|k: int| 0 <= k < x.len() ==> #[trigger] x[k] != 0x0a && x[k] != 0x1b,
        forall|k: int| 0 <= k < y.len() ==> #[trigger] y[k] != 0x0a && y[k] != 0x1b,
        forall|k: int| 0 <= k < z.len() ==> #[trigger] z[k] != 0x1b,
        forall|k: int| 0 <= k < prelude.len() ==> #[trigger] prelude[k] != 0x1b,
    ensures
        ({
            let input = prelude + old_header_spec() + x + seq![0x0au8] + new_header_spec() + y + seq![0x0au8]
                + hunk_header_spec() + z;
            &&& patch_offset(input) matches Some(k) && k <= prelude.len()
            &&& (forall|j: int| 0 <= j < prelude.len() && (j == 0 || input[j - 1] == 0x0a) ==> !is_patch_start(input, j))
                ==> patch_offset(input) == Some(prelude.len() as int)
        }),
{
    let input = prelude + old_header_spec() + x + seq![0x0au8] + new_header_spec() + y + seq![0x0au8]
        + hunk_header_spec() + z;
    let p = prelude.len() as int;
    let e1 = p + 4 + x.len();
    let e2 = e1 + 1 + 4 + y.len();
    assert forall|k: int| 0 <= k < input.len() implies #[trigger] input[k] != 0x1b by {
        if k < p {
            assert(input[k] == prelude[k]);
        } else if p + 4 <= k < e1 {
            assert(input[k] == x[k - p - 4]);
        } else if e1 + 5 <= k < e2 {
            assert(input[k] == y[k - e1 - 5]);
        } else if e2 + 4 <= k {
            assert(input[k] == z[k - e2 - 4]);
        }
    }
    crate::terminal::law_strip_keeps_text_without_escapes(input);
    assert(input.subrange(p, p + 4) =~= old_header_spec());
    assert(input[e1] == 0x0a);
    assert forall|k: int| p <= k < e1 implies #[trigger] input[k] != 0x0a by {
        if k >= p + 4 {
            assert(input[k] == x[k - p - 4]);
        }
    }
    lemma_line_end_at(input, p, e1);
    assert(input.subrange(e1 + 1, e1 + 5) =~= new_header_spec());
    assert(input[e2] == 0x0a);
    assert forall|k: int| e1 + 1 <= k < e2 implies #[trigger] input[k] != 0x0a by {
        if k >= e1 + 5 {
            assert(input[k] == y[k - e1 - 5]);
        }
    }
    lemma_line_end_at(input, e1 + 1, e2);
    assert(input.subrange(e2 + 1, e2 + 4) =~= hunk_header_spec());
    assert(is_patch_start(input, p));
    if p > 0 {
        assert(input[p - 1] == prelude[p - 1]);
    }
    lemma_scan_reaches(input, 0, p);
}

} // verus!

use vstd::prelude::*;

verus! {

/// The escape byte that starts every terminal control sequence.
pub const ESC: u8 = 0x1b;

/// The bell byte that may terminate an operating-system command sequence.
pub const BEL: u8 = 0x07;

/// Scans the parameter and intermediate bytes of a CSI sequence starting at
/// `j`; returns the index just past its final byte, or `None` when the
/// sequence is malformed or unterminated.
pub open spec fn csi_end(s: Seq<u8>, j: int) -> Option<int>
    decreases s.len() - j,
{
    if j < 0 || j >= s.len() {
        None
    } else if 0x40 <= s[j] <= 0x7e {
        Some(j + 1)
    } else if 0x20 <= s[j] <= 0x3f {
        csi_end(s, j + 1)
    } else {
        None
    }
}

/// Scans the body of an OSC sequence starting at `j`; the body ends with BEL
/// or with the string terminator `ESC \`, and may not span a line break.
pub open spec fn osc_end(s: Seq<u8>, j: int) -> Option<int>
    decreases s.len() - j,
{
    if j < 0 || j >= s.len() {
        None
    } else if s[j] == BEL {
        Some(j + 1)
    } else if s[j] == ESC {
        if j + 1 < s.len() && s[j + 1] == 0x5c {
            Some(j + 2)
        } else {
            None
        }
    } else if s[j] == 0x0a {
        None
    } else {
        osc_end(s, j + 1)
    }
}

/// The end of the well-formed CSI (`ESC [`) or OSC (`ESC ]`) sequence that
/// starts at `i`, if there is one.
pub open spec fn escape_end(s: Seq<u8>, i: int) -> Option<int> {
    if 0 <= i && i + 1 < s.len() && s[i] == ESC {
        if s[i + 1] == 0x5b {
            csi_end(s, i + 2)
        } else if s[i + 1] == 0x5d {
            osc_end(s, i + 2)
        } else {
            None
        }
    } else {
        None
    }
}

/// The bytes of `s` from index `i` on, with every well-formed CSI and OSC
/// sequence removed and every other byte kept in order.
pub open spec fn stripped_from(s: Seq<u8>, i: int) -> Seq<u8>
    decreases s.len() - i,
{
    if i < 0 || i >= s.len() {
        Seq::empty()
    } else {
        match escape_end(s, i) {
            Some(e) if i < e <= s.len() => stripped_from(s, e),
            _ => seq![s[i]] + stripped_from(s, i + 1),
        }
    }
}

/// `s` with its well-formed CSI and OSC sequences removed.
pub open spec fn stripped(s: Seq<u8>) -> Seq<u8> {
    stripped_from(s, 0)
}

proof fn lemma_csi_end_bounds(s: Seq<u8>, j: int)
    requires
        0 <= j,
    ensures
        csi_end(s, j) matches Some(e) ==> j < e <= s.len(),
    decreases s.len() - j,
{
    if 0 <= j < s.len() && !(0x40 <= s[j] <= 0x7e) && 0x20 <= s[j] <= 0x3f {
        lemma_csi_end_bounds(s, j + 1);
    }
}

proof fn lemma_osc_end_bounds(s: Seq<u8>, j: int)
    requires
        0 <= j,
    ensures
        osc_end(s, j) matches Some(e) ==> j < e <= s.len(),
    decreases s.len() - j,
{
    if 0 <= j < s.len() && s[j] != BEL && s[j] != ESC && s[j] != 0x0a {
        lemma_osc_end_bounds(s, j + 1);
    }
}

proof fn lemma_escape_end_bounds(s: Seq<u8>, i: int)
    requires
        0 <= i,
    ensures
        escape_end(s, i) matches Some(e) ==> i + 2 < e <= s.len(),
{
    lemma_csi_end_bounds(s, i + 2);
    lemma_osc_end_bounds(s, i + 2);
}

fn csi_end_exec(s: &[u8], start: usize) -> (r: Option<usize>)
    requires
        start <= s@.len(),
    ensures
        r matches Some(e) ==> csi_end(s@, start as int) == Some(e as int),
        r is None ==> csi_end(s@, start as int) is None,
{
    let mut j = start;
    while j < s.len()
        invariant
            start <= j <= s@.len(),
            csi_end(s@, start as int) == csi_end(s@, j as int),
        decreases s@.len() - j,
    {
        let b = s[j];
        if 0x40 <= b && b <= 0x7e {
            return Some(j + 1);
        } else if 0x20 <= b && b <= 0x3f {
            j = j + 1;
        } else {
            return None;
        }
    }
    None
}

fn osc_end_exec(s: &[u8], start: usize) -> (r: Option<usize>)
    requires
        start <= s@.len(),
    ensures
        r matches Some(e) ==> osc_end(s@, start as int) == Some(e as int),
        r is None ==> osc_end(s@, start as int) is None,
{
    let mut j = start;
    while j < s.len()
        invariant
            start <= j <= s@.len(),
            osc_end(s@, start as int) == osc_end(s@, j as int),
        decreases s@.len() - j,
    {
        let b = s[j];
        if b == BEL {
            return Some(j + 1);
        } else if b == ESC {
            if s.len() - j > 1 && s[j + 1] == 0x5c {
                return Some(j + 2);
            }
            return None;
        } else if b == 0x0a {
            return None;
        } else {
            j = j + 1;
        }
    }
    None
}

/// Finds the end of the CSI or OSC sequence starting at `i`.
pub fn escape_end_exec(s: &[u8], i: usize) -> (r: Option<usize>)
    requires
        i < s@.len(),
    ensures
        r matches Some(e) ==> escape_end(s@, i as int) == Some(e as int) && i + 2 < e <= s@.len(),
        r is None ==> escape_end(s@, i as int) is None,
{
    proof {
        lemma_escape_end_bounds(s@, i as int);
    }
    if s.len() - i > 1 && s[i] == ESC {
        if s[i + 1] == 0x5b {
            csi_end_exec(s, i + 2)
        } else if s[i + 1] == 0x5d {
            osc_end_exec(s, i + 2)
        } else {
            None
        }
    } else {
        None
    }
}

/// Removes CSI sequences (such as colors) and OSC sequences (such as
/// clipboard or title requests) from terminal output, keeping every other
/// byte, carriage returns included. Malformed or unterminated sequences are
/// left in place.
pub fn strip_terminal_escapes(input: &[u8]) -> (out: Vec<u8>)
    ensures
        out@ == stripped(input@),
{
    let mut out: Vec<u8> = Vec::new();
    let mut i: usize = 0;
    while i < input.len()
        invariant
            i <= input@.len(),
            stripped(input@) == out@ + stripped_from(input@, i as int),
        decreases input@.len() - i,
    {
        match escape_end_exec(input, i) {
            Some(e) => {
                i = e;
            },
            None => {
                let ghost before = out@;
                out.push(input[i]);
                assert(stripped_from(input@, i as int) == seq![input@[i as int]] + stripped_from(
                    input@,
                    i + 1,
                ));
                assert(before + stripped_from(input@, i as int) == out@ + stripped_from(
                    input@,
                    i + 1,
                ));
                i = i + 1;
            },
        }
    }
    out
}


/// The lowercase hexadecimal digit for a value below sixteen.
pub open spec fn hex_digit(d: u8) -> u8 {
    if d < 10 {
        (0x30 + d) as u8
    } else {
        (0x61 + d - 10) as u8
    }
}

/// The text `\u{..}` naming the code point `v` in lowercase hexadecimal
/// without leading zeros, as Rust's debug escaping writes it.
pub open spec fn unicode_escape(v: u8) -> Seq<u8> {
    let digits = if v >= 16 {
        seq![hex_digit(v / 16), hex_digit(v % 16)]
    } else {
        seq![hex_digit(v)]
    };
    seq![0x5cu8, 0x75u8, 0x7bu8] + digits + seq![0x7du8]
}

/// True for the control bytes that are shown escaped: every C0 control but
/// line feed and tab, and DEL.
pub open spec fn is_escaped_control(b: u8) -> bool {
    (b < 0x20 && b != 0x0a && b != 0x09) || b == 0x7f
}

/// How an escaped control byte is written: `\r` for a carriage return, `\0`
/// for NUL, and `\u{..}` for the others.
pub open spec fn control_escape(b: u8) -> Seq<u8> {
    if b == 0x0d {
        seq![0x5cu8, 0x72u8]
    } else if b == 0 {
        seq![0x5cu8, 0x30u8]
    } else {
        unicode_escape(b)
    }
}

/// True when the two bytes at `i` encode a C1 control character
/// (U+0080 to U+009F).
pub open spec fn is_c1_control_at(s: Seq<u8>, i: int) -> bool {
    0 <= i && i + 1 < s.len() && s[i] == 0xc2 && 0x80 <= s[i + 1] <= 0x9f
}

/// The bytes of `s` from `i` on with control characters replaced by their
/// visible escapes and every other byte kept.
pub open spec fn escaped_controls_from(s: Seq<u8>, i: int) -> Seq<u8>
    decreases s.len() - i,
{
    if i < 0 || i >= s.len() {
        Seq::empty()
    } else if is_c1_control_at(s, i) {
        unicode_escape(s[i + 1]) + escaped_controls_from(s, i + 2)
    } else if is_escaped_control(s[i]) {
        control_escape(s[i]) + escaped_controls_from(s, i + 1)
    } else {
        seq![s[i]] + escaped_controls_from(s, i + 1)
    }
}

/// What `sanitized_terminal_bytes` makes of `s`: escape sequences removed,
/// then the remaining control characters escaped.
pub open spec fn sanitized(s: Seq<u8>) -> Seq<u8> {
    escaped_controls_from(stripped(s), 0)
}

fn hex_digit_exec(d: u8) -> (r: u8)
    requires
        d < 16,
    ensures
        r == hex_digit(d),
{
    if d < 10 {
        0x30 + d
    } else {
        0x61 + d - 10
    }
}

fn push_unicode_escape(out: &mut Vec<u8>, v: u8)
    ensures
        final(out)@ == old(out)@ + unicode_escape(v),
{
    out.push(0x5c);
    out.push(0x75);
    out.push(0x7b);
    if v >= 16 {
        out.push(hex_digit_exec(v / 16));
        out.push(hex_digit_exec(v % 16));
    } else {
        out.push(hex_digit_exec(v));
    }
    out.push(0x7d);
    assert(out@ =~= old(out)@ + unicode_escape(v));
}

fn push_control_escape(out: &mut Vec<u8>, b: u8)
    ensures
        final(out)@ == old(out)@ + control_escape(b),
{
    if b == 0x0d {
        out.push(0x5c);
        out.push(0x72);
        assert(out@ =~= old(out)@ + control_escape(b));
    } else if b == 0 {
        out.push(0x5c);
        out.push(0x30);
        assert(out@ =~= old(out)@ + control_escape(b));
    } else {
        push_unicode_escape(out, b);
    }
}

/// Makes captured terminal output safe to echo: removes CSI and OSC
/// sequences, then writes every remaining control character (including the
/// escape byte of a malformed sequence) as a visible escape such as `\r` or
/// `\u{1b}`. Line feeds, tabs and printable text are kept.
pub fn sanitized_terminal_bytes(input: &[u8]) -> (out: Vec<u8>)
    ensures
        out@ == sanitized(input@),
{
    let text = strip_terminal_escapes(input);
    let mut out: Vec<u8> = Vec::new();
    let mut i: usize = 0;
    while i < text.len()
        invariant
            i <= text@.len(),
            text@ == stripped(input@),
            sanitized(input@) == out@ + escaped_controls_from(text@, i as int),
        decreases text@.len() - i,
    {
        let ghost before = out@;
        let b = text[i];
        if b == 0xc2 && text.len() - i > 1 && 0x80 <= text[i + 1] && text[i + 1] <= 0x9f {
            push_unicode_escape(&mut out, text[i + 1]);
            assert(before + escaped_controls_from(text@, i as int) == out@ + escaped_controls_from(
                text@,
                i + 2,
            ));
            i = i + 2;
        } else if (b < 0x20 && b != 0x0a && b != 0x09) || b == 0x7f {
            push_control_escape(&mut out, b);
            assert(before + escaped_controls_from(text@, i as int) == out@ + escaped_controls_from(
                text@,
                i + 1,
            ));
            i = i + 1;
        } else {
            out.push(b);
            assert(before + escaped_controls_from(text@, i as int) == out@ + escaped_controls_from(
                text@,
                i + 1,
            ));
            i = i + 1;
        }
    }
    out
}

/// True when `o` holds no control character: no escaped C0 control, no DEL
/// and no two-byte C1 control.
pub open spec fn free_of_controls(o: Seq<u8>) -> bool {
    forall|k: int| 0 <= k < o.len() ==> !is_escaped_control(#[trigger] o[k]) && !is_c1_control_at(o, k)
}

/// True when every byte of `p` is printable ASCII.
spec fn printable(p: Seq<u8>) -> bool {
    forall|k: int| 0 <= k < p.len() ==> 0x20 <= #[trigger] p[k] <= 0x7e
}

proof fn lemma_escapes_printable(b: u8)
    ensures
        printable(unicode_escape(b)),
        printable(control_escape(b)),
        unicode_escape(b).len() > 0 && unicode_escape(b)[0] == 0x5c,
        control_escape(b).len() > 0 && control_escape(b)[0] == 0x5c,
{
    assert(b / 16 < 16);
    assert(b % 16 < 16);
}

/// The first byte of the escaped text from `i` on is a backslash or the
/// byte at `i`, kept because it starts no control character.
proof fn lemma_escaped_first(s: Seq<u8>, i: int)
    requires
        0 <= i,
    ensures
        ({
            let o = escaped_controls_from(s, i);
            o.len() == 0 || o[0] == 0x5c || (i < s.len() && o[0] == s[i] && !is_c1_control_at(s, i)
                && !is_escaped_control(s[i]))
        }),
{
    if i < s.len() {
        lemma_escapes_printable(s[i]);
        if is_c1_control_at(s, i) {
            lemma_escapes_printable(s[i + 1]);
        }
    }
}

/// Escaping control characters leaves none behind.
proof fn lemma_escaped_free(s: Seq<u8>, i: int)
    requires
        0 <= i,
    ensures
        free_of_controls(escaped_controls_from(s, i)),
    decreases s.len() - i,
{
    if i < s.len() {
        let out = escaped_controls_from(s, i);
        let (piece, next) = if is_c1_control_at(s, i) {
            (unicode_escape(s[i + 1]), i + 2)
        } else if is_escaped_control(s[i]) {
            (control_escape(s[i]), i + 1)
        } else {
            (seq![s[i]], i + 1)
        };
        let rest = escaped_controls_from(s, next);
        lemma_escaped_free(s, next);
        lemma_escaped_first(s, next);
        lemma_escapes_printable(s[i]);
        if i + 1 < s.len() {
            lemma_escapes_printable(s[i + 1]);
        }
        assert(out == piece + rest);
        assert forall|k: int| 0 <= k < out.len() implies !is_escaped_control(#[trigger] out[k]) && !is_c1_control_at(out, k) by {
            if k >= piece.len() {
                assert(out[k] == rest[k - piece.len()]);
                if k + 1 < out.len() {
                    assert(out[k + 1] == rest[k - piece.len() + 1]);
                }
                assert(!is_c1_control_at(rest, k - piece.len()));
            } else {
                assert(out[k] == piece[k]);
                if k + 1 < piece.len() {
                    assert(out[k + 1] == piece[k + 1]);
                } else if k + 1 < out.len() {
                    assert(out[k + 1] == rest[0]);
                }
            }
        }
    }
}

/// What `sanitized_terminal_bytes` writes is free of control characters,
/// whatever the input: printing it cannot drive the terminal.
pub proof fn law_sanitized_output_has_no_controls(input: Seq<u8>)
    ensures
        free_of_controls(sanitized(input)),
{
    lemma_escaped_free(stripped(input), 0);
}

/// Text without an escape byte comes out of stripping unchanged.
pub proof fn law_strip_keeps_text_without_escapes(input: Seq<u8>)
    requires
        forall|k: int| 0 <= k < input.len() ==> #[trigger] input[k] != ESC,
    ensures
        stripped(input) == input,
{
    lemma_stripped_plain(input, 0);
    assert(input.subrange(0, input.len() as int) =~= input);
}

proof fn lemma_stripped_plain(s: Seq<u8>, i: int)
    requires
        0 <= i <= s.len(),
        forall|k: int| 0 <= k < s.len() ==> #[trigger] s[k] != ESC,
    ensures
        stripped_from(s, i) == s.subrange(i, s.len() as int),
    decreases s.len() - i,
{
    if i < s.len() {
        lemma_stripped_plain(s, i + 1);
        assert(seq![s[i]] + s.subrange(i + 1, s.len() as int) =~= s.subrange(i, s.len() as int));
    } else {
        assert(s.subrange(i, s.len() as int) =~= Seq::<u8>::empty());
    }
}

proof fn lemma_csi_end_shift(a: Seq<u8>, b: Seq<u8>, j: int)
    requires
        0 <= j,
    ensures
        csi_end(a + b, a.len() + j) == (match csi_end(b, j) {
            Some(e) => Some(a.len() + e),
            None => None::<int>,
        }),
    decreases b.len() - j,
{
    if j < b.len() {
        assert((a + b)[a.len() + j] == b[j]);
        lemma_csi_end_shift(a, b, j + 1);
    }
}

proof fn lemma_osc_end_shift(a: Seq<u8>, b: Seq<u8>, j: int)
    requires
        0 <= j,
    ensures
        osc_end(a + b, a.len() + j) == (match osc_end(b, j) {
            Some(e) => Some(a.len() + e),
            None => None::<int>,
        }),
    decreases b.len() - j,
{
    if j < b.len() {
        assert((a + b)[a.len() + j] == b[j]);
        if j + 1 < b.len() {
            assert((a + b)[a.len() + j + 1] == b[j + 1]);
        }
        lemma_osc_end_shift(a, b, j + 1);
    }
}

/// Stripping from inside the second part of a concatenation does not look
/// at the first part.
proof fn lemma_stripped_from_shift(a: Seq<u8>, b: Seq<u8>, i: int)
    requires
        0 <= i,
    ensures
        stripped_from(a + b, a.len() + i) == stripped_from(b, i),
    decreases b.len() - i,
{
    let s = a + b;
    let k = a.len() + i;
    if i < b.len() {
        assert(s[k] == b[i]);
        if i + 1 < b.len() {
            assert(s[k + 1] == b[i + 1]);
        }
        lemma_csi_end_shift(a, b, i + 2);
        lemma_osc_end_shift(a, b, i + 2);
        lemma_escape_end_bounds(b, i);
        match escape_end(b, i) {
            Some(e) if i < e <= b.len() => {
                assert(escape_end(s, k) == Some(a.len() + e));
                lemma_stripped_from_shift(a, b, e);
            },
            _ => {
                lemma_stripped_from_shift(a, b, i + 1);
            },
        }
    }
}

proof fn lemma_csi_params(s: Seq<u8>, j: int, m: int)
    requires
        0 <= j,
        0 <= m,
        j + m < s.len(),
        forall|k: int| j <= k < j + m ==> 0x20 <= #[trigger] s[k] <= 0x3f,
        0x40 <= s[j + m] <= 0x7e,
    ensures
        csi_end(s, j) == Some(j + m + 1),
    decreases m,
{
    if m > 0 {
        lemma_csi_params(s, j + 1, m - 1);
    }
}

/// A CSI sequence (`ESC [`, parameter and intermediate bytes 0x20 to 0x3F
/// such as digits, `;`, `:` and `?`, and a final byte 0x40 to 0x7E) at the
/// start of the text is removed whole: stripping it and the text after it
/// gives what stripping the text after it gives.
pub proof fn law_strip_removes_leading_csi(params: Seq<u8>, final_byte: u8, rest: Seq<u8>)
    requires
        forall|k: int| 0 <= k < params.len() ==> 0x20 <= #[trigger] params[k] <= 0x3f,
        0x40 <= final_byte <= 0x7e,
    ensures
        stripped(seq![ESC, 0x5bu8] + params + seq![final_byte] + rest) == stripped(rest),
{
    let a = seq![ESC, 0x5bu8] + params + seq![final_byte];
    let s = a + rest;
    assert(seq![ESC, 0x5bu8] + params + seq![final_byte] + rest == s);
    assert forall|k: int| 2 <= k < 2 + params.len() implies 0x20 <= #[trigger] s[k] <= 0x3f by {
        assert(s[k] == params[k - 2]);
    }
    assert(s[2 + params.len() as int] == final_byte);
    lemma_csi_params(s, 2, params.len() as int);
    assert(escape_end(s, 0) == Some(a.len() as int));
    lemma_stripped_from_shift(a, rest, 0);
}

} // verus!

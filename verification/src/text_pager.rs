use vstd::prelude::*;
use vstd::string::StringSliceAdditionalSpecFns;

verus! {

/// The pager that shows plain (non-diff) text when no usable pager is
/// configured.
pub const DEFAULT_TEXT_PAGER: &'static str = "less -R";

/// ASCII whitespace separates the words of a pager command.
pub open spec fn is_space(c: u8) -> bool {
    c == 0x20 || c == 0x09 || c == 0x0a || c == 0x0d || c == 0x0b || c == 0x0c
}

/// Splits `b` into its whitespace-separated words, scanning from index `i`
/// with the word in progress `cur` and the finished words `acc`.
pub open spec fn words_from(b: Seq<u8>, i: int, cur: Seq<u8>, acc: Seq<Seq<u8>>) -> Seq<Seq<u8>>
    decreases b.len() - i,
{
    if i < 0 || i >= b.len() {
        if cur.len() > 0 {
            acc.push(cur)
        } else {
            acc
        }
    } else if is_space(b[i]) {
        words_from(b, i + 1, Seq::empty(), if cur.len() > 0 { acc.push(cur) } else { acc })
    } else {
        words_from(b, i + 1, cur.push(b[i]), acc)
    }
}

/// The whitespace-separated words of `b`.
pub open spec fn words(b: Seq<u8>) -> Seq<Seq<u8>> {
    words_from(b, 0, Seq::empty(), Seq::empty())
}

/// True when `w` holds `=` after its first byte, as in `PAGER=cat`.
pub open spec fn is_assignment(w: Seq<u8>) -> bool {
    exists|k: int| 0 < k < w.len() && w[k] == 0x3d
}

/// `env`, `command` and `exec` run the command that follows them.
pub open spec fn is_runner(w: Seq<u8>) -> bool {
    ||| w == seq![0x65u8, 0x6e, 0x76]
    ||| w == seq![0x63u8, 0x6f, 0x6d, 0x6d, 0x61, 0x6e, 0x64]
    ||| w == seq![0x65u8, 0x78, 0x65, 0x63]
}

/// The index of the first word from `k` on that names the program to run,
/// skipping variable assignments and runner words.
pub open spec fn program_index(ws: Seq<Seq<u8>>, k: int) -> int
    decreases ws.len() - k,
{
    if k < 0 || k >= ws.len() {
        k
    } else if is_assignment(ws[k]) || is_runner(ws[k]) {
        program_index(ws, k + 1)
    } else {
        k
    }
}

/// The index just past the last `/` among the first `j` bytes of `w`.
pub open spec fn basename_start(w: Seq<u8>, j: int) -> int
    decreases j,
{
    if j <= 0 || j > w.len() {
        0
    } else if w[j - 1] == 0x2f {
        j
    } else {
        basename_start(w, j - 1)
    }
}

/// The file name part of a program path.
pub open spec fn basename(w: Seq<u8>) -> Seq<u8> {
    w.subrange(basename_start(w, w.len() as int), w.len() as int)
}

/// True when the words run this tool's own pager (`mark pager` or
/// `mark page`), possibly through a path, assignments, `env`, `command` or
/// `exec`.
pub open spec fn is_self_pager_command(ws: Seq<Seq<u8>>) -> bool {
    let k = program_index(ws, 0);
    &&& 0 <= k
    &&& k + 1 < ws.len()
    &&& basename(ws[k]) == seq![0x6du8, 0x61, 0x72, 0x6b]
    &&& (ws[k + 1] == seq![0x70u8, 0x61, 0x67, 0x65, 0x72] || ws[k + 1] == seq![
        0x70u8,
        0x61,
        0x67,
        0x65,
    ])
}

/// The pager command that plain text is handed to.
pub open spec fn text_pager_choice(command: Option<Seq<u8>>) -> Option<Seq<u8>> {
    match command {
        Some(b) if words(b).len() > 0 && !is_self_pager_command(words(b)) => Some(b),
        _ => None,
    }
}

fn bytes_equal(a: &[u8], b: &[u8]) -> (r: bool)
    ensures
        r == (a@ == b@),
{
    if a.len() != b.len() {
        return false;
    }
    let mut k: usize = 0;
    while k < a.len()
        invariant
            a@.len() == b@.len(),
            k <= a@.len(),
            forall|m: int| 0 <= m < k ==> a@[m] == b@[m],
        decreases a@.len() - k,
    {
        if a[k] != b[k] {
            return false;
        }
        k = k + 1;
    }
    assert(a@ =~= b@);
    true
}

fn split_words(b: &[u8]) -> (ws: Vec<Vec<u8>>)
    ensures
        ws@.len() == words(b@).len(),
        forall|k: int| 0 <= k < ws@.len() ==> #[trigger] ws@[k]@ == words(b@)[k],
{
    let mut acc: Vec<Vec<u8>> = Vec::new();
    let mut cur: Vec<u8> = Vec::new();
    let ghost mut spec_acc: Seq<Seq<u8>> = Seq::empty();
    let mut i: usize = 0;
    while i < b.len()
        invariant
            i <= b@.len(),
            words(b@) == words_from(b@, i as int, cur@, spec_acc),
            acc@.len() == spec_acc.len(),
            forall|k: int| 0 <= k < acc@.len() ==> #[trigger] acc@[k]@ == spec_acc[k],
        decreases b@.len() - i,
    {
        let c = b[i];
        if c == 0x20 || c == 0x09 || c == 0x0a || c == 0x0d || c == 0x0b || c == 0x0c {
            if cur.len() > 0 {
                proof {
                    spec_acc = spec_acc.push(cur@);
                }
                acc.push(cur);
                cur = Vec::new();
            } else {
                assert(cur@ =~= Seq::<u8>::empty());
            }
        } else {
            cur.push(c);
        }
        i = i + 1;
    }
    if cur.len() > 0 {
        proof {
            spec_acc = spec_acc.push(cur@);
        }
        acc.push(cur);
    }
    acc
}

fn is_assignment_exec(w: &[u8]) -> (r: bool)
    ensures
        r == is_assignment(w@),
{
    let mut k: usize = 1;
    while k < w.len()
        invariant
            1 <= k,
            forall|m: int| 0 < m < k && m < w@.len() ==> w@[m] != 0x3d,
        decreases w@.len() - k,
    {
        if w[k] == 0x3d {
            return true;
        }
        k = k + 1;
    }
    false
}

fn is_runner_exec(w: &[u8]) -> (r: bool)
    ensures
        r == is_runner(w@),
{
    let env_word: Vec<u8> = vec![0x65u8, 0x6e, 0x76];
    let command_word: Vec<u8> = vec![0x63u8, 0x6f, 0x6d, 0x6d, 0x61, 0x6e, 0x64];
    let exec_word: Vec<u8> = vec![0x65u8, 0x78, 0x65, 0x63];
    assert(env_word@ =~= seq![0x65u8, 0x6e, 0x76]);
    assert(command_word@ =~= seq![0x63u8, 0x6f, 0x6d, 0x6d, 0x61, 0x6e, 0x64]);
    assert(exec_word@ =~= seq![0x65u8, 0x78, 0x65, 0x63]);
    bytes_equal(w, env_word.as_slice()) || bytes_equal(w, command_word.as_slice())
        || bytes_equal(w, exec_word.as_slice())
}

fn basename_is_mark(w: &[u8]) -> (r: bool)
    ensures
        r == (basename(w@) == seq![0x6du8, 0x61, 0x72, 0x6b]),
{
    let mut j = w.len();
    while j > 0 && w[j - 1] != 0x2f
        invariant
            j <= w@.len(),
            basename_start(w@, w@.len() as int) == basename_start(w@, j as int),
        decreases j,
    {
        j = j - 1;
    }
    let mut name: Vec<u8> = Vec::new();
    let mut k = j;
    while k < w.len()
        invariant
            j <= k <= w@.len(),
            name@ == w@.subrange(j as int, k as int),
        decreases w@.len() - k,
    {
        name.push(w[k]);
        assert(name@ =~= w@.subrange(j as int, k + 1));
        k = k + 1;
    }
    let mark_word: Vec<u8> = vec![0x6du8, 0x61, 0x72, 0x6b];
    assert(mark_word@ =~= seq![0x6du8, 0x61, 0x72, 0x6b]);
    bytes_equal(name.as_slice(), mark_word.as_slice())
}

fn is_self_pager_command_exec(ws: &Vec<Vec<u8>>, Ghost(spec_ws): Ghost<Seq<Seq<u8>>>) -> (r: bool)
    requires
        ws@.len() == spec_ws.len(),
        forall|k: int| 0 <= k < ws@.len() ==> #[trigger] ws@[k]@ == spec_ws[k],
    ensures
        r == is_self_pager_command(spec_ws),
{
    let mut k: usize = 0;
    while k < ws.len() && (is_assignment_exec(ws[k].as_slice()) || is_runner_exec(
        ws[k].as_slice(),
    ))
        invariant
            k <= ws@.len(),
            ws@.len() == spec_ws.len(),
            forall|m: int| 0 <= m < ws@.len() ==> #[trigger] ws@[m]@ == spec_ws[m],
            program_index(spec_ws, 0) == program_index(spec_ws, k as int),
        decreases ws@.len() - k,
    {
        k = k + 1;
    }
    if k >= ws.len() || ws.len() - k < 2 {
        return false;
    }
    let pager_word: Vec<u8> = vec![0x70u8, 0x61, 0x67, 0x65, 0x72];
    let page_word: Vec<u8> = vec![0x70u8, 0x61, 0x67, 0x65];
    assert(pager_word@ =~= seq![0x70u8, 0x61, 0x67, 0x65, 0x72]);
    assert(page_word@ =~= seq![0x70u8, 0x61, 0x67, 0x65]);
    basename_is_mark(ws[k].as_slice()) && (bytes_equal(ws[k + 1].as_slice(), pager_word.as_slice())
        || bytes_equal(ws[k + 1].as_slice(), page_word.as_slice()))
}

/// Chooses the command that pages plain text. A configured command is used
/// as given unless it is blank or runs this tool's own pager (which would
/// recurse); then `DEFAULT_TEXT_PAGER` is used.
pub fn resolve_text_pager_command(command: Option<&str>) -> (r: String)
    ensures
        text_pager_choice(
            match command {
                Some(c) => Some(c.spec_bytes()),
                None => None,
            },
        ) is Some ==> r@ == command->0@,
        text_pager_choice(
            match command {
                Some(c) => Some(c.spec_bytes()),
                None => None,
            },
        ) is None ==> r@ == DEFAULT_TEXT_PAGER@,
{
    match command {
        Some(c) => {
            let bytes = c.as_bytes();
            let ws = split_words(bytes);
            if ws.len() > 0 && !is_self_pager_command_exec(&ws, Ghost(words(bytes@))) {
                c.to_owned()
            } else {
                DEFAULT_TEXT_PAGER.to_owned()
            }
        },
        None => DEFAULT_TEXT_PAGER.to_owned(),
    }
}

/// Plain text is never handed to a command that runs this tool's own pager
/// again, whatever is configured: a configured command is used only when it
/// is not one, and the default `less -R` is not one either.
pub proof fn law_plain_text_pager_never_recurses(command: Option<Seq<u8>>)
    ensures
        text_pager_choice(command) matches Some(b) ==> words(b).len() > 0 && !is_self_pager_command(words(b)),
        !is_self_pager_command(words(DEFAULT_TEXT_PAGER.spec_bytes())),
{
    reveal_strlit("less -R");
    vstd::string::is_ascii_spec_bytes(DEFAULT_TEXT_PAGER);
    assert(DEFAULT_TEXT_PAGER.spec_bytes() =~= seq![0x6cu8, 0x65, 0x73, 0x73, 0x20, 0x2d, 0x52]);
    let b = seq![0x6cu8, 0x65, 0x73, 0x73, 0x20, 0x2d, 0x52];
    let less = seq![0x6cu8, 0x65, 0x73, 0x73];
    let flag = seq![0x2du8, 0x52];
    assert(words(b) =~= seq![less, flag]) by {
        reveal_with_fuel(words_from, 9);
        assert(seq![0x6cu8] =~= Seq::<u8>::empty().push(0x6cu8));
        assert(less =~= seq![0x6cu8].push(0x65).push(0x73).push(0x73));
        assert(flag =~= Seq::<u8>::empty().push(0x2du8).push(0x52));
    }
    assert(!is_assignment(less));
    assert(!is_runner(less));
    assert(program_index(seq![less, flag], 0) == 0);
    assert(basename(less) =~= less) by {
        reveal_with_fuel(basename_start, 5);
    }
    assert(less != seq![0x6du8, 0x61, 0x72, 0x6b]) by {
        assert(less[0] != 0x6du8);
    }
}

} // verus!

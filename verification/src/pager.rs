use vstd::prelude::*;
use crate::patch::{looks_like_patch_input, patch_input_has_prelude, patch_offset};

verus! {

/// How much pager input is inspected for a patch before non-diff text is
/// streamed to its destination.
pub const PAGER_CLASSIFICATION_LIMIT: usize = 131072;

/// The size of each read while pager input is classified.
pub const STREAM_BUFFER_SIZE: usize = 8192;

/// The parts of the environment that decide how the pager behaves. Variable
/// values are kept as raw bytes, as the operating system hands them over.
#[derive(Debug, Clone, PartialEq, Eq)]
pub struct PagerEnv {
    /// `TERM`.
    pub term: Option<Vec<u8>>,
    /// `LV`, which `lv -c` style hosts set.
    pub lv: Option<Vec<u8>>,
    /// `GIT_PAGER`.
    pub git_pager: Option<Vec<u8>>,
    /// Whether any variable name starts with `LAZYGIT`.
    pub has_lazygit_env: bool,
}

/// The bytes of `dumb`.
pub open spec fn dumb_spec() -> Seq<u8> {
    seq![0x64u8, 0x75, 0x6d, 0x62]
}

/// The bytes of `-c`.
pub open spec fn lv_color_spec() -> Seq<u8> {
    seq![0x2du8, 0x63]
}

/// The abstract content of the environment.
pub struct PagerEnvSpec {
    pub term: Option<Seq<u8>>,
    pub lv: Option<Seq<u8>>,
    pub has_git_pager: bool,
    pub has_lazygit_env: bool,
}

impl View for PagerEnv {
    type V = PagerEnvSpec;

    open spec fn view(&self) -> PagerEnvSpec {
        PagerEnvSpec {
            term: match self.term {
                Some(t) => Some(t@),
                None => None,
            },
            lv: match self.lv {
                Some(v) => Some(v@),
                None => None,
            },
            has_git_pager: self.git_pager is Some,
            has_lazygit_env: self.has_lazygit_env,
        }
    }
}

/// `TERM` is `dumb`.
pub open spec fn term_is_dumb_spec(env: PagerEnvSpec) -> bool {
    env.term == Some(dumb_spec())
}

/// The pager runs inside a host (such as lazygit or a `lv -c` setup) that
/// captures its output on a dumb terminal.
pub open spec fn is_captured_pager_host_spec(env: PagerEnvSpec) -> bool {
    term_is_dumb_spec(env) && (env.lv == Some(lv_color_spec()) || env.has_git_pager
        || env.has_lazygit_env)
}

fn bytes_are(b: &Vec<u8>, pat: &Vec<u8>) -> (r: bool)
    ensures
        r == (b@ == pat@),
{
    if b.len() != pat.len() {
        return false;
    }
    let mut k: usize = 0;
    while k < b.len()
        invariant
            b@.len() == pat@.len(),
            k <= b@.len(),
            forall|m: int| 0 <= m < k ==> b@[m] == pat@[m],
        decreases b@.len() - k,
    {
        if b[k] != pat[k] {
            return false;
        }
        k = k + 1;
    }
    assert(b@ =~= pat@);
    true
}

impl PagerEnv {
    /// True when `TERM` is `dumb`.
    pub fn term_is_dumb(&self) -> (r: bool)
        ensures
            r == term_is_dumb_spec(self@),
    {
        let dumb: Vec<u8> = vec![0x64u8, 0x75, 0x6d, 0x62];
        assert(dumb@ =~= dumb_spec());
        match &self.term {
            Some(t) => bytes_are(t, &dumb),
            None => false,
        }
    }

    /// True when a host captures the pager's output on a dumb terminal:
    /// `TERM=dumb` together with `LV=-c`, a set `GIT_PAGER`, or a lazygit
    /// environment.
    pub fn is_captured_pager_host(&self) -> (r: bool)
        ensures
            r == is_captured_pager_host_spec(self@),
    {
        let lv_color: Vec<u8> = vec![0x2du8, 0x63];
        assert(lv_color@ =~= lv_color_spec());
        let lv_matches = match &self.lv {
            Some(v) => bytes_are(v, &lv_color),
            None => false,
        };
        self.term_is_dumb() && (lv_matches || self.git_pager.is_some() || self.has_lazygit_env)
    }
}

/// What the pager does with input it has read completely.
#[derive(Debug, Clone, Copy, PartialEq, Eq)]
pub enum PagerAction {
    Passthrough,
    PlainTextPager,
    StaticDiff,
    InteractiveDiff,
}

/// What the pager does with input that it streams without reading it all.
#[derive(Debug, Clone, Copy, PartialEq, Eq)]
pub enum StreamingPagerAction {
    Passthrough,
    PlainTextPager,
}

/// The outcome of classifying pager input.
#[derive(Debug, PartialEq, Eq)]
pub enum PagerInput {
    /// All input was read; `action` says what to do with it.
    Buffered { input: Vec<u8>, action: PagerAction },
    /// Only `prefix` was read; it and the rest of the input are streamed.
    Streaming { prefix: Vec<u8>, action: StreamingPagerAction },
}

/// The streaming decision that holds before any input is read.
pub open spec fn input_independent_streaming_action_spec(
    stdout_tty: bool,
    env: PagerEnvSpec,
) -> Option<StreamingPagerAction> {
    if !is_captured_pager_host_spec(env) && (!stdout_tty || term_is_dumb_spec(env)) {
        Some(StreamingPagerAction::Passthrough)
    } else {
        None
    }
}

/// Where non-diff text goes.
pub open spec fn non_diff_streaming_action_spec(
    stdout_tty: bool,
    env: PagerEnvSpec,
) -> StreamingPagerAction {
    if term_is_dumb_spec(env) || !stdout_tty {
        StreamingPagerAction::Passthrough
    } else {
        StreamingPagerAction::PlainTextPager
    }
}

/// The same decision for buffered input.
pub open spec fn non_diff_pager_action_spec(stdout_tty: bool, env: PagerEnvSpec) -> PagerAction {
    match non_diff_streaming_action_spec(stdout_tty, env) {
        StreamingPagerAction::Passthrough => PagerAction::Passthrough,
        StreamingPagerAction::PlainTextPager => PagerAction::PlainTextPager,
    }
}

/// What the pager does with complete input.
pub open spec fn pager_action_spec(
    input: Seq<u8>,
    stdout_tty: bool,
    env: PagerEnvSpec,
    has_controlling_terminal: bool,
) -> PagerAction {
    if input.len() == 0 {
        PagerAction::Passthrough
    } else if patch_offset(input) is None {
        non_diff_pager_action_spec(stdout_tty, env)
    } else if is_captured_pager_host_spec(env) {
        PagerAction::StaticDiff
    } else if !stdout_tty || term_is_dumb_spec(env) {
        PagerAction::Passthrough
    } else if patch_offset(input) matches Some(k) && k > 0 {
        PagerAction::StaticDiff
    } else if !has_controlling_terminal {
        PagerAction::StaticDiff
    } else {
        PagerAction::InteractiveDiff
    }
}

/// Passes input straight through, without looking at it, when stdout is not
/// a terminal (or is a dumb one) and no capturing host is involved.
pub fn input_independent_streaming_action(stdout_tty: bool, env: &PagerEnv) -> (r: Option<
    StreamingPagerAction,
>)
    ensures
        r == input_independent_streaming_action_spec(stdout_tty, env@),
{
    if !env.is_captured_pager_host() && (!stdout_tty || env.term_is_dumb()) {
        Some(StreamingPagerAction::Passthrough)
    } else {
        None
    }
}

/// Non-diff text is paged on a real terminal and passed through otherwise.
pub fn non_diff_streaming_action(stdout_tty: bool, env: &PagerEnv) -> (r: StreamingPagerAction)
    ensures
        r == non_diff_streaming_action_spec(stdout_tty, env@),
{
    if env.term_is_dumb() || !stdout_tty {
        StreamingPagerAction::Passthrough
    } else {
        StreamingPagerAction::PlainTextPager
    }
}

/// `non_diff_streaming_action` for buffered input.
pub fn non_diff_pager_action(stdout_tty: bool, env: &PagerEnv) -> (r: PagerAction)
    ensures
        r == non_diff_pager_action_spec(stdout_tty, env@),
{
    match non_diff_streaming_action(stdout_tty, env) {
        StreamingPagerAction::Passthrough => PagerAction::Passthrough,
        StreamingPagerAction::PlainTextPager => PagerAction::PlainTextPager,
    }
}

/// Routes complete pager input: empty input passes through; non-diff text
/// is paged or passed through; a patch is rendered statically for capturing
/// hosts, passed through when stdout is not a usable terminal, rendered
/// statically when text precedes it (as with `git show`) or no controlling
/// terminal is available, and opened in the interactive viewer otherwise.
pub fn pager_action(
    input: &[u8],
    stdout_tty: bool,
    env: &PagerEnv,
    has_controlling_terminal: bool,
) -> (r: PagerAction)
    ensures
        r == pager_action_spec(input@, stdout_tty, env@, has_controlling_terminal),
{
    if input.len() == 0 {
        return PagerAction::Passthrough;
    }
    if !looks_like_patch_input(input) {
        return non_diff_pager_action(stdout_tty, env);
    }
    if env.is_captured_pager_host() {
        return PagerAction::StaticDiff;
    }
    if !stdout_tty || env.term_is_dumb() {
        return PagerAction::Passthrough;
    }
    if patch_input_has_prelude(input) {
        return PagerAction::StaticDiff;
    }
    if !has_controlling_terminal {
        return PagerAction::StaticDiff;
    }
    PagerAction::InteractiveDiff
}

/// Static diff output is colored when stdout is a terminal or a capturing
/// host will show it, unless `NO_COLOR` is set.
pub fn static_pager_color_enabled(stdout_tty: bool, env: &PagerEnv, no_color: bool) -> (r: bool)
    ensures
        r == (!no_color && (stdout_tty || is_captured_pager_host_spec(env@))),
{
    !no_color && (stdout_tty || env.is_captured_pager_host())
}


/// What a reader of pager input does next.
#[derive(Debug, Clone, Copy, PartialEq, Eq)]
pub enum PagerReadStep {
    /// Read at most `limit` more bytes; a read of zero bytes means the end.
    Read { limit: usize },
    /// A patch was found: read everything that is left, then act on the
    /// whole input as `pager_action` decides.
    ReadToEnd,
    /// Stop reading; act on the buffered input.
    Buffered(PagerAction),
    /// Stop reading; stream the buffered prefix and the unread rest.
    Streaming(StreamingPagerAction),
}

/// The next step for a reader that has buffered `input`, where `at_eof` says
/// that the last read returned nothing.
pub open spec fn pager_read_step_spec(
    input: Seq<u8>,
    at_eof: bool,
    stdout_tty: bool,
    env: PagerEnvSpec,
    has_controlling_terminal: bool,
) -> PagerReadStep {
    match input_independent_streaming_action_spec(stdout_tty, env) {
        Some(action) => PagerReadStep::Streaming(action),
        None => if patch_offset(input) is Some {
            PagerReadStep::ReadToEnd
        } else if input.len() >= PAGER_CLASSIFICATION_LIMIT {
            PagerReadStep::Streaming(non_diff_streaming_action_spec(stdout_tty, env))
        } else if at_eof {
            PagerReadStep::Buffered(
                pager_action_spec(input, stdout_tty, env, has_controlling_terminal),
            )
        } else {
            PagerReadStep::Read {
                limit: if PAGER_CLASSIFICATION_LIMIT - input.len() < STREAM_BUFFER_SIZE {
                    (PAGER_CLASSIFICATION_LIMIT - input.len()) as usize
                } else {
                    STREAM_BUFFER_SIZE
                },
            }
        },
    }
}

/// Decides the next step of reading pager input. Git does not tell the
/// pager which command produced its input, so input is buffered in chunks
/// until a patch shows up (then everything is read), the input ends, or a
/// bounded prefix holds no patch (then the rest is streamed, so that long
/// non-diff output can be quit early).
pub fn pager_read_step(
    input: &[u8],
    at_eof: bool,
    stdout_tty: bool,
    env: &PagerEnv,
    has_controlling_terminal: bool,
) -> (r: PagerReadStep)
    ensures
        r == pager_read_step_spec(input@, at_eof, stdout_tty, env@, has_controlling_terminal),
{
    if let Some(action) = input_independent_streaming_action(stdout_tty, env) {
        return PagerReadStep::Streaming(action);
    }
    if looks_like_patch_input(input) {
        return PagerReadStep::ReadToEnd;
    }
    if input.len() >= PAGER_CLASSIFICATION_LIMIT {
        return PagerReadStep::Streaming(non_diff_streaming_action(stdout_tty, env));
    }
    if at_eof {
        return PagerReadStep::Buffered(pager_action(input, stdout_tty, env, has_controlling_terminal));
    }
    let remaining = PAGER_CLASSIFICATION_LIMIT - input.len();
    PagerReadStep::Read {
        limit: if remaining < STREAM_BUFFER_SIZE {
            remaining
        } else {
            STREAM_BUFFER_SIZE
        },
    }
}

/// The length buffered after the read that follows a buffer of `len` bytes
/// of `n` available.
pub open spec fn next_checkpoint(len: int, n: int) -> int {
    let step = if PAGER_CLASSIFICATION_LIMIT - len < STREAM_BUFFER_SIZE {
        PAGER_CLASSIFICATION_LIMIT - len
    } else {
        STREAM_BUFFER_SIZE as int
    };
    if len + step < n {
        len + step
    } else {
        n
    }
}

/// True when a patch shows up in one of the prefixes of `source` that the
/// reader inspects, from the prefix of length `len` on.
pub open spec fn patch_found_from(source: Seq<u8>, len: int) -> bool
    decreases PAGER_CLASSIFICATION_LIMIT - len,
{
    if len < 0 || len > source.len() {
        false
    } else if patch_offset(source.subrange(0, len)) is Some {
        true
    } else if len < PAGER_CLASSIFICATION_LIMIT && len < source.len() && len < next_checkpoint(
        len,
        source.len() as int,
    ) {
        patch_found_from(source, next_checkpoint(len, source.len() as int))
    } else {
        false
    }
}

/// How the reader classifies the complete input `source`.
pub open spec fn pager_input_spec(
    source: Seq<u8>,
    stdout_tty: bool,
    env: PagerEnvSpec,
    has_controlling_terminal: bool,
) -> (PagerInputKind, int) {
    match input_independent_streaming_action_spec(stdout_tty, env) {
        Some(action) => (PagerInputKind::Streaming(action), 0),
        None => if !patch_found_from(source, 0) && source.len() >= PAGER_CLASSIFICATION_LIMIT {
            (
                PagerInputKind::Streaming(non_diff_streaming_action_spec(stdout_tty, env)),
                PAGER_CLASSIFICATION_LIMIT as int,
            )
        } else {
            (
                PagerInputKind::Buffered(
                    pager_action_spec(source, stdout_tty, env, has_controlling_terminal),
                ),
                source.len() as int,
            )
        },
    }
}

/// The kind of a `PagerInput` and its action, without the bytes.
pub enum PagerInputKind {
    Buffered(PagerAction),
    Streaming(StreamingPagerAction),
}

fn copy_prefix(source: &[u8], input: &mut Vec<u8>, end: usize)
    requires
        old(input)@.len() <= end <= source@.len(),
        old(input)@ == source@.subrange(0, old(input)@.len() as int),
    ensures
        final(input)@ == source@.subrange(0, end as int),
{
    let mut k = input.len();
    while k < end
        invariant
            k <= end <= source@.len(),
            input@ == source@.subrange(0, k as int),
        decreases end - k,
    {
        input.push(source[k]);
        assert(input@ =~= source@.subrange(0, k + 1));
        k = k + 1;
    }
}

/// Classifies pager input held in memory, reading it the way the pager
/// reads its standard input (see `pager_read_step`). Returns the result and
/// how many bytes of `source` were consumed. Buffered input is the whole of
/// `source`; a streamed prefix is what was read before streaming began.
pub fn read_pager_input(
    source: &[u8],
    stdout_tty: bool,
    env: &PagerEnv,
    has_controlling_terminal: bool,
) -> (r: (PagerInput, usize))
    ensures
        ({
            let (kind, consumed) = pager_input_spec(
                source@,
                stdout_tty,
                env@,
                has_controlling_terminal,
            );
            &&& r.1 == consumed
            &&& match r.0 {
                PagerInput::Buffered { input, action } => kind == PagerInputKind::Buffered(action)
                    && input@ == source@,
                PagerInput::Streaming { prefix, action } => kind == PagerInputKind::Streaming(
                    action,
                ) && prefix@ == source@.subrange(0, consumed),
            }
        }),
{
    if let Some(action) = input_independent_streaming_action(stdout_tty, env) {
        let prefix: Vec<u8> = Vec::new();
        assert(prefix@ =~= source@.subrange(0, 0));
        return (PagerInput::Streaming { prefix, action }, 0);
    }
    let n = source.len();
    let mut input: Vec<u8> = Vec::new();
    assert(input@ =~= source@.subrange(0, 0));
    loop
        invariant
            n == source@.len(),
            input@.len() <= n,
            input@.len() <= PAGER_CLASSIFICATION_LIMIT,
            input@ == source@.subrange(0, input@.len() as int),
            input_independent_streaming_action_spec(stdout_tty, env@) is None,
            patch_found_from(source@, 0) == patch_found_from(source@, input@.len() as int),
        decreases PAGER_CLASSIFICATION_LIMIT - input@.len(),
    {
        if looks_like_patch_input(input.as_slice()) {
            copy_prefix(source, &mut input, n);
            assert(source@.subrange(0, n as int) =~= source@);
            let action = pager_action(input.as_slice(), stdout_tty, env, has_controlling_terminal);
            return (PagerInput::Buffered { input, action }, n);
        }
        if input.len() >= PAGER_CLASSIFICATION_LIMIT {
            let action = non_diff_streaming_action(stdout_tty, env);
            return (PagerInput::Streaming { prefix: input, action }, PAGER_CLASSIFICATION_LIMIT);
        }
        if input.len() == n {
            assert(source@.subrange(0, n as int) =~= source@);
            let action = pager_action(input.as_slice(), stdout_tty, env, has_controlling_terminal);
            return (PagerInput::Buffered { input, action }, n);
        }
        let remaining = PAGER_CLASSIFICATION_LIMIT - input.len();
        let step = if remaining < STREAM_BUFFER_SIZE {
            remaining
        } else {
            STREAM_BUFFER_SIZE
        };
        let next = if n - input.len() > step {
            input.len() + step
        } else {
            n
        };
        copy_prefix(source, &mut input, next);
    }
}

} // verus!

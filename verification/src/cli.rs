use vstd::prelude::*;
use crate::error::DxError;
use crate::strings::{str_eq, owned, concat, str_chars};

verus! {

broadcast use vstd::string::group_string_axioms;

/// The options of a diff review given on the command line.
pub struct DiffArgs {
    /// Up to two positional revisions.
    pub revs: Vec<String>,
    /// A pull request to review.
    pub pr: Option<String>,
    /// The repository to run in.
    pub repo: Option<String>,
    /// The revision to diff the worktree against.
    pub base: Option<String>,
    pub staged: bool,
    pub unstaged: bool,
    pub no_untracked: bool,
    /// A patch file to review, `-` for standard input.
    pub patch: Option<String>,
    pub no_watch: bool,
    pub no_syntax: bool,
    pub stat: bool,
}

impl DiffArgs {
    /// No option given.
    pub open spec fn is_empty_spec(&self) -> bool {
        &&& self.revs@.len() == 0
        &&& self.pr is None
        &&& self.repo is None
        &&& self.base is None
        &&& !self.staged
        &&& !self.unstaged
        &&& !self.no_untracked
        &&& self.patch is None
        &&& !self.no_watch
        &&& !self.no_syntax
        &&& !self.stat
    }
}

impl Default for DiffArgs {
    fn default() -> (r: Self)
        ensures
            r.is_empty_spec(),
    {
        DiffArgs {
            revs: Vec::new(),
            pr: None,
            repo: None,
            base: None,
            staged: false,
            unstaged: false,
            no_untracked: false,
            patch: None,
            no_watch: false,
            no_syntax: false,
            stat: false,
        }
    }
}

/// The prefix of an error line; coloured red when `color` holds.
pub fn styled_error_prefix(color: bool) -> (r: &'static str)
    ensures
        r@ == (if color { "\x1b[31mdx:\x1b[0m"@ } else { "dx:"@ }),
{
    if color {
        "\x1b[31mdx:\x1b[0m"
    } else {
        "dx:"
    }
}

/// True when any diff option was given.
pub fn has_diff_args(args: &DiffArgs) -> (r: bool)
    ensures
        r == !args.is_empty_spec(),
{
    args.revs.len() != 0 || args.pr.is_some() || args.repo.is_some() || args.base.is_some()
        || args.staged || args.unstaged || args.no_untracked || args.patch.is_some()
        || args.no_watch || args.no_syntax || args.stat
}

/// The message given when diff options come before a subcommand.
pub const PRE_SUBCOMMAND_MESSAGE: &'static str =
    "top-level diff options cannot be used before a subcommand; move supported options after the subcommand";

/// Diff options belong after the subcommand: with a subcommand present, any
/// top-level diff option is a usage error.
pub fn reject_pre_subcommand_diff_args(has_command: bool, diff: &DiffArgs) -> (r: Result<(), DxError>)
    ensures
        r is Ok <==> !(has_command && !diff.is_empty_spec()),
        r matches Err(e) ==> e.is_usage_with(PRE_SUBCOMMAND_MESSAGE@),
{
    if has_command && has_diff_args(diff) {
        return Err(DxError::Usage(owned(PRE_SUBCOMMAND_MESSAGE)));
    }
    Ok(())
}

/// What `git rev-parse` found of a revision.
#[derive(PartialEq, Eq, Structural, Clone, Copy, Debug)]
pub enum RevisionStatus {
    Exists,
    Missing,
    Unknown,
}

/// The kind of object a revision must name.
#[derive(PartialEq, Eq, Structural, Clone, Copy, Debug)]
pub enum RevisionKind {
    Commit,
    Tree,
}

impl RevisionKind {
    /// The object type a revision is peeled to.
    pub open spec fn peel_spec(self) -> Seq<char> {
        match self {
            RevisionKind::Commit => "commit"@,
            RevisionKind::Tree => "tree"@,
        }
    }

    /// The object type a revision is peeled to, as `git rev-parse` names it.
    pub fn peel(self) -> (r: &'static str)
        ensures
            r@ == self.peel_spec(),
    {
        match self {
            RevisionKind::Commit => "commit",
            RevisionKind::Tree => "tree",
        }
    }
}

/// The argument handed to `git rev-parse --verify`: `rev^{kind}`.
pub fn revision_peel_argument(rev: &str, kind: RevisionKind) -> (r: String)
    ensures
        r@ == rev@ + "^{"@ + kind.peel_spec() + "}"@,
{
    let s = concat(owned(rev), "^{");
    let s = concat(s, kind.peel());
    concat(s, "}")
}

/// The words that a mistyped subcommand most often is.
pub open spec fn is_command_word(v: Seq<char>) -> bool {
    ||| v == "ls"@
    ||| v == "list"@
    ||| v == "pwd"@
    ||| v == "cd"@
    ||| v == "rm"@
    ||| v == "remove"@
    ||| v == "new"@
    ||| v == "fork"@
    ||| v == "status"@
}

/// True when `value` reads like a command rather than a revision.
pub fn looks_like_command(value: &str) -> (r: bool)
    ensures
        r == is_command_word(value@),
{
    str_eq(value, "ls") || str_eq(value, "list") || str_eq(value, "pwd") || str_eq(value, "cd")
        || str_eq(value, "rm") || str_eq(value, "remove") || str_eq(value, "new")
        || str_eq(value, "fork") || str_eq(value, "status")
}

/// The first positional argument is to be checked as a revision of this kind
/// (`None`: no check is made).
pub open spec fn revision_preflight_spec(args: DiffArgs) -> Option<RevisionKind> {
    if args.base is Some || args.pr is Some || args.patch is Some || args.revs@.len() == 0
        || (args.revs@[0]@.len() > 0 && args.revs@[0]@[0] == '-') {
        None
    } else if args.revs@.len() == 1 {
        Some(RevisionKind::Commit)
    } else {
        Some(RevisionKind::Tree)
    }
}

/// Whether the first positional argument must be looked up before the diff
/// runs, and as which kind of object: a lone revision names a commit, the
/// left side of a range a tree.
pub fn revision_preflight(args: &DiffArgs) -> (r: Option<RevisionKind>)
    ensures
        r == revision_preflight_spec(*args),
{
    if args.base.is_some() || args.pr.is_some() || args.patch.is_some() || args.revs.len() == 0 {
        return None;
    }
    let first = str_chars(args.revs[0].as_str());
    let starts_with_dash = first.len() > 0 && first[0] == '-';
    if starts_with_dash {
        None
    } else if args.revs.len() == 1 {
        Some(RevisionKind::Commit)
    } else {
        Some(RevisionKind::Tree)
    }
}

/// A positional argument is refused as an unknown command or revision when
/// git says it does not exist, or when git cannot tell and it reads like a
/// command.
pub open spec fn rejects_revision_spec(rev: Seq<char>, status: RevisionStatus) -> bool {
    match status {
        RevisionStatus::Exists => false,
        RevisionStatus::Missing => true,
        RevisionStatus::Unknown => is_command_word(rev),
    }
}

/// True when the first positional argument, looked up with `status`, is
/// refused.
pub fn rejects_revision(rev: &str, status: RevisionStatus) -> (r: bool)
    ensures
        r == rejects_revision_spec(rev@, status),
{
    match status {
        RevisionStatus::Exists => false,
        RevisionStatus::Missing => true,
        RevisionStatus::Unknown => looks_like_command(rev),
    }
}

/// The message of the error for a refused positional argument.
pub fn unknown_command_or_revision_message(rev: &str) -> (r: String)
    ensures
        r@ == "unrecognized subcommand or revision '"@ + rev@ + "'"@,
{
    let s = concat(owned("unrecognized subcommand or revision '"), rev);
    concat(s, "'")
}

/// The flags of `dx syntax available`.
pub struct SyntaxAvailableArgs {
    pub installed: bool,
    pub enabled: bool,
}

/// Which languages `dx syntax available` lists.
#[derive(PartialEq, Eq, Structural, Clone, Copy, Debug)]
pub enum SyntaxAvailableFilter {
    Installed,
    Enabled,
    All,
}

/// `--installed` wins over `--enabled`; with neither, all languages.
pub fn syntax_available_filter(args: &SyntaxAvailableArgs) -> (r: SyntaxAvailableFilter)
    ensures
        r == (if args.installed {
            SyntaxAvailableFilter::Installed
        } else if args.enabled {
            SyntaxAvailableFilter::Enabled
        } else {
            SyntaxAvailableFilter::All
        }),
{
    if args.installed {
        SyntaxAvailableFilter::Installed
    } else if args.enabled {
        SyntaxAvailableFilter::Enabled
    } else {
        SyntaxAvailableFilter::All
    }
}

/// Which changes of the worktree a diff shows.
#[derive(PartialEq, Eq, Structural, Clone, Copy, Debug)]
pub enum DiffScope {
    All,
    Staged,
    Unstaged,
}

/// Where a reviewed patch comes from: a file, or standard input (which the
/// caller reads).
pub enum PatchSource {
    File(String),
    Stdin,
}

/// What a diff compares.
pub enum DiffSource {
    /// The worktree against the index and `HEAD`.
    Worktree,
    /// The worktree against a revision.
    Base(String),
    /// One revision against another.
    Range { left: String, right: String },
    /// A patch given as text.
    Patch(PatchSource),
}

/// A local diff to review.
pub struct DiffOptions {
    pub repo: Option<String>,
    pub source: DiffSource,
    pub scope: DiffScope,
    pub include_untracked: bool,
    pub stat: bool,
}

/// What the diff options ask for: a local diff, or the diff of a pull
/// request, which the caller fetches.
pub enum DiffPlan {
    Local(DiffOptions),
    PullRequest { repo: Option<String>, target: String, stat: bool },
}

/// True when the characters after the leading `-` of a path add no path
/// component: they are `/` separators and `.` components only, as in `-/`
/// or `-/./`.
pub open spec fn only_separators_and_dots(t: Seq<char>) -> bool {
    forall|i: int|
        0 <= i < t.len() ==> (#[trigger] t[i] == '/' || (t[i] == '.' && i > 0 && t[i - 1] == '/' && (i + 1
            == t.len() || t[i + 1] == '/')))
}

/// A patch path names standard input when it is the path `-`: `-` itself,
/// or `-` followed only by separators and `.` components, which name the
/// same path.
pub open spec fn is_stdin_path(p: Seq<char>) -> bool {
    p.len() >= 1 && p[0] == '-' && only_separators_and_dots(p.subrange(1, p.len() as int))
}

/// A patch path that is the path `-` reads standard input.
pub open spec fn patch_source_spec(path: String) -> DiffSource {
    if is_stdin_path(path@) {
        DiffSource::Patch(PatchSource::Stdin)
    } else {
        DiffSource::Patch(PatchSource::File(path))
    }
}

/// True when `path` is the path `-`.
pub fn is_stdin_patch_path(path: &str) -> (r: bool)
    ensures
        r == is_stdin_path(path@),
{
    let c = str_chars(path);
    if c.len() == 0 || c[0] != '-' {
        return false;
    }
    let ghost t = c@.subrange(1, c@.len() as int);
    let mut i: usize = 1;
    while i < c.len()
        invariant
            1 <= i <= c@.len(),
            c@ == path@,
            t == c@.subrange(1, c@.len() as int),
            forall|k: int| 0 <= k < i - 1 ==> (#[trigger] t[k] == '/' || (t[k] == '.' && k > 0 && t[k - 1] == '/'
                && (k + 1 == t.len() || t[k + 1] == '/'))),
        decreases c@.len() - i,
    {
        let ch = c[i];
        let ok = ch == '/' || (ch == '.' && i > 1 && c[i - 1] == '/' && (i + 1 == c.len() || c[i + 1] == '/'));
        if !ok {
            assert(!(t[i - 1] == '/' || (t[i - 1] == '.' && i - 1 > 0 && t[i - 2] == '/' && (i == t.len() || t[i as int] == '/'))));
            return false;
        }
        i = i + 1;
    }
    true
}

/// The diff source of a patch path.
pub fn patch_source(path: String) -> (r: DiffSource)
    ensures
        r == patch_source_spec(path),
{
    if is_stdin_patch_path(path.as_str()) {
        DiffSource::Patch(PatchSource::Stdin)
    } else {
        DiffSource::Patch(PatchSource::File(path))
    }
}

/// The outcome of the diff options: the plan, or the message of the usage
/// error.
pub open spec fn pr_plan_spec(args: DiffArgs, target: String) -> Result<DiffPlan, Seq<char>> {
    if args.base is Some || args.revs@.len() > 0 {
        Err("use --pr without revisions or --base"@)
    } else if args.staged || args.unstaged || args.no_untracked {
        Err("--staged, --unstaged, and --no-untracked do not apply to dx --pr"@)
    } else if args.patch is Some {
        Err("--patch does not apply to dx --pr"@)
    } else {
        Ok(DiffPlan::PullRequest { repo: args.repo, target: target, stat: args.stat })
    }
}

/// The scope that the flags select; `--staged` wins over `--unstaged`.
pub open spec fn scope_spec(args: DiffArgs) -> DiffScope {
    if args.staged {
        DiffScope::Staged
    } else if args.unstaged {
        DiffScope::Unstaged
    } else {
        DiffScope::All
    }
}

/// The outcome of the diff options of a local diff.
pub open spec fn diff_plan_spec(args: DiffArgs) -> Result<DiffPlan, Seq<char>> {
    if args.pr is Some {
        pr_plan_spec(args, args.pr->0)
    } else if args.patch is Some {
        if args.base is Some || args.revs@.len() > 0 {
            Err("use --patch without revisions or --base"@)
        } else if args.staged || args.unstaged || args.no_untracked {
            Err("--staged, --unstaged, and --no-untracked do not apply to --patch"@)
        } else {
            Ok(DiffPlan::Local(DiffOptions {
                repo: args.repo,
                source: patch_source_spec(args.patch->0),
                scope: DiffScope::All,
                include_untracked: false,
                stat: args.stat,
            }))
        }
    } else if args.base is Some && args.revs@.len() > 0 {
        Err("use either --base or positional revisions, not both"@)
    } else if args.base is None && args.revs@.len() > 2 {
        Err("dx accepts at most two revisions"@)
    } else {
        let source = if args.base is Some {
            DiffSource::Base(args.base->0)
        } else if args.revs@.len() == 0 {
            DiffSource::Worktree
        } else if args.revs@.len() == 1 {
            DiffSource::Base(args.revs@[0])
        } else {
            DiffSource::Range { left: args.revs@[0], right: args.revs@[1] }
        };
        Ok(DiffPlan::Local(DiffOptions {
            repo: args.repo,
            source: source,
            scope: scope_spec(args),
            include_untracked: !args.no_untracked,
            stat: args.stat,
        }))
    }
}

/// `r` is the outcome `spec`: the same plan, or a usage error with its
/// message.
pub open spec fn plan_matches(r: Result<DiffPlan, DxError>, spec: Result<DiffPlan, Seq<char>>) -> bool {
    match (r, spec) {
        (Ok(p), Ok(q)) => p == q,
        (Err(e), Err(m)) => e.is_usage_with(m),
        _ => false,
    }
}

/// The usage error with message `m`.
fn usage(m: &str) -> (r: DxError)
    ensures
        r.is_usage_with(m@),
{
    DxError::Usage(owned(m))
}

/// The plan for a pull request review; no revision, scope or patch option
/// applies to it.
pub fn pr_diff_options(args: DiffArgs, target: String) -> (r: Result<DiffPlan, DxError>)
    ensures
        plan_matches(r, pr_plan_spec(args, target)),
{
    if args.base.is_some() || args.revs.len() != 0 {
        return Err(usage("use --pr without revisions or --base"));
    }
    if args.staged || args.unstaged || args.no_untracked {
        return Err(usage("--staged, --unstaged, and --no-untracked do not apply to dx --pr"));
    }
    if args.patch.is_some() {
        return Err(usage("--patch does not apply to dx --pr"));
    }
    Ok(DiffPlan::PullRequest { repo: args.repo, target: target, stat: args.stat })
}

/// Turns the diff options into a plan, refusing the combinations that make
/// no sense with a usage error.
pub fn diff_options(args: DiffArgs) -> (r: Result<DiffPlan, DxError>)
    ensures
        plan_matches(r, diff_plan_spec(args)),
{
    let ghost a = args;
    let mut args = args;
    if args.pr.is_some() {
        let target = args.pr.take().unwrap();
        proof {
            assert(args.revs == a.revs && args.base == a.base && args.patch == a.patch);
        }
        let r = pr_diff_options(args, target);
        return r;
    }
    if args.patch.is_some() {
        if args.base.is_some() || args.revs.len() != 0 {
            return Err(usage("use --patch without revisions or --base"));
        }
        if args.staged || args.unstaged || args.no_untracked {
            return Err(usage("--staged, --unstaged, and --no-untracked do not apply to --patch"));
        }
        let path = args.patch.take().unwrap();
        return Ok(DiffPlan::Local(DiffOptions {
            repo: args.repo,
            source: patch_source(path),
            scope: DiffScope::All,
            include_untracked: false,
            stat: args.stat,
        }));
    }
    let source = if args.base.is_some() {
        if args.revs.len() != 0 {
            return Err(usage("use either --base or positional revisions, not both"));
        }
        DiffSource::Base(args.base.take().unwrap())
    } else if args.revs.len() == 0 {
        DiffSource::Worktree
    } else if args.revs.len() == 1 {
        DiffSource::Base(args.revs.remove(0))
    } else if args.revs.len() == 2 {
        let right = args.revs.remove(1);
        let left = args.revs.remove(0);
        DiffSource::Range { left: left, right: right }
    } else {
        return Err(usage("dx accepts at most two revisions"));
    };
    let scope = if args.staged {
        DiffScope::Staged
    } else if args.unstaged {
        DiffScope::Unstaged
    } else {
        DiffScope::All
    };
    Ok(DiffPlan::Local(DiffOptions {
        repo: args.repo,
        source: source,
        scope: scope,
        include_untracked: !args.no_untracked,
        stat: args.stat,
    }))
}

} // verus!

use mark::cli::{
    diff_options, has_diff_args, looks_like_command, patch_source, pr_diff_options,
    reject_pre_subcommand_diff_args, rejects_revision, revision_peel_argument, revision_preflight,
    styled_error_prefix, syntax_available_filter, unknown_command_or_revision_message, DiffArgs,
    DiffPlan, DiffScope, DiffSource, PatchSource, RevisionKind, RevisionStatus,
    SyntaxAvailableArgs, SyntaxAvailableFilter, PRE_SUBCOMMAND_MESSAGE,
};
use mark::error::DxError;

fn usage_message(error: DxError) -> String {
    match error {
        DxError::Usage(message) => message,
        _ => panic!("expected a usage error"),
    }
}

fn args_with_revs(revs: &[&str]) -> DiffArgs {
    DiffArgs { revs: revs.iter().map(|r| (*r).to_owned()).collect(), ..DiffArgs::default() }
}

#[test]
fn rejects_top_level_diff_options_before_source_subcommands() {
    let stat = DiffArgs { stat: true, ..DiffArgs::default() };
    let error = reject_pre_subcommand_diff_args(true, &stat)
        .expect_err("top-level --stat should be rejected before show");
    assert!(usage_message(error).contains("top-level diff options cannot be used before a subcommand"));

    let repo = DiffArgs { repo: Some("/tmp/repo".to_owned()), ..DiffArgs::default() };
    let error = reject_pre_subcommand_diff_args(true, &repo)
        .expect_err("top-level --repo should be rejected before patch");
    assert!(usage_message(error).contains("top-level diff options cannot be used before a subcommand"));
}

#[test]
fn diff_options_without_subcommand_are_accepted() {
    let stat = DiffArgs { stat: true, ..DiffArgs::default() };
    assert!(reject_pre_subcommand_diff_args(false, &stat).is_ok());
    assert!(reject_pre_subcommand_diff_args(true, &DiffArgs::default()).is_ok());
    assert!(!has_diff_args(&DiffArgs::default()));
    assert!(has_diff_args(&DiffArgs { no_watch: true, ..DiffArgs::default() }));
    assert_eq!(
        PRE_SUBCOMMAND_MESSAGE,
        "top-level diff options cannot be used before a subcommand; move supported options after the subcommand"
    );
}

#[test]
fn unknown_single_top_level_target_renders_clap_style_error() {
    let args = DiffArgs {
        revs: vec!["ls".to_owned()],
        repo: Some("/definitely/not/a/repo".to_owned()),
        ..DiffArgs::default()
    };
    assert_eq!(revision_preflight(&args), Some(RevisionKind::Commit));
    assert!(rejects_revision("ls", RevisionStatus::Unknown));
    assert!(unknown_command_or_revision_message("ls")
        .contains("unrecognized subcommand or revision 'ls'"));
}

#[test]
fn non_command_target_without_repo_is_left_for_git_error() {
    let args = DiffArgs {
        revs: vec!["HEAD".to_owned()],
        repo: Some("/definitely/not/a/repo".to_owned()),
        ..DiffArgs::default()
    };
    assert_eq!(revision_preflight(&args), Some(RevisionKind::Commit));
    assert!(!rejects_revision("HEAD", RevisionStatus::Unknown));
}

#[test]
fn two_revision_preflight_accepts_treeish_left_operand() {
    let args = args_with_revs(&["HEAD^{tree}", "HEAD"]);
    assert_eq!(revision_preflight(&args), Some(RevisionKind::Tree));
    assert_eq!(revision_peel_argument("HEAD^{tree}", RevisionKind::Tree), "HEAD^{tree}^{tree}");
    assert!(!rejects_revision("HEAD^{tree}", RevisionStatus::Exists));
}

#[test]
fn single_revision_preflight_keeps_commitish_validation() {
    let args = args_with_revs(&["HEAD^{tree}"]);
    assert_eq!(revision_preflight(&args), Some(RevisionKind::Commit));
    assert_eq!(revision_peel_argument("HEAD^{tree}", RevisionKind::Commit), "HEAD^{tree}^{commit}");
    assert!(rejects_revision("HEAD^{tree}", RevisionStatus::Missing));
}

#[test]
fn preflight_is_skipped_for_options_and_flags() {
    assert_eq!(revision_preflight(&DiffArgs::default()), None);
    assert_eq!(revision_preflight(&args_with_revs(&["--cached"])), None);
    let with_base = DiffArgs { base: Some("main".to_owned()), ..args_with_revs(&["ls"]) };
    assert_eq!(revision_preflight(&with_base), None);
    assert_eq!(RevisionKind::Commit.peel(), "commit");
    assert_eq!(RevisionKind::Tree.peel(), "tree");
}

#[test]
fn command_words_are_recognised() {
    for word in ["ls", "list", "pwd", "cd", "rm", "remove", "new", "fork", "status"] {
        assert!(looks_like_command(word));
    }
    assert!(!looks_like_command("HEAD"));
    assert!(!looks_like_command("lst"));
    assert!(!looks_like_command(""));
}

#[test]
fn error_prefix_is_red_only_with_color() {
    assert_eq!(styled_error_prefix(true), "\x1b[31mdx:\x1b[0m");
    assert_eq!(styled_error_prefix(false), "dx:");
}

#[test]
fn syntax_available_filter_prefers_installed() {
    let f = |installed, enabled| syntax_available_filter(&SyntaxAvailableArgs { installed, enabled });
    assert_eq!(f(true, true), SyntaxAvailableFilter::Installed);
    assert_eq!(f(false, true), SyntaxAvailableFilter::Enabled);
    assert_eq!(f(false, false), SyntaxAvailableFilter::All);
}

#[test]
fn diff_options_build_sources_and_scopes() {
    match diff_options(DiffArgs::default()) {
        Ok(DiffPlan::Local(options)) => {
            assert!(matches!(options.source, DiffSource::Worktree));
            assert_eq!(options.scope, DiffScope::All);
            assert!(options.include_untracked);
        },
        _ => panic!("expected a worktree diff"),
    }
    match diff_options(DiffArgs { staged: true, ..args_with_revs(&["main"]) }) {
        Ok(DiffPlan::Local(options)) => {
            assert!(matches!(options.source, DiffSource::Base(ref b) if b == "main"));
            assert_eq!(options.scope, DiffScope::Staged);
        },
        _ => panic!("expected a base diff"),
    }
    match diff_options(DiffArgs { no_untracked: true, ..args_with_revs(&["a", "b"]) }) {
        Ok(DiffPlan::Local(options)) => {
            assert!(matches!(options.source, DiffSource::Range { ref left, ref right } if left == "a" && right == "b"));
            assert!(!options.include_untracked);
        },
        _ => panic!("expected a range diff"),
    }
    match diff_options(DiffArgs { patch: Some("-".to_owned()), stat: true, ..DiffArgs::default() }) {
        Ok(DiffPlan::Local(options)) => {
            assert!(matches!(options.source, DiffSource::Patch(PatchSource::Stdin)));
            assert!(!options.include_untracked);
            assert!(options.stat);
        },
        _ => panic!("expected a patch diff"),
    }
    match diff_options(DiffArgs { pr: Some("12".to_owned()), ..DiffArgs::default() }) {
        Ok(DiffPlan::PullRequest { target, .. }) => assert_eq!(target, "12"),
        _ => panic!("expected a pull request"),
    }
}

#[test]
fn diff_options_reject_each_bad_combination() {
    let cases: Vec<(DiffArgs, &str)> = vec![
        (DiffArgs { base: Some("x".to_owned()), ..args_with_revs(&["y"]) }, "use either --base or positional revisions, not both"),
        (args_with_revs(&["a", "b", "c"]), "dx accepts at most two revisions"),
        (DiffArgs { patch: Some("p".to_owned()), ..args_with_revs(&["a"]) }, "use --patch without revisions or --base"),
        (DiffArgs { patch: Some("p".to_owned()), staged: true, ..DiffArgs::default() }, "--staged, --unstaged, and --no-untracked do not apply to --patch"),
        (DiffArgs { pr: Some("1".to_owned()), ..args_with_revs(&["a"]) }, "use --pr without revisions or --base"),
        (DiffArgs { pr: Some("1".to_owned()), unstaged: true, ..DiffArgs::default() }, "--staged, --unstaged, and --no-untracked do not apply to dx --pr"),
        (DiffArgs { pr: Some("1".to_owned()), patch: Some("p".to_owned()), ..DiffArgs::default() }, "--patch does not apply to dx --pr"),
    ];
    for (args, message) in cases {
        match diff_options(args) {
            Err(error) => assert_eq!(usage_message(error), message),
            Ok(_) => panic!("expected {message}"),
        }
    }
    match pr_diff_options(DiffArgs::default(), "7".to_owned()) {
        Ok(DiffPlan::PullRequest { target, stat, .. }) => {
            assert_eq!(target, "7");
            assert!(!stat);
        },
        _ => panic!("expected a pull request"),
    }
}

#[test]
fn patch_source_reads_stdin_for_dash() {
    assert!(matches!(patch_source("-".to_owned()), DiffSource::Patch(PatchSource::Stdin)));
    assert!(matches!(patch_source("a.diff".to_owned()), DiffSource::Patch(PatchSource::File(ref p)) if p == "a.diff"));
    for same_path in ["-/", "-//", "-/.", "-/./"] {
        assert!(matches!(patch_source(same_path.to_owned()), DiffSource::Patch(PatchSource::Stdin)), "{same_path}");
        assert_eq!(std::path::Path::new(same_path), std::path::Path::new("-"));
    }
    for other_path in ["-.", "./-", "-/..", "-x", "--", ""] {
        assert!(matches!(patch_source(other_path.to_owned()), DiffSource::Patch(PatchSource::File(_))), "{other_path}");
        assert_ne!(std::path::Path::new(other_path), std::path::Path::new("-"));
    }
}

#[test]
fn io_and_json_errors_convert() {
    let io = std::io::Error::new(std::io::ErrorKind::Other, "boom");
    assert!(matches!(DxError::from(io), DxError::Io(_)));
    let json = serde_json::from_str::<u32>("nope").unwrap_err();
    assert!(matches!(DxError::from(json), DxError::Json(_)));
}

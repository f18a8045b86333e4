use mark::pager::{
    non_diff_pager_action, pager_action, pager_read_step, read_pager_input,
    static_pager_color_enabled, PagerAction, PagerEnv, PagerInput, PagerReadStep,
    StreamingPagerAction, PAGER_CLASSIFICATION_LIMIT, STREAM_BUFFER_SIZE,
};
use mark::patch::{looks_like_patch_input, patch_input_has_prelude, split_patch_prelude};
use mark::terminal::{sanitized_terminal_bytes, strip_terminal_escapes};
use mark::text_pager::{resolve_text_pager_command, DEFAULT_TEXT_PAGER};

fn env(term: Option<&str>, lv: Option<&str>, git_pager: Option<&str>, lazygit: bool) -> PagerEnv {
    PagerEnv {
        term: term.map(|v| v.as_bytes().to_vec()),
        lv: lv.map(|v| v.as_bytes().to_vec()),
        git_pager: git_pager.map(|v| v.as_bytes().to_vec()),
        has_lazygit_env: lazygit,
    }
}

const DIFF: &[u8] = b"diff --git a/a b/a\n--- a/a\n+++ b/a\n@@ -1 +1 @@\n-a\n+b\n";

#[test]
fn pager_routes_regular_diff_tty_to_interactive() {
    let action = pager_action(DIFF, true, &env(Some("xterm-256color"), None, None, false), true);
    assert_eq!(action, PagerAction::InteractiveDiff);
}

#[test]
fn pager_routes_captured_hosts_to_static_diff() {
    let input = DIFF;
    assert_eq!(
        pager_action(input, true, &env(Some("dumb"), None, None, true), true),
        PagerAction::StaticDiff
    );
    assert_eq!(
        pager_action(input, true, &env(Some("dumb"), Some("-c"), None, false), true),
        PagerAction::StaticDiff
    );
    assert_eq!(
        pager_action(input, true, &env(Some("dumb"), None, Some("mark pager"), false), true),
        PagerAction::StaticDiff
    );
    assert_eq!(
        pager_action(input, false, &env(Some("dumb"), None, None, true), true),
        PagerAction::StaticDiff
    );
}

#[test]
fn static_pager_colors_captured_hosts_without_stdout_tty() {
    assert!(static_pager_color_enabled(false, &env(Some("dumb"), None, None, true), false));
    assert!(static_pager_color_enabled(
        false,
        &env(Some("dumb"), None, Some("mark pager"), false),
        false
    ));
    assert!(!static_pager_color_enabled(false, &env(Some("dumb"), None, None, true), true));
    assert!(!static_pager_color_enabled(
        false,
        &env(Some("xterm-256color"), None, None, false),
        false
    ));
}

#[test]
fn pager_passthroughs_diff_when_stdout_is_not_tty() {
    let action = pager_action(DIFF, false, &env(Some("xterm-256color"), None, None, false), true);
    assert_eq!(action, PagerAction::Passthrough);
}

#[test]
fn pager_falls_back_to_static_diff_without_controlling_terminal() {
    let action = pager_action(DIFF, true, &env(Some("xterm-256color"), None, None, false), false);
    assert_eq!(action, PagerAction::StaticDiff);
}

#[test]
fn pager_routes_git_show_prelude_to_static_diff() {
    let action = pager_action(
        b"commit abc123\nAuthor: Example <e@example.com>\n\n    message\n\ndiff --git a/a b/a\n--- a/a\n+++ b/a\n@@ -1 +1 @@\n-a\n+b\n",
        true,
        &env(Some("xterm-256color"), None, None, false),
        true,
    );
    assert_eq!(action, PagerAction::StaticDiff);
}

#[test]
fn pager_passthroughs_dumb_non_captured_terminal() {
    let action = pager_action(DIFF, true, &env(Some("dumb"), None, None, false), true);
    assert_eq!(action, PagerAction::Passthrough);
}

#[test]
fn pager_pages_plain_text_on_regular_tty() {
    let action = pager_action(
        b"commit abc123\n",
        true,
        &env(Some("xterm-256color"), None, None, false),
        true,
    );
    assert_eq!(action, PagerAction::PlainTextPager);
}

#[test]
fn pager_passthroughs_empty_input() {
    let action = pager_action(b"", true, &env(Some("xterm-256color"), None, None, false), true);
    assert_eq!(action, PagerAction::Passthrough);
}

#[test]
fn pager_streams_plain_text_after_classification_limit() {
    let source = vec![b'x'; PAGER_CLASSIFICATION_LIMIT + 1];
    let (decision, consumed) =
        read_pager_input(&source, true, &env(Some("xterm-256color"), None, None, false), true);
    let PagerInput::Streaming { prefix, action } = decision else {
        panic!("expected streaming input");
    };
    assert_eq!(action, StreamingPagerAction::PlainTextPager);
    assert_eq!(prefix.len(), PAGER_CLASSIFICATION_LIMIT);
    assert_eq!(consumed, PAGER_CLASSIFICATION_LIMIT);
}

#[test]
fn pager_buffers_diff_after_detection() {
    let mut input_bytes = DIFF.to_vec();
    input_bytes.extend(vec![b'x'; STREAM_BUFFER_SIZE * 2]);
    let expected_len = input_bytes.len();
    let (decision, consumed) =
        read_pager_input(&input_bytes, true, &env(Some("xterm-256color"), None, None, false), true);
    let PagerInput::Buffered { input, action } = decision else {
        panic!("expected buffered input");
    };
    assert_eq!(action, PagerAction::InteractiveDiff);
    assert_eq!(input.len(), expected_len);
    assert_eq!(consumed, expected_len);
}

#[test]
fn pager_streams_without_classification_when_action_cannot_change() {
    let source = vec![b'x'; PAGER_CLASSIFICATION_LIMIT + 1];
    let (decision, consumed) =
        read_pager_input(&source, false, &env(Some("xterm-256color"), None, None, false), true);
    let PagerInput::Streaming { prefix, action } = decision else {
        panic!("expected streaming input");
    };
    assert_eq!(action, StreamingPagerAction::Passthrough);
    assert!(prefix.is_empty());
    assert_eq!(consumed, 0);
}

#[test]
fn pager_read_steps_follow_the_classification() {
    let e = env(Some("xterm-256color"), None, None, false);
    assert_eq!(pager_read_step(b"", false, true, &e, true), PagerReadStep::Read { limit: STREAM_BUFFER_SIZE });
    assert_eq!(pager_read_step(DIFF, false, true, &e, true), PagerReadStep::ReadToEnd);
    assert_eq!(
        pager_read_step(b"plain\n", true, true, &e, true),
        PagerReadStep::Buffered(PagerAction::PlainTextPager)
    );
    let near_limit = vec![b'x'; PAGER_CLASSIFICATION_LIMIT - 10];
    assert_eq!(pager_read_step(&near_limit, false, true, &e, true), PagerReadStep::Read { limit: 10 });
    assert_eq!(
        pager_read_step(b"", false, false, &e, true),
        PagerReadStep::Streaming(StreamingPagerAction::Passthrough)
    );
}

#[test]
fn streamed_prefix_and_unread_rest_make_up_the_input() {
    let mut source = vec![b'y'; PAGER_CLASSIFICATION_LIMIT];
    source.extend_from_slice(b"still unread\n");
    let (decision, consumed) =
        read_pager_input(&source, true, &env(Some("xterm-256color"), None, None, false), true);
    let PagerInput::Streaming { prefix, .. } = decision else {
        panic!("expected streaming input");
    };
    let mut replay = prefix.clone();
    replay.extend_from_slice(&source[consumed..]);
    assert_eq!(replay, source);
}

#[test]
fn plain_text_on_dumb_terminal_passes_through() {
    assert_eq!(non_diff_pager_action(true, &env(Some("dumb"), None, None, false)), PagerAction::Passthrough);
    assert_eq!(
        non_diff_pager_action(true, &env(Some("xterm-256color"), None, None, false)),
        PagerAction::PlainTextPager
    );
}

#[test]
fn plain_text_pager_replaces_self_referential_mark_pager() {
    assert_eq!(resolve_text_pager_command(Some("mark pager")), DEFAULT_TEXT_PAGER);
    assert_eq!(resolve_text_pager_command(Some("mark page")), DEFAULT_TEXT_PAGER);
    assert_eq!(
        resolve_text_pager_command(Some("/usr/local/bin/mark page --layout unified")),
        DEFAULT_TEXT_PAGER
    );
    assert_eq!(
        resolve_text_pager_command(Some("/usr/local/bin/mark pager --layout unified")),
        DEFAULT_TEXT_PAGER
    );
    assert_eq!(
        resolve_text_pager_command(Some("env TERM=xterm-256color mark pager")),
        DEFAULT_TEXT_PAGER
    );
    assert_eq!(resolve_text_pager_command(Some("command mark pager")), DEFAULT_TEXT_PAGER);
    assert_eq!(resolve_text_pager_command(Some("PAGER=cat exec mark pager")), DEFAULT_TEXT_PAGER);
}

#[test]
fn plain_text_pager_preserves_non_self_pager_commands() {
    assert_eq!(resolve_text_pager_command(None), DEFAULT_TEXT_PAGER);
    assert_eq!(resolve_text_pager_command(Some("")), DEFAULT_TEXT_PAGER);
    assert_eq!(resolve_text_pager_command(Some("less -FRX")), "less -FRX");
    assert_eq!(
        resolve_text_pager_command(Some("delta --paging=always")),
        "delta --paging=always"
    );
    assert_eq!(resolve_text_pager_command(Some("mark diff")), "mark diff");
}

#[test]
fn patch_detection_ignores_ansi_color() {
    assert!(looks_like_patch_input(
        b"\x1b[1mdiff --git a/a b/a\x1b[0m\n--- a/a\n+++ b/a\n@@ -1 +1 @@\n-a\n+b\n"
    ));
}

#[test]
fn patch_detection_rejects_bare_hunk_marker() {
    assert!(!looks_like_patch_input(b"commit abc123\n\n    @@ -1 +1 @@\n    example text\n"));
}

#[test]
fn patch_detection_rejects_unified_headers_without_changes() {
    assert!(!looks_like_patch_input(b"commit abc123\n\n--- not-a-diff\n+++ still-not-a-diff\n"));
}

#[test]
fn patch_detection_accepts_metadata_only_git_diff() {
    assert!(looks_like_patch_input(
        b"diff --git a/old.txt b/new.txt\nrename from old.txt\nrename to new.txt\n"
    ));
}

#[test]
fn patch_detection_accepts_unified_headers_with_hunk() {
    assert!(looks_like_patch_input(b"--- a/a\n+++ b/a\n@@ -1 +1 @@\n-a\n+b\n"));
    assert!(!patch_input_has_prelude(b"--- a/a\n+++ b/a\n@@ -1 +1 @@\n-a\n+b\n"));
}

#[test]
fn split_patch_prelude_keeps_git_show_text_out_of_rendered_patch() {
    let patch = b"commit abc123\nAuthor: Example <e@example.com>\n\n    message\n\ndiff --git a/a.txt b/a.txt\n--- a/a.txt\n+++ b/a.txt\n@@ -1 +1 @@\n-old\n+new\n";
    let normalized = strip_terminal_escapes(patch);
    let (prelude, patch) = split_patch_prelude(&normalized);
    assert_eq!(prelude, b"commit abc123\nAuthor: Example <e@example.com>\n\n    message\n\n");
    assert!(patch.starts_with(b"diff --git a/a.txt b/a.txt\n"));
}

#[test]
fn split_patch_prelude_without_patch_is_all_prelude() {
    let (prelude, patch) = split_patch_prelude(b"just text\n");
    assert_eq!(prelude, b"just text\n");
    assert!(patch.is_empty());
    assert!(patch_input_has_prelude(b"commit abc\n\ndiff --git a/a b/a\n"));
}

#[test]
fn sanitized_terminal_bytes_escapes_malformed_escapes() {
    let sanitized = sanitized_terminal_bytes(b"a\x1b]unterminated\nb\x1b[31\nc");
    assert_eq!(sanitized, b"a\\u{1b}]unterminated\nb\\u{1b}[31\nc");
}

#[test]
fn strip_terminal_escapes_removes_csi_and_osc_but_preserves_cr() {
    let stripped = strip_terminal_escapes(b"a\r\n\x1b[31mb\x1b[0mc\x1b]52;c;secret\x07d");
    assert_eq!(stripped, b"a\r\nbcd");
}

#[test]
fn sanitized_terminal_bytes_escapes_controls_after_stripping_sequences() {
    let sanitized = sanitized_terminal_bytes(b"a\r\x07\x1b[31mb\x1b[0m\n");
    assert_eq!(sanitized, b"a\\r\\u{7}b\n");
}

#[test]
fn sanitized_output_has_no_control_bytes() {
    let input = b"\x00\x01\x1b\x7f\xc2\x85ok\x1b]2;t\x1b\\\tend\n";
    let out = sanitized_terminal_bytes(input);
    assert_eq!(out, b"\\0\\u{1}\\u{1b}\\u{7f}\\u{85}ok\tend\n");
    for (k, b) in out.iter().enumerate() {
        assert!(!(*b < 0x20 && *b != b'\n' && *b != b'\t') && *b != 0x7f);
        if *b == 0xc2 && k + 1 < out.len() {
            assert!(!(0x80..=0x9f).contains(&out[k + 1]));
        }
    }
}

#[test]
fn strip_keeps_text_without_escapes() {
    let text = b"plain text\r\nwith tabs\tand \x07 bells";
    assert_eq!(strip_terminal_escapes(text), text.to_vec());
}

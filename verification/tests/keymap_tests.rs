use mark::keymap::{
    key_label, parse_key_press, parse_key_sequence, GlobalAction, KeyPress, KeySpec, Keymap,
    MenuAction, StoredGlobalKeymap, StoredKeymap, StoredMenuKeymap,
};
use mark::keys::{KeyCode, KeyEvent, KeyModifiers};

fn none() -> KeyModifiers {
    KeyModifiers::none()
}

fn ctrl() -> KeyModifiers {
    KeyModifiers { control: true, ..KeyModifiers::none() }
}

fn shift() -> KeyModifiers {
    KeyModifiers { shift: true, ..KeyModifiers::none() }
}

fn ctrl_shift() -> KeyModifiers {
    KeyModifiers { control: true, shift: true, ..KeyModifiers::none() }
}

fn key(code: KeyCode, modifiers: KeyModifiers) -> KeyEvent {
    KeyEvent::new(code, modifiers)
}

fn ch(c: char) -> KeyEvent {
    key(KeyCode::Char(c), none())
}

fn one(s: &str) -> Option<KeySpec> {
    Some(KeySpec::One(s.to_owned()))
}

fn many(v: &[&str]) -> Option<KeySpec> {
    Some(KeySpec::Many(v.iter().map(|s| (*s).to_owned()).collect()))
}

fn parse(global: StoredGlobalKeymap, menu: StoredMenuKeymap) -> Result<Keymap, String> {
    Keymap::from_stored(StoredKeymap { global, menu })
}

#[test]
fn keymap_parses_configured_global_and_menu_bindings() {
    let keymap = parse(
        StoredGlobalKeymap {
            leader: Some(",".to_owned()),
            diff_menu: one(", d"),
            quit: one(", x"),
            file_filter: one("ctrl-f"),
            head_branch: one("m h"),
            save_mark: one("ctrl-enter"),
            copy_marks: one(", y"),
            copy_error_log: one("ctrl+shift+c"),
            previous_diff_type: one("shift-left"),
            expand_context_up: many(&[]),
            ..StoredGlobalKeymap::default()
        },
        StoredMenuKeymap { down: many(&["s", "down"]), ..StoredMenuKeymap::default() },
    )
    .expect("keymap should parse");

    let comma = KeyPress::from(ch(','));
    assert!(keymap.is_prefix(ch(',')));
    assert!(keymap.matches_prefix(GlobalAction::DiffMenu, comma, ch('d')));
    assert!(keymap.matches_single(GlobalAction::FileFilter, key(KeyCode::Char('f'), ctrl())));
    assert!(keymap.matches_single(GlobalAction::CopyErrorLog, key(KeyCode::Char('C'), ctrl_shift())));
    assert!(keymap.matches_prefix(GlobalAction::CopyMarks, comma, ch('y')));
    assert!(keymap.is_prefix(ch('m')));
    assert!(keymap.matches_prefix(GlobalAction::HeadBranch, KeyPress::from(ch('m')), ch('h')));
    assert_eq!(keymap.global_action_label(GlobalAction::CopyErrorLog), "Ctrl-Shift-C");
    assert!(keymap.matches_menu(MenuAction::Down, ch('s')));
    assert!(keymap.matches_help_menu_scroll(MenuAction::Down, ch('s')));
    assert!(!keymap.matches_help_menu_scroll(MenuAction::Down, key(KeyCode::Tab, none())));
    assert!(!keymap.matches_help_menu_scroll(MenuAction::Up, key(KeyCode::BackTab, shift())));
    assert!(keymap.matches_single(GlobalAction::PreviousDiffType, key(KeyCode::Left, shift())));
}

#[test]
fn keymap_preserves_shifted_character_bindings() {
    let keymap = parse(
        StoredGlobalKeymap { quit: one("shift-q"), ..StoredGlobalKeymap::default() },
        StoredMenuKeymap::default(),
    )
    .expect("keymap should parse");
    assert!(keymap.matches_single(GlobalAction::Quit, key(KeyCode::Char('Q'), shift())));
    assert!(!keymap.matches_single(GlobalAction::Quit, ch('q')));
}

#[test]
fn default_copy_error_log_matches_hunk_diff_binding() {
    let keymap = Keymap::default();
    assert!(keymap.matches_single(GlobalAction::CopyErrorLog, key(KeyCode::Char('C'), ctrl_shift())));
    assert!(keymap.matches_single(GlobalAction::CopyErrorLog, key(KeyCode::Char('c'), ctrl_shift())));
    assert!(!keymap.matches_single(GlobalAction::CopyErrorLog, key(KeyCode::Char('c'), ctrl())));
    assert_eq!(keymap.global_action_label(GlobalAction::CopyErrorLog), "Ctrl-Shift-C");
}

#[test]
fn default_mark_bindings_are_configurable_actions() {
    let keymap = Keymap::default();
    assert!(keymap.matches_single(GlobalAction::SaveMark, key(KeyCode::Char('s'), ctrl())));
    assert!(keymap.matches_single(GlobalAction::CancelMark, key(KeyCode::Esc, none())));
    assert!(keymap.matches_single(GlobalAction::CopyMarks, ch('y')));
    assert_eq!(keymap.global_action_label(GlobalAction::CopyMarks), "y");
    assert!(!keymap.is_prefix(ch(' ')));
}

#[test]
fn default_review_actions_use_mnemonic_keys() {
    let keymap = Keymap::default();
    let m = KeyPress::from(ch('m'));
    assert!(keymap.is_prefix(ch('m')));
    assert!(!keymap.is_prefix(ch('d')));
    assert!(keymap.matches_prefix(GlobalAction::DiffMenu, m, ch('m')));
    assert!(keymap.matches_single(GlobalAction::OptionsMenu, ch('o')));
    assert!(keymap.matches_single(GlobalAction::Layout, ch('s')));
    assert!(!keymap.matches_single(GlobalAction::EditHunk, ch('e')));
    assert!(keymap.matches_single(GlobalAction::EditHunk, key(KeyCode::Char('g'), ctrl())));
    assert!(keymap.matches_single(GlobalAction::ClearFilters, key(KeyCode::Char('u'), ctrl())));
    assert!(keymap.matches_single(GlobalAction::NextAnnotation, ch('}')));
    assert!(keymap.matches_single(GlobalAction::PreviousAnnotation, ch('{')));
    assert!(keymap.matches_single(GlobalAction::PreviousFile, ch('(')));
    assert!(keymap.matches_single(GlobalAction::NextFile, ch(')')));
    assert!(keymap.matches_single(GlobalAction::PreviousHunk, ch('[')));
    assert!(keymap.matches_single(GlobalAction::NextHunk, ch(']')));
    assert!(keymap.matches_single(GlobalAction::ExpandContextUp, ch(',')));
    assert!(keymap.matches_single(GlobalAction::ExpandContextDown, ch('.')));
    assert!(keymap.matches_single(GlobalAction::CollapseContextAll, ch('c')));
    assert!(keymap.matches_prefix(GlobalAction::HeadBranch, m, ch('h')));
    assert!(keymap.matches_prefix(GlobalAction::BaseBranch, m, ch('b')));
    assert!(keymap.matches_prefix(GlobalAction::CommitPicker, m, ch('c')));
    assert!(!keymap.is_prefix(ch('w')));
}

#[test]
fn keymap_allows_global_bindings_that_overlap_mark_draft_bindings() {
    let keymap = parse(
        StoredGlobalKeymap { reload: one("ctrl-s"), quit: one("esc"), ..StoredGlobalKeymap::default() },
        StoredMenuKeymap::default(),
    )
    .expect("draft-only bindings should not reject existing global bindings");
    assert!(keymap.matches_single(GlobalAction::Reload, key(KeyCode::Char('s'), ctrl())));
    assert!(keymap.matches_single(GlobalAction::SaveMark, key(KeyCode::Char('s'), ctrl())));
    assert!(keymap.matches_single(GlobalAction::Quit, key(KeyCode::Esc, none())));
    assert!(keymap.matches_single(GlobalAction::CancelMark, key(KeyCode::Esc, none())));
}

#[test]
fn keymap_allows_prefixes_that_overlap_default_mark_draft_bindings() {
    let ctrl_s_prefix = parse(
        StoredGlobalKeymap {
            leader: Some("ctrl-s".to_owned()),
            copy_marks: one("ctrl-s y"),
            ..StoredGlobalKeymap::default()
        },
        StoredMenuKeymap::default(),
    )
    .expect("ctrl-s prefix should parse");
    assert!(ctrl_s_prefix.is_prefix(key(KeyCode::Char('s'), ctrl())));
    assert_eq!(ctrl_s_prefix.global_action_label(GlobalAction::SaveMark), "Ctrl-S");

    let esc_prefix = parse(
        StoredGlobalKeymap {
            leader: Some("esc".to_owned()),
            copy_marks: one("esc y"),
            ..StoredGlobalKeymap::default()
        },
        StoredMenuKeymap::default(),
    )
    .expect("esc prefix should parse");
    assert!(esc_prefix.is_prefix(key(KeyCode::Esc, none())));
    assert_eq!(esc_prefix.global_action_label(GlobalAction::CancelMark), "Esc");
}

#[test]
fn keymap_rejects_multi_key_mark_draft_binding() {
    let Err(error) = parse(
        StoredGlobalKeymap { save_mark: one("ctrl-s y"), ..StoredGlobalKeymap::default() },
        StoredMenuKeymap::default(),
    ) else {
        panic!("configured draft binding should be single-key");
    };
    assert!(error.contains("save_mark must be a single key"));
}

#[test]
fn keymap_rejects_conflicting_mark_draft_bindings() {
    let Err(error) = parse(
        StoredGlobalKeymap {
            save_mark: one("esc"),
            cancel_mark: one("esc"),
            ..StoredGlobalKeymap::default()
        },
        StoredMenuKeymap::default(),
    ) else {
        panic!("mark draft bindings should not conflict with each other");
    };
    assert!(error.contains("keymap.global conflict"));
}

#[test]
fn keymap_allows_arbitrary_multi_key_global_binding() {
    let keymap = parse(
        StoredGlobalKeymap { diff_menu: one("z d"), ..StoredGlobalKeymap::default() },
        StoredMenuKeymap::default(),
    )
    .expect("multi-key binding should parse");
    assert!(keymap.matches_prefix(GlobalAction::DiffMenu, KeyPress::from(ch('z')), ch('d')));
}

#[test]
fn keymap_clears_unconfigured_copy_marks_when_used_as_prefix() {
    let keymap = parse(
        StoredGlobalKeymap { diff_menu: one("y d"), ..StoredGlobalKeymap::default() },
        StoredMenuKeymap::default(),
    )
    .expect("unconfigured copy_marks should not reserve y as a prefix");
    let y = KeyPress::from(ch('y'));
    assert!(keymap.is_prefix(ch('y')));
    assert!(keymap.matches_prefix(GlobalAction::DiffMenu, y, ch('d')));
    assert_eq!(keymap.global_action_label(GlobalAction::CopyMarks), "unbound");
}

#[test]
fn keymap_allows_direct_space_when_leader_is_unused() {
    let keymap = parse(
        StoredGlobalKeymap { diff_menu: one("space"), ..StoredGlobalKeymap::default() },
        StoredMenuKeymap::default(),
    )
    .expect("space binding should parse without a leader sequence");
    assert!(keymap.matches_single(GlobalAction::DiffMenu, ch(' ')));
    assert!(!keymap.is_prefix(ch(' ')));
}

#[test]
fn keymap_uses_space_prefix_sequences() {
    let keymap = parse(
        StoredGlobalKeymap { help: one("space h"), ..StoredGlobalKeymap::default() },
        StoredMenuKeymap::default(),
    )
    .expect("space prefix binding should parse");
    assert!(keymap.is_prefix(ch(' ')));
    assert!(keymap.matches_prefix(GlobalAction::Help, KeyPress::from(ch(' ')), ch('h')));
}

#[test]
fn keymap_does_not_reserve_unused_configured_leader() {
    let keymap = parse(
        StoredGlobalKeymap { leader: Some("ctrl-g".to_owned()), ..StoredGlobalKeymap::default() },
        StoredMenuKeymap::default(),
    )
    .expect("unused leader should parse");
    assert!(!keymap.is_prefix(key(KeyCode::Char('g'), ctrl())));
    assert!(keymap.matches_single(GlobalAction::EditHunk, key(KeyCode::Char('g'), ctrl())));
}

#[test]
fn keymap_rejects_single_key_that_is_also_a_prefix() {
    let Err(error) = parse(
        StoredGlobalKeymap { reload: one("d"), diff_menu: one("d m"), ..StoredGlobalKeymap::default() },
        StoredMenuKeymap::default(),
    ) else {
        panic!("ambiguous prefix should fail");
    };
    assert!(error.contains("is both a binding"));
}

#[test]
fn keymap_rejects_conflicting_bindings_in_same_context() {
    let Err(error) = parse(
        StoredGlobalKeymap { help: one("r"), reload: one("r"), ..StoredGlobalKeymap::default() },
        StoredMenuKeymap::default(),
    ) else {
        panic!("conflicting keymap should fail");
    };
    assert!(error.contains("keymap.global conflict"));
}

#[test]
fn keymap_rejects_multi_key_editor_binding() {
    let Err(error) = parse(
        StoredGlobalKeymap { edit_hunk: one("space e"), ..StoredGlobalKeymap::default() },
        StoredMenuKeymap::default(),
    ) else {
        panic!("multi-key editor binding should fail");
    };
    assert!(error.contains("edit_hunk must be a single key"));
}

#[test]
fn empty_settings_give_a_valid_default_keymap() {
    let keymap = parse(StoredGlobalKeymap::default(), StoredMenuKeymap::default())
        .expect("empty settings should parse");
    assert!(keymap.validate().is_ok());
    assert!(Keymap::default().validate().is_ok());
    assert!(keymap.matches_single(GlobalAction::Quit, ch('q')));
}

#[test]
fn bad_leader_is_reported() {
    let result = parse(
        StoredGlobalKeymap { leader: Some("ctrl-".to_owned()), ..StoredGlobalKeymap::default() },
        StoredMenuKeymap::default(),
    );
    assert!(result.is_err());
}

#[test]
fn key_labels_parse_back_to_the_same_key() {
    for text in ["ctrl-s", "shift-left", "esc", "space", "ctrl+shift+c", "q", "f"] {
        let parsed = parse_key_press(text).expect("key should parse");
        let label = key_label(&parsed);
        assert_eq!(parse_key_press(&label), Ok(parsed));
    }
    assert!(parse_key_sequence("z d").is_ok());
    assert!(parse_key_press("").is_err());
}

use mark::action::{app_action_outcome, AppAction, AppActionOutcome, AppCommand, BranchMenu, DiffFilterKind};
use mark::annotation::{AnnotationKey, AnnotationLineKind};
use mark::keymap::GlobalAction;
use mark::navigation::{
    row_wrapped_height, split_column_widths, split_row_height, wrapped_height_for_text_counts, DiffApp,
    DiffLayoutMode, HunkFocusModelBehavior, HunkFocusScrollBehavior, MouseScrollOutcome,
};
use mark::rows::UiRow;

fn rows() -> Vec<UiRow> {
    vec![
        UiRow::FileHeader(0),
        UiRow::HunkHeader { file: 0, hunk: 0 },
        UiRow::UnifiedLine { file: 0, hunk: 0, line: 0 },
        UiRow::UnifiedLine { file: 0, hunk: 0, line: 1 },
        UiRow::FileSeparator,
        UiRow::FileHeader(1),
        UiRow::HunkHeader { file: 1, hunk: 0 },
        UiRow::ContextLine { file: 1, old_line: 4, new_line: 4 },
        UiRow::UnifiedLine { file: 1, hunk: 0, line: 0 },
        UiRow::UnifiedLine { file: 1, hunk: 0, line: 1 },
    ]
}

fn app(wrapping: bool, viewport_rows: usize) -> DiffApp {
    let heights = vec![1, 1, 3, 0, 1, 1, 1, 2, 1, 4];
    DiffApp::new(rows(), heights, viewport_rows, 80, 70, 100, DiffLayoutMode::Unified, wrapping)
}

#[test]
fn wrapped_rows_start_after_the_rows_before_them() {
    let mut a = app(true, 4);
    assert_eq!(a.wrapped_visual_row_count(), 16);
    assert_eq!(a.wrapped_visual_scroll_for_model_row(0), 0);
    assert_eq!(a.wrapped_visual_scroll_for_model_row(3), 5);
    assert_eq!(a.wrapped_visual_scroll_for_model_row(99), 16);
    assert_eq!(a.wrapped_visual_height_for_model_row(2), 3);
    assert_eq!(a.wrapped_visual_height_for_model_row(3), 1);
    assert_eq!(a.wrapped_visual_height_for_model_row(99), 1);
}

#[test]
fn each_row_is_found_at_its_own_scroll() {
    let mut a = app(true, 4);
    for row in 0..10 {
        let s = a.scroll_for_model_row(row);
        assert_eq!(a.model_row_at_scroll(s), Some((row, 0)));
    }
    assert_eq!(a.model_row_at_scroll(3), Some((2, 1)));
    assert_eq!(a.model_row_at_scroll(15), Some((9, 3)));
    assert_eq!(a.model_row_at_scroll(16), None);
    let mut b = app(false, 4);
    assert_eq!(b.model_row_at_scroll(7), Some((7, 0)));
    assert_eq!(b.model_row_at_scroll(10), None);
}

#[test]
fn scrolling_is_held_to_the_scrollable_range() {
    let mut a = app(false, 4);
    assert_eq!(a.max_scroll(), 6);
    assert!(a.scroll_by(3));
    assert_eq!(a.scroll, 3);
    assert!(a.dirty);
    assert!(a.scroll_by(-3));
    assert_eq!(a.scroll, 0);
    a.scroll_by(100);
    assert_eq!(a.scroll, 6);
    assert_eq!(a.selected_file, 1);
    assert!(!a.scroll_or_focus_hunk(-1));
    assert!(!a.scroll_or_focus_hunk(100));
    assert!(a.scroll_or_focus_hunk(100));
    let mut w = app(true, 4);
    assert_eq!(w.max_scroll(), 12);
    w.set_scroll(6);
    assert_eq!(w.scroll, 6);
    assert_eq!(w.selected_file, 0);
}

#[test]
fn moving_the_view_drops_a_hand_picked_hunk_focus() {
    let mut a = app(false, 4);
    a.manual_hunk_focus = Some((0, 0));
    a.diff_mouse_hover = Some(2);
    let sync = a.set_scroll_with_grep_sync(0, true, HunkFocusScrollBehavior::ClearOnScroll);
    assert!(!sync);
    assert_eq!(a.manual_hunk_focus, Some((0, 0)));
    let sync = a.set_scroll_with_grep_sync(2, false, HunkFocusScrollBehavior::Preserve);
    assert!(!sync);
    assert_eq!(a.manual_hunk_focus, Some((0, 0)));
    assert_eq!(a.diff_mouse_hover, None);
    a.set_scroll(3);
    assert_eq!(a.manual_hunk_focus, None);
    a.manual_hunk_focus = Some((1, 0));
    a.clear_manual_hunk_focus();
    assert_eq!(a.manual_hunk_focus, None);
}

#[test]
fn horizontal_scrolling_stops_at_the_widest_line() {
    let mut a = app(false, 4);
    assert_eq!(a.max_horizontal_scroll(), 30);
    a.scroll_horizontally_by(50);
    assert_eq!(a.horizontal_scroll, 30);
    a.scroll_horizontally_by(-10);
    assert_eq!(a.horizontal_scroll, 20);
    a.set_horizontal_scroll(5);
    assert_eq!(a.horizontal_scroll, 5);
    let w = app(true, 4);
    assert_eq!(w.max_horizontal_scroll(), 0);
}

#[test]
fn visible_model_range_covers_the_viewport() {
    let mut a = app(false, 4);
    a.set_scroll(2);
    assert_eq!(a.visible_model_range_for_viewport(4), Some(2..6));
    assert_eq!(a.visible_model_range_for_viewport(0), None);
    let mut w = app(true, 4);
    w.set_scroll(3);
    assert_eq!(w.visible_model_range_for_viewport(4), Some(2..5));
    assert_eq!(w.relative_scroll_from_file_start(0), 3);
    assert_eq!(w.relative_scroll_from_file_start(1), 0);
    assert_eq!(w.relative_scroll_from_file_start(7), 0);
}

#[test]
fn replacing_rows_keeps_a_focus_that_still_exists() {
    let mut a = app(true, 4);
    a.ensure_wrapped_visual_layout();
    a.manual_hunk_focus = Some((1, 0));
    a.replace_model(rows(), vec![1; 10], HunkFocusModelBehavior::PreserveIfValid);
    assert_eq!(a.manual_hunk_focus, Some((1, 0)));
    assert_eq!(a.wrapped_visual_row_count(), 10);
    a.replace_model(rows()[..5].to_vec(), vec![1; 5], HunkFocusModelBehavior::PreserveIfValid);
    assert_eq!(a.manual_hunk_focus, None);
    a.manual_hunk_focus = Some((0, 0));
    a.replace_model(rows(), vec![1; 10], HunkFocusModelBehavior::Clear);
    assert_eq!(a.manual_hunk_focus, None);
    assert_eq!(a.hunk_start_row(1, 0), Some(6));
    assert_eq!(a.file_start_row(1), Some(5));
    assert_eq!(a.file_at_row(4), None);
}

#[test]
fn annotation_keys_come_from_diff_lines() {
    assert_eq!(
        AnnotationKey::from_ui_row(UiRow::MetaLine { file: 1, hunk: 2, line: 3 }, 9),
        Some(AnnotationKey { file: 1, model_row_index: 9, kind: AnnotationLineKind::Unified { hunk: 2, line: 3 } })
    );
    assert_eq!(
        AnnotationKey::from_ui_row(UiRow::SplitLine { file: 0, hunk: 1, left: None, right: Some(4) }, 2),
        Some(AnnotationKey { file: 0, model_row_index: 2, kind: AnnotationLineKind::Split { hunk: 1, left: None, right: Some(4) } })
    );
    assert_eq!(
        AnnotationKey::from_ui_row(UiRow::ContextLine { file: 3, old_line: 5, new_line: 6 }, 1),
        Some(AnnotationKey { file: 3, model_row_index: 1, kind: AnnotationLineKind::Context { old_line: 5, new_line: 6 } })
    );
    assert_eq!(AnnotationKey::from_ui_row(UiRow::HunkHeader { file: 0, hunk: 0 }, 1), None);
    assert_eq!(AnnotationKey::from_ui_row(UiRow::FileSeparator, 1), None);
}

#[test]
fn app_actions_follow_global_actions() {
    assert_eq!(AppAction::from_global(GlobalAction::Help), Some(AppAction::ToggleHelp));
    assert_eq!(AppAction::from_global(GlobalAction::CommitPicker), Some(AppAction::ToggleCommitMenu));
    assert_eq!(AppAction::from_global(GlobalAction::SaveMark), None);
    assert_eq!(AppAction::from_global(GlobalAction::CancelMark), None);
    assert_eq!(app_action_outcome(AppAction::Quit, false), AppActionOutcome::Quit);
    assert_eq!(app_action_outcome(AppAction::Quit, false).handled(), Some(true));
    assert_eq!(
        app_action_outcome(AppAction::OpenGrepFilter, false),
        AppActionOutcome::Run(AppCommand::OpenFilterInput(DiffFilterKind::Grep))
    );
    assert_eq!(
        app_action_outcome(AppAction::ToggleBaseBranchMenu, false),
        AppActionOutcome::Run(AppCommand::ToggleBranchMenu(BranchMenu::Base))
    );
    assert_eq!(app_action_outcome(AppAction::PreviousFile, false), AppActionOutcome::Run(AppCommand::MoveFile(-1)));
    assert_eq!(app_action_outcome(AppAction::CopyErrorLog, false).handled(), None);
    assert_eq!(app_action_outcome(AppAction::CopyErrorLog, true).handled(), Some(false));
    let mut a = app(false, 4);
    assert_eq!(a.perform_app_action(AppAction::CopyErrorLog), AppActionOutcome::Unhandled);
    a.error_log = Some("failed".to_owned());
    assert_eq!(
        a.perform_app_action(AppAction::CopyErrorLog),
        AppActionOutcome::Run(AppCommand::CopyErrorLogToTerminalClipboard)
    );
}

#[test]
fn mouse_wheel_moves_the_hunk_focus_at_the_edges() {
    let mut a = app(false, 4);
    assert_eq!(a.mouse_scroll_or_focus_hunk(3, 1), MouseScrollOutcome::ResetHunkFocusTicks);
    assert_eq!(a.scroll, 3);
    a.set_scroll(0);
    assert_eq!(a.mouse_scroll_or_focus_hunk(-3, -1), MouseScrollOutcome::MoveHunkFocus(-1));
    assert_eq!(a.mouse_scroll_or_focus_hunk(-3, 0), MouseScrollOutcome::Nothing);
}

#[test]
fn clearing_filters_closes_the_filter_input() {
    let mut a = app(false, 4);
    a.filter_input = Some(DiffFilterKind::File);
    assert_eq!(a.perform_app_action(AppAction::Reload), AppActionOutcome::Run(AppCommand::Reload));
    assert_eq!(a.filter_input, Some(DiffFilterKind::File));
    assert_eq!(
        a.perform_app_action(AppAction::ClearFilters),
        AppActionOutcome::Run(AppCommand::ClearAllFilters)
    );
    assert_eq!(a.filter_input, None);
}

#[test]
fn every_screen_line_of_a_row_maps_back_to_it() {
    let mut a = app(true, 4);
    for row in 0..10 {
        let start = a.scroll_for_model_row(row);
        let height = a.wrapped_visual_height_for_model_row(row);
        for k in 0..height {
            assert_eq!(a.model_row_at_scroll(start + k), Some((row, k)));
        }
    }
    let total = a.wrapped_visual_row_count();
    assert!(a.model_row_at_scroll(total - 1).is_some());
    assert!(a.model_row_at_scroll(total).is_none());
}

#[test]
fn split_rows_take_the_taller_side() {
    assert_eq!(split_column_widths(81), (40, 41));
    assert_eq!(split_column_widths(0), (0, 0));
    assert_eq!(split_row_height(Some(3), Some(2)), 3);
    assert_eq!(split_row_height(None, Some(0)), 1);
    assert_eq!(split_row_height(Some(0), Some(0)), 1);
    assert_eq!(split_row_height(None, Some(4)), 4);
    assert_eq!(wrapped_height_for_text_counts(DiffLayoutMode::Unified, 2, 5, 6), 2);
    assert_eq!(wrapped_height_for_text_counts(DiffLayoutMode::Split, 2, 5, 6), 6);
}

#[test]
fn row_heights_follow_the_row_kind() {
    let context = UiRow::ContextLine { file: 0, old_line: 1, new_line: 1 };
    assert_eq!(row_wrapped_height(&context, Some(3), 9, None, None), 3);
    assert_eq!(row_wrapped_height(&context, None, 9, None, None), 1);
    assert_eq!(row_wrapped_height(&UiRow::UnifiedLine { file: 0, hunk: 0, line: 0 }, None, 4, None, None), 4);
    assert_eq!(row_wrapped_height(&UiRow::MetaLine { file: 0, hunk: 0, line: 0 }, None, 2, None, None), 2);
    let split = UiRow::SplitLine { file: 0, hunk: 0, left: Some(0), right: None };
    assert_eq!(row_wrapped_height(&split, None, 9, Some(5), None), 5);
    assert_eq!(row_wrapped_height(&split, None, 9, Some(0), Some(0)), 1);
    assert_eq!(row_wrapped_height(&UiRow::HunkHeader { file: 0, hunk: 0 }, Some(7), 9, Some(5), Some(6)), 1);
    assert_eq!(row_wrapped_height(&UiRow::FileSeparator, None, 9, None, None), 1);
}

use vstd::prelude::*;
use crate::keymap::GlobalAction;

verus! {

/// What a global key binding asks the review application to do.
#[derive(PartialEq, Eq, Structural, Clone, Copy, Debug)]
pub enum AppAction {
    Quit,
    ToggleHelp,
    Reload,
    OpenFileFilter,
    OpenGrepFilter,
    OpenDiffMenu,
    ToggleHeadBranchMenu,
    ToggleBaseBranchMenu,
    ToggleCommitMenu,
    OpenOptionsMenu,
    ToggleFileSidebar,
    PreviousFile,
    NextFile,
    PreviousHunk,
    NextHunk,
    ExpandContextUp,
    ExpandContextDown,
    CollapseContextAll,
    ToggleLayout,
    EditHunk,
    CopyMarks,
    CopyErrorLog,
    ClearFilters,
    NextDiffType,
    PreviousDiffType,
    NextAnnotation,
    PreviousAnnotation,
}

impl AppAction {
    /// The application action of a global action; saving and cancelling a
    /// mark belong to the annotation draft and have none.
    pub open spec fn from_global_spec(action: GlobalAction) -> Option<AppAction> {
        match action {
            GlobalAction::Quit => Some(AppAction::Quit),
            GlobalAction::Help => Some(AppAction::ToggleHelp),
            GlobalAction::Reload => Some(AppAction::Reload),
            GlobalAction::FileFilter => Some(AppAction::OpenFileFilter),
            GlobalAction::Grep => Some(AppAction::OpenGrepFilter),
            GlobalAction::DiffMenu => Some(AppAction::OpenDiffMenu),
            GlobalAction::HeadBranch => Some(AppAction::ToggleHeadBranchMenu),
            GlobalAction::BaseBranch => Some(AppAction::ToggleBaseBranchMenu),
            GlobalAction::CommitPicker => Some(AppAction::ToggleCommitMenu),
            GlobalAction::OptionsMenu => Some(AppAction::OpenOptionsMenu),
            GlobalAction::FileBrowser => Some(AppAction::ToggleFileSidebar),
            GlobalAction::PreviousFile => Some(AppAction::PreviousFile),
            GlobalAction::NextFile => Some(AppAction::NextFile),
            GlobalAction::PreviousHunk => Some(AppAction::PreviousHunk),
            GlobalAction::NextHunk => Some(AppAction::NextHunk),
            GlobalAction::ExpandContextUp => Some(AppAction::ExpandContextUp),
            GlobalAction::ExpandContextDown => Some(AppAction::ExpandContextDown),
            GlobalAction::CollapseContextAll => Some(AppAction::CollapseContextAll),
            GlobalAction::Layout => Some(AppAction::ToggleLayout),
            GlobalAction::EditHunk => Some(AppAction::EditHunk),
            GlobalAction::CopyMarks => Some(AppAction::CopyMarks),
            GlobalAction::CopyErrorLog => Some(AppAction::CopyErrorLog),
            GlobalAction::ClearFilters => Some(AppAction::ClearFilters),
            GlobalAction::NextDiffType => Some(AppAction::NextDiffType),
            GlobalAction::PreviousDiffType => Some(AppAction::PreviousDiffType),
            GlobalAction::NextAnnotation => Some(AppAction::NextAnnotation),
            GlobalAction::PreviousAnnotation => Some(AppAction::PreviousAnnotation),
            GlobalAction::SaveMark => None,
            GlobalAction::CancelMark => None,
        }
    }

    /// The application action of a global action.
    pub fn from_global(action: GlobalAction) -> (r: Option<AppAction>)
        ensures
            r == Self::from_global_spec(action),
    {
        match action {
            GlobalAction::Quit => Some(AppAction::Quit),
            GlobalAction::Help => Some(AppAction::ToggleHelp),
            GlobalAction::Reload => Some(AppAction::Reload),
            GlobalAction::FileFilter => Some(AppAction::OpenFileFilter),
            GlobalAction::Grep => Some(AppAction::OpenGrepFilter),
            GlobalAction::DiffMenu => Some(AppAction::OpenDiffMenu),
            GlobalAction::HeadBranch => Some(AppAction::ToggleHeadBranchMenu),
            GlobalAction::BaseBranch => Some(AppAction::ToggleBaseBranchMenu),
            GlobalAction::CommitPicker => Some(AppAction::ToggleCommitMenu),
            GlobalAction::OptionsMenu => Some(AppAction::OpenOptionsMenu),
            GlobalAction::FileBrowser => Some(AppAction::ToggleFileSidebar),
            GlobalAction::PreviousFile => Some(AppAction::PreviousFile),
            GlobalAction::NextFile => Some(AppAction::NextFile),
            GlobalAction::PreviousHunk => Some(AppAction::PreviousHunk),
            GlobalAction::NextHunk => Some(AppAction::NextHunk),
            GlobalAction::ExpandContextUp => Some(AppAction::ExpandContextUp),
            GlobalAction::ExpandContextDown => Some(AppAction::ExpandContextDown),
            GlobalAction::CollapseContextAll => Some(AppAction::CollapseContextAll),
            GlobalAction::Layout => Some(AppAction::ToggleLayout),
            GlobalAction::EditHunk => Some(AppAction::EditHunk),
            GlobalAction::CopyMarks => Some(AppAction::CopyMarks),
            GlobalAction::CopyErrorLog => Some(AppAction::CopyErrorLog),
            GlobalAction::ClearFilters => Some(AppAction::ClearFilters),
            GlobalAction::NextDiffType => Some(AppAction::NextDiffType),
            GlobalAction::PreviousDiffType => Some(AppAction::PreviousDiffType),
            GlobalAction::NextAnnotation => Some(AppAction::NextAnnotation),
            GlobalAction::PreviousAnnotation => Some(AppAction::PreviousAnnotation),
            GlobalAction::SaveMark | GlobalAction::CancelMark => None,
        }
    }
}

/// The kind of filter a filter input edits.
#[derive(PartialEq, Eq, Structural, Clone, Copy, Debug)]
pub enum DiffFilterKind {
    File,
    Grep,
}

/// The branch pickers.
#[derive(PartialEq, Eq, Structural, Clone, Copy, Debug)]
pub enum BranchMenu {
    Head,
    Base,
}

/// The operation of the application that carries out an action.
#[derive(PartialEq, Eq, Structural, Clone, Copy, Debug)]
pub enum AppCommand {
    ToggleHelpMenu,
    Reload,
    OpenFilterInput(DiffFilterKind),
    OpenDiffMenu,
    ToggleBranchMenu(BranchMenu),
    ToggleCommitMenu,
    OpenOptionsMenu,
    ToggleFileSidebar,
    /// Move the file selection by the given number of files.
    MoveFile(i8),
    PreviousHunk,
    NextHunk,
    /// Expand the context around the focused hunk up (-1) or down (1).
    ExpandContextAroundFocusedHunk(i8),
    CollapseAllContext,
    ToggleLayout,
    OpenFocusedHunkInEditor,
    CopyMarksToTerminalClipboard,
    CopyErrorLogToTerminalClipboard,
    /// Clear all filters and close the filter input.
    ClearAllFilters,
    /// Move to the next (1) or previous (-1) diff choice.
    CycleDiffChoice(i8),
    /// Move to the next (1) or previous (-1) annotation.
    MoveAnnotation(i8),
}

/// The outcome of an action: quit, run an operation and keep going, or
/// leave the key to other handlers.
#[derive(PartialEq, Eq, Structural, Clone, Copy, Debug)]
pub enum AppActionOutcome {
    Quit,
    Run(AppCommand),
    Unhandled,
}

impl AppActionOutcome {
    /// `Some(true)` to quit, `Some(false)` when the action was handled,
    /// `None` when it was not.
    pub open spec fn handled_spec(self) -> Option<bool> {
        match self {
            AppActionOutcome::Quit => Some(true),
            AppActionOutcome::Run(_) => Some(false),
            AppActionOutcome::Unhandled => None,
        }
    }

    /// Whether the action quits (`Some(true)`), was handled (`Some(false)`)
    /// or was not handled (`None`).
    pub fn handled(&self) -> (r: Option<bool>)
        ensures
            r == self.handled_spec(),
    {
        match *self {
            AppActionOutcome::Quit => Some(true),
            AppActionOutcome::Run(_) => Some(false),
            AppActionOutcome::Unhandled => None,
        }
    }
}

/// What each action does; copying the error log is left unhandled when
/// there is no error log.
pub open spec fn app_action_outcome_spec(action: AppAction, has_error_log: bool) -> AppActionOutcome {
    match action {
        AppAction::Quit => AppActionOutcome::Quit,
        AppAction::ToggleHelp => AppActionOutcome::Run(AppCommand::ToggleHelpMenu),
        AppAction::Reload => AppActionOutcome::Run(AppCommand::Reload),
        AppAction::OpenFileFilter => AppActionOutcome::Run(AppCommand::OpenFilterInput(DiffFilterKind::File)),
        AppAction::OpenGrepFilter => AppActionOutcome::Run(AppCommand::OpenFilterInput(DiffFilterKind::Grep)),
        AppAction::OpenDiffMenu => AppActionOutcome::Run(AppCommand::OpenDiffMenu),
        AppAction::ToggleHeadBranchMenu => AppActionOutcome::Run(AppCommand::ToggleBranchMenu(BranchMenu::Head)),
        AppAction::ToggleBaseBranchMenu => AppActionOutcome::Run(AppCommand::ToggleBranchMenu(BranchMenu::Base)),
        AppAction::ToggleCommitMenu => AppActionOutcome::Run(AppCommand::ToggleCommitMenu),
        AppAction::OpenOptionsMenu => AppActionOutcome::Run(AppCommand::OpenOptionsMenu),
        AppAction::ToggleFileSidebar => AppActionOutcome::Run(AppCommand::ToggleFileSidebar),
        AppAction::PreviousFile => AppActionOutcome::Run(AppCommand::MoveFile(-1i8)),
        AppAction::NextFile => AppActionOutcome::Run(AppCommand::MoveFile(1i8)),
        AppAction::PreviousHunk => AppActionOutcome::Run(AppCommand::PreviousHunk),
        AppAction::NextHunk => AppActionOutcome::Run(AppCommand::NextHunk),
        AppAction::ExpandContextUp => AppActionOutcome::Run(AppCommand::ExpandContextAroundFocusedHunk(-1i8)),
        AppAction::ExpandContextDown => AppActionOutcome::Run(AppCommand::ExpandContextAroundFocusedHunk(1i8)),
        AppAction::CollapseContextAll => AppActionOutcome::Run(AppCommand::CollapseAllContext),
        AppAction::ToggleLayout => AppActionOutcome::Run(AppCommand::ToggleLayout),
        AppAction::EditHunk => AppActionOutcome::Run(AppCommand::OpenFocusedHunkInEditor),
        AppAction::CopyMarks => AppActionOutcome::Run(AppCommand::CopyMarksToTerminalClipboard),
        AppAction::CopyErrorLog => if has_error_log {
            AppActionOutcome::Run(AppCommand::CopyErrorLogToTerminalClipboard)
        } else {
            AppActionOutcome::Unhandled
        },
        AppAction::ClearFilters => AppActionOutcome::Run(AppCommand::ClearAllFilters),
        AppAction::NextDiffType => AppActionOutcome::Run(AppCommand::CycleDiffChoice(1i8)),
        AppAction::PreviousDiffType => AppActionOutcome::Run(AppCommand::CycleDiffChoice(-1i8)),
        AppAction::NextAnnotation => AppActionOutcome::Run(AppCommand::MoveAnnotation(1i8)),
        AppAction::PreviousAnnotation => AppActionOutcome::Run(AppCommand::MoveAnnotation(-1i8)),
    }
}

/// Decides what `action` does, given whether an error log is kept.
pub fn app_action_outcome(action: AppAction, has_error_log: bool) -> (r: AppActionOutcome)
    ensures
        r == app_action_outcome_spec(action, has_error_log),
{
    match action {
        AppAction::Quit => AppActionOutcome::Quit,
        AppAction::ToggleHelp => AppActionOutcome::Run(AppCommand::ToggleHelpMenu),
        AppAction::Reload => AppActionOutcome::Run(AppCommand::Reload),
        AppAction::OpenFileFilter => AppActionOutcome::Run(AppCommand::OpenFilterInput(DiffFilterKind::File)),
        AppAction::OpenGrepFilter => AppActionOutcome::Run(AppCommand::OpenFilterInput(DiffFilterKind::Grep)),
        AppAction::OpenDiffMenu => AppActionOutcome::Run(AppCommand::OpenDiffMenu),
        AppAction::ToggleHeadBranchMenu => AppActionOutcome::Run(AppCommand::ToggleBranchMenu(BranchMenu::Head)),
        AppAction::ToggleBaseBranchMenu => AppActionOutcome::Run(AppCommand::ToggleBranchMenu(BranchMenu::Base)),
        AppAction::ToggleCommitMenu => AppActionOutcome::Run(AppCommand::ToggleCommitMenu),
        AppAction::OpenOptionsMenu => AppActionOutcome::Run(AppCommand::OpenOptionsMenu),
        AppAction::ToggleFileSidebar => AppActionOutcome::Run(AppCommand::ToggleFileSidebar),
        AppAction::PreviousFile => AppActionOutcome::Run(AppCommand::MoveFile(-1i8)),
        AppAction::NextFile => AppActionOutcome::Run(AppCommand::MoveFile(1i8)),
        AppAction::PreviousHunk => AppActionOutcome::Run(AppCommand::PreviousHunk),
        AppAction::NextHunk => AppActionOutcome::Run(AppCommand::NextHunk),
        AppAction::ExpandContextUp => AppActionOutcome::Run(AppCommand::ExpandContextAroundFocusedHunk(-1i8)),
        AppAction::ExpandContextDown => AppActionOutcome::Run(AppCommand::ExpandContextAroundFocusedHunk(1i8)),
        AppAction::CollapseContextAll => AppActionOutcome::Run(AppCommand::CollapseAllContext),
        AppAction::ToggleLayout => AppActionOutcome::Run(AppCommand::ToggleLayout),
        AppAction::EditHunk => AppActionOutcome::Run(AppCommand::OpenFocusedHunkInEditor),
        AppAction::CopyMarks => AppActionOutcome::Run(AppCommand::CopyMarksToTerminalClipboard),
        AppAction::CopyErrorLog => {
            if has_error_log {
                AppActionOutcome::Run(AppCommand::CopyErrorLogToTerminalClipboard)
            } else {
                AppActionOutcome::Unhandled
            }
        },
        AppAction::ClearFilters => AppActionOutcome::Run(AppCommand::ClearAllFilters),
        AppAction::NextDiffType => AppActionOutcome::Run(AppCommand::CycleDiffChoice(1i8)),
        AppAction::PreviousDiffType => AppActionOutcome::Run(AppCommand::CycleDiffChoice(-1i8)),
        AppAction::NextAnnotation => AppActionOutcome::Run(AppCommand::MoveAnnotation(1i8)),
        AppAction::PreviousAnnotation => AppActionOutcome::Run(AppCommand::MoveAnnotation(-1i8)),
    }
}

} // verus!

use vstd::prelude::*;
use crate::keys::{KeyCode, KeyEvent, KeyModifiers};
use crate::strings::{chars_eq_str, chars_to_string, concat, owned, str_chars};

verus! {

/// The actions that global key bindings trigger, in the order of the
/// binding table.
#[derive(Debug, Clone, Copy, PartialEq, Eq, Structural)]
pub enum GlobalAction {
    Help,
    Reload,
    FileFilter,
    Grep,
    DiffMenu,
    HeadBranch,
    BaseBranch,
    CommitPicker,
    OptionsMenu,
    FileBrowser,
    PreviousFile,
    NextFile,
    PreviousHunk,
    NextHunk,
    ExpandContextUp,
    ExpandContextDown,
    CollapseContextAll,
    Quit,
    Layout,
    EditHunk,
    SaveMark,
    CancelMark,
    CopyMarks,
    CopyErrorLog,
    ClearFilters,
    NextDiffType,
    PreviousDiffType,
    NextAnnotation,
    PreviousAnnotation,
}

/// The actions that key bindings trigger inside menus.
#[derive(Debug, Clone, Copy, PartialEq, Eq, Structural)]
pub enum MenuAction {
    Up,
    Down,
    Select,
    Confirm,
    Close,
}

/// The number of global actions.
pub const GLOBAL_ACTION_COUNT: usize = 29;

/// The number of menu actions.
pub const MENU_ACTION_COUNT: usize = 5;

/// The position of a global action in the binding table.
pub open spec fn global_action_index_spec(action: GlobalAction) -> int {
    match action {
        GlobalAction::Help => 0,
        GlobalAction::Reload => 1,
        GlobalAction::FileFilter => 2,
        GlobalAction::Grep => 3,
        GlobalAction::DiffMenu => 4,
        GlobalAction::HeadBranch => 5,
        GlobalAction::BaseBranch => 6,
        GlobalAction::CommitPicker => 7,
        GlobalAction::OptionsMenu => 8,
        GlobalAction::FileBrowser => 9,
        GlobalAction::PreviousFile => 10,
        GlobalAction::NextFile => 11,
        GlobalAction::PreviousHunk => 12,
        GlobalAction::NextHunk => 13,
        GlobalAction::ExpandContextUp => 14,
        GlobalAction::ExpandContextDown => 15,
        GlobalAction::CollapseContextAll => 16,
        GlobalAction::Quit => 17,
        GlobalAction::Layout => 18,
        GlobalAction::EditHunk => 19,
        GlobalAction::SaveMark => 20,
        GlobalAction::CancelMark => 21,
        GlobalAction::CopyMarks => 22,
        GlobalAction::CopyErrorLog => 23,
        GlobalAction::ClearFilters => 24,
        GlobalAction::NextDiffType => 25,
        GlobalAction::PreviousDiffType => 26,
        GlobalAction::NextAnnotation => 27,
        GlobalAction::PreviousAnnotation => 28,
    }
}

/// The global action at a position of the binding table.
pub open spec fn global_action_at_spec(index: int) -> GlobalAction {
    if index == 0 {
        GlobalAction::Help
    } else if index == 1 {
        GlobalAction::Reload
    } else if index == 2 {
        GlobalAction::FileFilter
    } else if index == 3 {
        GlobalAction::Grep
    } else if index == 4 {
        GlobalAction::DiffMenu
    } else if index == 5 {
        GlobalAction::HeadBranch
    } else if index == 6 {
        GlobalAction::BaseBranch
    } else if index == 7 {
        GlobalAction::CommitPicker
    } else if index == 8 {
        GlobalAction::OptionsMenu
    } else if index == 9 {
        GlobalAction::FileBrowser
    } else if index == 10 {
        GlobalAction::PreviousFile
    } else if index == 11 {
        GlobalAction::NextFile
    } else if index == 12 {
        GlobalAction::PreviousHunk
    } else if index == 13 {
        GlobalAction::NextHunk
    } else if index == 14 {
        GlobalAction::ExpandContextUp
    } else if index == 15 {
        GlobalAction::ExpandContextDown
    } else if index == 16 {
        GlobalAction::CollapseContextAll
    } else if index == 17 {
        GlobalAction::Quit
    } else if index == 18 {
        GlobalAction::Layout
    } else if index == 19 {
        GlobalAction::EditHunk
    } else if index == 20 {
        GlobalAction::SaveMark
    } else if index == 21 {
        GlobalAction::CancelMark
    } else if index == 22 {
        GlobalAction::CopyMarks
    } else if index == 23 {
        GlobalAction::CopyErrorLog
    } else if index == 24 {
        GlobalAction::ClearFilters
    } else if index == 25 {
        GlobalAction::NextDiffType
    } else if index == 26 {
        GlobalAction::PreviousDiffType
    } else if index == 27 {
        GlobalAction::NextAnnotation
    } else {
        GlobalAction::PreviousAnnotation
    }
}

/// The position of a menu action in the binding table.
pub open spec fn menu_action_index_spec(action: MenuAction) -> int {
    match action {
        MenuAction::Up => 0,
        MenuAction::Down => 1,
        MenuAction::Select => 2,
        MenuAction::Confirm => 3,
        MenuAction::Close => 4,
    }
}

/// The menu action at a position of the binding table.
pub open spec fn menu_action_at_spec(index: int) -> MenuAction {
    if index == 0 {
        MenuAction::Up
    } else if index == 1 {
        MenuAction::Down
    } else if index == 2 {
        MenuAction::Select
    } else if index == 3 {
        MenuAction::Confirm
    } else {
        MenuAction::Close
    }
}

/// The position of a global action in the binding table.
pub fn global_action_index(action: GlobalAction) -> (r: usize)
    ensures
        r == global_action_index_spec(action),
        r < GLOBAL_ACTION_COUNT,
        global_action_at_spec(r as int) == action,
{
    match action {
        GlobalAction::Help => 0,
        GlobalAction::Reload => 1,
        GlobalAction::FileFilter => 2,
        GlobalAction::Grep => 3,
        GlobalAction::DiffMenu => 4,
        GlobalAction::HeadBranch => 5,
        GlobalAction::BaseBranch => 6,
        GlobalAction::CommitPicker => 7,
        GlobalAction::OptionsMenu => 8,
        GlobalAction::FileBrowser => 9,
        GlobalAction::PreviousFile => 10,
        GlobalAction::NextFile => 11,
        GlobalAction::PreviousHunk => 12,
        GlobalAction::NextHunk => 13,
        GlobalAction::ExpandContextUp => 14,
        GlobalAction::ExpandContextDown => 15,
        GlobalAction::CollapseContextAll => 16,
        GlobalAction::Quit => 17,
        GlobalAction::Layout => 18,
        GlobalAction::EditHunk => 19,
        GlobalAction::SaveMark => 20,
        GlobalAction::CancelMark => 21,
        GlobalAction::CopyMarks => 22,
        GlobalAction::CopyErrorLog => 23,
        GlobalAction::ClearFilters => 24,
        GlobalAction::NextDiffType => 25,
        GlobalAction::PreviousDiffType => 26,
        GlobalAction::NextAnnotation => 27,
        GlobalAction::PreviousAnnotation => 28,
    }
}

/// The global action at a position of the binding table.
pub fn global_action_at(index: usize) -> (r: GlobalAction)
    requires
        index < GLOBAL_ACTION_COUNT,
    ensures
        r == global_action_at_spec(index as int),
        global_action_index_spec(r) == index,
{
    if index == 0 {
        GlobalAction::Help
    } else if index == 1 {
        GlobalAction::Reload
    } else if index == 2 {
        GlobalAction::FileFilter
    } else if index == 3 {
        GlobalAction::Grep
    } else if index == 4 {
        GlobalAction::DiffMenu
    } else if index == 5 {
        GlobalAction::HeadBranch
    } else if index == 6 {
        GlobalAction::BaseBranch
    } else if index == 7 {
        GlobalAction::CommitPicker
    } else if index == 8 {
        GlobalAction::OptionsMenu
    } else if index == 9 {
        GlobalAction::FileBrowser
    } else if index == 10 {
        GlobalAction::PreviousFile
    } else if index == 11 {
        GlobalAction::NextFile
    } else if index == 12 {
        GlobalAction::PreviousHunk
    } else if index == 13 {
        GlobalAction::NextHunk
    } else if index == 14 {
        GlobalAction::ExpandContextUp
    } else if index == 15 {
        GlobalAction::ExpandContextDown
    } else if index == 16 {
        GlobalAction::CollapseContextAll
    } else if index == 17 {
        GlobalAction::Quit
    } else if index == 18 {
        GlobalAction::Layout
    } else if index == 19 {
        GlobalAction::EditHunk
    } else if index == 20 {
        GlobalAction::SaveMark
    } else if index == 21 {
        GlobalAction::CancelMark
    } else if index == 22 {
        GlobalAction::CopyMarks
    } else if index == 23 {
        GlobalAction::CopyErrorLog
    } else if index == 24 {
        GlobalAction::ClearFilters
    } else if index == 25 {
        GlobalAction::NextDiffType
    } else if index == 26 {
        GlobalAction::PreviousDiffType
    } else if index == 27 {
        GlobalAction::NextAnnotation
    } else {
        GlobalAction::PreviousAnnotation
    }
}

/// The position of a menu action in the binding table.
pub fn menu_action_index(action: MenuAction) -> (r: usize)
    ensures
        r == menu_action_index_spec(action),
        r < MENU_ACTION_COUNT,
        menu_action_at_spec(r as int) == action,
{
    match action {
        MenuAction::Up => 0,
        MenuAction::Down => 1,
        MenuAction::Select => 2,
        MenuAction::Confirm => 3,
        MenuAction::Close => 4,
    }
}

/// The menu action at a position of the binding table.
pub fn menu_action_at(index: usize) -> (r: MenuAction)
    requires
        index < MENU_ACTION_COUNT,
    ensures
        r == menu_action_at_spec(index as int),
        menu_action_index_spec(r) == index,
{
    if index == 0 {
        MenuAction::Up
    } else if index == 1 {
        MenuAction::Down
    } else if index == 2 {
        MenuAction::Select
    } else if index == 3 {
        MenuAction::Confirm
    } else {
        MenuAction::Close
    }
}

/// The configuration name of a global action, as written in the settings
/// file.
pub fn global_action_name(action: GlobalAction) -> (r: &'static str)
    ensures
        r@ == global_action_name_spec(action),
{
    match action {
        GlobalAction::Help => "help",
        GlobalAction::Reload => "reload",
        GlobalAction::FileFilter => "file_filter",
        GlobalAction::Grep => "grep",
        GlobalAction::DiffMenu => "diff_menu",
        GlobalAction::HeadBranch => "head_branch",
        GlobalAction::BaseBranch => "base_branch",
        GlobalAction::CommitPicker => "commit_picker",
        GlobalAction::OptionsMenu => "options_menu",
        GlobalAction::FileBrowser => "file_browser",
        GlobalAction::PreviousFile => "previous_file",
        GlobalAction::NextFile => "next_file",
        GlobalAction::PreviousHunk => "previous_hunk",
        GlobalAction::NextHunk => "next_hunk",
        GlobalAction::ExpandContextUp => "expand_context_up",
        GlobalAction::ExpandContextDown => "expand_context_down",
        GlobalAction::CollapseContextAll => "collapse_context_all",
        GlobalAction::Quit => "quit",
        GlobalAction::Layout => "layout",
        GlobalAction::EditHunk => "edit_hunk",
        GlobalAction::SaveMark => "save_mark",
        GlobalAction::CancelMark => "cancel_mark",
        GlobalAction::CopyMarks => "copy_marks",
        GlobalAction::CopyErrorLog => "copy_error_log",
        GlobalAction::ClearFilters => "clear_filters",
        GlobalAction::NextDiffType => "next_diff_type",
        GlobalAction::PreviousDiffType => "previous_diff_type",
        GlobalAction::NextAnnotation => "next_annotation",
        GlobalAction::PreviousAnnotation => "previous_annotation",
    }
}

/// The configuration name of a global action.
pub open spec fn global_action_name_spec(action: GlobalAction) -> Seq<char> {
    match action {
        GlobalAction::Help => "help"@,
        GlobalAction::Reload => "reload"@,
        GlobalAction::FileFilter => "file_filter"@,
        GlobalAction::Grep => "grep"@,
        GlobalAction::DiffMenu => "diff_menu"@,
        GlobalAction::HeadBranch => "head_branch"@,
        GlobalAction::BaseBranch => "base_branch"@,
        GlobalAction::CommitPicker => "commit_picker"@,
        GlobalAction::OptionsMenu => "options_menu"@,
        GlobalAction::FileBrowser => "file_browser"@,
        GlobalAction::PreviousFile => "previous_file"@,
        GlobalAction::NextFile => "next_file"@,
        GlobalAction::PreviousHunk => "previous_hunk"@,
        GlobalAction::NextHunk => "next_hunk"@,
        GlobalAction::ExpandContextUp => "expand_context_up"@,
        GlobalAction::ExpandContextDown => "expand_context_down"@,
        GlobalAction::CollapseContextAll => "collapse_context_all"@,
        GlobalAction::Quit => "quit"@,
        GlobalAction::Layout => "layout"@,
        GlobalAction::EditHunk => "edit_hunk"@,
        GlobalAction::SaveMark => "save_mark"@,
        GlobalAction::CancelMark => "cancel_mark"@,
        GlobalAction::CopyMarks => "copy_marks"@,
        GlobalAction::CopyErrorLog => "copy_error_log"@,
        GlobalAction::ClearFilters => "clear_filters"@,
        GlobalAction::NextDiffType => "next_diff_type"@,
        GlobalAction::PreviousDiffType => "previous_diff_type"@,
        GlobalAction::NextAnnotation => "next_annotation"@,
        GlobalAction::PreviousAnnotation => "previous_annotation"@,
    }
}

/// The configuration name of a menu action.
pub fn menu_action_name(action: MenuAction) -> (r: &'static str)
    ensures
        r@ == menu_action_name_spec(action),
{
    match action {
        MenuAction::Up => "up",
        MenuAction::Down => "down",
        MenuAction::Select => "select",
        MenuAction::Confirm => "confirm",
        MenuAction::Close => "close",
    }
}

/// The configuration name of a menu action.
pub open spec fn menu_action_name_spec(action: MenuAction) -> Seq<char> {
    match action {
        MenuAction::Up => "up"@,
        MenuAction::Down => "down"@,
        MenuAction::Select => "select"@,
        MenuAction::Confirm => "confirm"@,
        MenuAction::Close => "close"@,
    }
}


/// True for the ASCII letters.
pub open spec fn is_ascii_alphabetic(c: char) -> bool {
    ('a' <= c <= 'z') || ('A' <= c <= 'Z')
}

/// True for the ASCII capital letters.
pub open spec fn is_ascii_uppercase(c: char) -> bool {
    'A' <= c <= 'Z'
}

/// The capital form of an ASCII lowercase letter; other characters are kept.
pub open spec fn to_ascii_uppercase(c: char) -> char {
    if 'a' <= c <= 'z' {
        ((c as u32) - 32) as char
    } else {
        c
    }
}

/// The lowercase form of an ASCII capital letter; other characters are kept.
pub open spec fn to_ascii_lowercase(c: char) -> char {
    if 'A' <= c <= 'Z' {
        ((c as u32) + 32) as char
    } else {
        c
    }
}

/// The capital form of an ASCII lowercase letter.
pub fn ascii_uppercase(c: char) -> (r: char)
    ensures
        r == to_ascii_uppercase(c),
{
    if 'a' <= c && c <= 'z' {
        ((c as u8) - 32) as char
    } else {
        c
    }
}

/// The lowercase form of an ASCII capital letter.
pub fn ascii_lowercase(c: char) -> (r: char)
    ensures
        r == to_ascii_lowercase(c),
{
    if 'A' <= c && c <= 'Z' {
        ((c as u8) + 32) as char
    } else {
        c
    }
}

/// A key press in the form bindings compare: letters typed with Shift are
/// stored as capitals, and Shift is dropped where the key itself carries it
/// (characters and Shift-Tab).
#[derive(Debug, Clone, Copy, PartialEq, Eq, Structural)]
pub struct KeyPress {
    pub code: KeyCode,
    pub modifiers: KeyModifiers,
}

/// Shift is dropped for characters and for Shift-Tab, whose key already
/// reflects it.
pub open spec fn normalize_modifiers_spec(code: KeyCode, modifiers: KeyModifiers) -> KeyModifiers {
    if code is Char || code is BackTab {
        KeyModifiers { shift: false, ..modifiers }
    } else {
        modifiers
    }
}

/// The normalized key press for `code` with `modifiers` held.
pub open spec fn key_press_spec(code: KeyCode, modifiers: KeyModifiers) -> KeyPress {
    let code = match code {
        KeyCode::Char(c) => if modifiers.shift && is_ascii_alphabetic(c) {
            KeyCode::Char(to_ascii_uppercase(c))
        } else {
            code
        },
        _ => code,
    };
    KeyPress { code, modifiers: normalize_modifiers_spec(code, modifiers) }
}

/// Drops Shift for characters and Shift-Tab.
pub fn normalize_modifiers(code: KeyCode, modifiers: KeyModifiers) -> (r: KeyModifiers)
    ensures
        r == normalize_modifiers_spec(code, modifiers),
{
    let mut modifiers = modifiers;
    if let KeyCode::Char(_) = code {
        modifiers.shift = false;
    }
    if let KeyCode::BackTab = code {
        modifiers.shift = false;
    }
    modifiers
}

impl KeyPress {
    /// Normalizes a key press: a letter typed with Shift becomes its
    /// capital, then Shift is dropped for characters and Shift-Tab.
    pub fn new(code: KeyCode, modifiers: KeyModifiers) -> (r: KeyPress)
        ensures
            r == key_press_spec(code, modifiers),
    {
        let mut code = code;
        if modifiers.shift {
            if let KeyCode::Char(character) = code {
                if ('a' <= character && character <= 'z') || ('A' <= character && character
                    <= 'Z') {
                    code = KeyCode::Char(ascii_uppercase(character));
                }
            }
        }
        KeyPress { code, modifiers: normalize_modifiers(code, modifiers) }
    }
}

impl From<KeyEvent> for KeyPress {
    fn from(key: KeyEvent) -> (r: KeyPress) {
        KeyPress::new(key.code, key.modifiers)
    }
}

impl vstd::std_specs::convert::FromSpecImpl<KeyEvent> for KeyPress {
    open spec fn obeys_from_spec() -> bool {
        true
    }

    open spec fn from_spec(v: KeyEvent) -> KeyPress {
        key_press_spec(v.code, v.modifiers)
    }
}


/// True for characters with the Unicode White_Space property.
pub open spec fn is_whitespace_char(c: char) -> bool {
    ||| ('\u{9}' <= c <= '\u{d}')
    ||| c == ' '
    ||| c == '\u{85}'
    ||| c == '\u{a0}'
    ||| c == '\u{1680}'
    ||| ('\u{2000}' <= c <= '\u{200a}')
    ||| c == '\u{2028}'
    ||| c == '\u{2029}'
    ||| c == '\u{202f}'
    ||| c == '\u{205f}'
    ||| c == '\u{3000}'
}

/// The index of the first non-whitespace character at or after `i`.
pub open spec fn trim_start_index(s: Seq<char>, i: int) -> int
    decreases s.len() - i,
{
    if 0 <= i < s.len() && is_whitespace_char(s[i]) {
        trim_start_index(s, i + 1)
    } else {
        i
    }
}

/// The index just past the last non-whitespace character before `j`, not
/// going below `lo`.
pub open spec fn trim_end_index(s: Seq<char>, lo: int, j: int) -> int
    decreases j,
{
    if 0 <= lo < j <= s.len() && is_whitespace_char(s[j - 1]) {
        trim_end_index(s, lo, j - 1)
    } else {
        j
    }
}

/// `s` without leading and trailing whitespace.
pub open spec fn trimmed(s: Seq<char>) -> Seq<char> {
    let a = trim_start_index(s, 0);
    s.subrange(a, trim_end_index(s, a, s.len() as int))
}

/// `s` with its ASCII capitals made lowercase.
pub open spec fn lowercased(s: Seq<char>) -> Seq<char> {
    Seq::new(s.len(), |i: int| to_ascii_lowercase(s[i]))
}

/// True when `s` begins with `p`.
pub open spec fn starts_with(s: Seq<char>, p: Seq<char>) -> bool {
    p.len() <= s.len() && s.subrange(0, p.len() as int) == p
}

/// No modifier held.
pub open spec fn no_modifiers() -> KeyModifiers {
    KeyModifiers { shift: false, control: false, alt: false, super_key: false, hyper: false, meta: false }
}

/// Removes leading modifier prefixes (`ctrl-`, `ctrl+`, `c-`, `c+`, `alt-`,
/// `alt+`, `a-`, `a+`, `shift-`, `shift+`, `s-`, `s+`) from a lowercase key
/// name, collecting the modifiers they name.
pub open spec fn strip_modifier_prefixes(key: Seq<char>, m: KeyModifiers) -> (Seq<char>, KeyModifiers)
    decreases key.len(),
{
    if "ctrl-"@.len() > 0 && starts_with(key, "ctrl-"@) {
        strip_modifier_prefixes(key.skip("ctrl-"@.len() as int), KeyModifiers { control: true, ..m })
    } else if "ctrl+"@.len() > 0 && starts_with(key, "ctrl+"@) {
        strip_modifier_prefixes(key.skip("ctrl+"@.len() as int), KeyModifiers { control: true, ..m })
    } else if "c-"@.len() > 0 && starts_with(key, "c-"@) {
        strip_modifier_prefixes(key.skip("c-"@.len() as int), KeyModifiers { control: true, ..m })
    } else if "c+"@.len() > 0 && starts_with(key, "c+"@) {
        strip_modifier_prefixes(key.skip("c+"@.len() as int), KeyModifiers { control: true, ..m })
    } else if "alt-"@.len() > 0 && starts_with(key, "alt-"@) {
        strip_modifier_prefixes(key.skip("alt-"@.len() as int), KeyModifiers { alt: true, ..m })
    } else if "alt+"@.len() > 0 && starts_with(key, "alt+"@) {
        strip_modifier_prefixes(key.skip("alt+"@.len() as int), KeyModifiers { alt: true, ..m })
    } else if "a-"@.len() > 0 && starts_with(key, "a-"@) {
        strip_modifier_prefixes(key.skip("a-"@.len() as int), KeyModifiers { alt: true, ..m })
    } else if "a+"@.len() > 0 && starts_with(key, "a+"@) {
        strip_modifier_prefixes(key.skip("a+"@.len() as int), KeyModifiers { alt: true, ..m })
    } else if "shift-"@.len() > 0 && starts_with(key, "shift-"@) {
        strip_modifier_prefixes(key.skip("shift-"@.len() as int), KeyModifiers { shift: true, ..m })
    } else if "shift+"@.len() > 0 && starts_with(key, "shift+"@) {
        strip_modifier_prefixes(key.skip("shift+"@.len() as int), KeyModifiers { shift: true, ..m })
    } else if "s-"@.len() > 0 && starts_with(key, "s-"@) {
        strip_modifier_prefixes(key.skip("s-"@.len() as int), KeyModifiers { shift: true, ..m })
    } else if "s+"@.len() > 0 && starts_with(key, "s+"@) {
        strip_modifier_prefixes(key.skip("s+"@.len() as int), KeyModifiers { shift: true, ..m })
    } else {
        (key, m)
    }
}

/// The key that a lowercase key name denotes, with Shift folded into
/// Shift-Tab.
pub open spec fn named_key(key: Seq<char>, m: KeyModifiers) -> Option<(KeyCode, KeyModifiers)> {
    if key == "space"@ {
        Some((KeyCode::Char(' '), m))
    } else if key == "enter"@ {
        Some((KeyCode::Enter, m))
    } else if key == "return"@ {
        Some((KeyCode::Enter, m))
    } else if key == "esc"@ {
        Some((KeyCode::Esc, m))
    } else if key == "escape"@ {
        Some((KeyCode::Esc, m))
    } else if key == "tab"@ && m.shift {
        Some((KeyCode::BackTab, KeyModifiers { shift: false, ..m }))
    } else if key == "tab"@ {
        Some((KeyCode::Tab, m))
    } else if key == "backtab"@ {
        Some((KeyCode::BackTab, m))
    } else if key == "up"@ {
        Some((KeyCode::Up, m))
    } else if key == "down"@ {
        Some((KeyCode::Down, m))
    } else if key == "left"@ {
        Some((KeyCode::Left, m))
    } else if key == "right"@ {
        Some((KeyCode::Right, m))
    } else if key == "home"@ {
        Some((KeyCode::Home, m))
    } else if key == "end"@ {
        Some((KeyCode::End, m))
    } else if key == "pageup"@ {
        Some((KeyCode::PageUp, m))
    } else if key == "page-up"@ {
        Some((KeyCode::PageUp, m))
    } else if key == "pgup"@ {
        Some((KeyCode::PageUp, m))
    } else if key == "pagedown"@ {
        Some((KeyCode::PageDown, m))
    } else if key == "page-down"@ {
        Some((KeyCode::PageDown, m))
    } else if key == "pgdn"@ {
        Some((KeyCode::PageDown, m))
    } else if key == "backspace"@ {
        Some((KeyCode::Backspace, m))
    } else if key == "bs"@ {
        Some((KeyCode::Backspace, m))
    } else {
        None
    }
}

/// The key press that a key name such as `ctrl-s`, `shift-tab`, `space` or
/// `Q` denotes, or an error message.
pub open spec fn parse_key_press_spec(input: Seq<char>) -> Result<KeyPress, Seq<char>> {
    let t = trimmed(input);
    if t.len() == 0 {
        Err("empty key"@)
    } else {
        let (key, m) = strip_modifier_prefixes(lowercased(t), no_modifiers());
        match named_key(key, m) {
            Some((code, m2)) => Ok(key_press_spec(code, m2)),
            None => {
                let source = if m.spec_is_empty() {
                    t
                } else {
                    key
                };
                if source.len() == 0 {
                    Err("empty key"@)
                } else if source.len() > 1 {
                    Err("unknown key `"@ + t + "`"@)
                } else {
                    let c = source[0];
                    let c = if m.shift && is_ascii_alphabetic(c) {
                        to_ascii_uppercase(c)
                    } else {
                        c
                    };
                    Ok(key_press_spec(KeyCode::Char(c), m))
                }
            },
        }
    }
}

fn is_whitespace_char_exec(c: char) -> (r: bool)
    ensures
        r == is_whitespace_char(c),
{
    ('\u{9}' <= c && c <= '\u{d}') || c == ' ' || c == '\u{85}' || c == '\u{a0}' || c == '\u{1680}'
        || ('\u{2000}' <= c && c <= '\u{200a}') || c == '\u{2028}' || c == '\u{2029}' || c
        == '\u{202f}' || c == '\u{205f}' || c == '\u{3000}'
}

/// The characters of `s` without leading and trailing whitespace.
pub fn trim_chars(s: &[char]) -> (r: Vec<char>)
    ensures
        r@ == trimmed(s@),
{
    let mut a: usize = 0;
    while a < s.len() && is_whitespace_char_exec(s[a])
        invariant
            a <= s@.len(),
            trim_start_index(s@, 0) == trim_start_index(s@, a as int),
        decreases s@.len() - a,
    {
        a = a + 1;
    }
    let mut b: usize = s.len();
    while b > a && is_whitespace_char_exec(s[b - 1])
        invariant
            a <= b <= s@.len(),
            trim_start_index(s@, 0) == a,
            trim_end_index(s@, a as int, s@.len() as int) == trim_end_index(s@, a as int, b as int),
        decreases b,
    {
        b = b - 1;
    }
    let mut out: Vec<char> = Vec::new();
    let mut k = a;
    while k < b
        invariant
            a <= k <= b <= s@.len(),
            out@ == s@.subrange(a as int, k as int),
        decreases b - k,
    {
        out.push(s[k]);
        assert(out@ =~= s@.subrange(a as int, k + 1));
        k = k + 1;
    }
    out
}

/// `s` with its ASCII capitals made lowercase.
pub fn lowercase_chars(s: &[char]) -> (r: Vec<char>)
    ensures
        r@ == lowercased(s@),
{
    let mut out: Vec<char> = Vec::new();
    let mut k: usize = 0;
    while k < s.len()
        invariant
            k <= s@.len(),
            out@ == lowercased(s@).subrange(0, k as int),
        decreases s@.len() - k,
    {
        out.push(ascii_lowercase(s[k]));
        assert(out@ =~= lowercased(s@).subrange(0, k + 1));
        k = k + 1;
    }
    assert(out@ =~= lowercased(s@));
    out
}

/// The length of `p` when the characters of `s` from `start` on begin
/// with it.
fn prefix_len_at(s: &Vec<char>, start: usize, p: &str) -> (r: Option<usize>)
    requires
        start <= s@.len(),
    ensures
        r is Some == starts_with(s@.skip(start as int), p@),
        r matches Some(n) ==> n == p@.len() && start + n <= s@.len(),
{
    let pc = str_chars(p);
    if pc.len() > s.len() - start {
        return None;
    }
    let sl = s.len();
    let mut k: usize = 0;
    while k < pc.len()
        invariant
            sl == s@.len(),
            k <= pc@.len(),
            pc@ == p@,
            start + pc@.len() <= s@.len(),
            forall|m: int| 0 <= m < k ==> s@[start + m] == pc@[m],
        decreases pc@.len() - k,
    {
        if s[start + k] != pc[k] {
            assert(s@.skip(start as int).subrange(0, pc@.len() as int)[k as int] != p@[k as int]);
            return None;
        }
        k = k + 1;
    }
    assert(s@.skip(start as int).subrange(0, pc@.len() as int) =~= p@);
    Some(pc.len())
}

fn named_key_exec(key: &[char], m: KeyModifiers) -> (r: Option<(KeyCode, KeyModifiers)>)
    ensures
        r == named_key(key@, m),
{
    if chars_eq_str(key, "space") {
        Some((KeyCode::Char(' '), m))
    } else if chars_eq_str(key, "enter") {
        Some((KeyCode::Enter, m))
    } else if chars_eq_str(key, "return") {
        Some((KeyCode::Enter, m))
    } else if chars_eq_str(key, "esc") {
        Some((KeyCode::Esc, m))
    } else if chars_eq_str(key, "escape") {
        Some((KeyCode::Esc, m))
    } else if chars_eq_str(key, "tab") && m.shift {
        let mut m2 = m;
        m2.shift = false;
        Some((KeyCode::BackTab, m2))
    } else if chars_eq_str(key, "tab") {
        Some((KeyCode::Tab, m))
    } else if chars_eq_str(key, "backtab") {
        Some((KeyCode::BackTab, m))
    } else if chars_eq_str(key, "up") {
        Some((KeyCode::Up, m))
    } else if chars_eq_str(key, "down") {
        Some((KeyCode::Down, m))
    } else if chars_eq_str(key, "left") {
        Some((KeyCode::Left, m))
    } else if chars_eq_str(key, "right") {
        Some((KeyCode::Right, m))
    } else if chars_eq_str(key, "home") {
        Some((KeyCode::Home, m))
    } else if chars_eq_str(key, "end") {
        Some((KeyCode::End, m))
    } else if chars_eq_str(key, "pageup") {
        Some((KeyCode::PageUp, m))
    } else if chars_eq_str(key, "page-up") {
        Some((KeyCode::PageUp, m))
    } else if chars_eq_str(key, "pgup") {
        Some((KeyCode::PageUp, m))
    } else if chars_eq_str(key, "pagedown") {
        Some((KeyCode::PageDown, m))
    } else if chars_eq_str(key, "page-down") {
        Some((KeyCode::PageDown, m))
    } else if chars_eq_str(key, "pgdn") {
        Some((KeyCode::PageDown, m))
    } else if chars_eq_str(key, "backspace") {
        Some((KeyCode::Backspace, m))
    } else if chars_eq_str(key, "bs") {
        Some((KeyCode::Backspace, m))
    } else {
        None
    }
}

/// Parses one key name such as `ctrl-s`, `Alt+x`, `shift-tab`, `space`,
/// `esc` or `Q`: surrounding whitespace is ignored, names and modifier
/// prefixes are case-insensitive, and a single character keeps its case
/// unless a modifier is given (Shift then makes letters capitals).
pub fn parse_key_press(input: &str) -> (r: Result<KeyPress, String>)
    ensures
        match r {
            Ok(k) => parse_key_press_spec(input@) == Ok::<KeyPress, Seq<char>>(k),
            Err(e) => parse_key_press_spec(input@) == Err::<KeyPress, Seq<char>>(e@),
        },
{
    let raw = str_chars(input);
    parse_key_press_chars(raw.as_slice())
}

/// `parse_key_press` on the characters of a key name.
pub fn parse_key_press_chars(raw: &[char]) -> (r: Result<KeyPress, String>)
    ensures
        match r {
            Ok(k) => parse_key_press_spec(raw@) == Ok::<KeyPress, Seq<char>>(k),
            Err(e) => parse_key_press_spec(raw@) == Err::<KeyPress, Seq<char>>(e@),
        },
{
    let t = trim_chars(raw);
    if t.len() == 0 {
        return Err(owned("empty key"));
    }
    let key = lowercase_chars(t.as_slice());
    let mut m = KeyModifiers::none();
    let mut start: usize = 0;
    let kl = key.len();
    proof {
        reveal_strlit("ctrl-");
        reveal_strlit("ctrl+");
        reveal_strlit("c-");
        reveal_strlit("c+");
        reveal_strlit("alt-");
        reveal_strlit("alt+");
        reveal_strlit("a-");
        reveal_strlit("a+");
        reveal_strlit("shift-");
        reveal_strlit("shift+");
        reveal_strlit("s-");
        reveal_strlit("s+");
        assert(key@.skip(0) =~= key@);
    }
    loop
        invariant
            kl == key@.len(),
            start <= key@.len(),
            strip_modifier_prefixes(lowercased(t@), no_modifiers()) == strip_modifier_prefixes(
                key@.skip(start as int),
                m,
            ),
            !m.super_key && !m.hyper && !m.meta,
        ensures
            start <= key@.len(),
            strip_modifier_prefixes(lowercased(t@), no_modifiers()) == (key@.skip(start as int), m),
            !m.super_key && !m.hyper && !m.meta,
        decreases key@.len() - start,
    {
        if let Some(n) = prefix_len_at(&key, start, "ctrl-") {
            proof {
                reveal_strlit("ctrl-");
                assert(key@.skip(start as int).skip(n as int) =~= key@.skip(start + n));
            }
            m.control = true;
            start = start + n;
        } else if let Some(n) = prefix_len_at(&key, start, "ctrl+") {
            proof {
                reveal_strlit("ctrl+");
                assert(key@.skip(start as int).skip(n as int) =~= key@.skip(start + n));
            }
            m.control = true;
            start = start + n;
        } else if let Some(n) = prefix_len_at(&key, start, "c-") {
            proof {
                reveal_strlit("c-");
                assert(key@.skip(start as int).skip(n as int) =~= key@.skip(start + n));
            }
            m.control = true;
            start = start + n;
        } else if let Some(n) = prefix_len_at(&key, start, "c+") {
            proof {
                reveal_strlit("c+");
                assert(key@.skip(start as int).skip(n as int) =~= key@.skip(start + n));
            }
            m.control = true;
            start = start + n;
        } else if let Some(n) = prefix_len_at(&key, start, "alt-") {
            proof {
                reveal_strlit("alt-");
                assert(key@.skip(start as int).skip(n as int) =~= key@.skip(start + n));
            }
            m.alt = true;
            start = start + n;
        } else if let Some(n) = prefix_len_at(&key, start, "alt+") {
            proof {
                reveal_strlit("alt+");
                assert(key@.skip(start as int).skip(n as int) =~= key@.skip(start + n));
            }
            m.alt = true;
            start = start + n;
        } else if let Some(n) = prefix_len_at(&key, start, "a-") {
            proof {
                reveal_strlit("a-");
                assert(key@.skip(start as int).skip(n as int) =~= key@.skip(start + n));
            }
            m.alt = true;
            start = start + n;
        } else if let Some(n) = prefix_len_at(&key, start, "a+") {
            proof {
                reveal_strlit("a+");
                assert(key@.skip(start as int).skip(n as int) =~= key@.skip(start + n));
            }
            m.alt = true;
            start = start + n;
        } else if let Some(n) = prefix_len_at(&key, start, "shift-") {
            proof {
                reveal_strlit("shift-");
                assert(key@.skip(start as int).skip(n as int) =~= key@.skip(start + n));
            }
            m.shift = true;
            start = start + n;
        } else if let Some(n) = prefix_len_at(&key, start, "shift+") {
            proof {
                reveal_strlit("shift+");
                assert(key@.skip(start as int).skip(n as int) =~= key@.skip(start + n));
            }
            m.shift = true;
            start = start + n;
        } else if let Some(n) = prefix_len_at(&key, start, "s-") {
            proof {
                reveal_strlit("s-");
                assert(key@.skip(start as int).skip(n as int) =~= key@.skip(start + n));
            }
            m.shift = true;
            start = start + n;
        } else if let Some(n) = prefix_len_at(&key, start, "s+") {
            proof {
                reveal_strlit("s+");
                assert(key@.skip(start as int).skip(n as int) =~= key@.skip(start + n));
            }
            m.shift = true;
            start = start + n;
        } else {
            break;
        }
    }
    let mut rest: Vec<char> = Vec::new();
    let mut k = start;
    while k < key.len()
        invariant
            start <= k <= key@.len(),
            rest@ == key@.subrange(start as int, k as int),
        decreases key@.len() - k,
    {
        rest.push(key[k]);
        assert(rest@ =~= key@.subrange(start as int, k + 1));
        k = k + 1;
    }
    assert(rest@ =~= key@.skip(start as int));
    if let Some((code, m2)) = named_key_exec(rest.as_slice(), m) {
        return Ok(KeyPress::new(code, m2));
    }
    let source = if m.is_empty() {
        &t
    } else {
        &rest
    };
    if source.len() == 0 {
        return Err(owned("empty key"));
    }
    if source.len() > 1 {
        let message = concat(concat(owned("unknown key `"), chars_to_string(t.as_slice()).as_str()), "`");
        return Err(message);
    }
    let mut character = source[0];
    if m.shift && (('a' <= character && character <= 'z') || ('A' <= character && character <= 'Z')) {
        character = ascii_uppercase(character);
    }
    Ok(KeyPress::new(KeyCode::Char(character), m))
}


/// `parts` joined with `sep` between neighbours.
pub open spec fn join(parts: Seq<Seq<char>>, sep: Seq<char>) -> Seq<char>
    decreases parts.len(),
{
    if parts.len() == 0 {
        Seq::empty()
    } else if parts.len() == 1 {
        parts[0]
    } else {
        join(parts.drop_last(), sep) + sep + parts.last()
    }
}

/// A character typed with Control or Alt whose capital form says Shift was
/// held.
pub open spec fn shifted_modified_char(k: KeyPress) -> bool {
    match k.code {
        KeyCode::Char(c) => is_ascii_uppercase(c) && (k.modifiers.control || k.modifiers.alt),
        _ => false,
    }
}

/// The lowercase name of a key in a configuration label.
pub open spec fn key_name_spec(k: KeyPress) -> Seq<char> {
    match k.code {
        KeyCode::Char(c) => if c == ' ' {
            "space"@
        } else if shifted_modified_char(k) {
            seq![to_ascii_lowercase(c)]
        } else {
            seq![c]
        },
        KeyCode::Enter => "enter"@,
        KeyCode::Esc => "esc"@,
        KeyCode::Tab => "tab"@,
        KeyCode::BackTab => "shift-tab"@,
        KeyCode::Up => "up"@,
        KeyCode::Down => "down"@,
        KeyCode::Left => "left"@,
        KeyCode::Right => "right"@,
        KeyCode::Home => "home"@,
        KeyCode::End => "end"@,
        KeyCode::PageUp => "pageup"@,
        KeyCode::PageDown => "pagedown"@,
        KeyCode::Backspace => "backspace"@,
        KeyCode::Delete => "delete"@,
        KeyCode::Other => "other"@,
    }
}

/// The configuration label of a key press, such as `ctrl-shift-c`: its
/// modifiers (Control, Alt, Shift) and its lowercase name, joined by `-`.
pub open spec fn key_label_spec(k: KeyPress) -> Seq<char> {
    (if k.modifiers.control { "ctrl-"@ } else { Seq::empty() }) + (if k.modifiers.alt {
        "alt-"@
    } else {
        Seq::empty()
    }) + (if k.modifiers.shift || shifted_modified_char(k) {
        "shift-"@
    } else {
        Seq::empty()
    }) + key_name_spec(k)
}

/// The display name of a key, as shown in help and labels.
pub open spec fn key_display_name_spec(k: KeyPress, has_modifier: bool) -> Seq<char> {
    match k.code {
        KeyCode::Char(c) => if c == ' ' {
            "Space"@
        } else if has_modifier && is_ascii_alphabetic(c) {
            seq![to_ascii_uppercase(c)]
        } else {
            seq![c]
        },
        KeyCode::Enter => "Enter"@,
        KeyCode::Esc => "Esc"@,
        KeyCode::Tab => "Tab"@,
        KeyCode::BackTab => "Shift-Tab"@,
        KeyCode::Up => "Up"@,
        KeyCode::Down => "Down"@,
        KeyCode::Left => "Left"@,
        KeyCode::Right => "Right"@,
        KeyCode::Home => "Home"@,
        KeyCode::End => "End"@,
        KeyCode::PageUp => "PgUp"@,
        KeyCode::PageDown => "PgDn"@,
        KeyCode::Backspace => "Backspace"@,
        KeyCode::Delete => "Delete"@,
        KeyCode::Other => "Other"@,
    }
}

/// The display label of a key press, such as `Ctrl-Shift-C`.
pub open spec fn key_display_label_spec(k: KeyPress) -> Seq<char> {
    let shift = k.modifiers.shift || shifted_modified_char(k);
    let has_modifier = k.modifiers.control || k.modifiers.alt || shift;
    (if k.modifiers.control { "Ctrl-"@ } else { Seq::empty() }) + (if k.modifiers.alt {
        "Alt-"@
    } else {
        Seq::empty()
    }) + (if shift {
        "Shift-"@
    } else {
        Seq::empty()
    }) + key_display_name_spec(k, has_modifier)
}

fn key_name(k: KeyPress) -> (r: String)
    ensures
        r@ == key_name_spec(k),
{
    match k.code {
        KeyCode::Char(c) => {
            if c == ' ' {
                owned("space")
            } else if ('A' <= c && c <= 'Z') && (k.modifiers.control || k.modifiers.alt) {
                let v = vec![ascii_lowercase(c)];
                chars_to_string(v.as_slice())
            } else {
                let v = vec![c];
                chars_to_string(v.as_slice())
            }
        },
        KeyCode::Enter => owned("enter"),
        KeyCode::Esc => owned("esc"),
        KeyCode::Tab => owned("tab"),
        KeyCode::BackTab => owned("shift-tab"),
        KeyCode::Up => owned("up"),
        KeyCode::Down => owned("down"),
        KeyCode::Left => owned("left"),
        KeyCode::Right => owned("right"),
        KeyCode::Home => owned("home"),
        KeyCode::End => owned("end"),
        KeyCode::PageUp => owned("pageup"),
        KeyCode::PageDown => owned("pagedown"),
        KeyCode::Backspace => owned("backspace"),
        KeyCode::Delete => owned("delete"),
        KeyCode::Other => owned("other"),
    }
}

/// The configuration label of a key press, used to detect conflicting
/// bindings.
pub fn key_label(key: &KeyPress) -> (r: String)
    ensures
        r@ == key_label_spec(*key),
{
    let mut out = String::new();
    if key.modifiers.control {
        out = concat(out, "ctrl-");
    }
    if key.modifiers.alt {
        out = concat(out, "alt-");
    }
    let shifted = match key.code {
        KeyCode::Char(c) => ('A' <= c && c <= 'Z') && (key.modifiers.control || key.modifiers.alt),
        _ => false,
    };
    if key.modifiers.shift || shifted {
        out = concat(out, "shift-");
    }
    let name = key_name(*key);
    let r = concat(out, name.as_str());
    assert(r@ =~= key_label_spec(*key));
    r
}

fn key_display_name(k: KeyPress, has_modifier: bool) -> (r: String)
    ensures
        r@ == key_display_name_spec(k, has_modifier),
{
    match k.code {
        KeyCode::Char(c) => {
            if c == ' ' {
                owned("Space")
            } else if has_modifier && (('a' <= c && c <= 'z') || ('A' <= c && c <= 'Z')) {
                let v = vec![ascii_uppercase(c)];
                chars_to_string(v.as_slice())
            } else {
                let v = vec![c];
                chars_to_string(v.as_slice())
            }
        },
        KeyCode::Enter => owned("Enter"),
        KeyCode::Esc => owned("Esc"),
        KeyCode::Tab => owned("Tab"),
        KeyCode::BackTab => owned("Shift-Tab"),
        KeyCode::Up => owned("Up"),
        KeyCode::Down => owned("Down"),
        KeyCode::Left => owned("Left"),
        KeyCode::Right => owned("Right"),
        KeyCode::Home => owned("Home"),
        KeyCode::End => owned("End"),
        KeyCode::PageUp => owned("PgUp"),
        KeyCode::PageDown => owned("PgDn"),
        KeyCode::Backspace => owned("Backspace"),
        KeyCode::Delete => owned("Delete"),
        KeyCode::Other => owned("Other"),
    }
}

/// The display label of a key press, such as `Ctrl-Shift-C` or `Space`.
pub fn key_display_label(key: &KeyPress) -> (r: String)
    ensures
        r@ == key_display_label_spec(*key),
{
    let mut out = String::new();
    if key.modifiers.control {
        out = concat(out, "Ctrl-");
    }
    if key.modifiers.alt {
        out = concat(out, "Alt-");
    }
    let shifted = match key.code {
        KeyCode::Char(c) => ('A' <= c && c <= 'Z') && (key.modifiers.control || key.modifiers.alt),
        _ => false,
    };
    let shift = key.modifiers.shift || shifted;
    if shift {
        out = concat(out, "Shift-");
    }
    let has_modifier = key.modifiers.control || key.modifiers.alt || shift;
    let name = key_display_name(*key, has_modifier);
    let r = concat(out, name.as_str());
    assert(r@ =~= key_display_label_spec(*key));
    r
}

/// A sequence of key presses that triggers a binding.
#[derive(Debug, Clone, PartialEq, Eq)]
pub struct KeySequence(pub Vec<KeyPress>);

impl View for KeySequence {
    type V = Seq<KeyPress>;

    open spec fn view(&self) -> Seq<KeyPress> {
        self.0@
    }
}

/// The labels of the keys of a sequence.
pub open spec fn key_labels(keys: Seq<KeyPress>) -> Seq<Seq<char>> {
    Seq::new(keys.len(), |i: int| key_label_spec(keys[i]))
}

/// The configuration label of a key sequence, such as `m h`.
pub open spec fn sequence_label_spec(keys: Seq<KeyPress>) -> Seq<char> {
    join(key_labels(keys), " "@)
}

/// The display label of a key sequence.
pub open spec fn sequence_display_label_spec(keys: Seq<KeyPress>) -> Seq<char> {
    join(Seq::new(keys.len(), |i: int| key_display_label_spec(keys[i])), " "@)
}

/// The display label of a list of bindings: each sequence's display label
/// joined with `, `, or `unbound` when there are none.
pub open spec fn sequence_list_display_label_spec(seqs: Seq<Seq<KeyPress>>) -> Seq<char> {
    if seqs.len() == 0 {
        "unbound"@
    } else {
        join(Seq::new(seqs.len(), |i: int| sequence_display_label_spec(seqs[i])), ", "@)
    }
}

proof fn lemma_join_step(parts: Seq<Seq<char>>, sep: Seq<char>, i: int)
    requires
        0 < i < parts.len(),
    ensures
        join(parts.take(i + 1), sep) == join(parts.take(i), sep) + sep + parts[i],
{
    assert(parts.take(i + 1).drop_last() =~= parts.take(i));
}

/// The configuration label of a key sequence: its key labels joined by
/// spaces.
pub fn sequence_label(sequence: &KeySequence) -> (r: String)
    ensures
        r@ == sequence_label_spec(sequence@),
{
    let keys = &sequence.0;
    let ghost parts = key_labels(keys@);
    let mut out = String::new();
    let mut i: usize = 0;
    while i < keys.len()
        invariant
            i <= keys@.len(),
            parts == key_labels(keys@),
            out@ == join(parts.take(i as int), " "@),
        decreases keys@.len() - i,
    {
        let label = key_label(&keys[i]);
        if i == 0 {
            out = label;
            assert(parts.take(1) =~= seq![parts[0]]);
        } else {
            proof {
                lemma_join_step(parts, " "@, i as int);
            }
            out = concat(out, " ");
            out = concat(out, label.as_str());
        }
        i = i + 1;
    }
    assert(parts.take(keys@.len() as int) =~= parts);
    out
}

/// The display label of a key sequence: its key display labels joined by
/// spaces.
pub fn sequence_display_label(sequence: &KeySequence) -> (r: String)
    ensures
        r@ == sequence_display_label_spec(sequence@),
{
    let keys = &sequence.0;
    let ghost parts = Seq::new(keys@.len(), |i: int| key_display_label_spec(keys@[i]));
    let mut out = String::new();
    let mut i: usize = 0;
    while i < keys.len()
        invariant
            i <= keys@.len(),
            parts == Seq::new(keys@.len(), |i: int| key_display_label_spec(keys@[i])),
            out@ == join(parts.take(i as int), " "@),
        decreases keys@.len() - i,
    {
        let label = key_display_label(&keys[i]);
        if i == 0 {
            out = label;
            assert(parts.take(1) =~= seq![parts[0]]);
        } else {
            proof {
                lemma_join_step(parts, " "@, i as int);
            }
            out = concat(out, " ");
            out = concat(out, label.as_str());
        }
        i = i + 1;
    }
    assert(parts.take(keys@.len() as int) =~= parts);
    out
}

/// The views of a list of key sequences.
pub open spec fn sequences_view(seqs: Seq<KeySequence>) -> Seq<Seq<KeyPress>> {
    Seq::new(seqs.len(), |i: int| seqs[i]@)
}

/// The display label of a list of bindings, `unbound` when empty.
pub fn sequence_list_display_label(sequences: &[KeySequence]) -> (r: String)
    ensures
        r@ == sequence_list_display_label_spec(sequences_view(sequences@)),
{
    if sequences.len() == 0 {
        return owned("unbound");
    }
    let ghost views = sequences_view(sequences@);
    let ghost parts = Seq::new(views.len(), |i: int| sequence_display_label_spec(views[i]));
    let mut out = String::new();
    let mut i: usize = 0;
    while i < sequences.len()
        invariant
            i <= sequences@.len(),
            views == sequences_view(sequences@),
            parts == Seq::new(views.len(), |i: int| sequence_display_label_spec(views[i])),
            out@ == join(parts.take(i as int), ", "@),
        decreases sequences@.len() - i,
    {
        let label = sequence_display_label(&sequences[i]);
        if i == 0 {
            out = label;
            assert(parts.take(1) =~= seq![parts[0]]);
        } else {
            proof {
                lemma_join_step(parts, ", "@, i as int);
            }
            out = concat(out, ", ");
            out = concat(out, label.as_str());
        }
        i = i + 1;
    }
    assert(parts.take(sequences@.len() as int) =~= parts);
    out
}


/// Splits `s` into its whitespace-separated words, scanning from `i` with
/// the word in progress `cur` and the finished words `acc`.
pub open spec fn char_words_from(s: Seq<char>, i: int, cur: Seq<char>, acc: Seq<Seq<char>>) -> Seq<Seq<char>>
    decreases s.len() - i,
{
    if i < 0 || i >= s.len() {
        if cur.len() > 0 {
            acc.push(cur)
        } else {
            acc
        }
    } else if is_whitespace_char(s[i]) {
        char_words_from(s, i + 1, Seq::empty(), if cur.len() > 0 { acc.push(cur) } else { acc })
    } else {
        char_words_from(s, i + 1, cur.push(s[i]), acc)
    }
}

/// The whitespace-separated words of `s`.
pub open spec fn char_words(s: Seq<char>) -> Seq<Seq<char>> {
    char_words_from(s, 0, Seq::empty(), Seq::empty())
}

/// Parses the words from index `i` on, stopping at the first error.
pub open spec fn parse_words_from(ws: Seq<Seq<char>>, i: int) -> Result<Seq<KeyPress>, Seq<char>>
    decreases ws.len() - i,
{
    if i < 0 || i >= ws.len() {
        Ok(Seq::empty())
    } else {
        match parse_key_press_spec(ws[i]) {
            Err(e) => Err(e),
            Ok(k) => match parse_words_from(ws, i + 1) {
                Err(e) => Err(e),
                Ok(rest) => Ok(seq![k] + rest),
            },
        }
    }
}

/// The key sequence a binding such as `m h` or `ctrl-s` denotes: one key
/// name per whitespace-separated word, or the first word's error, or an
/// error for an empty binding.
pub open spec fn parse_key_sequence_spec(s: Seq<char>) -> Result<Seq<KeyPress>, Seq<char>> {
    match parse_words_from(char_words(s), 0) {
        Err(e) => Err(e),
        Ok(keys) => if keys.len() == 0 {
            Err("empty key binding"@)
        } else {
            Ok(keys)
        },
    }
}

fn split_char_words(s: &[char]) -> (ws: Vec<Vec<char>>)
    ensures
        ws@.len() == char_words(s@).len(),
        forall|k: int| 0 <= k < ws@.len() ==> #[trigger] ws@[k]@ == char_words(s@)[k],
{
    let mut acc: Vec<Vec<char>> = Vec::new();
    let mut cur: Vec<char> = Vec::new();
    let ghost mut spec_acc: Seq<Seq<char>> = Seq::empty();
    let mut i: usize = 0;
    while i < s.len()
        invariant
            i <= s@.len(),
            char_words(s@) == char_words_from(s@, i as int, cur@, spec_acc),
            acc@.len() == spec_acc.len(),
            forall|k: int| 0 <= k < acc@.len() ==> #[trigger] acc@[k]@ == spec_acc[k],
        decreases s@.len() - i,
    {
        let c = s[i];
        if is_whitespace_char_exec(c) {
            if cur.len() > 0 {
                proof {
                    spec_acc = spec_acc.push(cur@);
                }
                acc.push(cur);
                cur = Vec::new();
            } else {
                assert(cur@ =~= Seq::<char>::empty());
            }
        } else {
            cur.push(c);
        }
        i = i + 1;
    }
    if cur.len() > 0 {
        proof {
            spec_acc = spec_acc.push(cur@);
        }
        acc.push(cur);
    }
    acc
}

/// Parses a binding such as `m h`, `ctrl-s` or `space e` into a key
/// sequence.
pub fn parse_key_sequence(sequence: &str) -> (r: Result<KeySequence, String>)
    ensures
        match r {
            Ok(k) => parse_key_sequence_spec(sequence@) == Ok::<Seq<KeyPress>, Seq<char>>(k@),
            Err(e) => parse_key_sequence_spec(sequence@) == Err::<Seq<KeyPress>, Seq<char>>(e@),
        },
{
    let chars = str_chars(sequence);
    parse_key_sequence_chars(chars.as_slice())
}

/// `parse_key_sequence` on the characters of a binding.
pub fn parse_key_sequence_chars(chars: &[char]) -> (r: Result<KeySequence, String>)
    ensures
        match r {
            Ok(k) => parse_key_sequence_spec(chars@) == Ok::<Seq<KeyPress>, Seq<char>>(k@),
            Err(e) => parse_key_sequence_spec(chars@) == Err::<Seq<KeyPress>, Seq<char>>(e@),
        },
{
    let words = split_char_words(chars);
    let ghost ws = char_words(chars@);
    let mut keys: Vec<KeyPress> = Vec::new();
    let mut i: usize = 0;
    while i < words.len()
        invariant
            i <= words@.len(),
            words@.len() == ws.len(),
            ws == char_words(chars@),
            forall|k: int| 0 <= k < words@.len() ==> #[trigger] words@[k]@ == ws[k],
            parse_words_from(ws, 0) == match parse_words_from(ws, i as int) {
                Err(e) => Err(e),
                Ok(rest) => Ok::<Seq<KeyPress>, Seq<char>>(keys@ + rest),
            },
        decreases words@.len() - i,
    {
        match parse_key_press_chars(words[i].as_slice()) {
            Ok(k) => {
                proof {
                    assert(keys@ + (seq![k] + match parse_words_from(ws, i + 1) {
                        Ok(rest) => rest,
                        Err(e) => Seq::empty(),
                    }) =~= keys@.push(k) + match parse_words_from(ws, i + 1) {
                        Ok(rest) => rest,
                        Err(e) => Seq::empty(),
                    });
                }
                keys.push(k);
            },
            Err(e) => {
                return Err(e);
            },
        }
        i = i + 1;
    }
    assert(keys@ + Seq::<KeyPress>::empty() =~= keys@);
    if keys.len() == 0 {
        return Err(owned("empty key binding"));
    }
    Ok(KeySequence(keys))
}


/// A key with no modifier held.
pub open spec fn plain_key(code: KeyCode) -> KeyPress {
    KeyPress { code, modifiers: no_modifiers() }
}

/// A character typed with Control held.
pub open spec fn control_key(c: char) -> KeyPress {
    KeyPress { code: KeyCode::Char(c), modifiers: KeyModifiers { control: true, ..no_modifiers() } }
}

fn plain_key_exec(code: KeyCode) -> (r: KeyPress)
    ensures
        r == plain_key(code),
{
    KeyPress { code, modifiers: KeyModifiers::none() }
}

fn control_key_exec(c: char) -> (r: KeyPress)
    ensures
        r == control_key(c),
{
    let mut modifiers = KeyModifiers::none();
    modifiers.control = true;
    KeyPress { code: KeyCode::Char(c), modifiers }
}

/// The default bindings of each global action (`?`, `r`, `f`, `/`, `m m`,
/// `m h`, `m b`, `m c`, `o`, `b`, `(`, `)`, `[`, `]`, `,`, `.`, `c`, `q`,
/// `s`, `ctrl-g`, `ctrl-s`, `esc`, `y`, `ctrl-shift-c`, `ctrl-u`, `tab`,
/// `shift-tab`, `}` and `{`, in table order).
pub open spec fn default_global_bindings(action: GlobalAction) -> Seq<Seq<KeyPress>> {
    match action {
        GlobalAction::Help => seq![seq![plain_key(KeyCode::Char('?'))]],
        GlobalAction::Reload => seq![seq![plain_key(KeyCode::Char('r'))]],
        GlobalAction::FileFilter => seq![seq![plain_key(KeyCode::Char('f'))]],
        GlobalAction::Grep => seq![seq![plain_key(KeyCode::Char('/'))]],
        GlobalAction::DiffMenu => seq![seq![plain_key(KeyCode::Char('m')), plain_key(KeyCode::Char('m'))]],
        GlobalAction::HeadBranch => seq![seq![plain_key(KeyCode::Char('m')), plain_key(KeyCode::Char('h'))]],
        GlobalAction::BaseBranch => seq![seq![plain_key(KeyCode::Char('m')), plain_key(KeyCode::Char('b'))]],
        GlobalAction::CommitPicker => seq![seq![plain_key(KeyCode::Char('m')), plain_key(KeyCode::Char('c'))]],
        GlobalAction::OptionsMenu => seq![seq![plain_key(KeyCode::Char('o'))]],
        GlobalAction::FileBrowser => seq![seq![plain_key(KeyCode::Char('b'))]],
        GlobalAction::PreviousFile => seq![seq![plain_key(KeyCode::Char('('))]],
        GlobalAction::NextFile => seq![seq![plain_key(KeyCode::Char(')'))]],
        GlobalAction::PreviousHunk => seq![seq![plain_key(KeyCode::Char('['))]],
        GlobalAction::NextHunk => seq![seq![plain_key(KeyCode::Char(']'))]],
        GlobalAction::ExpandContextUp => seq![seq![plain_key(KeyCode::Char(','))]],
        GlobalAction::ExpandContextDown => seq![seq![plain_key(KeyCode::Char('.'))]],
        GlobalAction::CollapseContextAll => seq![seq![plain_key(KeyCode::Char('c'))]],
        GlobalAction::Quit => seq![seq![plain_key(KeyCode::Char('q'))]],
        GlobalAction::Layout => seq![seq![plain_key(KeyCode::Char('s'))]],
        GlobalAction::EditHunk => seq![seq![control_key('g')]],
        GlobalAction::SaveMark => seq![seq![control_key('s')]],
        GlobalAction::CancelMark => seq![seq![plain_key(KeyCode::Esc)]],
        GlobalAction::CopyMarks => seq![seq![plain_key(KeyCode::Char('y'))]],
        GlobalAction::CopyErrorLog => seq![seq![control_key('C')]],
        GlobalAction::ClearFilters => seq![seq![control_key('u')]],
        GlobalAction::NextDiffType => seq![seq![plain_key(KeyCode::Tab)]],
        GlobalAction::PreviousDiffType => seq![seq![plain_key(KeyCode::BackTab)]],
        GlobalAction::NextAnnotation => seq![seq![plain_key(KeyCode::Char('}'))]],
        GlobalAction::PreviousAnnotation => seq![seq![plain_key(KeyCode::Char('{'))]],
    }
}

/// The default bindings of each menu action (`up`, `shift-tab`, `ctrl-p`;
/// `down`, `tab`, `ctrl-n`; none; `enter`; `esc`).
pub open spec fn default_menu_bindings(action: MenuAction) -> Seq<Seq<KeyPress>> {
    match action {
        MenuAction::Up => seq![seq![plain_key(KeyCode::Up)], seq![plain_key(KeyCode::BackTab)], seq![control_key('p')]],
        MenuAction::Down => seq![seq![plain_key(KeyCode::Down)], seq![plain_key(KeyCode::Tab)], seq![control_key('n')]],
        MenuAction::Select => Seq::empty(),
        MenuAction::Confirm => seq![seq![plain_key(KeyCode::Enter)]],
        MenuAction::Close => seq![seq![plain_key(KeyCode::Esc)]],
    }
}

fn default_global_sequences(action: GlobalAction) -> (r: Vec<KeySequence>)
    ensures
        sequences_view(r@) == default_global_bindings(action),
{
    let r = match action {
        GlobalAction::Help => vec![KeySequence(vec![plain_key_exec(KeyCode::Char('?'))])],
        GlobalAction::Reload => vec![KeySequence(vec![plain_key_exec(KeyCode::Char('r'))])],
        GlobalAction::FileFilter => vec![KeySequence(vec![plain_key_exec(KeyCode::Char('f'))])],
        GlobalAction::Grep => vec![KeySequence(vec![plain_key_exec(KeyCode::Char('/'))])],
        GlobalAction::DiffMenu => vec![KeySequence(vec![plain_key_exec(KeyCode::Char('m')), plain_key_exec(KeyCode::Char('m'))])],
        GlobalAction::HeadBranch => vec![KeySequence(vec![plain_key_exec(KeyCode::Char('m')), plain_key_exec(KeyCode::Char('h'))])],
        GlobalAction::BaseBranch => vec![KeySequence(vec![plain_key_exec(KeyCode::Char('m')), plain_key_exec(KeyCode::Char('b'))])],
        GlobalAction::CommitPicker => vec![KeySequence(vec![plain_key_exec(KeyCode::Char('m')), plain_key_exec(KeyCode::Char('c'))])],
        GlobalAction::OptionsMenu => vec![KeySequence(vec![plain_key_exec(KeyCode::Char('o'))])],
        GlobalAction::FileBrowser => vec![KeySequence(vec![plain_key_exec(KeyCode::Char('b'))])],
        GlobalAction::PreviousFile => vec![KeySequence(vec![plain_key_exec(KeyCode::Char('('))])],
        GlobalAction::NextFile => vec![KeySequence(vec![plain_key_exec(KeyCode::Char(')'))])],
        GlobalAction::PreviousHunk => vec![KeySequence(vec![plain_key_exec(KeyCode::Char('['))])],
        GlobalAction::NextHunk => vec![KeySequence(vec![plain_key_exec(KeyCode::Char(']'))])],
        GlobalAction::ExpandContextUp => vec![KeySequence(vec![plain_key_exec(KeyCode::Char(','))])],
        GlobalAction::ExpandContextDown => vec![KeySequence(vec![plain_key_exec(KeyCode::Char('.'))])],
        GlobalAction::CollapseContextAll => vec![KeySequence(vec![plain_key_exec(KeyCode::Char('c'))])],
        GlobalAction::Quit => vec![KeySequence(vec![plain_key_exec(KeyCode::Char('q'))])],
        GlobalAction::Layout => vec![KeySequence(vec![plain_key_exec(KeyCode::Char('s'))])],
        GlobalAction::EditHunk => vec![KeySequence(vec![control_key_exec('g')])],
        GlobalAction::SaveMark => vec![KeySequence(vec![control_key_exec('s')])],
        GlobalAction::CancelMark => vec![KeySequence(vec![plain_key_exec(KeyCode::Esc)])],
        GlobalAction::CopyMarks => vec![KeySequence(vec![plain_key_exec(KeyCode::Char('y'))])],
        GlobalAction::CopyErrorLog => vec![KeySequence(vec![control_key_exec('C')])],
        GlobalAction::ClearFilters => vec![KeySequence(vec![control_key_exec('u')])],
        GlobalAction::NextDiffType => vec![KeySequence(vec![plain_key_exec(KeyCode::Tab)])],
        GlobalAction::PreviousDiffType => vec![KeySequence(vec![plain_key_exec(KeyCode::BackTab)])],
        GlobalAction::NextAnnotation => vec![KeySequence(vec![plain_key_exec(KeyCode::Char('}'))])],
        GlobalAction::PreviousAnnotation => vec![KeySequence(vec![plain_key_exec(KeyCode::Char('{'))])],
    };
    assert(sequences_view(r@) =~~= default_global_bindings(action));
    r
}

fn default_menu_sequences(action: MenuAction) -> (r: Vec<KeySequence>)
    ensures
        sequences_view(r@) == default_menu_bindings(action),
{
    let r = match action {
        MenuAction::Up => vec![KeySequence(vec![plain_key_exec(KeyCode::Up)]), KeySequence(vec![plain_key_exec(KeyCode::BackTab)]), KeySequence(vec![control_key_exec('p')])],
        MenuAction::Down => vec![KeySequence(vec![plain_key_exec(KeyCode::Down)]), KeySequence(vec![plain_key_exec(KeyCode::Tab)]), KeySequence(vec![control_key_exec('n')])],
        MenuAction::Select => Vec::new(),
        MenuAction::Confirm => vec![KeySequence(vec![plain_key_exec(KeyCode::Enter)])],
        MenuAction::Close => vec![KeySequence(vec![plain_key_exec(KeyCode::Esc)])],
    };
    assert(sequences_view(r@) =~~= default_menu_bindings(action));
    r
}

/// The key bindings of every global and menu action, one list of key
/// sequences per action in table order.
#[derive(Debug, Clone, PartialEq, Eq)]
pub struct Keymap {
    pub global: Vec<Vec<KeySequence>>,
    pub menu: Vec<Vec<KeySequence>>,
}

/// The abstract content of a keymap: for each action, its key sequences.
pub struct KeymapView {
    pub global: Seq<Seq<Seq<KeyPress>>>,
    pub menu: Seq<Seq<Seq<KeyPress>>>,
}

impl View for Keymap {
    type V = KeymapView;

    open spec fn view(&self) -> KeymapView {
        KeymapView {
            global: Seq::new(self.global@.len(), |i: int| sequences_view(self.global@[i]@)),
            menu: Seq::new(self.menu@.len(), |i: int| sequences_view(self.menu@[i]@)),
        }
    }
}

impl KeymapView {
    /// The keymap has one list of bindings per action.
    pub open spec fn wf(self) -> bool {
        self.global.len() == GLOBAL_ACTION_COUNT && self.menu.len() == MENU_ACTION_COUNT
    }

    /// The bindings of a global action.
    pub open spec fn global_bindings(self, action: GlobalAction) -> Seq<Seq<KeyPress>> {
        self.global[global_action_index_spec(action)]
    }

    /// The bindings of a menu action.
    pub open spec fn menu_bindings(self, action: MenuAction) -> Seq<Seq<KeyPress>> {
        self.menu[menu_action_index_spec(action)]
    }
}

/// The default keymap.
pub open spec fn default_keymap() -> KeymapView {
    KeymapView {
        global: Seq::new(GLOBAL_ACTION_COUNT as nat, |i: int| default_global_bindings(global_action_at_spec(i))),
        menu: Seq::new(MENU_ACTION_COUNT as nat, |i: int| default_menu_bindings(menu_action_at_spec(i))),
    }
}

impl Default for Keymap {
    fn default() -> (r: Keymap)
        ensures
            r@ == default_keymap(),
    {
        Keymap::default_bindings()
    }
}

impl Keymap {
    /// The keymap with every action bound to its default keys.
    pub fn default_bindings() -> (r: Keymap)
        ensures
            r@ == default_keymap(),
    {
        let mut global: Vec<Vec<KeySequence>> = Vec::new();
        let mut i: usize = 0;
        while i < GLOBAL_ACTION_COUNT
            invariant
                i <= GLOBAL_ACTION_COUNT,
                global@.len() == i,
                forall|k: int| 0 <= k < i ==> sequences_view(#[trigger] global@[k]@) == default_global_bindings(global_action_at_spec(k)),
            decreases GLOBAL_ACTION_COUNT - i,
        {
            global.push(default_global_sequences(global_action_at(i)));
            i = i + 1;
        }
        let mut menu: Vec<Vec<KeySequence>> = Vec::new();
        let mut i: usize = 0;
        while i < MENU_ACTION_COUNT
            invariant
                i <= MENU_ACTION_COUNT,
                menu@.len() == i,
                forall|k: int| 0 <= k < i ==> sequences_view(#[trigger] menu@[k]@) == default_menu_bindings(menu_action_at_spec(k)),
            decreases MENU_ACTION_COUNT - i,
        {
            menu.push(default_menu_sequences(menu_action_at(i)));
            i = i + 1;
        }
        let r = Keymap { global, menu };
        assert(r@.global =~= default_keymap().global);
        assert(r@.menu =~= default_keymap().menu);
        r
    }

    /// The key sequences bound to a global action.
    pub fn global_sequences(&self, action: GlobalAction) -> (r: &Vec<KeySequence>)
        requires
            self@.wf(),
        ensures
            sequences_view(r@) == self@.global_bindings(action),
    {
        &self.global[global_action_index(action)]
    }

    /// The key sequences bound to a menu action.
    pub fn menu_sequences(&self, action: MenuAction) -> (r: &Vec<KeySequence>)
        requires
            self@.wf(),
        ensures
            sequences_view(r@) == self@.menu_bindings(action),
    {
        &self.menu[menu_action_index(action)]
    }
}


/// True when some global binding is a two-key sequence starting with
/// `prefix`.
pub open spec fn has_sequence_starting_with_spec(km: KeymapView, prefix: KeyPress) -> bool {
    exists|i: int, j: int|
        0 <= i < km.global.len() && 0 <= j < km.global[i].len() && #[trigger] km.global[i][j].len()
            == 2 && km.global[i][j][0] == prefix
}

fn is_single(sequence: &KeySequence, key: KeyPress) -> (r: bool)
    ensures
        r == (sequence@ == seq![key]),
{
    let r = sequence.0.len() == 1 && sequence.0[0] == key;
    proof {
        if r {
            assert(sequence@ =~= seq![key]);
        }
    }
    r
}

fn is_pair(sequence: &KeySequence, first: KeyPress, second: KeyPress) -> (r: bool)
    ensures
        r == (sequence@ == seq![first, second]),
{
    let r = sequence.0.len() == 2 && sequence.0[0] == first && sequence.0[1] == second;
    proof {
        if r {
            assert(sequence@ =~= seq![first, second]);
        }
    }
    r
}

fn contains_sequence(sequences: &Vec<KeySequence>, key: KeyPress) -> (r: bool)
    ensures
        r == sequences_view(sequences@).contains(seq![key]),
{
    let mut i: usize = 0;
    while i < sequences.len()
        invariant
            i <= sequences@.len(),
            forall|k: int| 0 <= k < i ==> sequences@[k]@ != seq![key],
        decreases sequences@.len() - i,
    {
        if is_single(&sequences[i], key) {
            assert(sequences_view(sequences@)[i as int] == seq![key]);
            return true;
        }
        i = i + 1;
    }
    false
}

fn contains_pair(sequences: &Vec<KeySequence>, first: KeyPress, second: KeyPress) -> (r: bool)
    ensures
        r == sequences_view(sequences@).contains(seq![first, second]),
{
    let mut i: usize = 0;
    while i < sequences.len()
        invariant
            i <= sequences@.len(),
            forall|k: int| 0 <= k < i ==> sequences@[k]@ != seq![first, second],
        decreases sequences@.len() - i,
    {
        if is_pair(&sequences[i], first, second) {
            assert(sequences_view(sequences@)[i as int] == seq![first, second]);
            return true;
        }
        i = i + 1;
    }
    false
}

impl Keymap {
    /// True when some global binding is a two-key sequence starting with
    /// `prefix`.
    pub fn has_sequence_starting_with(&self, prefix: KeyPress) -> (r: bool)
        requires
            self@.wf(),
        ensures
            r == has_sequence_starting_with_spec(self@, prefix),
    {
        let mut i: usize = 0;
        while i < self.global.len()
            invariant
                i <= self.global@.len(),
                self@.wf(),
                forall|a: int, b: int|
                    0 <= a < i && 0 <= b < self@.global[a].len() ==> !(#[trigger] self@.global[a][b].len()
                        == 2 && self@.global[a][b][0] == prefix),
            decreases self.global@.len() - i,
        {
            let sequences = &self.global[i];
            let mut j: usize = 0;
            while j < sequences.len()
                invariant
                    i < self.global@.len(),
                    sequences == self.global@[i as int],
                    j <= sequences@.len(),
                    forall|b: int|
                        0 <= b < j ==> !(#[trigger] self@.global[i as int][b].len() == 2
                            && self@.global[i as int][b][0] == prefix),
                decreases sequences@.len() - j,
            {
                let keys = &sequences[j].0;
                if keys.len() == 2 && keys[0] == prefix {
                    assert(self@.global[i as int][j as int].len() == 2);
                    return true;
                }
                j = j + 1;
            }
            i = i + 1;
        }
        false
    }

    /// True when the key starts a two-key global binding.
    pub fn is_prefix(&self, key: KeyEvent) -> (r: bool)
        requires
            self@.wf(),
        ensures
            r == has_sequence_starting_with_spec(self@, key_press_spec(key.code, key.modifiers)),
    {
        self.has_sequence_starting_with(KeyPress::new(key.code, key.modifiers))
    }

    /// True when the key alone is bound to the global action.
    pub fn matches_single(&self, action: GlobalAction, key: KeyEvent) -> (r: bool)
        requires
            self@.wf(),
        ensures
            r == self@.global_bindings(action).contains(seq![key_press_spec(key.code, key.modifiers)]),
    {
        contains_sequence(self.global_sequences(action), KeyPress::new(key.code, key.modifiers))
    }

    /// True when `prefix` followed by the key is bound to the global action.
    pub fn matches_prefix(&self, action: GlobalAction, prefix: KeyPress, key: KeyEvent) -> (r: bool)
        requires
            self@.wf(),
        ensures
            r == self@.global_bindings(action).contains(
                seq![prefix, key_press_spec(key.code, key.modifiers)],
            ),
    {
        contains_pair(self.global_sequences(action), prefix, KeyPress::new(key.code, key.modifiers))
    }

    /// The display label of a global action's bindings, such as
    /// `Ctrl-Shift-C`, or `unbound`.
    pub fn global_action_label(&self, action: GlobalAction) -> (r: String)
        requires
            self@.wf(),
        ensures
            r@ == sequence_list_display_label_spec(self@.global_bindings(action)),
    {
        sequence_list_display_label(self.global_sequences(action).as_slice())
    }

    /// True when the key alone is bound to the menu action.
    pub fn matches_menu(&self, action: MenuAction, key: KeyEvent) -> (r: bool)
        requires
            self@.wf(),
        ensures
            r == self@.menu_bindings(action).contains(seq![key_press_spec(key.code, key.modifiers)]),
    {
        contains_sequence(self.menu_sequences(action), KeyPress::new(key.code, key.modifiers))
    }

    /// Menu up/down for scrollable overlays, which ignore Tab and Shift-Tab.
    pub fn matches_help_menu_scroll(&self, action: MenuAction, key: KeyEvent) -> (r: bool)
        requires
            self@.wf(),
        ensures
            r == (!(key.code is Tab || key.code is BackTab) && self@.menu_bindings(action).contains(
                seq![key_press_spec(key.code, key.modifiers)],
            )),
    {
        match key.code {
            KeyCode::Tab | KeyCode::BackTab => false,
            _ => self.matches_menu(action, key),
        }
    }
}


/// Executable label records hold the labels and entries of `spec`.
pub open spec fn records_match(list: Seq<(String, usize)>, spec: Seq<(Seq<char>, int)>) -> bool {
    &&& list.len() == spec.len()
    &&& forall|m: int| #![trigger list[m]] 0 <= m < list.len() ==> list[m].0@ == spec[m].0 && list[m].1 == spec[m].1
}

/// Every record's entry is below `n`.
pub open spec fn records_below(spec: Seq<(Seq<char>, int)>, n: int) -> bool {
    forall|m: int| #![trigger spec[m]] 0 <= m < spec.len() ==> 0 <= spec[m].1 < n
}

/// The action names and bindings that a conflict check compares.
pub open spec fn entries_view(b: Seq<(&str, &Vec<KeySequence>)>) -> Seq<(Seq<char>, Seq<Seq<KeyPress>>)> {
    Seq::new(b.len(), |i: int| (b[i].0@, sequences_view(b[i].1@)))
}

/// The first earlier label record, from index `m` on, that has `label` but
/// belongs to another entry than `entry`; returns that entry.
pub open spec fn first_other_entry(seen: Seq<(Seq<char>, int)>, label: Seq<char>, entry: int, m: int) -> Option<int>
    decreases seen.len() - m,
{
    if m < 0 || m >= seen.len() {
        None
    } else if seen[m].0 == label && seen[m].1 != entry {
        Some(seen[m].1)
    } else {
        first_other_entry(seen, label, entry, m + 1)
    }
}

/// Scans the bindings in order from entry `i`, sequence `j`, with the
/// labels `seen` so far; returns the first sequence whose label an earlier
/// entry already uses, as (label, earlier entry, entry).
pub open spec fn conflict_from(
    entries: Seq<(Seq<char>, Seq<Seq<KeyPress>>)>,
    i: int,
    j: int,
    seen: Seq<(Seq<char>, int)>,
) -> Option<(Seq<char>, int, int)>
    decreases entries.len() - i, entries[i].1.len() - j,
{
    if i < 0 || i >= entries.len() {
        None
    } else if j < 0 || j >= entries[i].1.len() {
        conflict_from(entries, i + 1, 0, seen)
    } else {
        let label = sequence_label_spec(entries[i].1[j]);
        match first_other_entry(seen, label, i, 0) {
            Some(previous) => Some((label, previous, i)),
            None => conflict_from(entries, i, j + 1, seen.push((label, i))),
        }
    }
}

/// The message for a sequence bound to two actions.
pub open spec fn conflict_message(context: Seq<char>, label: Seq<char>, previous: Seq<char>, action: Seq<char>) -> Seq<char> {
    context + " conflict: `"@ + label + "` is bound to both "@ + previous + " and "@ + action
}

/// The result of checking that no key sequence is bound to two different
/// actions.
pub open spec fn validate_conflicts_spec(context: Seq<char>, entries: Seq<(Seq<char>, Seq<Seq<KeyPress>>)>) -> Result<(), Seq<char>> {
    match conflict_from(entries, 0, 0, Seq::empty()) {
        Some((label, previous, i)) => Err(conflict_message(context, label, entries[previous].0, entries[i].0)),
        None => Ok(()),
    }
}

/// Checks that no key sequence is bound to two different actions; the
/// error names the first such sequence and both actions.
pub fn validate_conflicts(context: &str, bindings: &Vec<(&str, &Vec<KeySequence>)>) -> (r: Result<(), String>)
    ensures
        match r {
            Ok(()) => validate_conflicts_spec(context@, entries_view(bindings@)) == Ok::<(), Seq<char>>(()),
            Err(e) => validate_conflicts_spec(context@, entries_view(bindings@)) == Err::<(), Seq<char>>(e@),
        },
{
    let ghost entries = entries_view(bindings@);
    let mut seen: Vec<(String, usize)> = Vec::new();
    let ghost mut seen_spec: Seq<(Seq<char>, int)> = Seq::empty();
    let mut i: usize = 0;
    while i < bindings.len()
        invariant
            i <= bindings@.len(),
            entries == entries_view(bindings@),
            records_match(seen@, seen_spec),
            records_below(seen_spec, i as int),
            conflict_from(entries, 0, 0, Seq::empty()) == conflict_from(entries, i as int, 0, seen_spec),
        decreases bindings@.len() - i,
    {
        let sequences = bindings[i].1;
        let mut j: usize = 0;
        while j < sequences.len()
            invariant
                i < bindings@.len(),
                sequences == bindings@[i as int].1,
                j <= sequences@.len(),
                entries == entries_view(bindings@),
                records_match(seen@, seen_spec),
                records_below(seen_spec, i + 1),
                conflict_from(entries, 0, 0, Seq::empty()) == conflict_from(entries, i as int, j as int, seen_spec),
            decreases sequences@.len() - j,
        {
            let label = sequence_label(&sequences[j]);
            let mut m: usize = 0;
            while m < seen.len()
                invariant
                    m <= seen@.len(),
                    records_match(seen@, seen_spec),
                    records_below(seen_spec, i + 1),
                    i < bindings@.len(),
                    sequences == bindings@[i as int].1,
                    j < sequences@.len(),
                    entries == entries_view(bindings@),
                    label@ == sequence_label_spec(sequences@[j as int]@),
                    conflict_from(entries, 0, 0, Seq::empty()) == conflict_from(entries, i as int, j as int, seen_spec),
                    first_other_entry(seen_spec, label@, i as int, 0) == first_other_entry(seen_spec, label@, i as int, m as int),
                decreases seen@.len() - m,
            {
                if seen[m].0 == label && seen[m].1 != i {
                    let previous = seen[m].1;
                    assert(seen_spec[m as int].1 < i + 1);
                    assert(entries[i as int].1[j as int] == sequences@[j as int]@);
                    assert(first_other_entry(seen_spec, label@, i as int, m as int) == Some(previous as int));
                    assert(conflict_from(entries, i as int, j as int, seen_spec) == Some((label@, previous as int, i as int)));
                    let message = concat(concat(concat(concat(concat(concat(owned(context), " conflict: `"), label.as_str()), "` is bound to both "), bindings[previous].0), " and "), bindings[i].0);
                    return Err(message);
                }
                m = m + 1;
            }
            proof {
                seen_spec = seen_spec.push((label@, i as int));
            }
            seen.push((label, i));
            assert(records_match(seen@, seen_spec));
            j = j + 1;
        }
        i = i + 1;
    }
    Ok(())
}

/// The labels of the first keys of the sequences of length `n`, each with
/// the entry it belongs to, in binding order from entry `i`, sequence `j`.
pub open spec fn collect_first_keys(
    entries: Seq<(Seq<char>, Seq<Seq<KeyPress>>)>,
    n: int,
    i: int,
    j: int,
    acc: Seq<(Seq<char>, int)>,
) -> Seq<(Seq<char>, int)>
    decreases entries.len() - i, entries[i].1.len() - j,
{
    if i < 0 || i >= entries.len() {
        acc
    } else if j < 0 || j >= entries[i].1.len() {
        collect_first_keys(entries, n, i + 1, 0, acc)
    } else if entries[i].1[j].len() == n {
        collect_first_keys(entries, n, i, j + 1, acc.push((key_label_spec(entries[i].1[j][0]), i)))
    } else {
        collect_first_keys(entries, n, i, j + 1, acc)
    }
}

/// The entry of the last record among the first `k` with `label`.
pub open spec fn last_entry(list: Seq<(Seq<char>, int)>, label: Seq<char>, k: int) -> Option<int>
    decreases k,
{
    if k <= 0 || k > list.len() {
        None
    } else if list[k - 1].0 == label {
        Some(list[k - 1].1)
    } else {
        last_entry(list, label, k - 1)
    }
}

/// The first prefix record, from index `k` on, whose key is also bound
/// alone: (key label, entry binding it alone, entry using it as prefix).
pub open spec fn prefix_conflict_from(singles: Seq<(Seq<char>, int)>, prefixes: Seq<(Seq<char>, int)>, k: int) -> Option<(Seq<char>, int, int)>
    decreases prefixes.len() - k,
{
    if k < 0 || k >= prefixes.len() {
        None
    } else {
        match last_entry(singles, prefixes[k].0, singles.len() as int) {
            Some(single) => Some((prefixes[k].0, single, last_entry(prefixes, prefixes[k].0, prefixes.len() as int)->0)),
            None => prefix_conflict_from(singles, prefixes, k + 1),
        }
    }
}

/// The message for a key that is both bound alone and a prefix.
pub open spec fn prefix_conflict_message(context: Seq<char>, label: Seq<char>, single: Seq<char>, prefix: Seq<char>) -> Seq<char> {
    context + " conflict: `"@ + label + "` is both a binding for "@ + single + " and a prefix for "@ + prefix
}

/// The result of checking that no key is both bound alone and the first
/// key of a two-key binding.
pub open spec fn validate_prefix_conflicts_spec(context: Seq<char>, entries: Seq<(Seq<char>, Seq<Seq<KeyPress>>)>) -> Result<(), Seq<char>> {
    let singles = collect_first_keys(entries, 1, 0, 0, Seq::empty());
    let prefixes = collect_first_keys(entries, 2, 0, 0, Seq::empty());
    match prefix_conflict_from(singles, prefixes, 0) {
        Some((label, single, prefix)) => Err(prefix_conflict_message(context, label, entries[single].0, entries[prefix].0)),
        None => Ok(()),
    }
}

fn collect_first_key_labels(bindings: &Vec<(&str, &Vec<KeySequence>)>, n: usize) -> (r: Vec<(String, usize)>)
    requires
        n >= 1,
    ensures
        records_match(r@, collect_first_keys(entries_view(bindings@), n as int, 0, 0, Seq::empty())),
        records_below(collect_first_keys(entries_view(bindings@), n as int, 0, 0, Seq::empty()), bindings@.len() as int),
{
    let ghost entries = entries_view(bindings@);
    let mut out: Vec<(String, usize)> = Vec::new();
    let ghost mut acc: Seq<(Seq<char>, int)> = Seq::empty();
    let mut i: usize = 0;
    while i < bindings.len()
        invariant
            i <= bindings@.len(),
            entries == entries_view(bindings@),
            n >= 1,
            records_match(out@, acc),
            records_below(acc, bindings@.len() as int),
            collect_first_keys(entries, n as int, 0, 0, Seq::empty()) == collect_first_keys(entries, n as int, i as int, 0, acc),
        decreases bindings@.len() - i,
    {
        let sequences = bindings[i].1;
        let mut j: usize = 0;
        while j < sequences.len()
            invariant
                i < bindings@.len(),
                sequences == bindings@[i as int].1,
                j <= sequences@.len(),
                entries == entries_view(bindings@),
                n >= 1,
                records_match(out@, acc),
                records_below(acc, bindings@.len() as int),
                collect_first_keys(entries, n as int, 0, 0, Seq::empty()) == collect_first_keys(entries, n as int, i as int, j as int, acc),
            decreases sequences@.len() - j,
        {
            let keys = &sequences[j].0;
            if keys.len() == n {
                let label = key_label(&keys[0]);
                proof {
                    acc = acc.push((label@, i as int));
                }
                out.push((label, i));
                assert(records_match(out@, acc));
            }
            j = j + 1;
        }
        i = i + 1;
    }
    out
}

fn last_entry_exec(list: &Vec<(String, usize)>, label: &String, Ghost(spec_list): Ghost<Seq<(Seq<char>, int)>>) -> (r: Option<usize>)
    requires
        records_match(list@, spec_list),
    ensures
        r matches Some(e) ==> last_entry(spec_list, label@, spec_list.len() as int) == Some(e as int),
        r is None ==> last_entry(spec_list, label@, spec_list.len() as int) is None,
{
    let mut k = list.len();
    while k > 0
        invariant
            k <= list@.len(),
            records_match(list@, spec_list),
            last_entry(spec_list, label@, spec_list.len() as int) == last_entry(spec_list, label@, k as int),
        decreases k,
    {
        if list[k - 1].0 == *label {
            return Some(list[k - 1].1);
        }
        k = k - 1;
    }
    None
}

/// Checks that no key is both bound alone and the first key of a two-key
/// binding, which would make the single binding unreachable.
pub fn validate_prefix_conflicts(context: &str, bindings: &Vec<(&str, &Vec<KeySequence>)>) -> (r: Result<(), String>)
    ensures
        match r {
            Ok(()) => validate_prefix_conflicts_spec(context@, entries_view(bindings@)) == Ok::<(), Seq<char>>(()),
            Err(e) => validate_prefix_conflicts_spec(context@, entries_view(bindings@)) == Err::<(), Seq<char>>(e@),
        },
{
    let ghost entries = entries_view(bindings@);
    let singles = collect_first_key_labels(bindings, 1);
    let prefixes = collect_first_key_labels(bindings, 2);
    let ghost singles_spec = collect_first_keys(entries, 1, 0, 0, Seq::empty());
    let ghost prefixes_spec = collect_first_keys(entries, 2, 0, 0, Seq::empty());
    let mut k: usize = 0;
    while k < prefixes.len()
        invariant
            k <= prefixes@.len(),
            records_match(prefixes@, prefixes_spec),
            records_below(prefixes_spec, bindings@.len() as int),
            records_match(singles@, singles_spec),
            records_below(singles_spec, bindings@.len() as int),
            entries == entries_view(bindings@),
            singles_spec == collect_first_keys(entries, 1, 0, 0, Seq::empty()),
            prefixes_spec == collect_first_keys(entries, 2, 0, 0, Seq::empty()),
            prefix_conflict_from(singles_spec, prefixes_spec, 0) == prefix_conflict_from(singles_spec, prefixes_spec, k as int),
        decreases prefixes@.len() - k,
    {
        let label = &prefixes[k].0;
        if let Some(single) = last_entry_exec(&singles, label, Ghost(singles_spec)) {
            let prefix = match last_entry_exec(&prefixes, label, Ghost(prefixes_spec)) {
                Some(p) => p,
                None => prefixes[k].1,
            };
            proof {
                lemma_last_entry_found(prefixes_spec, label@, k as int);
                lemma_last_entry_bound(singles_spec, label@, singles_spec.len() as int, bindings@.len() as int);
                lemma_last_entry_bound(prefixes_spec, label@, prefixes_spec.len() as int, bindings@.len() as int);
            }
            assert(prefix_conflict_from(singles_spec, prefixes_spec, k as int) == Some((label@, single as int, prefix as int)));
            let message = concat(concat(concat(concat(concat(owned(context), " conflict: `"), label.as_str()), "` is both a binding for "), bindings[single].0), " and a prefix for ");
            let message = concat(message, bindings[prefix].0);
            return Err(message);
        }
        k = k + 1;
    }
    Ok(())
}

proof fn lemma_last_entry_found(list: Seq<(Seq<char>, int)>, label: Seq<char>, k: int)
    requires
        0 <= k < list.len(),
        list[k].0 == label,
    ensures
        last_entry(list, label, list.len() as int) is Some,
{
    lemma_last_entry_found_from(list, label, k, list.len() as int);
}

proof fn lemma_last_entry_found_from(list: Seq<(Seq<char>, int)>, label: Seq<char>, k: int, j: int)
    requires
        0 <= k < j <= list.len(),
        list[k].0 == label,
    ensures
        last_entry(list, label, j) is Some,
    decreases j,
{
    if list[j - 1].0 != label {
        lemma_last_entry_found_from(list, label, k, j - 1);
    }
}

proof fn lemma_last_entry_bound(list: Seq<(Seq<char>, int)>, label: Seq<char>, j: int, n: int)
    requires
        0 <= j <= list.len(),
        records_below(list, n),
    ensures
        last_entry(list, label, j) matches Some(e) ==> 0 <= e < n,
    decreases j,
{
    if j > 0 {
        assert(0 <= list[j - 1].1 < n);
    }
    if j > 0 && list[j - 1].0 != label {
        lemma_last_entry_bound(list, label, j - 1, n);
    }
}


/// The most keys a binding of the action may have: one for the editor and
/// annotation-draft actions, two for the others.
pub open spec fn max_keys_spec(action: GlobalAction) -> int {
    match action {
        GlobalAction::EditHunk | GlobalAction::SaveMark | GlobalAction::CancelMark => 1,
        _ => 2,
    }
}

/// Save and cancel apply only while an annotation is being drafted, so they
/// form their own conflict group.
pub open spec fn is_mark_draft_action(action: GlobalAction) -> bool {
    action is SaveMark || action is CancelMark
}

fn max_keys(action: GlobalAction) -> (r: usize)
    ensures
        r == max_keys_spec(action),
{
    match action {
        GlobalAction::EditHunk | GlobalAction::SaveMark | GlobalAction::CancelMark => 1,
        _ => 2,
    }
}

/// The message for a global binding of the wrong length.
pub open spec fn global_length_message(action: GlobalAction) -> Seq<char> {
    "keymap.global."@ + global_action_name_spec(action) + " must be "@ + if max_keys_spec(action)
        == 1 {
        "a single key"@
    } else {
        "one or two keys"@
    }
}

/// The message for a menu binding that is not a single key.
pub open spec fn menu_length_message(action: MenuAction) -> Seq<char> {
    "keymap.menu."@ + menu_action_name_spec(action) + " must be a single key"@
}

/// True when a sequence is empty or longer than the action allows.
pub open spec fn bad_global_length(action: GlobalAction, seq: Seq<KeyPress>) -> bool {
    seq.len() == 0 || seq.len() > max_keys_spec(action)
}

/// The first global action, from table position `i` on, with a binding of
/// the wrong length.
pub open spec fn global_length_error_from(km: KeymapView, i: int) -> Option<GlobalAction>
    decreases GLOBAL_ACTION_COUNT - i,
{
    if i < 0 || i >= GLOBAL_ACTION_COUNT {
        None
    } else if exists|j: int| 0 <= j < km.global[i].len() && bad_global_length(global_action_at_spec(i), #[trigger] km.global[i][j]) {
        Some(global_action_at_spec(i))
    } else {
        global_length_error_from(km, i + 1)
    }
}

/// The first menu action, from table position `i` on, with a binding that
/// is not a single key.
pub open spec fn menu_length_error_from(km: KeymapView, i: int) -> Option<MenuAction>
    decreases MENU_ACTION_COUNT - i,
{
    if i < 0 || i >= MENU_ACTION_COUNT {
        None
    } else if exists|j: int| 0 <= j < km.menu[i].len() && #[trigger] km.menu[i][j].len() != 1 {
        Some(menu_action_at_spec(i))
    } else {
        menu_length_error_from(km, i + 1)
    }
}

/// The global actions that may not share keys, with their bindings, in
/// table order from position `i` (all but the annotation-draft actions).
pub open spec fn normal_entries_from(km: KeymapView, i: int, acc: Seq<(Seq<char>, Seq<Seq<KeyPress>>)>) -> Seq<(Seq<char>, Seq<Seq<KeyPress>>)>
    decreases GLOBAL_ACTION_COUNT - i,
{
    if i < 0 || i >= GLOBAL_ACTION_COUNT {
        acc
    } else if is_mark_draft_action(global_action_at_spec(i)) {
        normal_entries_from(km, i + 1, acc)
    } else {
        normal_entries_from(km, i + 1, acc.push((global_action_name_spec(global_action_at_spec(i)), km.global[i])))
    }
}

/// The annotation-draft actions with their bindings.
pub open spec fn mark_draft_entries(km: KeymapView) -> Seq<(Seq<char>, Seq<Seq<KeyPress>>)> {
    seq![
        (global_action_name_spec(GlobalAction::SaveMark), km.global_bindings(GlobalAction::SaveMark)),
        (global_action_name_spec(GlobalAction::CancelMark), km.global_bindings(GlobalAction::CancelMark)),
    ]
}

/// The menu actions with their bindings.
pub open spec fn menu_entries(km: KeymapView) -> Seq<(Seq<char>, Seq<Seq<KeyPress>>)> {
    Seq::new(MENU_ACTION_COUNT as nat, |i: int| (menu_action_name_spec(menu_action_at_spec(i)), km.menu[i]))
}

/// The result of validating a keymap: global bindings have one key (two
/// for most actions), menu bindings have one key, no sequence is bound to
/// two global actions or two menu actions, no global key is both a binding
/// and a prefix, and the two annotation-draft actions do not share keys.
/// Errors are reported in that order.
pub open spec fn validate_spec(km: KeymapView) -> Result<(), Seq<char>> {
    let normal = normal_entries_from(km, 0, Seq::empty());
    if let Some(action) = global_length_error_from(km, 0) {
        Err(global_length_message(action))
    } else if let Some(action) = menu_length_error_from(km, 0) {
        Err(menu_length_message(action))
    } else if validate_conflicts_spec("keymap.global"@, normal) is Err {
        validate_conflicts_spec("keymap.global"@, normal)
    } else if validate_prefix_conflicts_spec("keymap.global"@, normal) is Err {
        validate_prefix_conflicts_spec("keymap.global"@, normal)
    } else if validate_conflicts_spec("keymap.global"@, mark_draft_entries(km)) is Err {
        validate_conflicts_spec("keymap.global"@, mark_draft_entries(km))
    } else {
        validate_conflicts_spec("keymap.menu"@, menu_entries(km))
    }
}

/// Two sequences conflict when they are equal or one is a single key that
/// starts the other, two-key, sequence.
pub open spec fn sequences_conflict_spec(first: Seq<KeyPress>, second: Seq<KeyPress>) -> bool {
    ||| first == second
    ||| (first.len() == 1 && second.len() == 2 && first[0] == second[0])
    ||| (first.len() == 2 && second.len() == 1 && first[0] == second[0])
}

/// True when a copy-marks binding conflicts with a binding of another
/// global action.
pub open spec fn copy_marks_conflict(km: KeymapView) -> bool {
    exists|i: int, j: int, c: int|
        0 <= i < GLOBAL_ACTION_COUNT && i != global_action_index_spec(GlobalAction::CopyMarks) && 0 <= j
            < km.global[i].len() && 0 <= c < km.global_bindings(GlobalAction::CopyMarks).len()
            && #[trigger] sequences_conflict_spec(km.global_bindings(GlobalAction::CopyMarks)[c], km.global[i][j])
}

/// Whether two key sequences conflict.
pub fn sequences_conflict(first: &KeySequence, second: &KeySequence) -> (r: bool)
    ensures
        r == sequences_conflict_spec(first@, second@),
{
    let a = &first.0;
    let b = &second.0;
    let mut equal = a.len() == b.len();
    let mut k: usize = 0;
    while equal && k < a.len()
        invariant
            k <= a@.len(),
            equal ==> a@.len() == b@.len(),
            equal ==> forall|m: int| 0 <= m < k ==> a@[m] == b@[m],
            !equal ==> a@ != b@,
        decreases a@.len() - k,
    {
        if a[k] != b[k] {
            equal = false;
        }
        k = k + 1;
    }
    if equal {
        assert(a@ =~= b@);
        return true;
    }
    (a.len() == 1 && b.len() == 2 && a[0] == b[0]) || (a.len() == 2 && b.len() == 1 && a[0] == b[0])
}

impl Keymap {
    /// Replaces the bindings of a global action.
    pub fn set_global_sequences(&mut self, action: GlobalAction, sequences: Vec<KeySequence>)
        requires
            old(self)@.wf(),
        ensures
            final(self)@.wf(),
            final(self)@.global == old(self)@.global.update(global_action_index_spec(action), sequences_view(sequences@)),
            final(self)@.menu == old(self)@.menu,
    {
        let i = global_action_index(action);
        self.global.set(i, sequences);
        assert(self@.global =~= old(self)@.global.update(i as int, sequences_view(sequences@)));
        assert(self@.menu =~= old(self)@.menu);
    }

    /// Replaces the bindings of a menu action.
    pub fn set_menu_sequences(&mut self, action: MenuAction, sequences: Vec<KeySequence>)
        requires
            old(self)@.wf(),
        ensures
            final(self)@.wf(),
            final(self)@.menu == old(self)@.menu.update(menu_action_index_spec(action), sequences_view(sequences@)),
            final(self)@.global == old(self)@.global,
    {
        let i = menu_action_index(action);
        self.menu.set(i, sequences);
        assert(self@.menu =~= old(self)@.menu.update(i as int, sequences_view(sequences@)));
        assert(self@.global =~= old(self)@.global);
    }

    /// Unbinds copy-marks when its (default) keys conflict with another
    /// global binding, so that an unconfigured default never blocks a
    /// configured binding.
    pub fn clear_default_copy_marks_on_conflict(&mut self)
        requires
            old(self)@.wf(),
        ensures
            final(self)@.wf(),
            copy_marks_conflict(old(self)@) ==> final(self)@.global == old(self)@.global.update(
                global_action_index_spec(GlobalAction::CopyMarks),
                Seq::empty(),
            ),
            !copy_marks_conflict(old(self)@) ==> final(self)@ == old(self)@,
            final(self)@.menu == old(self)@.menu,
    {
        let copy_index = global_action_index(GlobalAction::CopyMarks);
        let mut conflicts = false;
        let mut i: usize = 0;
        while i < GLOBAL_ACTION_COUNT && !conflicts
            invariant
                self@.wf(),
                i <= GLOBAL_ACTION_COUNT,
                copy_index == global_action_index_spec(GlobalAction::CopyMarks),
                conflicts ==> copy_marks_conflict(self@),
                !conflicts ==> forall|a: int, j: int, c: int|
                    0 <= a < i && a != copy_index && 0 <= j < self@.global[a].len() && 0 <= c
                        < self@.global[copy_index as int].len() ==> !#[trigger] sequences_conflict_spec(
                        self@.global[copy_index as int][c],
                        self@.global[a][j],
                    ),
            decreases GLOBAL_ACTION_COUNT - i,
        {
            if i != copy_index {
                let others = &self.global[i];
                let copies = &self.global[copy_index];
                let mut j: usize = 0;
                while j < others.len() && !conflicts
                    invariant
                        self@.wf(),
                        i < GLOBAL_ACTION_COUNT,
                        i != copy_index,
                        copy_index == global_action_index_spec(GlobalAction::CopyMarks),
                        others == self.global@[i as int],
                        copies == self.global@[copy_index as int],
                        j <= others@.len(),
                        conflicts ==> copy_marks_conflict(self@),
                        !conflicts ==> forall|a: int, jj: int, c: int|
                            0 <= a < i && a != copy_index && 0 <= jj < self@.global[a].len() && 0 <= c
                                < self@.global[copy_index as int].len() ==> !#[trigger] sequences_conflict_spec(
                                self@.global[copy_index as int][c],
                                self@.global[a][jj],
                            ),
                        !conflicts ==> forall|jj: int, c: int|
                            0 <= jj < j && 0 <= c < self@.global[copy_index as int].len() ==> !#[trigger] sequences_conflict_spec(
                                self@.global[copy_index as int][c],
                                self@.global[i as int][jj],
                            ),
                    decreases others@.len() - j,
                {
                    let mut c: usize = 0;
                    while c < copies.len() && !conflicts
                        invariant
                            self@.wf(),
                            i < GLOBAL_ACTION_COUNT,
                            i != copy_index,
                            copy_index == global_action_index_spec(GlobalAction::CopyMarks),
                            others == self.global@[i as int],
                            copies == self.global@[copy_index as int],
                            j < others@.len(),
                            c <= copies@.len(),
                            conflicts ==> copy_marks_conflict(self@),
                            !conflicts ==> forall|cc: int|
                                0 <= cc < c ==> !#[trigger] sequences_conflict_spec(
                                    self@.global[copy_index as int][cc],
                                    self@.global[i as int][j as int],
                                ),
                        decreases copies@.len() - c,
                    {
                        if sequences_conflict(&copies[c], &others[j]) {
                            assert(sequences_conflict_spec(self@.global_bindings(GlobalAction::CopyMarks)[c as int], self@.global[i as int][j as int]));
                            conflicts = true;
                        }
                        c = c + 1;
                    }
                    j = j + 1;
                }
            }
            i = i + 1;
        }
        if conflicts {
            let cleared: Vec<KeySequence> = Vec::new();
            assert(sequences_view(cleared@) =~= Seq::empty());
            self.set_global_sequences(GlobalAction::CopyMarks, cleared);
        }
    }
}


impl Keymap {
    /// Checks that no two normal global actions share a key sequence and no
    /// key is both bound alone and a prefix. The annotation-draft actions
    /// only apply while drafting, so they may share keys with the others.
    pub fn validate_global_conflicts(&self) -> (r: Result<(), String>)
        requires
            self@.wf(),
        ensures
            ({
                let normal = normal_entries_from(self@, 0, Seq::empty());
                let expected = if validate_conflicts_spec("keymap.global"@, normal) is Err {
                    validate_conflicts_spec("keymap.global"@, normal)
                } else {
                    validate_prefix_conflicts_spec("keymap.global"@, normal)
                };
                match r {
                    Ok(()) => expected is Ok,
                    Err(e) => expected == Err::<(), Seq<char>>(e@),
                }
            }),
    {
        let mut bindings: Vec<(&str, &Vec<KeySequence>)> = Vec::new();
        let ghost mut acc: Seq<(Seq<char>, Seq<Seq<KeyPress>>)> = Seq::empty();
        let mut i: usize = 0;
        while i < GLOBAL_ACTION_COUNT
            invariant
                self@.wf(),
                i <= GLOBAL_ACTION_COUNT,
                entries_view(bindings@) == acc,
                normal_entries_from(self@, 0, Seq::empty()) == normal_entries_from(self@, i as int, acc),
            decreases GLOBAL_ACTION_COUNT - i,
        {
            let action = global_action_at(i);
            match action {
                GlobalAction::SaveMark | GlobalAction::CancelMark => {},
                _ => {
                    let entry = (global_action_name(action), &self.global[i]);
                    proof {
                        acc = acc.push((global_action_name_spec(action), self@.global[i as int]));
                    }
                    bindings.push(entry);
                    assert(entries_view(bindings@) =~= acc);
                },
            }
            i = i + 1;
        }
        validate_conflicts("keymap.global", &bindings)?;
        validate_prefix_conflicts("keymap.global", &bindings)
    }

    /// Checks that save and cancel do not share a key.
    pub fn validate_mark_draft_conflicts(&self) -> (r: Result<(), String>)
        requires
            self@.wf(),
        ensures
            match r {
                Ok(()) => validate_conflicts_spec("keymap.global"@, mark_draft_entries(self@)) is Ok,
                Err(e) => validate_conflicts_spec("keymap.global"@, mark_draft_entries(self@)) == Err::<(), Seq<char>>(e@),
            },
    {
        let mut bindings: Vec<(&str, &Vec<KeySequence>)> = Vec::new();
        bindings.push((global_action_name(GlobalAction::SaveMark), self.global_sequences(GlobalAction::SaveMark)));
        bindings.push((global_action_name(GlobalAction::CancelMark), self.global_sequences(GlobalAction::CancelMark)));
        assert(entries_view(bindings@) =~= mark_draft_entries(self@));
        validate_conflicts("keymap.global", &bindings)
    }

    /// Checks that no two menu actions share a key.
    pub fn validate_menu_conflicts(&self) -> (r: Result<(), String>)
        requires
            self@.wf(),
        ensures
            match r {
                Ok(()) => validate_conflicts_spec("keymap.menu"@, menu_entries(self@)) is Ok,
                Err(e) => validate_conflicts_spec("keymap.menu"@, menu_entries(self@)) == Err::<(), Seq<char>>(e@),
            },
    {
        let mut bindings: Vec<(&str, &Vec<KeySequence>)> = Vec::new();
        let ghost mut acc: Seq<(Seq<char>, Seq<Seq<KeyPress>>)> = Seq::empty();
        let mut i: usize = 0;
        while i < MENU_ACTION_COUNT
            invariant
                self@.wf(),
                i <= MENU_ACTION_COUNT,
                entries_view(bindings@) == acc,
                acc.len() == i,
                forall|k: int| 0 <= k < i ==> #[trigger] acc[k] == menu_entries(self@)[k],
            decreases MENU_ACTION_COUNT - i,
        {
            let action = menu_action_at(i);
            let entry = (menu_action_name(action), &self.menu[i]);
            proof {
                acc = acc.push((menu_action_name_spec(action), self@.menu[i as int]));
            }
            bindings.push(entry);
            assert(entries_view(bindings@) =~= acc);
            i = i + 1;
        }
        assert(acc =~= menu_entries(self@));
        validate_conflicts("keymap.menu", &bindings)
    }

    /// Validates binding lengths and conflicts; see `validate_spec`.
    pub fn validate(&self) -> (r: Result<(), String>)
        requires
            self@.wf(),
        ensures
            match r {
                Ok(()) => validate_spec(self@) is Ok,
                Err(e) => validate_spec(self@) == Err::<(), Seq<char>>(e@),
            },
    {
        let mut i: usize = 0;
        while i < GLOBAL_ACTION_COUNT
            invariant
                self@.wf(),
                i <= GLOBAL_ACTION_COUNT,
                global_length_error_from(self@, 0) == global_length_error_from(self@, i as int),
            decreases GLOBAL_ACTION_COUNT - i,
        {
            let action = global_action_at(i);
            let limit = max_keys(action);
            let sequences = &self.global[i];
            let mut j: usize = 0;
            while j < sequences.len()
                invariant
                    self@.wf(),
                    i < GLOBAL_ACTION_COUNT,
                    action == global_action_at_spec(i as int),
                    limit == max_keys_spec(action),
                    sequences == self.global@[i as int],
                    j <= sequences@.len(),
                    global_length_error_from(self@, 0) == global_length_error_from(self@, i as int),
                    forall|b: int| 0 <= b < j ==> !bad_global_length(action, #[trigger] self@.global[i as int][b]),
                decreases sequences@.len() - j,
            {
                let n = sequences[j].0.len();
                if n == 0 || n > limit {
                    assert(bad_global_length(action, self@.global[i as int][j as int]));
                    let keys = if limit == 1 {
                        "a single key"
                    } else {
                        "one or two keys"
                    };
                    let message = concat(concat(concat(owned("keymap.global."), global_action_name(action)), " must be "), keys);
                    return Err(message);
                }
                j = j + 1;
            }
            i = i + 1;
        }
        let mut i: usize = 0;
        while i < MENU_ACTION_COUNT
            invariant
                self@.wf(),
                i <= MENU_ACTION_COUNT,
                global_length_error_from(self@, 0) is None,
                menu_length_error_from(self@, 0) == menu_length_error_from(self@, i as int),
            decreases MENU_ACTION_COUNT - i,
        {
            let action = menu_action_at(i);
            let sequences = &self.menu[i];
            let mut j: usize = 0;
            while j < sequences.len()
                invariant
                    self@.wf(),
                    i < MENU_ACTION_COUNT,
                    action == menu_action_at_spec(i as int),
                    sequences == self.menu@[i as int],
                    j <= sequences@.len(),
                    global_length_error_from(self@, 0) is None,
                    menu_length_error_from(self@, 0) == menu_length_error_from(self@, i as int),
                    forall|b: int| 0 <= b < j ==> #[trigger] self@.menu[i as int][b].len() == 1,
                decreases sequences@.len() - j,
            {
                if sequences[j].0.len() != 1 {
                    assert(self@.menu[i as int][j as int].len() != 1);
                    let message = concat(concat(owned("keymap.menu."), menu_action_name(action)), " must be a single key");
                    return Err(message);
                }
                j = j + 1;
            }
            i = i + 1;
        }
        self.validate_global_conflicts()?;
        self.validate_mark_draft_conflicts()?;
        self.validate_menu_conflicts()?;
        Ok(())
    }
}


/// A configured binding: one key sequence or a list of them.
#[derive(Debug, Clone, PartialEq, Eq)]
pub enum KeySpec {
    One(String),
    Many(Vec<String>),
}

/// The texts of a list of strings.
pub open spec fn strings_view(v: Seq<String>) -> Seq<Seq<char>> {
    Seq::new(v.len(), |i: int| v[i]@)
}

/// The binding texts of a configured binding.
pub open spec fn key_spec_strings(k: KeySpec) -> Seq<Seq<char>> {
    match k {
        KeySpec::One(s) => seq![s@],
        KeySpec::Many(v) => strings_view(v@),
    }
}

impl KeySpec {
    /// The binding texts, one per key sequence.
    pub fn into_strings(self) -> (r: Vec<String>)
        ensures
            strings_view(r@) == key_spec_strings(self),
    {
        match self {
            KeySpec::One(key) => {
                let r = vec![key];
                assert(strings_view(r@) =~= key_spec_strings(KeySpec::One(key)));
                r
            },
            KeySpec::Many(keys) => keys,
        }
    }
}

/// The `[keymap.global]` table of the settings file.
#[derive(Debug, Default)]
pub struct StoredGlobalKeymap {
    /// A leader key, checked for validity; bindings name their keys in full.
    pub leader: Option<String>,
    pub help: Option<KeySpec>,
    pub reload: Option<KeySpec>,
    pub file_filter: Option<KeySpec>,
    pub grep: Option<KeySpec>,
    pub diff_menu: Option<KeySpec>,
    pub head_branch: Option<KeySpec>,
    pub base_branch: Option<KeySpec>,
    pub commit_picker: Option<KeySpec>,
    pub options_menu: Option<KeySpec>,
    pub file_browser: Option<KeySpec>,
    pub previous_file: Option<KeySpec>,
    pub next_file: Option<KeySpec>,
    pub previous_hunk: Option<KeySpec>,
    pub next_hunk: Option<KeySpec>,
    pub expand_context_up: Option<KeySpec>,
    pub expand_context_down: Option<KeySpec>,
    pub collapse_context_all: Option<KeySpec>,
    pub quit: Option<KeySpec>,
    pub layout: Option<KeySpec>,
    pub edit_hunk: Option<KeySpec>,
    pub save_mark: Option<KeySpec>,
    pub cancel_mark: Option<KeySpec>,
    pub copy_marks: Option<KeySpec>,
    pub copy_error_log: Option<KeySpec>,
    pub clear_filters: Option<KeySpec>,
    pub next_diff_type: Option<KeySpec>,
    pub previous_diff_type: Option<KeySpec>,
    pub next_annotation: Option<KeySpec>,
    pub previous_annotation: Option<KeySpec>,
}

/// The configured binding of a global action, if any.
pub open spec fn stored_global_field(s: StoredGlobalKeymap, action: GlobalAction) -> Option<KeySpec> {
    match action {
        GlobalAction::Help => s.help,
        GlobalAction::Reload => s.reload,
        GlobalAction::FileFilter => s.file_filter,
        GlobalAction::Grep => s.grep,
        GlobalAction::DiffMenu => s.diff_menu,
        GlobalAction::HeadBranch => s.head_branch,
        GlobalAction::BaseBranch => s.base_branch,
        GlobalAction::CommitPicker => s.commit_picker,
        GlobalAction::OptionsMenu => s.options_menu,
        GlobalAction::FileBrowser => s.file_browser,
        GlobalAction::PreviousFile => s.previous_file,
        GlobalAction::NextFile => s.next_file,
        GlobalAction::PreviousHunk => s.previous_hunk,
        GlobalAction::NextHunk => s.next_hunk,
        GlobalAction::ExpandContextUp => s.expand_context_up,
        GlobalAction::ExpandContextDown => s.expand_context_down,
        GlobalAction::CollapseContextAll => s.collapse_context_all,
        GlobalAction::Quit => s.quit,
        GlobalAction::Layout => s.layout,
        GlobalAction::EditHunk => s.edit_hunk,
        GlobalAction::SaveMark => s.save_mark,
        GlobalAction::CancelMark => s.cancel_mark,
        GlobalAction::CopyMarks => s.copy_marks,
        GlobalAction::CopyErrorLog => s.copy_error_log,
        GlobalAction::ClearFilters => s.clear_filters,
        GlobalAction::NextDiffType => s.next_diff_type,
        GlobalAction::PreviousDiffType => s.previous_diff_type,
        GlobalAction::NextAnnotation => s.next_annotation,
        GlobalAction::PreviousAnnotation => s.previous_annotation,
    }
}

impl StoredGlobalKeymap {
    /// Takes the configured binding of a global action out of the table.
    pub fn take(&mut self, action: GlobalAction) -> (r: Option<KeySpec>)
        ensures
            r == stored_global_field(*old(self), action),
            stored_global_field(*final(self), action) is None,
            forall|b: GlobalAction| b != action ==> #[trigger] stored_global_field(*final(self), b) == stored_global_field(*old(self), b),
            final(self).leader == old(self).leader,
    {
        match action {
            GlobalAction::Help => self.help.take(),
            GlobalAction::Reload => self.reload.take(),
            GlobalAction::FileFilter => self.file_filter.take(),
            GlobalAction::Grep => self.grep.take(),
            GlobalAction::DiffMenu => self.diff_menu.take(),
            GlobalAction::HeadBranch => self.head_branch.take(),
            GlobalAction::BaseBranch => self.base_branch.take(),
            GlobalAction::CommitPicker => self.commit_picker.take(),
            GlobalAction::OptionsMenu => self.options_menu.take(),
            GlobalAction::FileBrowser => self.file_browser.take(),
            GlobalAction::PreviousFile => self.previous_file.take(),
            GlobalAction::NextFile => self.next_file.take(),
            GlobalAction::PreviousHunk => self.previous_hunk.take(),
            GlobalAction::NextHunk => self.next_hunk.take(),
            GlobalAction::ExpandContextUp => self.expand_context_up.take(),
            GlobalAction::ExpandContextDown => self.expand_context_down.take(),
            GlobalAction::CollapseContextAll => self.collapse_context_all.take(),
            GlobalAction::Quit => self.quit.take(),
            GlobalAction::Layout => self.layout.take(),
            GlobalAction::EditHunk => self.edit_hunk.take(),
            GlobalAction::SaveMark => self.save_mark.take(),
            GlobalAction::CancelMark => self.cancel_mark.take(),
            GlobalAction::CopyMarks => self.copy_marks.take(),
            GlobalAction::CopyErrorLog => self.copy_error_log.take(),
            GlobalAction::ClearFilters => self.clear_filters.take(),
            GlobalAction::NextDiffType => self.next_diff_type.take(),
            GlobalAction::PreviousDiffType => self.previous_diff_type.take(),
            GlobalAction::NextAnnotation => self.next_annotation.take(),
            GlobalAction::PreviousAnnotation => self.previous_annotation.take(),
        }
    }
}

/// The `[keymap.menu]` table of the settings file.
#[derive(Debug, Default)]
pub struct StoredMenuKeymap {
    pub up: Option<KeySpec>,
    pub down: Option<KeySpec>,
    pub select: Option<KeySpec>,
    pub confirm: Option<KeySpec>,
    pub close: Option<KeySpec>,
}

/// The configured binding of a menu action, if any.
pub open spec fn stored_menu_field(s: StoredMenuKeymap, action: MenuAction) -> Option<KeySpec> {
    match action {
        MenuAction::Up => s.up,
        MenuAction::Down => s.down,
        MenuAction::Select => s.select,
        MenuAction::Confirm => s.confirm,
        MenuAction::Close => s.close,
    }
}

impl StoredMenuKeymap {
    /// Takes the configured binding of a menu action out of the table.
    pub fn take(&mut self, action: MenuAction) -> (r: Option<KeySpec>)
        ensures
            r == stored_menu_field(*old(self), action),
            stored_menu_field(*final(self), action) is None,
            forall|b: MenuAction| b != action ==> #[trigger] stored_menu_field(*final(self), b) == stored_menu_field(*old(self), b),
    {
        match action {
            MenuAction::Up => self.up.take(),
            MenuAction::Down => self.down.take(),
            MenuAction::Select => self.select.take(),
            MenuAction::Confirm => self.confirm.take(),
            MenuAction::Close => self.close.take(),
        }
    }
}

/// The `[keymap]` section of the settings file.
#[derive(Debug, Default)]
pub struct StoredKeymap {
    pub global: StoredGlobalKeymap,
    pub menu: StoredMenuKeymap,
}

/// Parses binding texts from index `k` on, stopping at the first error.
pub open spec fn parse_all_from(strs: Seq<Seq<char>>, k: int) -> Result<Seq<Seq<KeyPress>>, Seq<char>>
    decreases strs.len() - k,
{
    if k < 0 || k >= strs.len() {
        Ok(Seq::empty())
    } else {
        match parse_key_sequence_spec(strs[k]) {
            Err(e) => Err(e),
            Ok(first) => match parse_all_from(strs, k + 1) {
                Err(e) => Err(e),
                Ok(rest) => Ok(seq![first] + rest),
            },
        }
    }
}

/// Replaces `target` with the parsed configured bindings when a binding is
/// configured; the first binding that does not parse is reported and
/// `target` is left alone.
pub fn set_sequences(target: &mut Vec<KeySequence>, spec: Option<KeySpec>) -> (r: Result<(), String>)
    ensures
        spec is None ==> r is Ok && final(target)@ == old(target)@,
        spec is Some ==> (parse_all_from(key_spec_strings(spec->0), 0) matches Ok(seqs) ==> r is Ok
            && sequences_view(final(target)@) == seqs),
        spec is Some ==> (parse_all_from(key_spec_strings(spec->0), 0) matches Err(e) ==> (r matches Err(m)
            && m@ == e) && final(target)@ == old(target)@),
{
    if let Some(configured) = spec {
        let ghost strs = key_spec_strings(configured);
        let strings = configured.into_strings();
        let mut parsed: Vec<KeySequence> = Vec::new();
        let mut k: usize = 0;
        while k < strings.len()
            invariant
                spec is Some,
                strs == key_spec_strings(spec->0),
                target@ == old(target)@,
                k <= strings@.len(),
                strings_view(strings@) == strs,
                parse_all_from(strs, 0) == match parse_all_from(strs, k as int) {
                    Err(e) => Err(e),
                    Ok(rest) => Ok::<Seq<Seq<KeyPress>>, Seq<char>>(sequences_view(parsed@) + rest),
                },
            decreases strings@.len() - k,
        {
            assert(strs[k as int] == strings@[k as int]@);
            match parse_key_sequence(strings[k].as_str()) {
                Ok(sequence) => {
                    proof {
                        let rest = match parse_all_from(strs, k + 1) {
                            Ok(rest) => rest,
                            Err(e) => Seq::empty(),
                        };
                        assert(sequences_view(parsed@) + (seq![sequence@] + rest) =~= sequences_view(parsed@.push(sequence)) + rest);
                    }
                    parsed.push(sequence);
                },
                Err(e) => {
                    assert(parse_key_sequence_spec(strs[k as int]) == Err::<Seq<KeyPress>, Seq<char>>(e@));
                    assert(parse_all_from(strs, k as int) == Err::<Seq<Seq<KeyPress>>, Seq<char>>(e@));
                    assert(parse_all_from(strs, 0) == Err::<Seq<Seq<KeyPress>>, Seq<char>>(e@));
                    return Err(e);
                },
            }
            k = k + 1;
        }
        assert(sequences_view(parsed@) + Seq::<Seq<KeyPress>>::empty() =~= sequences_view(parsed@));
        *target = parsed;
    }
    Ok(())
}

/// Applies the configured global bindings from table position `i` on.
pub open spec fn apply_global_config(km: Seq<Seq<Seq<KeyPress>>>, g: StoredGlobalKeymap, i: int) -> Result<Seq<Seq<Seq<KeyPress>>>, Seq<char>>
    decreases GLOBAL_ACTION_COUNT - i,
{
    if i < 0 || i >= GLOBAL_ACTION_COUNT {
        Ok(km)
    } else {
        match stored_global_field(g, global_action_at_spec(i)) {
            None => apply_global_config(km, g, i + 1),
            Some(k) => match parse_all_from(key_spec_strings(k), 0) {
                Err(e) => Err(e),
                Ok(seqs) => apply_global_config(km.update(i, seqs), g, i + 1),
            },
        }
    }
}

/// Applies the configured menu bindings from table position `i` on.
pub open spec fn apply_menu_config(km: Seq<Seq<Seq<KeyPress>>>, m: StoredMenuKeymap, i: int) -> Result<Seq<Seq<Seq<KeyPress>>>, Seq<char>>
    decreases MENU_ACTION_COUNT - i,
{
    if i < 0 || i >= MENU_ACTION_COUNT {
        Ok(km)
    } else {
        match stored_menu_field(m, menu_action_at_spec(i)) {
            None => apply_menu_config(km, m, i + 1),
            Some(k) => match parse_all_from(key_spec_strings(k), 0) {
                Err(e) => Err(e),
                Ok(seqs) => apply_menu_config(km.update(i, seqs), m, i + 1),
            },
        }
    }
}

/// The keymap with copy-marks unbound when its bindings conflict with
/// another global binding.
pub open spec fn without_conflicting_copy_marks(km: KeymapView) -> KeymapView {
    if copy_marks_conflict(km) {
        KeymapView {
            global: km.global.update(global_action_index_spec(GlobalAction::CopyMarks), Seq::empty()),
            menu: km.menu,
        }
    } else {
        km
    }
}

/// The keymap a settings table describes: the defaults, with each
/// configured global binding replacing its action's defaults (copy-marks
/// being unbound if its unconfigured default conflicts with another
/// binding), then each configured menu binding, then validated. The first
/// error is reported: an unparsable leader, then global bindings in table
/// order, then menu bindings, then validation.
pub open spec fn from_stored_spec(stored: StoredKeymap) -> Result<KeymapView, Seq<char>> {
    let leader_error = match stored.global.leader {
        Some(l) => match parse_key_press_spec(l@) {
            Err(e) => Some(e),
            Ok(_) => None,
        },
        None => None,
    };
    if let Some(e) = leader_error {
        Err(e)
    } else {
        match apply_global_config(default_keymap().global, stored.global, 0) {
            Err(e) => Err(e),
            Ok(global) => {
                let km1 = KeymapView { global, menu: default_keymap().menu };
                let km2 = if stored.global.copy_marks is None {
                    without_conflicting_copy_marks(km1)
                } else {
                    km1
                };
                match apply_menu_config(km2.menu, stored.menu, 0) {
                    Err(e) => Err(e),
                    Ok(menu) => {
                        let km3 = KeymapView { global: km2.global, menu };
                        match validate_spec(km3) {
                            Err(e) => Err(e),
                            Ok(()) => Ok(km3),
                        }
                    },
                }
            },
        }
    }
}

proof fn lemma_global_table_bijection()
    ensures
        forall|i: int| 0 <= i < GLOBAL_ACTION_COUNT ==> #[trigger] global_action_index_spec(global_action_at_spec(i)) == i,
{
}

proof fn lemma_menu_table_bijection()
    ensures
        forall|i: int| 0 <= i < MENU_ACTION_COUNT ==> #[trigger] menu_action_index_spec(menu_action_at_spec(i)) == i,
{
}

impl Keymap {
    /// Builds the keymap that a settings table describes; see
    /// `from_stored_spec`.
    pub fn from_stored(stored: StoredKeymap) -> (r: Result<Keymap, String>)
        ensures
            match r {
                Ok(k) => k@.wf() && from_stored_spec(stored) == Ok::<KeymapView, Seq<char>>(k@),
                Err(e) => from_stored_spec(stored) == Err::<KeymapView, Seq<char>>(e@),
            },
    {
        proof {
            lemma_global_table_bijection();
            lemma_menu_table_bijection();
        }
        let ghost given = stored;
        let mut keymap = Keymap::default_bindings();
        let mut stored_global = stored.global;
        let mut stored_menu = stored.menu;
        let copy_marks_configured = stored_global.copy_marks.is_some();
        if let Some(leader) = stored_global.leader.take() {
            if let Err(e) = parse_key_press(leader.as_str()) {
                return Err(e);
            }
        }
        let mut i: usize = 0;
        while i < GLOBAL_ACTION_COUNT
            invariant
                given == stored,
                copy_marks_configured == (given.global.copy_marks is Some),
                match given.global.leader {
                    Some(l) => parse_key_press_spec(l@) is Ok,
                    None => true,
                },
                keymap@.wf(),
                i <= GLOBAL_ACTION_COUNT,
                keymap@.menu == default_keymap().menu,
                forall|j: int| i <= j < GLOBAL_ACTION_COUNT ==> #[trigger] stored_global_field(stored_global, global_action_at_spec(j)) == stored_global_field(given.global, global_action_at_spec(j)),
                apply_global_config(default_keymap().global, given.global, 0) == apply_global_config(keymap@.global, given.global, i as int),
                forall|j: int| 0 <= j < GLOBAL_ACTION_COUNT ==> #[trigger] global_action_index_spec(global_action_at_spec(j)) == j,
            decreases GLOBAL_ACTION_COUNT - i,
        {
            let action = global_action_at(i);
            let configured = stored_global.take(action);
            assert forall|j: int| i + 1 <= j < GLOBAL_ACTION_COUNT implies #[trigger] stored_global_field(stored_global, global_action_at_spec(j)) == stored_global_field(given.global, global_action_at_spec(j)) by {
                assert(global_action_index_spec(global_action_at_spec(j)) == j);
                assert(global_action_at_spec(j) != action);
            }
            if configured.is_some() {
                let mut target: Vec<KeySequence> = Vec::new();
                if let Err(e) = set_sequences(&mut target, configured) {
                    return Err(e);
                }
                keymap.set_global_sequences(action, target);
            }
            i = i + 1;
        }
        let ghost km1 = keymap@;
        assert(apply_global_config(default_keymap().global, given.global, 0) == Ok::<Seq<Seq<Seq<KeyPress>>>, Seq<char>>(km1.global));
        if !copy_marks_configured {
            keymap.clear_default_copy_marks_on_conflict();
        }
        let ghost km2 = keymap@;
        assert(km2 == if given.global.copy_marks is None { without_conflicting_copy_marks(km1) } else { km1 });
        let mut i: usize = 0;
        while i < MENU_ACTION_COUNT
            invariant
                given == stored,
                match given.global.leader {
                    Some(l) => parse_key_press_spec(l@) is Ok,
                    None => true,
                },
                km1.menu == default_keymap().menu,
                apply_global_config(default_keymap().global, given.global, 0) == Ok::<Seq<Seq<Seq<KeyPress>>>, Seq<char>>(km1.global),
                km2 == if given.global.copy_marks is None { without_conflicting_copy_marks(km1) } else { km1 },
                keymap@.wf(),
                i <= MENU_ACTION_COUNT,
                keymap@.global == km2.global,
                forall|j: int| i <= j < MENU_ACTION_COUNT ==> #[trigger] stored_menu_field(stored_menu, menu_action_at_spec(j)) == stored_menu_field(given.menu, menu_action_at_spec(j)),
                apply_menu_config(km2.menu, given.menu, 0) == apply_menu_config(keymap@.menu, given.menu, i as int),
                forall|j: int| 0 <= j < MENU_ACTION_COUNT ==> #[trigger] menu_action_index_spec(menu_action_at_spec(j)) == j,
            decreases MENU_ACTION_COUNT - i,
        {
            let action = menu_action_at(i);
            let configured = stored_menu.take(action);
            assert forall|j: int| i + 1 <= j < MENU_ACTION_COUNT implies #[trigger] stored_menu_field(stored_menu, menu_action_at_spec(j)) == stored_menu_field(given.menu, menu_action_at_spec(j)) by {
                assert(menu_action_index_spec(menu_action_at_spec(j)) == j);
                assert(menu_action_at_spec(j) != action);
            }
            if configured.is_some() {
                let mut target: Vec<KeySequence> = Vec::new();
                if let Err(e) = set_sequences(&mut target, configured) {
                    return Err(e);
                }
                keymap.set_menu_sequences(action, target);
            }
            i = i + 1;
        }
        if let Err(e) = keymap.validate() {
            return Err(e);
        }
        Ok(keymap)
    }
}

/// A binding position of `entries`: entry `i`, sequence `j`.
pub open spec fn is_binding_position(entries: Seq<(Seq<char>, Seq<Seq<KeyPress>>)>, i: int, j: int) -> bool {
    0 <= i < entries.len() && 0 <= j < entries[i].1.len()
}

/// Position `(i2, j2)` comes at or after `(i, j)` in binding order.
pub open spec fn at_or_after(i2: int, j2: int, i: int, j: int) -> bool {
    i2 > i || (i2 == i && j2 >= j)
}

proof fn lemma_first_other_entry_none(seen: Seq<(Seq<char>, int)>, label: Seq<char>, entry: int, m: int)
    requires
        0 <= m,
        first_other_entry(seen, label, entry, m) is None,
    ensures
        forall|k: int| m <= k < seen.len() && #[trigger] seen[k].0 == label ==> seen[k].1 == entry,
    decreases seen.len() - m,
{
    if m < seen.len() {
        lemma_first_other_entry_none(seen, label, entry, m + 1);
    }
}

/// When the scan from `(i, j)` finds no conflict, no later sequence has the
/// label of a record of another entry in `seen`, and no two later sequences
/// of different entries share a label.
proof fn lemma_no_conflict_from(entries: Seq<(Seq<char>, Seq<Seq<KeyPress>>)>, i: int, j: int, seen: Seq<(Seq<char>, int)>)
    requires
        0 <= i,
        0 <= j,
        conflict_from(entries, i, j, seen) is None,
    ensures
        forall|i2: int, j2: int, m: int|
            #![trigger seen[m], sequence_label_spec(entries[i2].1[j2])]
            is_binding_position(entries, i2, j2) && at_or_after(i2, j2, i, j) && 0 <= m < seen.len() && seen[m].1 != i2
                ==> seen[m].0 != sequence_label_spec(entries[i2].1[j2]),
        forall|i1: int, j1: int, i2: int, j2: int|
            #![trigger sequence_label_spec(entries[i1].1[j1]), sequence_label_spec(entries[i2].1[j2])]
            is_binding_position(entries, i1, j1) && is_binding_position(entries, i2, j2) && at_or_after(i1, j1, i, j)
                && at_or_after(i2, j2, i, j) && i1 != i2
                ==> sequence_label_spec(entries[i1].1[j1]) != sequence_label_spec(entries[i2].1[j2]),
    decreases entries.len() - i, entries[i].1.len() - j,
{
    if i >= entries.len() {
    } else if j >= entries[i].1.len() {
        lemma_no_conflict_from(entries, i + 1, 0, seen);
    } else {
        let label = sequence_label_spec(entries[i].1[j]);
        let seen2 = seen.push((label, i));
        lemma_first_other_entry_none(seen, label, i, 0);
        lemma_no_conflict_from(entries, i, j + 1, seen2);
        assert forall|i2: int, j2: int, m: int|
            #![trigger seen[m], sequence_label_spec(entries[i2].1[j2])]
            is_binding_position(entries, i2, j2) && at_or_after(i2, j2, i, j) && 0 <= m < seen.len() && seen[m].1 != i2
                implies seen[m].0 != sequence_label_spec(entries[i2].1[j2]) by {
            if i2 == i && j2 == j {
                if seen[m].0 == label {
                    assert(seen[m].1 == i);
                }
            } else {
                assert(seen2[m] == seen[m]);
                assert(seen2[m].0 != sequence_label_spec(entries[i2].1[j2]));
            }
        }
        assert forall|i1: int, j1: int, i2: int, j2: int|
            #![trigger sequence_label_spec(entries[i1].1[j1]), sequence_label_spec(entries[i2].1[j2])]
            is_binding_position(entries, i1, j1) && is_binding_position(entries, i2, j2) && at_or_after(i1, j1, i, j)
                && at_or_after(i2, j2, i, j) && i1 != i2
                implies sequence_label_spec(entries[i1].1[j1]) != sequence_label_spec(entries[i2].1[j2]) by {
            let last = seen.len() as int;
            if i1 == i && j1 == j {
                assert(seen2[last] == (label, i));
                assert(seen2[last].0 != sequence_label_spec(entries[i2].1[j2]));
            } else if i2 == i && j2 == j {
                assert(seen2[last] == (label, i));
                assert(seen2[last].0 != sequence_label_spec(entries[i1].1[j1]));
            }
        }
    }
}

/// When the conflict check passes, sequences of different entries differ.
pub proof fn lemma_validated_entries_disjoint(context: Seq<char>, entries: Seq<(Seq<char>, Seq<Seq<KeyPress>>)>)
    requires
        validate_conflicts_spec(context, entries) is Ok,
    ensures
        forall|i1: int, j1: int, i2: int, j2: int|
            #![trigger entries[i1].1[j1], entries[i2].1[j2]]
            is_binding_position(entries, i1, j1) && is_binding_position(entries, i2, j2) && i1 != i2
                ==> entries[i1].1[j1] != entries[i2].1[j2],
{
    lemma_no_conflict_from(entries, 0, 0, Seq::empty());
    assert forall|i1: int, j1: int, i2: int, j2: int|
        #![trigger entries[i1].1[j1], entries[i2].1[j2]]
        is_binding_position(entries, i1, j1) && is_binding_position(entries, i2, j2) && i1 != i2
            implies entries[i1].1[j1] != entries[i2].1[j2] by {
        assert(sequence_label_spec(entries[i1].1[j1]) != sequence_label_spec(entries[i2].1[j2]));
    }
}

proof fn lemma_collect_first_keys(
    entries: Seq<(Seq<char>, Seq<Seq<KeyPress>>)>,
    n: int,
    i: int,
    j: int,
    acc: Seq<(Seq<char>, int)>,
)
    requires
        0 <= i,
        0 <= j,
        n >= 1,
    ensures
        ({
            let r = collect_first_keys(entries, n, i, j, acc);
            &&& acc.len() <= r.len()
            &&& forall|k: int| 0 <= k < acc.len() ==> #[trigger] r[k] == acc[k]
            &&& forall|i2: int, j2: int|
                #![trigger entries[i2].1[j2]]
                is_binding_position(entries, i2, j2) && at_or_after(i2, j2, i, j) && entries[i2].1[j2].len() == n
                    ==> exists|k: int| 0 <= k < r.len() && (#[trigger] r[k]).0 == key_label_spec(entries[i2].1[j2][0])
        }),
    decreases entries.len() - i, entries[i].1.len() - j,
{
    let r = collect_first_keys(entries, n, i, j, acc);
    if i >= entries.len() {
    } else if j >= entries[i].1.len() {
        lemma_collect_first_keys(entries, n, i + 1, 0, acc);
    } else if entries[i].1[j].len() == n {
        let acc2 = acc.push((key_label_spec(entries[i].1[j][0]), i));
        lemma_collect_first_keys(entries, n, i, j + 1, acc2);
        assert(r[acc.len() as int] == acc2[acc.len() as int]);
        assert forall|k: int| 0 <= k < acc.len() implies #[trigger] r[k] == acc[k] by {
            assert(r[k] == acc2[k]);
        }
    } else {
        lemma_collect_first_keys(entries, n, i, j + 1, acc);
    }
}

proof fn lemma_last_entry_none(list: Seq<(Seq<char>, int)>, label: Seq<char>, k: int)
    requires
        0 <= k <= list.len(),
        last_entry(list, label, k) is None,
    ensures
        forall|m: int| 0 <= m < k ==> (#[trigger] list[m]).0 != label,
    decreases k,
{
    if k > 0 {
        lemma_last_entry_none(list, label, k - 1);
    }
}

proof fn lemma_no_prefix_conflict_from(singles: Seq<(Seq<char>, int)>, prefixes: Seq<(Seq<char>, int)>, k: int)
    requires
        0 <= k,
        prefix_conflict_from(singles, prefixes, k) is None,
    ensures
        forall|k2: int, m: int|
            #![trigger prefixes[k2], singles[m]]
            k <= k2 < prefixes.len() && 0 <= m < singles.len() ==> singles[m].0 != prefixes[k2].0,
    decreases prefixes.len() - k,
{
    if k < prefixes.len() {
        lemma_last_entry_none(singles, prefixes[k].0, singles.len() as int);
        lemma_no_prefix_conflict_from(singles, prefixes, k + 1);
    }
}

/// When the prefix check passes, no key bound alone starts a two-key
/// binding of any entry.
pub proof fn lemma_validated_prefixes_disjoint(context: Seq<char>, entries: Seq<(Seq<char>, Seq<Seq<KeyPress>>)>)
    requires
        validate_prefix_conflicts_spec(context, entries) is Ok,
    ensures
        forall|i1: int, j1: int, i2: int, j2: int|
            #![trigger entries[i1].1[j1], entries[i2].1[j2]]
            is_binding_position(entries, i1, j1) && is_binding_position(entries, i2, j2)
                && entries[i1].1[j1].len() == 1 && entries[i2].1[j2].len() == 2
                ==> entries[i1].1[j1][0] != entries[i2].1[j2][0],
{
    let singles = collect_first_keys(entries, 1, 0, 0, Seq::empty());
    let prefixes = collect_first_keys(entries, 2, 0, 0, Seq::empty());
    lemma_collect_first_keys(entries, 1, 0, 0, Seq::empty());
    lemma_collect_first_keys(entries, 2, 0, 0, Seq::empty());
    lemma_no_prefix_conflict_from(singles, prefixes, 0);
    assert forall|i1: int, j1: int, i2: int, j2: int|
        #![trigger entries[i1].1[j1], entries[i2].1[j2]]
        is_binding_position(entries, i1, j1) && is_binding_position(entries, i2, j2)
            && entries[i1].1[j1].len() == 1 && entries[i2].1[j2].len() == 2
            implies entries[i1].1[j1][0] != entries[i2].1[j2][0] by {
        let m = choose|m: int| 0 <= m < singles.len() && (#[trigger] singles[m]).0 == key_label_spec(entries[i1].1[j1][0]);
        let k2 = choose|k: int| 0 <= k < prefixes.len() && (#[trigger] prefixes[k]).0 == key_label_spec(entries[i2].1[j2][0]);
        assert(singles[m].0 != prefixes[k2].0);
    }
}

/// The position in the conflict-checked list of the global action at table
/// position `t` (the two annotation-draft actions, at 20 and 21, are left
/// out).
spec fn normal_position(t: int) -> int {
    if t <= 20 {
        t
    } else if t == 21 {
        20
    } else {
        t - 2
    }
}

proof fn lemma_normal_entries(km: KeymapView, i: int, acc: Seq<(Seq<char>, Seq<Seq<KeyPress>>)>)
    requires
        0 <= i <= GLOBAL_ACTION_COUNT,
        acc.len() == normal_position(i),
    ensures
        ({
            let r = normal_entries_from(km, i, acc);
            &&& r.len() == normal_position(GLOBAL_ACTION_COUNT as int)
            &&& forall|k: int| 0 <= k < acc.len() ==> #[trigger] r[k] == acc[k]
            &&& forall|t: int| i <= t < GLOBAL_ACTION_COUNT && !is_mark_draft_action(global_action_at_spec(t))
                ==> #[trigger] r[normal_position(t)].1 == km.global[t]
        }),
    decreases GLOBAL_ACTION_COUNT - i,
{
    if i < GLOBAL_ACTION_COUNT {
        if is_mark_draft_action(global_action_at_spec(i)) {
            lemma_normal_entries(km, i + 1, acc);
        } else {
            let acc2 = acc.push((global_action_name_spec(global_action_at_spec(i)), km.global[i]));
            assert(i != 20 && i != 21);
            lemma_normal_entries(km, i + 1, acc2);
            let r = normal_entries_from(km, i, acc);
            assert(r[acc.len() as int] == acc2[acc.len() as int]);
            assert forall|k: int| 0 <= k < acc.len() implies #[trigger] r[k] == acc[k] by {
                assert(r[k] == acc2[k]);
            }
        }
    }
}

proof fn lemma_global_lengths(km: KeymapView, i: int)
    requires
        0 <= i,
        global_length_error_from(km, i) is None,
    ensures
        forall|t: int, j: int| i <= t < GLOBAL_ACTION_COUNT && 0 <= j < km.global[t].len()
            ==> !bad_global_length(global_action_at_spec(t), #[trigger] km.global[t][j]),
    decreases GLOBAL_ACTION_COUNT - i,
{
    if i < GLOBAL_ACTION_COUNT {
        lemma_global_lengths(km, i + 1);
    }
}

proof fn lemma_menu_lengths(km: KeymapView, i: int)
    requires
        0 <= i,
        menu_length_error_from(km, i) is None,
    ensures
        forall|t: int, j: int| i <= t < MENU_ACTION_COUNT && 0 <= j < km.menu[t].len()
            ==> #[trigger] km.menu[t][j].len() == 1,
    decreases MENU_ACTION_COUNT - i,
{
    if i < MENU_ACTION_COUNT {
        lemma_menu_lengths(km, i + 1);
    }
}

/// The bindings of a keymap hang together: every global binding has one key
/// or two (one for the editor and the two annotation-draft actions), every
/// menu binding has one key, no sequence is bound to two actions outside
/// the annotation draft, no key bound alone outside the draft starts a
/// two-key binding outside the draft, the two draft actions share no
/// sequence, and no sequence is bound to two menu actions.
pub open spec fn keymap_bindings_consistent(km: KeymapView) -> bool {
    &&& forall|a: GlobalAction, k: int|
        0 <= k < km.global_bindings(a).len() ==> 1 <= (#[trigger] km.global_bindings(a)[k]).len() <= max_keys_spec(a)
    &&& forall|m: MenuAction, k: int|
        0 <= k < km.menu_bindings(m).len() ==> (#[trigger] km.menu_bindings(m)[k]).len() == 1
    &&& forall|a: GlobalAction, b: GlobalAction, k1: int, k2: int|
        #![trigger km.global_bindings(a)[k1], km.global_bindings(b)[k2]]
        a != b && !is_mark_draft_action(a) && !is_mark_draft_action(b) && 0 <= k1 < km.global_bindings(a).len()
            && 0 <= k2 < km.global_bindings(b).len() ==> km.global_bindings(a)[k1] != km.global_bindings(b)[k2]
    &&& forall|a: GlobalAction, b: GlobalAction, k1: int, k2: int|
        #![trigger km.global_bindings(a)[k1], km.global_bindings(b)[k2]]
        !is_mark_draft_action(a) && !is_mark_draft_action(b) && 0 <= k1 < km.global_bindings(a).len()
            && 0 <= k2 < km.global_bindings(b).len() && km.global_bindings(a)[k1].len() == 1
            && km.global_bindings(b)[k2].len() == 2 ==> km.global_bindings(a)[k1][0] != km.global_bindings(b)[k2][0]
    &&& forall|k1: int, k2: int|
        #![trigger km.global_bindings(GlobalAction::SaveMark)[k1], km.global_bindings(GlobalAction::CancelMark)[k2]]
        0 <= k1 < km.global_bindings(GlobalAction::SaveMark).len() && 0 <= k2 < km.global_bindings(GlobalAction::CancelMark).len()
            ==> km.global_bindings(GlobalAction::SaveMark)[k1] != km.global_bindings(GlobalAction::CancelMark)[k2]
    &&& forall|m1: MenuAction, m2: MenuAction, k1: int, k2: int|
        #![trigger km.menu_bindings(m1)[k1], km.menu_bindings(m2)[k2]]
        m1 != m2 && 0 <= k1 < km.menu_bindings(m1).len() && 0 <= k2 < km.menu_bindings(m2).len()
            ==> km.menu_bindings(m1)[k1] != km.menu_bindings(m2)[k2]
}

/// A keymap that passes validation has consistent bindings.
pub proof fn lemma_validated_keymap_consistent(km: KeymapView)
    requires
        validate_spec(km) is Ok,
    ensures
        keymap_bindings_consistent(km),
{
    let normal = normal_entries_from(km, 0, Seq::empty());
    lemma_global_lengths(km, 0);
    lemma_menu_lengths(km, 0);
    lemma_normal_entries(km, 0, Seq::empty());
    lemma_validated_entries_disjoint("keymap.global"@, normal);
    lemma_validated_prefixes_disjoint("keymap.global"@, normal);
    lemma_validated_entries_disjoint("keymap.global"@, mark_draft_entries(km));
    lemma_validated_entries_disjoint("keymap.menu"@, menu_entries(km));
    assert forall|a: GlobalAction| #[trigger] global_action_at_spec(global_action_index_spec(a)) == a
        && 0 <= global_action_index_spec(a) < GLOBAL_ACTION_COUNT by {
    }
    assert forall|m: MenuAction| #[trigger] menu_action_at_spec(menu_action_index_spec(m)) == m
        && 0 <= menu_action_index_spec(m) < MENU_ACTION_COUNT by {
    }
    assert forall|a: GlobalAction, k: int|
        0 <= k < km.global_bindings(a).len() implies 1 <= (#[trigger] km.global_bindings(a)[k]).len() <= max_keys_spec(a) by {
        let t = global_action_index_spec(a);
        assert(global_action_at_spec(t) == a);
        assert(!bad_global_length(global_action_at_spec(t), km.global[t][k]));
    }
    assert forall|m: MenuAction, k: int|
        0 <= k < km.menu_bindings(m).len() implies (#[trigger] km.menu_bindings(m)[k]).len() == 1 by {
        let t = menu_action_index_spec(m);
        assert(km.menu[t][k].len() == 1);
    }
    assert forall|a: GlobalAction, b: GlobalAction, k1: int, k2: int|
        #![trigger km.global_bindings(a)[k1], km.global_bindings(b)[k2]]
        a != b && !is_mark_draft_action(a) && !is_mark_draft_action(b) && 0 <= k1 < km.global_bindings(a).len()
            && 0 <= k2 < km.global_bindings(b).len() implies km.global_bindings(a)[k1] != km.global_bindings(b)[k2] by {
        let ta = global_action_index_spec(a);
        let tb = global_action_index_spec(b);
        assert(global_action_at_spec(ta) == a);
        assert(global_action_at_spec(tb) == b);
        let ea = normal_position(ta);
        let eb = normal_position(tb);
        assert(normal[ea].1 == km.global[ta]);
        assert(normal[eb].1 == km.global[tb]);
        assert(is_binding_position(normal, ea, k1));
        assert(is_binding_position(normal, eb, k2));
        assert(normal[ea].1[k1] != normal[eb].1[k2]);
    }
    assert forall|a: GlobalAction, b: GlobalAction, k1: int, k2: int|
        #![trigger km.global_bindings(a)[k1], km.global_bindings(b)[k2]]
        !is_mark_draft_action(a) && !is_mark_draft_action(b) && 0 <= k1 < km.global_bindings(a).len()
            && 0 <= k2 < km.global_bindings(b).len() && km.global_bindings(a)[k1].len() == 1
            && km.global_bindings(b)[k2].len() == 2 implies km.global_bindings(a)[k1][0] != km.global_bindings(b)[k2][0] by {
        let ta = global_action_index_spec(a);
        let tb = global_action_index_spec(b);
        assert(global_action_at_spec(ta) == a);
        assert(global_action_at_spec(tb) == b);
        let ea = normal_position(ta);
        let eb = normal_position(tb);
        assert(normal[ea].1 == km.global[ta]);
        assert(normal[eb].1 == km.global[tb]);
        assert(is_binding_position(normal, ea, k1));
        assert(is_binding_position(normal, eb, k2));
        assert(normal[ea].1[k1][0] != normal[eb].1[k2][0]);
    }
    let draft = mark_draft_entries(km);
    assert forall|k1: int, k2: int|
        #![trigger km.global_bindings(GlobalAction::SaveMark)[k1], km.global_bindings(GlobalAction::CancelMark)[k2]]
        0 <= k1 < km.global_bindings(GlobalAction::SaveMark).len() && 0 <= k2 < km.global_bindings(GlobalAction::CancelMark).len()
            implies km.global_bindings(GlobalAction::SaveMark)[k1] != km.global_bindings(GlobalAction::CancelMark)[k2] by {
        assert(is_binding_position(draft, 0, k1));
        assert(is_binding_position(draft, 1, k2));
        assert(draft[0].1[k1] != draft[1].1[k2]);
    }
    let menu = menu_entries(km);
    assert forall|m1: MenuAction, m2: MenuAction, k1: int, k2: int|
        #![trigger km.menu_bindings(m1)[k1], km.menu_bindings(m2)[k2]]
        m1 != m2 && 0 <= k1 < km.menu_bindings(m1).len() && 0 <= k2 < km.menu_bindings(m2).len()
            implies km.menu_bindings(m1)[k1] != km.menu_bindings(m2)[k2] by {
        let t1 = menu_action_index_spec(m1);
        let t2 = menu_action_index_spec(m2);
        assert(menu_action_at_spec(t1) == m1);
        assert(menu_action_at_spec(t2) == m2);
        assert(menu[t1].1 == km.menu[t1]);
        assert(menu[t2].1 == km.menu[t2]);
        assert(is_binding_position(menu, t1, k1));
        assert(is_binding_position(menu, t2, k2));
        assert(menu[t1].1[k1] != menu[t2].1[k2]);
    }
}

/// A keymap built from settings always passes validation, and so its
/// bindings hang together (see `keymap_bindings_consistent`): allowed
/// lengths, no sequence bound to two actions of a group, and no key that is
/// both a binding and a prefix.
pub proof fn law_configured_keymap_is_valid(stored: StoredKeymap)
    ensures
        from_stored_spec(stored) matches Ok(km) ==> validate_spec(km) is Ok && keymap_bindings_consistent(km),
{
    if let Ok(km) = from_stored_spec(stored) {
        lemma_validated_keymap_consistent(km);
    }
}

/// The modifier part of a configuration label: `ctrl-`, `alt-` and `shift-`
/// for the modifiers named, in that order.
pub open spec fn modifier_prefix(control: bool, alt: bool, shift: bool) -> Seq<char> {
    (if control { "ctrl-"@ } else { Seq::empty() }) + (if alt { "alt-"@ } else { Seq::empty() }) + (if shift {
        "shift-"@
    } else {
        Seq::empty()
    })
}

proof fn lemma_starts_with_concat(p: Seq<char>, r: Seq<char>)
    ensures
        starts_with(p + r, p),
        (p + r).skip(p.len() as int) == r,
{
    assert((p + r).subrange(0, p.len() as int) =~= p);
    assert((p + r).skip(p.len() as int) =~= r);
}

proof fn lemma_not_starts_with(s: Seq<char>, p: Seq<char>, i: int)
    requires
        0 <= i < p.len(),
        i < s.len(),
        s[i] != p[i],
    ensures
        !starts_with(s, p),
{
    if starts_with(s, p) {
        assert(s.subrange(0, p.len() as int)[i] == s[i]);
    }
}

proof fn lemma_strip_ctrl(r: Seq<char>, m: KeyModifiers)
    ensures
        strip_modifier_prefixes("ctrl-"@ + r, m) == strip_modifier_prefixes(r, KeyModifiers { control: true, ..m }),
{
    reveal_strlit("ctrl-");
    lemma_starts_with_concat("ctrl-"@, r);
}

proof fn lemma_strip_alt(r: Seq<char>, m: KeyModifiers)
    ensures
        strip_modifier_prefixes("alt-"@ + r, m) == strip_modifier_prefixes(r, KeyModifiers { alt: true, ..m }),
{
    reveal_strlit("alt-");
    reveal_strlit("ctrl-");
    reveal_strlit("ctrl+");
    reveal_strlit("c-");
    reveal_strlit("c+");
    let s = "alt-"@ + r;
    assert(s[0] == 'a');
    lemma_not_starts_with(s, "ctrl-"@, 0);
    lemma_not_starts_with(s, "ctrl+"@, 0);
    lemma_not_starts_with(s, "c-"@, 0);
    lemma_not_starts_with(s, "c+"@, 0);
    lemma_starts_with_concat("alt-"@, r);
}

proof fn lemma_strip_shift(r: Seq<char>, m: KeyModifiers)
    ensures
        strip_modifier_prefixes("shift-"@ + r, m) == strip_modifier_prefixes(r, KeyModifiers { shift: true, ..m }),
{
    reveal_strlit("shift-");
    reveal_strlit("ctrl-");
    reveal_strlit("ctrl+");
    reveal_strlit("c-");
    reveal_strlit("c+");
    reveal_strlit("alt-");
    reveal_strlit("alt+");
    reveal_strlit("a-");
    reveal_strlit("a+");
    let s = "shift-"@ + r;
    assert(s[0] == 's');
    lemma_not_starts_with(s, "ctrl-"@, 0);
    lemma_not_starts_with(s, "ctrl+"@, 0);
    lemma_not_starts_with(s, "c-"@, 0);
    lemma_not_starts_with(s, "c+"@, 0);
    lemma_not_starts_with(s, "alt-"@, 0);
    lemma_not_starts_with(s, "alt+"@, 0);
    lemma_not_starts_with(s, "a-"@, 0);
    lemma_not_starts_with(s, "a+"@, 0);
    lemma_starts_with_concat("shift-"@, r);
}

/// A name that starts with no modifier prefix is left as it is.
proof fn lemma_strip_none(r: Seq<char>, m: KeyModifiers)
    requires
        r.len() < 2 || (r[1] != '-' && r[1] != '+' && !(r[0] == 'c' && r[1] == 't') && !(r[0] == 'a' && r[1] == 'l')
            && !(r[0] == 's' && r[1] == 'h')),
    ensures
        strip_modifier_prefixes(r, m) == (r, m),
{
    reveal_strlit("ctrl-");
    reveal_strlit("ctrl+");
    reveal_strlit("c-");
    reveal_strlit("c+");
    reveal_strlit("alt-");
    reveal_strlit("alt+");
    reveal_strlit("a-");
    reveal_strlit("a+");
    reveal_strlit("shift-");
    reveal_strlit("shift+");
    reveal_strlit("s-");
    reveal_strlit("s+");
    if r.len() >= 2 {
        let i0 = if r[0] != 'c' { 0int } else { 1int };
        lemma_not_starts_with(r, "ctrl-"@, i0);
        lemma_not_starts_with(r, "ctrl+"@, i0);
        lemma_not_starts_with(r, "c-"@, i0);
        lemma_not_starts_with(r, "c+"@, i0);
        let i1 = if r[0] != 'a' { 0int } else { 1int };
        lemma_not_starts_with(r, "alt-"@, i1);
        lemma_not_starts_with(r, "alt+"@, i1);
        lemma_not_starts_with(r, "a-"@, i1);
        lemma_not_starts_with(r, "a+"@, i1);
        let i2 = if r[0] != 's' { 0int } else { 1int };
        lemma_not_starts_with(r, "shift-"@, i2);
        lemma_not_starts_with(r, "shift+"@, i2);
        lemma_not_starts_with(r, "s-"@, i2);
        lemma_not_starts_with(r, "s+"@, i2);
    }
}

/// The modifier prefix of a label is stripped whole, naming its modifiers.
proof fn lemma_strip_modifier_prefix(control: bool, alt: bool, shift: bool, r: Seq<char>, m: KeyModifiers)
    ensures
        strip_modifier_prefixes(modifier_prefix(control, alt, shift) + r, m) == strip_modifier_prefixes(
            r,
            KeyModifiers { control: m.control || control, alt: m.alt || alt, shift: m.shift || shift, ..m },
        ),
{
    let cp: Seq<char> = if control { "ctrl-"@ } else { Seq::empty() };
    let ap: Seq<char> = if alt { "alt-"@ } else { Seq::empty() };
    let sp: Seq<char> = if shift { "shift-"@ } else { Seq::empty() };
    assert(modifier_prefix(control, alt, shift) + r =~= cp + (ap + (sp + r)));
    let m1 = KeyModifiers { control: m.control || control, ..m };
    let m2 = KeyModifiers { alt: m.alt || alt, ..m1 };
    let m3 = KeyModifiers { shift: m.shift || shift, ..m2 };
    if control {
        lemma_strip_ctrl(ap + (sp + r), m);
    } else {
        assert(cp + (ap + (sp + r)) =~= ap + (sp + r));
    }
    if alt {
        lemma_strip_alt(sp + r, m1);
    } else {
        assert(ap + (sp + r) =~= sp + r);
    }
    if shift {
        lemma_strip_shift(r, m2);
    } else {
        assert(sp + r =~= r);
    }
    assert(m3 == KeyModifiers { control: m.control || control, alt: m.alt || alt, shift: m.shift || shift, ..m });
}

proof fn lemma_lowercased_concat(a: Seq<char>, b: Seq<char>)
    ensures
        lowercased(a + b) == lowercased(a) + lowercased(b),
{
    assert(lowercased(a + b) =~= lowercased(a) + lowercased(b));
}

proof fn lemma_modifier_prefix_lowercase(control: bool, alt: bool, shift: bool)
    ensures
        lowercased(modifier_prefix(control, alt, shift)) == modifier_prefix(control, alt, shift),
        modifier_prefix(control, alt, shift).len() > 0 ==> modifier_prefix(control, alt, shift)[0] == (if control {
            'c'
        } else if alt {
            'a'
        } else {
            's'
        }),
        modifier_prefix(control, alt, shift).len() == 0 <==> !control && !alt && !shift,
{
    reveal_strlit("ctrl-");
    reveal_strlit("alt-");
    reveal_strlit("shift-");
    let cp: Seq<char> = if control { "ctrl-"@ } else { Seq::empty() };
    let ap: Seq<char> = if alt { "alt-"@ } else { Seq::empty() };
    let sp: Seq<char> = if shift { "shift-"@ } else { Seq::empty() };
    assert(lowercased(cp) =~= cp);
    assert(lowercased(ap) =~= ap);
    assert(lowercased(sp) =~= sp);
    lemma_lowercased_concat(cp, ap);
    lemma_lowercased_concat(cp + ap, sp);
}

proof fn lemma_trim_keeps(s: Seq<char>)
    requires
        s.len() > 0,
        !is_whitespace_char(s[0]),
        !is_whitespace_char(s[s.len() - 1]),
    ensures
        trimmed(s) == s,
{
    assert(trim_start_index(s, 0) == 0);
    assert(trim_end_index(s, 0, s.len() as int) == s.len());
    assert(s.subrange(0, s.len() as int) =~= s);
}

/// The key presses that a configuration label names: normalized, with only
/// Control, Alt and Shift held, and not a key that key names cannot spell
/// (Delete, a key outside the modelled set, Shift-Tab written as a shifted
/// Tab, or a whitespace character other than the space).
pub open spec fn has_config_label(k: KeyPress) -> bool {
    &&& k == key_press_spec(k.code, k.modifiers)
    &&& !k.modifiers.super_key && !k.modifiers.hyper && !k.modifiers.meta
    &&& match k.code {
        KeyCode::Char(c) => c == ' ' || !is_whitespace_char(c),
        KeyCode::Tab => !k.modifiers.shift,
        KeyCode::Delete => false,
        KeyCode::Other => false,
        _ => true,
    }
}

/// Parsing the configuration label of a key press gives that key press
/// back, for every key press that a label can name.
pub proof fn law_key_label_parses_back(k: KeyPress)
    requires
        has_config_label(k),
    ensures
        parse_key_press_spec(key_label_spec(k)) == Ok::<KeyPress, Seq<char>>(k),
{
    let sh = k.modifiers.shift || shifted_modified_char(k);
    let pre = modifier_prefix(k.modifiers.control, k.modifiers.alt, sh);
    let name = key_name_spec(k);
    let label = key_label_spec(k);
    assert(label == pre + name);
    reveal_strlit("space");
    reveal_strlit("enter");
    reveal_strlit("return");
    reveal_strlit("esc");
    reveal_strlit("escape");
    reveal_strlit("tab");
    reveal_strlit("shift-tab");
    reveal_strlit("shift-");
    reveal_strlit("backtab");
    reveal_strlit("up");
    reveal_strlit("down");
    reveal_strlit("left");
    reveal_strlit("right");
    reveal_strlit("home");
    reveal_strlit("end");
    reveal_strlit("pageup");
    reveal_strlit("page-up");
    reveal_strlit("pgup");
    reveal_strlit("pagedown");
    reveal_strlit("page-down");
    reveal_strlit("pgdn");
    reveal_strlit("backspace");
    reveal_strlit("bs");
    assert(name.len() > 0);
    assert(!is_whitespace_char(name[0]));
    assert(!is_whitespace_char(name[name.len() - 1]));
    lemma_modifier_prefix_lowercase(k.modifiers.control, k.modifiers.alt, sh);
    assert(label[label.len() - 1] == name[name.len() - 1]);
    if pre.len() > 0 {
        assert(label[0] == pre[0]);
    } else {
        assert(label =~= name);
    }
    lemma_trim_keeps(label);
    let lname = lowercased(name);
    lemma_lowercased_concat(pre, name);
    let m1 = KeyModifiers { control: k.modifiers.control, alt: k.modifiers.alt, shift: sh, ..no_modifiers() };
    lemma_strip_modifier_prefix(k.modifiers.control, k.modifiers.alt, sh, lname, no_modifiers());
    assert(KeyModifiers {
        control: no_modifiers().control || k.modifiers.control,
        alt: no_modifiers().alt || k.modifiers.alt,
        shift: no_modifiers().shift || sh,
        ..no_modifiers()
    } == m1);
    if k.code is BackTab {
        assert(lname =~= "shift-"@ + "tab"@);
        lemma_strip_shift("tab"@, m1);
        lemma_strip_none("tab"@, KeyModifiers { shift: true, ..m1 });
    } else {
        match k.code {
            KeyCode::Char(c) => {
                if c == ' ' {
                    assert(lname =~= "space"@);
                } else {
                    assert(lname.len() == 1);
                }
            },
            _ => {
                assert(lname =~= name);
            },
        }
        lemma_strip_none(lname, m1);
    }
}

} // verus!

use vstd::prelude::*;

verus! {

/// One row of the diff view, by the file, hunk and line it shows.
#[derive(PartialEq, Eq, Structural, Clone, Copy, Debug)]
pub enum UiRow {
    /// A line of a hunk in the unified layout.
    UnifiedLine { file: usize, hunk: usize, line: usize },
    /// A `\ No newline at end of file` style line of a hunk.
    MetaLine { file: usize, hunk: usize, line: usize },
    /// A pair of hunk lines side by side in the split layout.
    SplitLine { file: usize, hunk: usize, left: Option<usize>, right: Option<usize> },
    /// An unchanged line shown around a hunk.
    ContextLine { file: usize, old_line: usize, new_line: usize },
    /// The blank row between two files.
    FileSeparator,
    /// The header of a file.
    FileHeader(usize),
    /// The notice that a file is binary.
    BinaryFile(usize),
    /// A folded file.
    Collapsed { file: usize },
    /// The control that hides expanded context.
    ContextHide { file: usize },
    /// The header of a hunk.
    HunkHeader { file: usize, hunk: usize },
}

impl UiRow {
    /// The file the row belongs to; the separator belongs to none.
    pub open spec fn file_spec(self) -> Option<usize> {
        match self {
            UiRow::UnifiedLine { file, .. } => Some(file),
            UiRow::MetaLine { file, .. } => Some(file),
            UiRow::SplitLine { file, .. } => Some(file),
            UiRow::ContextLine { file, .. } => Some(file),
            UiRow::FileSeparator => None,
            UiRow::FileHeader(file) => Some(file),
            UiRow::BinaryFile(file) => Some(file),
            UiRow::Collapsed { file } => Some(file),
            UiRow::ContextHide { file } => Some(file),
            UiRow::HunkHeader { file, .. } => Some(file),
        }
    }

    /// The file the row belongs to.
    pub fn file(&self) -> (r: Option<usize>)
        ensures
            r == self.file_spec(),
    {
        match *self {
            UiRow::UnifiedLine { file, .. } => Some(file),
            UiRow::MetaLine { file, .. } => Some(file),
            UiRow::SplitLine { file, .. } => Some(file),
            UiRow::ContextLine { file, .. } => Some(file),
            UiRow::FileSeparator => None,
            UiRow::FileHeader(file) => Some(file),
            UiRow::BinaryFile(file) => Some(file),
            UiRow::Collapsed { file } => Some(file),
            UiRow::ContextHide { file } => Some(file),
            UiRow::HunkHeader { file, .. } => Some(file),
        }
    }

    /// The `(file, hunk)` of a row that is part of a hunk.
    pub open spec fn hunk_key_spec(self) -> Option<(usize, usize)> {
        match self {
            UiRow::UnifiedLine { file, hunk, .. } => Some((file, hunk)),
            UiRow::MetaLine { file, hunk, .. } => Some((file, hunk)),
            UiRow::SplitLine { file, hunk, .. } => Some((file, hunk)),
            UiRow::HunkHeader { file, hunk } => Some((file, hunk)),
            _ => None,
        }
    }

    /// The `(file, hunk)` of a row that is part of a hunk.
    pub fn hunk_key(&self) -> (r: Option<(usize, usize)>)
        ensures
            r == self.hunk_key_spec(),
    {
        match *self {
            UiRow::UnifiedLine { file, hunk, .. } => Some((file, hunk)),
            UiRow::MetaLine { file, hunk, .. } => Some((file, hunk)),
            UiRow::SplitLine { file, hunk, .. } => Some((file, hunk)),
            UiRow::HunkHeader { file, hunk } => Some((file, hunk)),
            _ => None,
        }
    }
}

} // verus!

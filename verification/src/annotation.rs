use vstd::prelude::*;
use crate::rows::UiRow;

verus! {

/// The line of a diff that an annotation is attached to.
#[derive(PartialEq, Eq, Structural, Clone, Copy, Debug, Hash)]
pub enum AnnotationLineKind {
    Unified { hunk: usize, line: usize },
    Split { hunk: usize, left: Option<usize>, right: Option<usize> },
    Context { old_line: usize, new_line: usize },
}

/// Where an annotation sits: its file, the model row it was made on and the
/// line it refers to.
#[derive(PartialEq, Eq, Structural, Clone, Copy, Debug, Hash)]
pub struct AnnotationKey {
    pub file: usize,
    pub model_row_index: usize,
    pub kind: AnnotationLineKind,
}

impl AnnotationKey {
    /// Diff lines (unified, meta, split and context lines) take annotations;
    /// headers, separators and controls do not.
    pub open spec fn from_ui_row_spec(row: UiRow, row_index: usize) -> Option<AnnotationKey> {
        match row {
            UiRow::UnifiedLine { file, hunk, line } => Some(
                AnnotationKey { file, model_row_index: row_index, kind: AnnotationLineKind::Unified { hunk, line } },
            ),
            UiRow::MetaLine { file, hunk, line } => Some(
                AnnotationKey { file, model_row_index: row_index, kind: AnnotationLineKind::Unified { hunk, line } },
            ),
            UiRow::SplitLine { file, hunk, left, right } => Some(
                AnnotationKey { file, model_row_index: row_index, kind: AnnotationLineKind::Split { hunk, left, right } },
            ),
            UiRow::ContextLine { file, old_line, new_line } => Some(
                AnnotationKey { file, model_row_index: row_index, kind: AnnotationLineKind::Context { old_line, new_line } },
            ),
            _ => None,
        }
    }

    /// The key of an annotation made on `row`, the model row `row_index`.
    pub fn from_ui_row(row: UiRow, row_index: usize) -> (r: Option<AnnotationKey>)
        ensures
            r == Self::from_ui_row_spec(row, row_index),
    {
        match row {
            UiRow::UnifiedLine { file, hunk, line } | UiRow::MetaLine { file, hunk, line } => {
                Some(AnnotationKey {
                    file,
                    model_row_index: row_index,
                    kind: AnnotationLineKind::Unified { hunk, line },
                })
            },
            UiRow::SplitLine { file, hunk, left, right } => Some(AnnotationKey {
                file,
                model_row_index: row_index,
                kind: AnnotationLineKind::Split { hunk, left, right },
            }),
            UiRow::ContextLine { file, old_line, new_line } => Some(AnnotationKey {
                file,
                model_row_index: row_index,
                kind: AnnotationLineKind::Context { old_line, new_line },
            }),
            _ => None,
        }
    }
}

} // verus!

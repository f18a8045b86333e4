use vstd::prelude::*;
use crate::rows::UiRow;
use crate::action::{AppAction, AppActionOutcome, DiffFilterKind, app_action_outcome, app_action_outcome_spec};

verus! {

/// How the two sides of a diff are laid out.
#[derive(PartialEq, Eq, Structural, Clone, Copy, Debug)]
pub enum DiffLayoutMode {
    Unified,
    Split,
}

/// Whether moving the scroll position drops a hunk focus chosen by hand.
#[derive(PartialEq, Eq, Structural, Clone, Copy, Debug)]
pub enum HunkFocusScrollBehavior {
    ClearOnScroll,
    Preserve,
}

/// A row takes at least one screen line, however it measures.
pub open spec fn visual_height(h: usize) -> int {
    if h == 0 {
        1
    } else {
        h as int
    }
}

/// The number of screen lines the first `i` rows take with line wrapping.
pub open spec fn visual_prefix(heights: Seq<usize>, i: int) -> int
    decreases i,
{
    if i <= 0 || i > heights.len() {
        0
    } else {
        visual_prefix(heights, i - 1) + visual_height(heights[i - 1])
    }
}

/// The screen line where row `i` starts, counted as `usize` arithmetic
/// saturates.
pub open spec fn visual_start(heights: Seq<usize>, i: int) -> int {
    let s = visual_prefix(heights, i);
    if s > usize::MAX {
        usize::MAX as int
    } else {
        s
    }
}

/// The wrapped model row that holds screen line `scroll`, searched from row
/// `r` on, with the offset of that line inside the row.
pub open spec fn wrapped_row_from(heights: Seq<usize>, scroll: int, r: int) -> Option<(usize, usize)>
    decreases heights.len() - r,
{
    if r < 0 || r >= heights.len() {
        None
    } else if scroll < visual_start(heights, r + 1) {
        Some((r as usize, (scroll - visual_start(heights, r)) as usize))
    } else {
        wrapped_row_from(heights, scroll, r + 1)
    }
}

/// The first row index from `i` on that belongs to `file`.
pub open spec fn file_start_from(rows: Seq<UiRow>, file: usize, i: int) -> Option<usize>
    decreases rows.len() - i,
{
    if i < 0 || i >= rows.len() {
        None
    } else if rows[i].file_spec() == Some(file) {
        Some(i as usize)
    } else {
        file_start_from(rows, file, i + 1)
    }
}

/// The start of each wrapped row and the total number of screen lines, kept
/// for the layout, width and row count it was measured at.
pub struct WrappedVisualLayout {
    pub layout: DiffLayoutMode,
    pub viewport_width: usize,
    pub model_rows: usize,
    pub row_starts: Vec<usize>,
    pub total_rows: usize,
}

impl WrappedVisualLayout {
    /// The layout holds the starts of the rows of `heights`.
    pub open spec fn measures(&self, heights: Seq<usize>) -> bool {
        &&& self.model_rows == heights.len()
        &&& self.row_starts@.len() == heights.len() + 1
        &&& forall|i: int| 0 <= i <= heights.len() ==> #[trigger] self.row_starts@[i] == visual_start(heights, i)
        &&& self.total_rows == visual_start(heights, heights.len() as int)
    }
}

/// The scrolling state of the diff view: its rows, their heights when lines
/// wrap, and where the viewport stands.
pub struct DiffApp {
    /// The rows of the diff.
    pub rows: Vec<UiRow>,
    /// The screen lines each row takes when lines wrap, at the current
    /// layout and width.
    pub row_heights: Vec<usize>,
    pub scroll: usize,
    pub horizontal_scroll: usize,
    pub viewport_rows: usize,
    pub viewport_width: usize,
    /// The width the diff text has inside the viewport.
    pub diff_content_width: usize,
    /// The width of the widest diff line.
    pub max_line_width: usize,
    pub layout: DiffLayoutMode,
    pub line_wrapping: bool,
    /// A hunk focused by hand, as `(file, hunk)`.
    pub manual_hunk_focus: Option<(usize, usize)>,
    pub wrapped_visual_layout: Option<WrappedVisualLayout>,
    /// The file selected in the sidebar.
    pub selected_file: usize,
    /// The diff row under the mouse.
    pub diff_mouse_hover: Option<usize>,
    /// The view must be drawn again.
    pub dirty: bool,
    pub error_log: Option<String>,
    /// The open filter input, by the kind of filter it edits; `None` when no
    /// filter input is open.
    pub filter_input: Option<DiffFilterKind>,
}

impl DiffApp {
    /// Every row has a height, and a kept layout measures those heights.
    pub open spec fn wf(&self) -> bool {
        &&& self.row_heights@.len() == self.rows@.len()
        &&& (self.wrapped_visual_layout matches Some(l) ==> l.measures(self.row_heights@))
    }

    /// Everything but the rows, their heights, the kept layout and the
    /// hand-picked hunk focus is as in `other`.
    pub open spec fn same_viewport_state(&self, other: &DiffApp) -> bool {
        &&& self.scroll == other.scroll
        &&& self.horizontal_scroll == other.horizontal_scroll
        &&& self.viewport_rows == other.viewport_rows
        &&& self.viewport_width == other.viewport_width
        &&& self.diff_content_width == other.diff_content_width
        &&& self.max_line_width == other.max_line_width
        &&& self.layout == other.layout
        &&& self.line_wrapping == other.line_wrapping
        &&& self.selected_file == other.selected_file
        &&& self.diff_mouse_hover == other.diff_mouse_hover
        &&& self.dirty == other.dirty
        &&& self.error_log == other.error_log
        &&& self.filter_input == other.filter_input
    }

    /// Everything but the kept layout is as in `other`.
    pub open spec fn same_view(&self, other: &DiffApp) -> bool {
        &&& self.rows@ == other.rows@
        &&& self.row_heights@ == other.row_heights@
        &&& self.scroll == other.scroll
        &&& self.horizontal_scroll == other.horizontal_scroll
        &&& self.viewport_rows == other.viewport_rows
        &&& self.viewport_width == other.viewport_width
        &&& self.diff_content_width == other.diff_content_width
        &&& self.max_line_width == other.max_line_width
        &&& self.layout == other.layout
        &&& self.line_wrapping == other.line_wrapping
        &&& self.manual_hunk_focus == other.manual_hunk_focus
        &&& self.selected_file == other.selected_file
        &&& self.diff_mouse_hover == other.diff_mouse_hover
        &&& self.dirty == other.dirty
        &&& self.error_log == other.error_log
        &&& self.filter_input == other.filter_input
    }

    /// The screen line where model row `row` starts when lines wrap; a row
    /// past the end starts after the last row.
    pub open spec fn wrapped_start_spec(&self, row: usize) -> int {
        let n = self.rows@.len();
        visual_start(self.row_heights@, if row > n { n as int } else { row as int })
    }

    /// The number of screen lines of the whole diff when lines wrap.
    pub open spec fn wrapped_total_spec(&self) -> int {
        visual_start(self.row_heights@, self.rows@.len() as int)
    }

    /// The number of lines the diff takes on screen.
    pub open spec fn row_count_spec(&self) -> int {
        if self.line_wrapping {
            self.wrapped_total_spec()
        } else {
            self.rows@.len() as int
        }
    }

    /// The scroll position that shows model row `row` at the top.
    pub open spec fn scroll_for_model_row_spec(&self, row: usize) -> int {
        if self.line_wrapping {
            self.wrapped_start_spec(row)
        } else {
            row as int
        }
    }

    /// The model row shown at scroll position `scroll`, with the screen line
    /// inside it.
    pub open spec fn model_row_at_scroll_spec(&self, scroll: usize) -> Option<(usize, usize)> {
        if !self.line_wrapping {
            if scroll < self.rows@.len() {
                Some((scroll, 0usize))
            } else {
                None
            }
        } else {
            wrapped_row_from(self.row_heights@, scroll as int, 0)
        }
    }

    /// The furthest the view scrolls: the last position at which the
    /// viewport is still filled.
    pub open spec fn max_scroll_spec(&self) -> int {
        let c = self.row_count_spec();
        if c > self.viewport_rows {
            c - self.viewport_rows
        } else {
            0
        }
    }

    /// The furthest the view scrolls sideways; wrapped lines never do.
    pub open spec fn max_horizontal_scroll_spec(&self) -> int {
        if self.line_wrapping || self.max_line_width <= self.diff_content_width {
            0
        } else {
            self.max_line_width - self.diff_content_width
        }
    }
}


/// The file that model row `row` belongs to.
pub open spec fn file_at_row_spec(rows: Seq<UiRow>, row: int) -> Option<usize> {
    if 0 <= row < rows.len() {
        rows[row].file_spec()
    } else {
        None
    }
}

/// `scroll` moved by `delta`, held to the range of `usize`.
pub open spec fn scroll_target(scroll: usize, delta: isize) -> usize {
    let t = scroll + delta;
    if t < 0 {
        0
    } else if t > usize::MAX {
        usize::MAX
    } else {
        t as usize
    }
}

impl DiffApp {
    /// The rows, their heights, the viewport and the log are as in `other`.
    pub open spec fn same_content(&self, other: &DiffApp) -> bool {
        &&& self.rows@ == other.rows@
        &&& self.row_heights@ == other.row_heights@
        &&& self.viewport_rows == other.viewport_rows
        &&& self.viewport_width == other.viewport_width
        &&& self.diff_content_width == other.diff_content_width
        &&& self.max_line_width == other.max_line_width
        &&& self.layout == other.layout
        &&& self.line_wrapping == other.line_wrapping
        &&& self.error_log == other.error_log
        &&& self.filter_input == other.filter_input
    }

    /// The file of the row shown at the top at scroll position `scroll`.
    pub open spec fn file_at_scroll_spec(&self, scroll: usize) -> Option<usize> {
        if self.line_wrapping {
            match self.model_row_at_scroll_spec(scroll) {
                Some((row, _)) => file_at_row_spec(self.rows@, row as int),
                None => None,
            }
        } else {
            file_at_row_spec(self.rows@, scroll as int)
        }
    }

    /// `new` is this view scrolled towards `scroll`: the position is held to
    /// the furthest scroll, a hand-picked hunk focus is dropped when the view
    /// moves (unless preserved), the sidebar follows the file at the top,
    /// the mouse hover is dropped on a move, and a change asks for a redraw.
    pub open spec fn scrolled_to(&self, new: &DiffApp, scroll: usize, behavior: HunkFocusScrollBehavior) -> bool {
        let m = self.max_scroll_spec();
        let s = if scroll < m { scroll as int } else { m };
        let moved = s != self.scroll;
        let selected = match self.file_at_scroll_spec(s as usize) {
            Some(f) => f,
            None => self.selected_file,
        };
        &&& new.same_content(self)
        &&& new.scroll == s
        &&& new.horizontal_scroll == self.horizontal_scroll
        &&& new.manual_hunk_focus == (if moved && behavior == HunkFocusScrollBehavior::ClearOnScroll {
            None
        } else {
            self.manual_hunk_focus
        })
        &&& new.selected_file == selected
        &&& new.diff_mouse_hover == (if moved { None } else { self.diff_mouse_hover })
        &&& new.dirty == (self.dirty || moved || selected != self.selected_file)
    }

    /// `new` is this view scrolled sideways towards `scroll`, held to the
    /// furthest sideways scroll.
    pub open spec fn scrolled_horizontally_to(&self, new: &DiffApp, scroll: usize) -> bool {
        let m = self.max_horizontal_scroll_spec();
        let s = if scroll < m { scroll as int } else { m };
        let moved = s != self.horizontal_scroll;
        &&& new.same_content(self)
        &&& new.scroll == self.scroll
        &&& new.horizontal_scroll == s
        &&& new.manual_hunk_focus == self.manual_hunk_focus
        &&& new.selected_file == self.selected_file
        &&& new.diff_mouse_hover == (if moved { None } else { self.diff_mouse_hover })
        &&& new.dirty == (self.dirty || moved)
    }

    /// The range of model rows that a viewport of `visible_rows` lines shows.
    pub open spec fn visible_model_range_spec(&self, visible_rows: usize) -> Option<core::ops::Range<usize>> {
        let n = self.rows@.len();
        if visible_rows == 0 || n == 0 {
            None
        } else if !self.line_wrapping {
            let vs = if self.scroll < n { self.scroll as int } else { n as int };
            let ve = if vs + visible_rows < n { vs + visible_rows } else { n as int };
            if vs < ve {
                Some(core::ops::Range { start: vs as usize, end: ve as usize })
            } else {
                None
            }
        } else {
            match self.model_row_at_scroll_spec(self.scroll) {
                None => None,
                Some((vs, _)) => {
                    let last = self.scroll.saturating_add((visible_rows - 1) as usize);
                    let ve = match self.model_row_at_scroll_spec(last) {
                        Some((row, _)) => row + 1,
                        None => n as int,
                    };
                    if vs < ve {
                        Some(core::ops::Range { start: vs, end: ve as usize })
                    } else {
                        None
                    }
                },
            }
        }
    }
}


/// The first row index from `i` on that is part of hunk `hunk` of `file`.
pub open spec fn hunk_start_from(rows: Seq<UiRow>, file: usize, hunk: usize, i: int) -> Option<usize>
    decreases rows.len() - i,
{
    if i < 0 || i >= rows.len() {
        None
    } else if rows[i].hunk_key_spec() == Some((file, hunk)) {
        Some(i as usize)
    } else {
        hunk_start_from(rows, file, hunk, i + 1)
    }
}

/// Whether new rows keep a hunk focus chosen by hand.
#[derive(PartialEq, Eq, Structural, Clone, Copy, Debug)]
pub enum HunkFocusModelBehavior {
    /// Keep it when the new rows still show that hunk.
    PreserveIfValid,
    Clear,
}


/// What follows a mouse wheel tick once the view has tried to scroll.
#[derive(PartialEq, Eq, Structural, Clone, Copy, Debug)]
pub enum MouseScrollOutcome {
    /// The view scrolled: the count of ticks towards a hunk move restarts.
    ResetHunkFocusTicks,
    /// The view could not scroll: move the hunk focus by this many hunks.
    MoveHunkFocus(isize),
    /// The view could not scroll and the ticks do not yet move the focus.
    Nothing,
}

/// A row start never exceeds a later one.
pub proof fn lemma_visual_start_monotone(heights: Seq<usize>, i: int, j: int)
    requires
        0 <= i <= j <= heights.len(),
    ensures
        visual_start(heights, i) <= visual_start(heights, j),
    decreases j - i,
{
    if i < j {
        lemma_visual_start_monotone(heights, i, j - 1);
        assert(visual_prefix(heights, j) == visual_prefix(heights, j - 1) + visual_height(heights[j - 1]));
    }
}

/// The screen line `scroll`, which lies in row `r` and in no row before it
/// from `r0` on, is found in row `r`.
proof fn lemma_wrapped_row_found(heights: Seq<usize>, scroll: int, r0: int, r: int)
    requires
        0 <= r0 <= r < heights.len(),
        visual_start(heights, r) <= scroll < visual_start(heights, r + 1),
    ensures
        wrapped_row_from(heights, scroll, r0) == Some((r as usize, (scroll - visual_start(heights, r)) as usize)),
    decreases r - r0,
{
    if r0 < r {
        lemma_visual_start_monotone(heights, r0 + 1, r);
        lemma_wrapped_row_found(heights, scroll, r0 + 1, r);
    }
}

/// A found wrapped row is a row of the diff.
proof fn lemma_wrapped_row_bounded(heights: Seq<usize>, scroll: int, r0: int)
    requires
        0 <= r0,
        heights.len() <= usize::MAX,
    ensures
        wrapped_row_from(heights, scroll, r0) matches Some((row, _)) ==> r0 <= row < heights.len(),
    decreases heights.len() - r0,
{
    if r0 < heights.len() {
        lemma_wrapped_row_bounded(heights, scroll, r0 + 1);
    }
}

/// A screen line past the last row is in no row.
proof fn lemma_wrapped_row_past_end(heights: Seq<usize>, scroll: int, r0: int)
    requires
        0 <= r0,
        scroll >= visual_start(heights, heights.len() as int),
    ensures
        wrapped_row_from(heights, scroll, r0) is None,
    decreases heights.len() - r0,
{
    if r0 < heights.len() {
        lemma_visual_start_monotone(heights, r0 + 1, heights.len() as int);
        lemma_wrapped_row_past_end(heights, scroll, r0 + 1);
    }
}

impl DiffApp {
    /// A view of `rows` whose wrapped heights are `row_heights`, scrolled to
    /// the top, with nothing focused, hovered or logged.
    pub fn new(
        rows: Vec<UiRow>,
        row_heights: Vec<usize>,
        viewport_rows: usize,
        viewport_width: usize,
        diff_content_width: usize,
        max_line_width: usize,
        layout: DiffLayoutMode,
        line_wrapping: bool,
    ) -> (r: DiffApp)
        requires
            row_heights@.len() == rows@.len(),
        ensures
            r.wf(),
            r.rows@ == rows@,
            r.row_heights@ == row_heights@,
            r.scroll == 0,
            r.horizontal_scroll == 0,
            r.viewport_rows == viewport_rows,
            r.viewport_width == viewport_width,
            r.diff_content_width == diff_content_width,
            r.max_line_width == max_line_width,
            r.layout == layout,
            r.line_wrapping == line_wrapping,
            r.manual_hunk_focus is None,
            r.wrapped_visual_layout is None,
            r.selected_file == 0,
            r.diff_mouse_hover is None,
            !r.dirty,
            r.error_log is None,
            r.filter_input is None,
    {
        DiffApp {
            rows,
            row_heights,
            scroll: 0,
            horizontal_scroll: 0,
            viewport_rows,
            viewport_width,
            diff_content_width,
            max_line_width,
            layout,
            line_wrapping,
            manual_hunk_focus: None,
            wrapped_visual_layout: None,
            selected_file: 0,
            diff_mouse_hover: None,
            dirty: false,
            error_log: None,
            filter_input: None,
        }
    }

    /// Drops the kept wrapped layout, so that the next query measures again.
    pub fn invalidate_wrapped_visual_layout(&mut self)
        requires
            old(self).wf(),
        ensures
            final(self).wf(),
            final(self).same_view(&*old(self)),
            final(self).wrapped_visual_layout is None,
    {
        self.wrapped_visual_layout = None;
    }

    /// Takes new wrapped row heights (after a change of width or layout)
    /// and drops the kept layout.
    pub fn set_row_heights(&mut self, row_heights: Vec<usize>)
        requires
            old(self).wf(),
            row_heights@.len() == old(self).rows@.len(),
        ensures
            final(self).wf(),
            final(self).row_heights@ == row_heights@,
            final(self).wrapped_visual_layout is None,
            final(self).rows@ == old(self).rows@,
            final(self).manual_hunk_focus == old(self).manual_hunk_focus,
            final(self).same_viewport_state(&*old(self)),
    {
        self.row_heights = row_heights;
        self.wrapped_visual_layout = None;
    }

    /// True when the kept layout was measured for the current layout, width
    /// and rows.
    fn layout_is_current(&self) -> (r: bool)
        ensures
            r == (self.wrapped_visual_layout matches Some(l) && l.layout == self.layout
                && l.viewport_width == self.viewport_width && l.model_rows == self.rows@.len()),
    {
        match &self.wrapped_visual_layout {
            Some(l) => l.layout == self.layout && l.viewport_width == self.viewport_width
                && l.model_rows == self.rows.len(),
            None => false,
        }
    }

    /// Measures the start of every row when lines wrap, unless a current
    /// measurement is kept.
    pub fn ensure_wrapped_visual_layout(&mut self)
        requires
            old(self).wf(),
        ensures
            final(self).wf(),
            final(self).same_view(&*old(self)),
            final(self).wrapped_visual_layout is Some,
    {
        if self.layout_is_current() {
            return;
        }
        let n = self.rows.len();
        let ghost h = self.row_heights@;
        let mut row_starts: Vec<usize> = Vec::with_capacity(n.saturating_add(1));
        row_starts.push(0);
        let mut total_rows: usize = 0;
        let mut i: usize = 0;
        while i < n
            invariant
                n == self.rows@.len(),
                h == self.row_heights@,
                h.len() == n,
                i <= n,
                row_starts@.len() == i + 1,
                total_rows == visual_start(h, i as int),
                forall|j: int| 0 <= j <= i ==> #[trigger] row_starts@[j] == visual_start(h, j),
            decreases n - i,
        {
            let height = if self.row_heights[i] == 0 { 1 } else { self.row_heights[i] };
            assert(visual_prefix(h, i + 1) == visual_prefix(h, i as int) + visual_height(h[i as int]));
            total_rows = total_rows.saturating_add(height);
            row_starts.push(total_rows);
            i = i + 1;
        }
        self.wrapped_visual_layout = Some(WrappedVisualLayout {
            layout: self.layout,
            viewport_width: self.viewport_width,
            model_rows: n,
            row_starts,
            total_rows,
        });
    }

    /// The number of screen lines the diff takes when lines wrap.
    pub fn wrapped_visual_row_count(&mut self) -> (r: usize)
        requires
            old(self).wf(),
        ensures
            final(self).wf(),
            final(self).same_view(&*old(self)),
            r == old(self).wrapped_total_spec(),
    {
        self.ensure_wrapped_visual_layout();
        match &self.wrapped_visual_layout {
            Some(l) => l.total_rows,
            None => 0,
        }
    }

    /// The screen line where model row `row_index` starts when lines wrap.
    pub fn wrapped_visual_scroll_for_model_row(&mut self, row_index: usize) -> (r: usize)
        requires
            old(self).wf(),
        ensures
            final(self).wf(),
            final(self).same_view(&*old(self)),
            r == old(self).wrapped_start_spec(row_index),
    {
        self.ensure_wrapped_visual_layout();
        match &self.wrapped_visual_layout {
            Some(l) => {
                let i = if row_index < l.model_rows { row_index } else { l.model_rows };
                l.row_starts[i]
            },
            None => 0,
        }
    }

    /// The number of screen lines model row `row_index` takes when lines
    /// wrap; a row past the end takes one.
    pub fn wrapped_visual_height_for_model_row(&mut self, row_index: usize) -> (r: usize)
        requires
            old(self).wf(),
        ensures
            final(self).wf(),
            final(self).same_view(&*old(self)),
            r == (if row_index >= old(self).rows@.len() {
                1
            } else {
                visual_start(old(self).row_heights@, row_index + 1) - visual_start(old(self).row_heights@, row_index as int)
            }),
    {
        self.ensure_wrapped_visual_layout();
        match &self.wrapped_visual_layout {
            Some(l) => {
                if row_index >= l.model_rows {
                    1
                } else {
                    proof {
                        lemma_visual_start_monotone(self.row_heights@, row_index as int, row_index + 1);
                    }
                    l.row_starts[row_index + 1] - l.row_starts[row_index]
                }
            },
            None => 1,
        }
    }

    /// The model row shown at scroll position `scroll`, and which of its
    /// screen lines; `None` past the end of the diff.
    pub fn model_row_at_scroll(&mut self, scroll: usize) -> (r: Option<(usize, usize)>)
        requires
            old(self).wf(),
        ensures
            final(self).wf(),
            final(self).same_view(&*old(self)),
            r == old(self).model_row_at_scroll_spec(scroll),
    {
        if !self.line_wrapping {
            if scroll < self.rows.len() {
                return Some((scroll, 0));
            } else {
                return None;
            }
        }
        self.ensure_wrapped_visual_layout();
        let ghost h = self.row_heights@;
        match &self.wrapped_visual_layout {
            Some(l) => {
                if scroll >= l.total_rows {
                    proof {
                        lemma_wrapped_row_past_end(h, scroll as int, 0);
                    }
                    return None;
                }
                let n = l.model_rows;
                let mut lo: usize = 0;
                let mut hi: usize = n;
                while hi - lo > 1
                    invariant
                        l.measures(h),
                        n == h.len(),
                        lo < hi <= n,
                        visual_start(h, lo as int) <= scroll < visual_start(h, hi as int),
                    decreases hi - lo,
                {
                    let mid = lo + (hi - lo) / 2;
                    if l.row_starts[mid] <= scroll {
                        lo = mid;
                    } else {
                        hi = mid;
                    }
                }
                proof {
                    lemma_wrapped_row_found(h, scroll as int, 0, lo as int);
                }
                Some((lo, scroll - l.row_starts[lo]))
            },
            None => None,
        }
    }
}

impl DiffApp {
    /// The scroll position that shows model row `row` at the top.
    pub fn scroll_for_model_row(&mut self, row: usize) -> (r: usize)
        requires
            old(self).wf(),
        ensures
            final(self).wf(),
            final(self).same_view(&*old(self)),
            r == old(self).scroll_for_model_row_spec(row),
    {
        if self.line_wrapping {
            self.wrapped_visual_scroll_for_model_row(row)
        } else {
            row
        }
    }

    /// The file of model row `row`.
    pub fn file_at_row(&self, row: usize) -> (r: Option<usize>)
        ensures
            r == file_at_row_spec(self.rows@, row as int),
    {
        if row < self.rows.len() {
            self.rows[row].file()
        } else {
            None
        }
    }

    /// The first model row of `file`.
    pub fn file_start_row(&self, file: usize) -> (r: Option<usize>)
        ensures
            r == file_start_from(self.rows@, file, 0),
    {
        let n = self.rows.len();
        let mut i: usize = 0;
        while i < n
            invariant
                n == self.rows@.len(),
                i <= n,
                file_start_from(self.rows@, file, 0) == file_start_from(self.rows@, file, i as int),
            decreases n - i,
        {
            if self.rows[i].file() == Some(file) {
                return Some(i);
            }
            i = i + 1;
        }
        None
    }

    /// How far the view is scrolled past the start of `file`; 0 when the
    /// file is not shown or starts below.
    pub fn relative_scroll_from_file_start(&mut self, file: usize) -> (r: usize)
        requires
            old(self).wf(),
        ensures
            final(self).wf(),
            final(self).same_view(&*old(self)),
            r == (match file_start_from(old(self).rows@, file, 0) {
                Some(start) => {
                    let s = old(self).scroll_for_model_row_spec(start);
                    if old(self).scroll > s { old(self).scroll - s } else { 0 }
                },
                None => 0,
            }),
    {
        match self.file_start_row(file) {
            Some(start) => {
                let s = self.scroll_for_model_row(start);
                self.scroll.saturating_sub(s)
            },
            None => 0,
        }
    }

    /// The range of model rows that a viewport of `visible_rows` lines shows
    /// at the current scroll position; `None` when it shows none.
    pub fn visible_model_range_for_viewport(&mut self, visible_rows: usize) -> (r: Option<core::ops::Range<usize>>)
        requires
            old(self).wf(),
        ensures
            final(self).wf(),
            final(self).same_view(&*old(self)),
            r == old(self).visible_model_range_spec(visible_rows),
    {
        let n = self.rows.len();
        if visible_rows == 0 || n == 0 {
            return None;
        }
        if !self.line_wrapping {
            let visible_start = if self.scroll < n { self.scroll } else { n };
            let visible_end = if visible_start.saturating_add(visible_rows) < n {
                visible_start.saturating_add(visible_rows)
            } else {
                n
            };
            if visible_start < visible_end {
                return Some(visible_start..visible_end);
            } else {
                return None;
            }
        }
        let visible_start = match self.model_row_at_scroll(self.scroll) {
            Some((row, _)) => row,
            None => {
                return None;
            },
        };
        let last = self.scroll.saturating_add(visible_rows - 1);
        let visible_end = match self.model_row_at_scroll(last) {
            Some((row, _)) => {
                proof {
                    let h = self.row_heights@;
                    lemma_wrapped_row_bounded(h, last as int, 0);
                }
                row + 1
            },
            None => n,
        };
        if visible_start < visible_end {
            Some(visible_start..visible_end)
        } else {
            None
        }
    }

    /// Drops the hunk focus chosen by hand.
    pub fn clear_manual_hunk_focus(&mut self)
        requires
            old(self).wf(),
        ensures
            final(self).wf(),
            final(self).manual_hunk_focus is None,
            final(self).same_content(&*old(self)),
            final(self).scroll == old(self).scroll,
            final(self).horizontal_scroll == old(self).horizontal_scroll,
            final(self).selected_file == old(self).selected_file,
            final(self).diff_mouse_hover == old(self).diff_mouse_hover,
            final(self).dirty == old(self).dirty,
    {
        self.manual_hunk_focus = None;
    }

    /// The furthest the view scrolls.
    pub fn max_scroll(&mut self) -> (r: usize)
        requires
            old(self).wf(),
        ensures
            final(self).wf(),
            final(self).same_view(&*old(self)),
            r == old(self).max_scroll_spec(),
    {
        let row_count = if self.line_wrapping {
            self.wrapped_visual_row_count()
        } else {
            self.rows.len()
        };
        row_count.saturating_sub(self.viewport_rows)
    }

    /// The furthest the view scrolls sideways.
    pub fn max_horizontal_scroll(&self) -> (r: usize)
        ensures
            r == self.max_horizontal_scroll_spec(),
    {
        if self.line_wrapping {
            return 0;
        }
        self.max_line_width.saturating_sub(self.diff_content_width)
    }

    /// Scrolls towards `scroll`; returns whether the grep selection is to
    /// follow (asked for by `sync_grep`, and the view moved).
    pub fn set_scroll_with_grep_sync(
        &mut self,
        scroll: usize,
        sync_grep: bool,
        hunk_focus_behavior: HunkFocusScrollBehavior,
    ) -> (r: bool)
        requires
            old(self).wf(),
        ensures
            final(self).wf(),
            old(self).scrolled_to(&*final(self), scroll, hunk_focus_behavior),
            r == (sync_grep && final(self).scroll != old(self).scroll),
    {
        let previous_scroll = self.scroll;
        let previous_file = self.selected_file;
        let max_scroll = self.max_scroll();
        self.scroll = if scroll < max_scroll { scroll } else { max_scroll };
        if self.scroll != previous_scroll && hunk_focus_behavior == HunkFocusScrollBehavior::ClearOnScroll {
            self.clear_manual_hunk_focus();
        }
        let file = if self.line_wrapping {
            match self.model_row_at_scroll(self.scroll) {
                Some((row, _)) => self.file_at_row(row),
                None => None,
            }
        } else {
            self.file_at_row(self.scroll)
        };
        if let Some(file) = file {
            self.selected_file = file;
        }
        if self.scroll != previous_scroll || self.selected_file != previous_file {
            if self.scroll != previous_scroll {
                self.diff_mouse_hover = None;
            }
            self.dirty = true;
        }
        sync_grep && self.scroll != previous_scroll
    }

    /// Scrolls towards `scroll`, dropping a hand-picked hunk focus when the
    /// view moves; returns whether the grep selection is to follow.
    pub fn set_scroll(&mut self, scroll: usize) -> (r: bool)
        requires
            old(self).wf(),
        ensures
            final(self).wf(),
            old(self).scrolled_to(&*final(self), scroll, HunkFocusScrollBehavior::ClearOnScroll),
            r == (final(self).scroll != old(self).scroll),
    {
        self.set_scroll_with_grep_sync(scroll, true, HunkFocusScrollBehavior::ClearOnScroll)
    }

    /// Scrolls by `delta` lines (up when negative); returns whether the grep
    /// selection is to follow.
    pub fn scroll_by(&mut self, delta: isize) -> (r: bool)
        requires
            old(self).wf(),
        ensures
            final(self).wf(),
            old(self).scrolled_to(&*final(self), scroll_target(old(self).scroll, delta), HunkFocusScrollBehavior::ClearOnScroll),
            r == (final(self).scroll != old(self).scroll),
    {
        let next = if delta < 0 {
            let magnitude: usize = (-(delta + 1)) as usize + 1;
            self.scroll.saturating_sub(magnitude)
        } else {
            self.scroll.saturating_add(delta as usize)
        };
        self.set_scroll(next)
    }

    /// Scrolls by `delta` lines; returns true when the view could not move,
    /// so that the hunk focus moves by `delta` instead.
    pub fn scroll_or_focus_hunk(&mut self, delta: isize) -> (r: bool)
        requires
            old(self).wf(),
        ensures
            final(self).wf(),
            old(self).scrolled_to(&*final(self), scroll_target(old(self).scroll, delta), HunkFocusScrollBehavior::ClearOnScroll),
            r == (final(self).scroll == old(self).scroll),
    {
        let previous_scroll = self.scroll;
        self.scroll_by(delta);
        self.scroll == previous_scroll
    }

    /// Scrolls sideways towards `scroll`.
    pub fn set_horizontal_scroll(&mut self, scroll: usize)
        requires
            old(self).wf(),
        ensures
            final(self).wf(),
            old(self).scrolled_horizontally_to(&*final(self), scroll),
    {
        let previous_scroll = self.horizontal_scroll;
        let m = self.max_horizontal_scroll();
        self.horizontal_scroll = if scroll < m { scroll } else { m };
        if self.horizontal_scroll != previous_scroll {
            self.diff_mouse_hover = None;
            self.dirty = true;
        }
    }

    /// Scrolls sideways by `delta` columns (left when negative).
    pub fn scroll_horizontally_by(&mut self, delta: isize)
        requires
            old(self).wf(),
        ensures
            final(self).wf(),
            old(self).scrolled_horizontally_to(&*final(self), scroll_target(old(self).horizontal_scroll, delta)),
    {
        let next = if delta < 0 {
            let magnitude: usize = (-(delta + 1)) as usize + 1;
            self.horizontal_scroll.saturating_sub(magnitude)
        } else {
            self.horizontal_scroll.saturating_add(delta as usize)
        };
        self.set_horizontal_scroll(next);
    }

    /// What an application action does here: whether there is an error log
    /// to copy decides the copy action, and clearing the filters also closes
    /// the filter input. Nothing else changes here; the returned operation
    /// does the rest.
    pub fn perform_app_action(&mut self, action: AppAction) -> (r: AppActionOutcome)
        ensures
            r == app_action_outcome_spec(action, old(self).error_log is Some),
            *final(self) == (DiffApp {
                filter_input: if action == AppAction::ClearFilters {
                    None
                } else {
                    old(self).filter_input
                },
                ..*old(self)
            }),
    {
        let outcome = app_action_outcome(action, self.error_log.is_some());
        if action == AppAction::ClearFilters {
            self.filter_input = None;
        }
        outcome
    }
}

impl DiffApp {
    /// The first model row of hunk `hunk` of `file`.
    pub fn hunk_start_row(&self, file: usize, hunk: usize) -> (r: Option<usize>)
        ensures
            r == hunk_start_from(self.rows@, file, hunk, 0),
    {
        let n = self.rows.len();
        let mut i: usize = 0;
        while i < n
            invariant
                n == self.rows@.len(),
                i <= n,
                hunk_start_from(self.rows@, file, hunk, 0) == hunk_start_from(self.rows@, file, hunk, i as int),
            decreases n - i,
        {
            if self.rows[i].hunk_key() == Some((file, hunk)) {
                return Some(i);
            }
            i = i + 1;
        }
        None
    }

    /// Shows new rows (after filtering, a layout change or new context):
    /// the kept wrapped layout is dropped, and a hand-picked hunk focus is
    /// kept only when asked to and the new rows still show that hunk.
    pub fn replace_model(
        &mut self,
        rows: Vec<UiRow>,
        row_heights: Vec<usize>,
        hunk_focus_behavior: HunkFocusModelBehavior,
    )
        requires
            old(self).wf(),
            row_heights@.len() == rows@.len(),
        ensures
            final(self).wf(),
            final(self).rows@ == rows@,
            final(self).row_heights@ == row_heights@,
            final(self).wrapped_visual_layout is None,
            final(self).manual_hunk_focus == (match old(self).manual_hunk_focus {
                Some((file, hunk)) => if hunk_focus_behavior == HunkFocusModelBehavior::PreserveIfValid
                    && hunk_start_from(rows@, file, hunk, 0) is Some {
                    Some((file, hunk))
                } else {
                    None
                },
                None => None,
            }),
            final(self).same_viewport_state(&*old(self)),
    {
        let previous_manual_hunk_focus = self.manual_hunk_focus;
        self.invalidate_wrapped_visual_layout();
        self.rows = rows;
        self.row_heights = row_heights;
        self.manual_hunk_focus = match hunk_focus_behavior {
            HunkFocusModelBehavior::PreserveIfValid => match previous_manual_hunk_focus {
                Some((file, hunk)) => {
                    if self.hunk_start_row(file, hunk).is_some() {
                        Some((file, hunk))
                    } else {
                        None
                    }
                },
                None => None,
            },
            HunkFocusModelBehavior::Clear => None,
        };
    }
}

/// A row past the end of the diff holds no screen line from `r0` on, and a
/// screen line before the end lies in some row from `r0` on.
proof fn lemma_wrapped_row_exists(heights: Seq<usize>, scroll: int, r0: int)
    requires
        0 <= r0 < heights.len(),
        visual_start(heights, r0) <= scroll < visual_start(heights, heights.len() as int),
    ensures
        wrapped_row_from(heights, scroll, r0) is Some,
    decreases heights.len() - r0,
{
    if scroll >= visual_start(heights, r0 + 1) {
        lemma_wrapped_row_exists(heights, scroll, r0 + 1);
    }
}

impl DiffApp {
    /// The number of screen lines model row `row` takes: its wrapped height
    /// when lines wrap, one line otherwise.
    pub open spec fn row_height_spec(&self, row: usize) -> int {
        if self.line_wrapping {
            visual_start(self.row_heights@, row + 1) - visual_start(self.row_heights@, row as int)
        } else {
            1
        }
    }
}

/// Scrolling to a model row, `k` screen lines into it, and asking which row
/// is at the top gives that row and `k` back, for every screen line the row
/// takes.
pub proof fn law_row_at_its_own_scroll(app: DiffApp, row: usize, k: usize)
    requires
        app.wf(),
        row < app.rows@.len(),
        k < app.row_height_spec(row),
    ensures
        app.model_row_at_scroll_spec((app.scroll_for_model_row_spec(row) + k) as usize) == Some((row, k)),
{
    if app.line_wrapping {
        let h = app.row_heights@;
        lemma_wrapped_row_found(h, visual_start(h, row as int) + k, 0, row as int);
    }
}

/// Which row is at the top is asked in vain exactly from the first screen
/// line past the end of the diff on.
pub proof fn law_row_lookup_ends_with_the_diff(app: DiffApp, scroll: usize)
    requires
        app.wf(),
    ensures
        app.model_row_at_scroll_spec(scroll) is None <==> scroll >= app.row_count_spec(),
{
    if app.line_wrapping {
        let h = app.row_heights@;
        if scroll >= visual_start(h, h.len() as int) {
            lemma_wrapped_row_past_end(h, scroll as int, 0);
        } else {
            lemma_wrapped_row_exists(h, scroll as int, 0);
        }
    }
}

/// Scrolling by `delta` and then by `-delta` comes back to where the view
/// was, when the view and the first move stay within the scrollable range.
pub proof fn law_scroll_back_returns(a: DiffApp, b: DiffApp, c: DiffApp, delta: isize)
    requires
        delta > isize::MIN,
        a.scroll <= a.max_scroll_spec(),
        0 <= a.scroll + delta <= a.max_scroll_spec(),
        a.scrolled_to(&b, scroll_target(a.scroll, delta), HunkFocusScrollBehavior::ClearOnScroll),
        b.scrolled_to(&c, scroll_target(b.scroll, (0 - delta) as isize), HunkFocusScrollBehavior::ClearOnScroll),
    ensures
        c.scroll == a.scroll,
{
    assert(a.rows.len() == a.rows@.len());
    assert(b.max_scroll_spec() == a.max_scroll_spec());
    assert(b.scroll == a.scroll + delta);
    assert((0 - delta) as isize == -delta);
    assert(scroll_target(b.scroll, (0 - delta) as isize) == a.scroll);
}

impl DiffApp {
    /// Scrolls by the `delta` lines of a mouse wheel tick; when the view
    /// cannot move, the hunk focus moves by `hunk_delta` (the wheel's hunk
    /// step, 0 while ticks accumulate). The deltas come from the wheel's
    /// timing, which the caller tracks.
    pub fn mouse_scroll_or_focus_hunk(&mut self, delta: isize, hunk_delta: isize) -> (r: MouseScrollOutcome)
        requires
            old(self).wf(),
        ensures
            final(self).wf(),
            old(self).scrolled_to(&*final(self), scroll_target(old(self).scroll, delta), HunkFocusScrollBehavior::ClearOnScroll),
            r == (if final(self).scroll != old(self).scroll {
                MouseScrollOutcome::ResetHunkFocusTicks
            } else if hunk_delta != 0 {
                MouseScrollOutcome::MoveHunkFocus(hunk_delta)
            } else {
                MouseScrollOutcome::Nothing
            }),
    {
        let previous_scroll = self.scroll;
        self.scroll_by(delta);
        if self.scroll == previous_scroll {
            if hunk_delta != 0 {
                MouseScrollOutcome::MoveHunkFocus(hunk_delta)
            } else {
                MouseScrollOutcome::Nothing
            }
        } else {
            MouseScrollOutcome::ResetHunkFocusTicks
        }
    }
}

/// The widths of the two columns of the split layout in a viewport
/// `viewport_width` columns wide: the left takes half, rounded down, the
/// right the rest.
pub fn split_column_widths(viewport_width: usize) -> (r: (usize, usize))
    ensures
        r.0 == viewport_width / 2,
        r.1 == viewport_width - viewport_width / 2,
{
    let left = viewport_width / 2;
    (left, viewport_width - left)
}

/// The screen lines a text takes in `layout`, given the number of lines it
/// wraps to in the unified content width and in the two split cell widths:
/// in the split layout, the taller of the two cells.
pub fn wrapped_height_for_text_counts(layout: DiffLayoutMode, unified_rows: usize, left_rows: usize, right_rows: usize) -> (r: usize)
    ensures
        r == (match layout {
            DiffLayoutMode::Unified => unified_rows,
            DiffLayoutMode::Split => if left_rows > right_rows { left_rows } else { right_rows },
        }),
{
    match layout {
        DiffLayoutMode::Unified => unified_rows,
        DiffLayoutMode::Split => if left_rows > right_rows { left_rows } else { right_rows },
    }
}

/// The screen lines a split row takes, given the number of lines each side's
/// text wraps to in its cell (`None` for an empty side): the taller side,
/// an empty side counting as one line, and never less than one.
pub fn split_row_height(left_rows: Option<usize>, right_rows: Option<usize>) -> (r: usize)
    ensures
        ({
            let l = match left_rows { Some(n) => n, None => 1 };
            let rr = match right_rows { Some(n) => n, None => 1 };
            let m = if l > rr { l } else { rr };
            r == if m > 1 { m } else { 1 }
        }),
{
    let l = match left_rows {
        Some(n) => n,
        None => 1,
    };
    let rr = match right_rows {
        Some(n) => n,
        None => 1,
    };
    let m = if l > rr { l } else { rr };
    if m > 1 { m } else { 1 }
}

/// The screen lines a row of the diff takes when lines wrap, given the
/// wrapped line counts of its text: a context line takes its text's lines
/// (one when its text is not at hand), a unified or meta line takes its
/// line's count, a split line takes its taller side (`split_row_height`),
/// and every other row one line.
pub open spec fn row_wrapped_height_spec(
    row: UiRow,
    context_rows: Option<usize>,
    line_rows: usize,
    left_rows: Option<usize>,
    right_rows: Option<usize>,
) -> int {
    match row {
        UiRow::ContextLine { .. } => match context_rows {
            Some(n) => n as int,
            None => 1,
        },
        UiRow::UnifiedLine { .. } => line_rows as int,
        UiRow::MetaLine { .. } => line_rows as int,
        UiRow::SplitLine { .. } => {
            let l = match left_rows { Some(n) => n, None => 1 };
            let rr = match right_rows { Some(n) => n, None => 1 };
            let m = if l > rr { l } else { rr };
            if m > 1 { m as int } else { 1 }
        },
        _ => 1,
    }
}

/// The screen lines `row` takes when lines wrap. `context_rows` is the line
/// count of a context line's text (`None` when the text is not at hand),
/// `line_rows` that of a unified or meta line, and `left_rows` and
/// `right_rows` those of a split line's sides (`None` for an empty side);
/// the counts that do not apply to the row's kind are not read.
pub fn row_wrapped_height(
    row: &UiRow,
    context_rows: Option<usize>,
    line_rows: usize,
    left_rows: Option<usize>,
    right_rows: Option<usize>,
) -> (r: usize)
    ensures
        r == row_wrapped_height_spec(*row, context_rows, line_rows, left_rows, right_rows),
{
    match *row {
        UiRow::ContextLine { .. } => match context_rows {
            Some(n) => n,
            None => 1,
        },
        UiRow::UnifiedLine { .. } | UiRow::MetaLine { .. } => line_rows,
        UiRow::SplitLine { .. } => split_row_height(left_rows, right_rows),
        _ => 1,
    }
}

/// A split row is as tall as its taller side: its wrapped height is at
/// least one line and at least the line count of each side that is
/// present, and it is one of those counts or one.
pub proof fn law_split_row_takes_taller_side(
    file: usize,
    hunk: usize,
    left: Option<usize>,
    right: Option<usize>,
    context_rows: Option<usize>,
    line_rows: usize,
    left_rows: Option<usize>,
    right_rows: Option<usize>,
)
    ensures
        ({
            let h = row_wrapped_height_spec(UiRow::SplitLine { file, hunk, left, right }, context_rows, line_rows, left_rows, right_rows);
            &&& h >= 1
            &&& left_rows matches Some(n) ==> h >= n
            &&& right_rows matches Some(n) ==> h >= n
            &&& (h == 1 || left_rows == Some(h as usize) || right_rows == Some(h as usize))
        }),
{
}

} // verus!

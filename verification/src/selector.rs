use vstd::prelude::*;
use vstd::utf8::valid_utf8;
use crate::keys::{KeyCode, KeyEvent, KeyModifiers};
use crate::text_input::{
    handle_text_input_key, insert_char, is_cursor, text_input_key_spec, TextInputKeyResult,
};

verus! {

/// The state of a filterable selection list: the filter text (UTF-8 bytes)
/// with its cursor, the selected row and the first visible row.
#[derive(Debug, Clone, PartialEq, Eq)]
pub struct SelectorState {
    pub input: Vec<u8>,
    pub input_cursor: usize,
    pub selected: usize,
    pub scroll: usize,
}

/// `a - b`, or 0 when `b` is larger.
pub open spec fn saturating_sub(a: int, b: int) -> int {
    if a > b {
        a - b
    } else {
        0
    }
}

/// The smaller of two numbers.
pub open spec fn min(a: int, b: int) -> int {
    if a < b {
        a
    } else {
        b
    }
}

/// The scroll offset that keeps row `selected` of `item_count` rows inside a
/// window of `visible_rows` rows, moving the current offset `scroll` as
/// little as possible and never past the last full window.
pub open spec fn selector_scroll_spec(scroll: int, selected: int, item_count: int, visible_rows: int) -> int {
    if visible_rows == 0 {
        0
    } else {
        let max_scroll = saturating_sub(item_count, visible_rows);
        let moved = if selected < scroll {
            selected
        } else if selected >= scroll + visible_rows {
            saturating_sub(selected + 1, visible_rows)
        } else {
            scroll
        };
        min(moved, max_scroll)
    }
}

/// The selection after moving `delta` rows in a list of `len` rows that
/// wraps around at both ends.
pub open spec fn wrapped_selection(selected: int, len: int, delta: int) -> int {
    (selected + delta) % len
}

/// A selection limited to the last row (0 for an empty list).
pub open spec fn limited_selection(selected: int, len: int) -> int {
    min(selected, saturating_sub(len, 1))
}

/// The state is well formed: its filter text is valid UTF-8 and its cursor
/// is a character boundary of it.
pub open spec fn selector_wf(s: SelectorState) -> bool {
    valid_utf8(s.input@) && is_cursor(s.input@, s.input_cursor as int)
}

proof fn lemma_negative_mod(a: int, len: int)
    requires
        a > 0,
        len > 0,
    ensures
        (-a) % len == if a % len == 0 {
            0
        } else {
            len - a % len
        },
{
    let q = a / len;
    let r = a % len;
    assert(a == q * len + r && 0 <= r < len) by (nonlinear_arith)
        requires
            len > 0,
            q == a / len,
            r == a % len,
    ;
    if r == 0 {
        assert(-a == (-q) * len) by (nonlinear_arith)
            requires
                a == q * len + r,
                r == 0,
        ;
        assert((-a) % len == 0) by (nonlinear_arith)
            requires
                -a == (-q) * len,
                len > 0,
        ;
    } else {
        assert(-a == (-q - 1) * len + (len - r)) by (nonlinear_arith)
            requires
                a == q * len + r,
        ;
        assert((-a) % len == len - r) by (nonlinear_arith)
            requires
                -a == (-q - 1) * len + (len - r),
                0 < len - r < len,
        ;
    }
}

impl SelectorState {
    /// Clears the filter and returns to the first row.
    pub fn reset(&mut self)
        ensures
            final(self).input@.len() == 0,
            final(self).input_cursor == 0,
            final(self).selected == 0,
            final(self).scroll == 0,
            selector_wf(*final(self)),
    {
        self.input = Vec::new();
        self.input_cursor = 0;
        self.selected = 0;
        self.scroll = 0;
        proof {
            vstd::utf8::is_char_boundary_start_end_of_seq(self.input@);
        }
    }

    /// Clears the filter text, keeping the selection and scroll.
    pub fn reset_input(&mut self)
        ensures
            final(self).input@.len() == 0,
            final(self).input_cursor == 0,
            final(self).selected == old(self).selected,
            final(self).scroll == old(self).scroll,
            selector_wf(*final(self)),
    {
        self.input = Vec::new();
        self.input_cursor = 0;
        proof {
            vstd::utf8::is_char_boundary_start_end_of_seq(self.input@);
        }
    }

    /// Clears the filter text and scrolls to the top, keeping the selection.
    pub fn reset_input_and_scroll(&mut self)
        ensures
            final(self).input@.len() == 0,
            final(self).input_cursor == 0,
            final(self).selected == old(self).selected,
            final(self).scroll == 0,
            selector_wf(*final(self)),
    {
        self.reset_input();
        self.scroll = 0;
    }

    /// Moves the selection by `delta` rows in a list of `len` rows, wrapping
    /// around at both ends; returns whether the selection changed. An empty
    /// list changes nothing.
    pub fn move_wrapping(&mut self, len: usize, delta: isize) -> (changed: bool)
        requires
            len <= isize::MAX,
            isize::MIN <= (old(self).selected as isize) + delta <= isize::MAX,
        ensures
            len == 0 ==> *final(self) == *old(self),
            len > 0 ==> final(self).selected == wrapped_selection(
                (old(self).selected as isize) as int,
                len as int,
                delta as int,
            ),
            final(self).input == old(self).input,
            final(self).input_cursor == old(self).input_cursor,
            final(self).scroll == old(self).scroll,
            changed == (final(self).selected != old(self).selected),
    {
        if len == 0 {
            return false;
        }
        let previous = self.selected;
        let sum = self.selected as isize + delta;
        let next = if sum >= 0 {
            (sum as usize) % len
        } else {
            let a = (-(sum + 1)) as usize + 1;
            let m = a % len;
            proof {
                lemma_negative_mod(a as int, len as int);
            }
            if m == 0 {
                0
            } else {
                len - m
            }
        };
        self.selected = next;
        self.selected != previous
    }

    /// Sets the selection, limited to the last row; returns whether it
    /// changed.
    pub fn set_selected(&mut self, selected: usize, len: usize) -> (changed: bool)
        ensures
            final(self).selected == limited_selection(selected as int, len as int),
            final(self).input == old(self).input,
            final(self).input_cursor == old(self).input_cursor,
            final(self).scroll == old(self).scroll,
            changed == (final(self).selected != old(self).selected),
    {
        let last = if len > 0 {
            len - 1
        } else {
            0
        };
        let selected = if selected < last {
            selected
        } else {
            last
        };
        if self.selected == selected {
            return false;
        }
        self.selected = selected;
        true
    }

    /// Moves the selection by `delta` rows, stopping at the first and last
    /// rows; returns whether it changed.
    pub fn move_saturating(&mut self, len: usize, delta: isize) -> (changed: bool)
        ensures
            final(self).selected == limited_selection(
                if old(self).selected + delta < 0 {
                    0
                } else if old(self).selected + delta > usize::MAX {
                    usize::MAX as int
                } else {
                    old(self).selected + delta
                },
                len as int,
            ),
            final(self).input == old(self).input,
            final(self).input_cursor == old(self).input_cursor,
            final(self).scroll == old(self).scroll,
            changed == (final(self).selected != old(self).selected),
    {
        let selected = if delta < 0 {
            let back = (-(delta + 1)) as usize + 1;
            if self.selected > back {
                self.selected - back
            } else {
                0
            }
        } else {
            let forward = delta as usize;
            if usize::MAX - self.selected >= forward {
                self.selected + forward
            } else {
                usize::MAX
            }
        };
        self.set_selected(selected, len)
    }

    /// Keeps the selection on a row of a `len`-row list and the scroll at or
    /// above it; returns whether either changed.
    pub fn clamp(&mut self, len: usize) -> (changed: bool)
        ensures
            len == 0 ==> final(self).selected == 0 && final(self).scroll == 0,
            len > 0 ==> final(self).selected == min(old(self).selected as int, len - 1)
                && final(self).scroll == min(old(self).scroll as int, final(self).selected as int),
            final(self).input == old(self).input,
            final(self).input_cursor == old(self).input_cursor,
            changed == (final(self).selected != old(self).selected || final(self).scroll != old(
                self,
            ).scroll),
    {
        let previous_selected = self.selected;
        let previous_scroll = self.scroll;
        if len == 0 {
            self.selected = 0;
            self.scroll = 0;
        } else {
            if self.selected > len - 1 {
                self.selected = len - 1;
            }
            if self.scroll > self.selected {
                self.scroll = self.selected;
            }
        }
        self.selected != previous_selected || self.scroll != previous_scroll
    }

    /// Types `character` into the filter at its cursor and returns to the
    /// first row.
    pub fn push_input(&mut self, character: char)
        requires
            selector_wf(*old(self)),
            old(self).input@.len() + 4 <= usize::MAX,
        ensures
            (final(self).input@, final(self).input_cursor as int)
                == crate::text_input::insert_char_spec(
                old(self).input@,
                old(self).input_cursor as int,
                character,
            ),
            final(self).selected == 0,
            final(self).scroll == 0,
            selector_wf(*final(self)),
    {
        insert_char(&mut self.input, &mut self.input_cursor, character);
        self.selected = 0;
        self.scroll = 0;
    }

    /// Deletes the character before the filter cursor, as Backspace does;
    /// an edit returns to the first row.
    pub fn pop_input(&mut self) -> (r: TextInputKeyResult)
        requires
            selector_wf(*old(self)),
            old(self).input@.len() + 4 <= usize::MAX,
        ensures
            ({
                let backspace = KeyEvent {
                    code: KeyCode::Backspace,
                    modifiers: KeyModifiers {
                        shift: false,
                        control: false,
                        alt: false,
                        super_key: false,
                        hyper: false,
                        meta: false,
                    },
                };
                (final(self).input@, final(self).input_cursor as int, r) == text_input_key_spec(
                    old(self).input@,
                    old(self).input_cursor as int,
                    backspace,
                )
            }),
            r == TextInputKeyResult::Edited ==> final(self).selected == 0 && final(self).scroll
                == 0,
            r != TextInputKeyResult::Edited ==> final(self).selected == old(self).selected
                && final(self).scroll == old(self).scroll,
            selector_wf(*final(self)),
    {
        let result = handle_text_input_key(
            &mut self.input,
            &mut self.input_cursor,
            KeyEvent::new(KeyCode::Backspace, KeyModifiers::none()),
        );
        if result == TextInputKeyResult::Edited {
            self.selected = 0;
            self.scroll = 0;
        }
        result
    }

    /// Clears the filter and selection; returns false when there was nothing
    /// to clear.
    pub fn clear_input_and_selection(&mut self) -> (changed: bool)
        ensures
            final(self).input@.len() == 0,
            final(self).input_cursor == 0,
            final(self).selected == 0,
            final(self).scroll == 0,
            changed == !(old(self).input@.len() == 0 && old(self).input_cursor == 0 && old(
                self,
            ).selected == 0 && old(self).scroll == 0),
            !changed ==> *final(self) == *old(self),
            selector_wf(*final(self)),
    {
        if self.input.len() == 0 && self.input_cursor == 0 && self.selected == 0 && self.scroll
            == 0 {
            proof {
                assert(self.input@ =~= Seq::<u8>::empty());
            }
            return false;
        }
        self.reset();
        true
    }

    /// Applies a key press to the filter text; an edit returns to the first
    /// row.
    pub fn apply_input_key(&mut self, key: KeyEvent) -> (r: TextInputKeyResult)
        requires
            selector_wf(*old(self)),
            old(self).input@.len() + 4 <= usize::MAX,
        ensures
            (final(self).input@, final(self).input_cursor as int, r) == text_input_key_spec(
                old(self).input@,
                old(self).input_cursor as int,
                key,
            ),
            r == TextInputKeyResult::Edited ==> final(self).selected == 0 && final(self).scroll
                == 0,
            r != TextInputKeyResult::Edited ==> final(self).selected == old(self).selected
                && final(self).scroll == old(self).scroll,
            selector_wf(*final(self)),
    {
        let result = handle_text_input_key(&mut self.input, &mut self.input_cursor, key);
        if result == TextInputKeyResult::Edited {
            self.selected = 0;
            self.scroll = 0;
        }
        result
    }

    /// Scrolls so that the selected row is visible.
    pub fn ensure_selected_visible(&mut self, item_count: usize, visible_rows: usize)
        ensures
            final(self).scroll == selector_scroll_spec(
                old(self).scroll as int,
                old(self).selected as int,
                item_count as int,
                visible_rows as int,
            ),
            final(self).selected == old(self).selected,
            final(self).input == old(self).input,
            final(self).input_cursor == old(self).input_cursor,
    {
        ensure_selector_scroll(&mut self.scroll, self.selected, item_count, visible_rows);
    }
}

/// Keeps `selected` visible in a scrollable list of `item_count` rows.
pub fn ensure_selector_scroll(
    scroll: &mut usize,
    selected: usize,
    item_count: usize,
    visible_rows: usize,
)
    ensures
        *final(scroll) == selector_scroll_spec(
            *old(scroll) as int,
            selected as int,
            item_count as int,
            visible_rows as int,
        ),
{
    if visible_rows == 0 {
        *scroll = 0;
        return;
    }
    let max_scroll = if item_count > visible_rows {
        item_count - visible_rows
    } else {
        0
    };
    let window_end = if usize::MAX - *scroll >= visible_rows {
        *scroll + visible_rows
    } else {
        usize::MAX
    };
    if selected < *scroll {
        *scroll = selected;
    } else if selected >= window_end {
        let next = if selected < usize::MAX {
            selected + 1
        } else {
            usize::MAX
        };
        *scroll = if next > visible_rows {
            next - visible_rows
        } else {
            0
        };
    }
    if *scroll > max_scroll {
        *scroll = max_scroll;
    }
}

/// After the scroll is kept, the selected row of a non-empty list lies in
/// the window of `visible_rows` rows, and the window never runs past the
/// last row.
pub proof fn law_selected_row_stays_visible(scroll: usize, selected: usize, item_count: usize, visible_rows: usize)
    requires
        selected < item_count,
        visible_rows > 0,
    ensures
        ({
            let s = selector_scroll_spec(scroll as int, selected as int, item_count as int, visible_rows as int);
            &&& 0 <= s <= selected < s + visible_rows
            &&& s <= saturating_sub(item_count as int, visible_rows as int)
        }),
{
}

/// Moving the selection down a row and back up a row, with wrapping, comes
/// back to the row it started on.
pub proof fn law_wrapping_moves_cancel(selected: usize, len: usize)
    requires
        selected < len,
    ensures
        wrapped_selection(wrapped_selection(selected as int, len as int, 1), len as int, -1) == selected,
{
    let s = selected as int;
    let n = len as int;
    if s + 1 < n {
        assert((s + 1) % n == s + 1) by (nonlinear_arith)
            requires
                0 <= s + 1 < n,
        ;
        assert((s + 1 - 1) % n == s) by (nonlinear_arith)
            requires
                0 <= s < n,
        ;
    } else {
        assert((s + 1) % n == 0) by (nonlinear_arith)
            requires
                s + 1 == n,
                n > 0,
        ;
        assert((0 - 1) % n == n - 1) by (nonlinear_arith)
            requires
                n > 0,
        ;
    }
}

/// Typing a character into the filter and then deleting it with
/// `pop_input` gives back the filter text and cursor as they were.
pub proof fn law_pop_input_undoes_push_input(input: Seq<u8>, cursor: int, character: char)
    requires
        valid_utf8(input),
        is_cursor(input, cursor),
    ensures
        ({
            let typed = crate::text_input::insert_char_spec(input, cursor, character);
            let backspace = KeyEvent {
                code: KeyCode::Backspace,
                modifiers: KeyModifiers {
                    shift: false,
                    control: false,
                    alt: false,
                    super_key: false,
                    hyper: false,
                    meta: false,
                },
            };
            text_input_key_spec(typed.0, typed.1, backspace) == (input, cursor, TextInputKeyResult::Edited)
        }),
{
    let none = KeyModifiers { shift: false, control: false, alt: false, super_key: false, hyper: false, meta: false };
    crate::text_input::law_backspace_undoes_typed_character(input, cursor, character, none);
    assert(crate::text_input::clamped_cursor(input, cursor) == cursor);
}

} // verus!

use mark::keys::{KeyCode, KeyEvent, KeyModifiers};
use mark::selector::{ensure_selector_scroll, SelectorState};
use mark::text_input::{
    clamp_text_cursor, delete_range, encode_char, handle_text_input_key, insert_char, line_end,
    line_start, next_char_boundary, next_word_boundary, previous_char_boundary,
    previous_word_boundary, TextInputKeyResult,
};

fn key(code: KeyCode) -> KeyEvent {
    KeyEvent::new(code, KeyModifiers::none())
}

fn ctrl(c: char) -> KeyEvent {
    KeyEvent::new(KeyCode::Char(c), KeyModifiers { control: true, ..KeyModifiers::none() })
}

#[test]
fn backspace_undoes_a_typed_character() {
    for (text, cursor, c) in [("héllo", 3usize, 'x'), ("", 0, 'é'), ("ab", 2, '€'), ("a", 0, '𝄞')] {
        let mut input = text.as_bytes().to_vec();
        let mut cur = cursor;
        assert_eq!(handle_text_input_key(&mut input, &mut cur, key(KeyCode::Char(c))), TextInputKeyResult::Edited);
        assert_eq!(cur, cursor + c.len_utf8());
        assert_eq!(handle_text_input_key(&mut input, &mut cur, key(KeyCode::Backspace)), TextInputKeyResult::Edited);
        assert_eq!(input, text.as_bytes());
        assert_eq!(cur, cursor);
    }
}

#[test]
fn cursor_moves_by_characters_words_and_lines() {
    let text = "one twö\nthree";
    let b = text.as_bytes();
    assert_eq!(previous_char_boundary(b, 8), 6);
    assert_eq!(next_char_boundary(b, 6), 8);
    assert_eq!(previous_word_boundary(b, 8), 4);
    assert_eq!(next_word_boundary(b, 0), 4);
    assert_eq!(line_start(b, 11), 9);
    assert_eq!(line_end(b, 2), 8);
    let mut cursor = 7;
    clamp_text_cursor(b, &mut cursor);
    assert_eq!(cursor, 6);
    let mut cursor = 99;
    clamp_text_cursor(b, &mut cursor);
    assert_eq!(cursor, b.len());
}

#[test]
fn editing_keys_change_the_text() {
    let mut input = b"hello world".to_vec();
    let mut cursor = input.len();
    assert_eq!(handle_text_input_key(&mut input, &mut cursor, ctrl('w')), TextInputKeyResult::Edited);
    assert_eq!(input, b"hello ");
    assert_eq!(handle_text_input_key(&mut input, &mut cursor, ctrl('a')), TextInputKeyResult::Moved);
    assert_eq!(cursor, 0);
    assert_eq!(handle_text_input_key(&mut input, &mut cursor, ctrl('k')), TextInputKeyResult::Edited);
    assert!(input.is_empty());
    assert_eq!(handle_text_input_key(&mut input, &mut cursor, key(KeyCode::Left)), TextInputKeyResult::Ignored);
    assert_eq!(handle_text_input_key(&mut input, &mut cursor, key(KeyCode::Tab)), TextInputKeyResult::Ignored);
}

#[test]
fn delete_and_insert_work_on_whole_characters() {
    let mut input = "aéb".as_bytes().to_vec();
    let mut cursor = 3;
    delete_range(&mut input, &mut cursor, 1, 2);
    assert_eq!(input, "aéb".as_bytes(), "a range inside a character is refused");
    delete_range(&mut input, &mut cursor, 1, 3);
    assert_eq!(input, b"ab");
    assert_eq!(cursor, 1);
    insert_char(&mut input, &mut cursor, '€');
    assert_eq!(input, "a€b".as_bytes());
    assert_eq!(cursor, 4);
    assert_eq!(encode_char('€'), "€".as_bytes());
}

#[test]
fn selector_keeps_the_selection_visible() {
    for (scroll, selected, count, rows) in [(0usize, 7usize, 10usize, 3usize), (8, 2, 10, 3), (5, 9, 10, 4), (0, 1, 2, 5)] {
        let mut s = scroll;
        ensure_selector_scroll(&mut s, selected, count, rows);
        assert!(s <= selected && selected < s + rows);
        assert!(s <= count.saturating_sub(rows));
    }
    let mut s = 4;
    ensure_selector_scroll(&mut s, 4, 10, 0);
    assert_eq!(s, 0);
}

#[test]
fn selector_wrapping_moves_cancel() {
    let mut state = SelectorState { input: Vec::new(), input_cursor: 0, selected: 4, scroll: 0 };
    assert!(state.move_wrapping(5, 1));
    assert_eq!(state.selected, 0);
    assert!(state.move_wrapping(5, -1));
    assert_eq!(state.selected, 4);
    assert!(!state.move_wrapping(5, 5));
    assert!(!state.move_wrapping(0, 1));
    state.selected = usize::MAX;
    assert!(state.move_wrapping(5, 1));
    assert_eq!(state.selected, 0);
    state.selected = 4;
    assert!(!state.move_saturating(5, 10));
    assert_eq!(state.selected, 4);
    assert!(state.move_saturating(5, -10));
    assert_eq!(state.selected, 0);
}

#[test]
fn selector_input_and_reset() {
    let mut state = SelectorState { input: Vec::new(), input_cursor: 0, selected: 3, scroll: 2 };
    state.push_input('a');
    assert_eq!(state.selected, 0);
    state.push_input('é');
    assert_eq!(state.input, "aé".as_bytes());
    assert_eq!(state.pop_input(), TextInputKeyResult::Edited);
    assert_eq!(state.input, b"a");
    assert_eq!(state.selected, 0);
    state.selected = 3;
    state.scroll = 2;
    assert!(state.clamp(2));
    assert_eq!(state.selected, 1);
    assert_eq!(state.scroll, 1);
    state.reset();
    assert!(state.input.is_empty());
    assert_eq!(state.selected, 0);
    assert_eq!(state.scroll, 0);
}

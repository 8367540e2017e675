use fltk_text::error::FltkError;
use fltk_text::text::TextBuffer;

fn buffer_with(s: &str) -> TextBuffer {
    let mut b = TextBuffer::default();
    b.set_text(s);
    b
}

#[test]
fn buffer() {
    let b = TextBuffer::default();
    assert_eq!(b.length(), 0);
    assert_eq!(b.text(), "");
}

#[test]
fn text_range_then_replace_keeps_content() {
    let mut b = buffer_with("hello world");
    let t = b.text_range(3, 8).unwrap();
    assert_eq!(t, "lo wo");
    b.replace(3, 8, &t);
    assert_eq!(b.text(), "hello world");
    let e = b.text_range(4, 4).unwrap();
    b.replace(4, 4, &e);
    assert_eq!(b.text(), "hello world");
}

#[test]
fn text_range_outside_content_is_none() {
    let b = buffer_with("abc");
    assert_eq!(b.text_range(2, 4), None);
    assert_eq!(b.text_range(2, 1), None);
    assert_eq!(b.text_range(0, 3), Some(String::from("abc")));
}

#[test]
fn insert_then_remove_round_trip() {
    let mut b = buffer_with("abcdef");
    b.insert(2, "XYZ");
    assert_eq!(b.text(), "abXYZcdef");
    b.remove(2, 5);
    assert_eq!(b.text(), "abcdef");
}

#[test]
fn select_then_selection_position() {
    let mut b = buffer_with("hello world");
    assert_eq!(b.selection_position(), None);
    b.select(2, 7);
    assert!(b.selected());
    assert_eq!(b.selection_position(), Some((2, 7)));
    assert_eq!(b.selection_text(), "llo w");
    b.unselect();
    assert!(!b.selected());
    assert_eq!(b.selection_position(), None);
    assert_eq!(b.selection_text(), "");
}

#[test]
fn empty_selection_is_kept() {
    let mut b = buffer_with("abc");
    b.select(1, 1);
    assert_eq!(b.selection_position(), Some((1, 1)));
}

#[test]
fn append_notifies_listener_once() {
    let mut b = buffer_with("ab");
    let id = b.add_modify_callback().unwrap();
    b.append("x");
    let ns = b.take_notifications();
    assert_eq!(ns.len(), 1);
    assert_eq!(ns[0].listener, id);
    assert_eq!(ns[0].event.pos, 2);
    assert_eq!(ns[0].event.inserted, 1);
    assert_eq!(ns[0].event.deleted, 0);
    assert_eq!(ns[0].event.restyled, 0);
    assert_eq!(ns[0].event.deleted_text, "");
    assert_eq!(b.take_notifications().len(), 0);
}

#[test]
fn every_listener_hears_in_registration_order() {
    let mut b = TextBuffer::default();
    let first = b.add_modify_callback().unwrap();
    let second = b.add_modify_callback().unwrap();
    assert_ne!(first, second);
    b.set_text("abc");
    b.remove(0, 2);
    let ns = b.take_notifications();
    assert_eq!(ns.len(), 4);
    assert_eq!(ns[0].listener, first);
    assert_eq!(ns[1].listener, second);
    assert_eq!(ns[2].listener, first);
    assert_eq!(ns[2].event.deleted, 2);
    assert_eq!(ns[2].event.deleted_text, "ab");
}

#[test]
fn removed_listener_hears_nothing() {
    let mut b = TextBuffer::default();
    let first = b.add_modify_callback().unwrap();
    let second = b.add_modify_callback().unwrap();
    b.remove_modify_callback(first);
    b.append("hi");
    let ns = b.take_notifications();
    assert_eq!(ns.len(), 1);
    assert_eq!(ns[0].listener, second);
}

#[test]
fn call_modify_callbacks_repeats_last_change() {
    let mut b = buffer_with("hello");
    let id = b.add_modify_callback().unwrap();
    b.call_modify_callbacks();
    let ns = b.take_notifications();
    assert_eq!(ns.len(), 1);
    assert_eq!(ns[0].listener, id);
    assert_eq!(ns[0].event.pos, 0);
    assert_eq!(ns[0].event.inserted, 5);
    let mut fresh = TextBuffer::default();
    fresh.add_modify_callback().unwrap();
    fresh.call_modify_callbacks();
    let ns = fresh.take_notifications();
    assert_eq!(ns[0].event.inserted, 0);
    assert_eq!(ns[0].event.deleted, 0);
}

#[test]
fn copy_whole_source_into_empty() {
    let src = buffer_with("some text\nmore");
    let mut dst = TextBuffer::default();
    dst.copy(&src, 0, src.length(), 0);
    assert_eq!(dst.text(), src.text());
}

#[test]
fn copy_part_into_middle() {
    let src = buffer_with("0123456789");
    let mut dst = buffer_with("ab");
    dst.copy(&src, 3, 6, 1);
    assert_eq!(dst.text(), "a345b");
    assert_eq!(src.text(), "0123456789");
}

#[test]
fn clone_copies_content_only() {
    let mut b = buffer_with("abc");
    b.select(0, 1);
    b.add_modify_callback().unwrap();
    let mut c = b.clone();
    assert_eq!(c.text(), "abc");
    assert_eq!(c.selection_position(), None);
    c.append("d");
    assert_eq!(c.take_notifications().len(), 0);
    assert_eq!(b.text(), "abc");
}

#[test]
fn set_insert_remove_undo_scenario() {
    let mut b = TextBuffer::default();
    b.can_undo(true);
    b.set_text("hello");
    assert_eq!(b.text(), "hello");
    b.insert(5, " world");
    assert_eq!(b.text(), "hello world");
    b.remove(0, 6);
    assert_eq!(b.text(), "world");
    assert_eq!(b.undo(), Ok(()));
    assert_eq!(b.text(), "hello world");
}

#[test]
fn undo_with_nothing_to_undo_fails() {
    let mut b = TextBuffer::default();
    assert_eq!(b.undo(), Err(FltkError::UndoError));
    b.append("a");
    assert_eq!(b.undo(), Ok(()));
    assert_eq!(b.text(), "");
    assert_eq!(b.undo(), Err(FltkError::UndoError));
}

#[test]
fn undo_disabled_fails() {
    let mut b = TextBuffer::default();
    b.append("a");
    b.can_undo(false);
    assert_eq!(b.undo(), Err(FltkError::UndoError));
    b.append("b");
    assert_eq!(b.undo(), Err(FltkError::UndoError));
    assert_eq!(b.text(), "ab");
}

#[test]
fn load_missing_file_leaves_content() {
    let mut b = buffer_with("keep me");
    assert_eq!(b.load_file(None), Err(FltkError::ResourceNotFound));
    assert_eq!(b.text(), "keep me");
}

#[test]
fn load_file_replaces_content() {
    let mut b = buffer_with("old");
    assert_eq!(b.load_file(Some("line one\nline two")), Ok(()));
    assert_eq!(b.text(), "line one\nline two");
    assert_eq!(b.count_lines(0, b.length()), 1);
}

#[test]
fn selection_moves_with_edits() {
    let mut b = buffer_with("hello world");
    b.select(6, 11);
    b.insert(0, ">> ");
    assert_eq!(b.selection_position(), Some((9, 14)));
    assert_eq!(b.selection_text(), "world");
    b.remove(0, 3);
    assert_eq!(b.selection_position(), Some((6, 11)));
    b.remove(6, 11);
    assert_eq!(b.selection_position(), None);
}

#[test]
fn remove_and_replace_selection() {
    let mut b = buffer_with("one two three");
    b.select(4, 7);
    b.replace_selection("2");
    assert_eq!(b.text(), "one 2 three");
    b.select(0, 4);
    b.remove_selection();
    assert_eq!(b.text(), "2 three");
    b.unselect();
    b.remove_selection();
    b.replace_selection("zzz");
    assert_eq!(b.text(), "2 three");
}

#[test]
fn highlight_is_apart_from_selection() {
    let mut b = buffer_with("abcdef");
    b.select(0, 2);
    b.highlight(3, 5);
    assert!(b.is_highlighted());
    assert_eq!(b.highlight_position(), Some((3, 5)));
    assert_eq!(b.highlight_text(), "de");
    assert_eq!(b.selection_position(), Some((0, 2)));
    b.unhighlight();
    assert!(!b.is_highlighted());
    assert_eq!(b.highlight_position(), None);
    assert_eq!(b.highlight_text(), "");
    assert_eq!(b.selection_position(), Some((0, 2)));
}

#[test]
fn lines_and_words() {
    let b = buffer_with("first line\nsecond_part here\n\nlast");
    assert_eq!(b.line_start(0), 0);
    assert_eq!(b.line_start(14), 11);
    assert_eq!(b.line_text(14), "second_part here");
    assert_eq!(b.line_text(28), "");
    assert_eq!(b.line_text(30), "last");
    assert_eq!(b.line_start(b.length()), 29);
    assert_eq!(b.word_start(14), 11);
    assert_eq!(b.word_end(14), 22);
    assert_eq!(b.word_start(3), 0);
    assert_eq!(b.word_end(3), 5);
    assert_eq!(b.word_start(5), 0);
    assert_eq!(b.word_end(5), 5);
    assert_eq!(b.count_lines(0, b.length()), 3);
    assert_eq!(b.count_lines(0, 10), 0);
    assert_eq!(b.count_lines(10, 11), 1);
}

#[test]
fn tab_distance_default_and_set() {
    let mut b = TextBuffer::default();
    assert_eq!(b.tab_distance(), 8);
    b.set_tab_distance(4);
    assert_eq!(b.tab_distance(), 4);
}

#[test]
fn non_ascii_text_counts_characters() {
    let mut b = buffer_with("héllo wörld");
    assert_eq!(b.length(), 11);
    assert_eq!(b.text_range(1, 2), Some(String::from("é")));
    assert_eq!(b.word_end(0), 5);
    b.remove(0, 6);
    assert_eq!(b.text(), "wörld");
}

#[test]
fn text_added_after_a_range_stays_outside() {
    let mut b = buffer_with("hello");
    b.select(0, 5);
    b.highlight(2, 2);
    b.append(" world");
    assert_eq!(b.selection_position(), Some((0, 5)));
    b.insert(2, "--");
    assert_eq!(b.selection_position(), Some((0, 7)));
    assert_eq!(b.highlight_position(), Some((4, 4)));
}

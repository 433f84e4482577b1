use youtuibe::editor::{
    append_pasted, byte_index, delete_previous_word, edit_key, insert_at_char, paste_into,
    remove_char, EditKey, EditOutcome,
};

#[test]
fn unicode_editor_inserts_and_deletes_by_character() {
    let mut text = "ab界d".to_string();
    insert_at_char(&mut text, 2, "🙂");
    assert_eq!(text, "ab🙂界d");
    remove_char(&mut text, 3);
    assert_eq!(text, "ab🙂d");
    let mut cursor = text.chars().count();
    delete_previous_word(&mut text, &mut cursor);
    assert_eq!(text, "");
    assert_eq!(cursor, 0);
}

#[test]
fn byte_index_counts_utf8_widths() {
    assert_eq!(byte_index("a界🙂b", 0), 0);
    assert_eq!(byte_index("a界🙂b", 1), 1);
    assert_eq!(byte_index("a界🙂b", 2), 4);
    assert_eq!(byte_index("a界🙂b", 3), 8);
    assert_eq!(byte_index("a界🙂b", 9), "a界🙂b".len());
}

#[test]
fn insert_past_the_end_appends() {
    let mut text = "abc".to_string();
    insert_at_char(&mut text, 10, "d");
    assert_eq!(text, "abcd");
    remove_char(&mut text, 10);
    assert_eq!(text, "abcd");
}

#[test]
fn delete_word_removes_trailing_space_and_word() {
    let mut text = "one two  ".to_string();
    let mut cursor = 9;
    delete_previous_word(&mut text, &mut cursor);
    assert_eq!(text, "one ");
    assert_eq!(cursor, 4);
}

#[test]
fn typing_then_backspace_restores_the_text() {
    let mut text = "héllo".to_string();
    let mut cursor = 2;
    assert_eq!(edit_key(&mut text, &mut cursor, EditKey::Char('x')), EditOutcome::Continue);
    assert_eq!(text, "héxllo");
    assert_eq!(cursor, 3);
    edit_key(&mut text, &mut cursor, EditKey::Backspace);
    assert_eq!(text, "héllo");
    assert_eq!(cursor, 2);
}

#[test]
fn dialog_keys_move_clear_and_close() {
    let mut text = "abc".to_string();
    let mut cursor = 3;
    edit_key(&mut text, &mut cursor, EditKey::Right);
    assert_eq!(cursor, 3);
    edit_key(&mut text, &mut cursor, EditKey::Home);
    assert_eq!(cursor, 0);
    edit_key(&mut text, &mut cursor, EditKey::Left);
    assert_eq!(cursor, 0);
    edit_key(&mut text, &mut cursor, EditKey::Delete);
    assert_eq!(text, "bc");
    edit_key(&mut text, &mut cursor, EditKey::End);
    assert_eq!(cursor, 2);
    assert_eq!(edit_key(&mut text, &mut cursor, EditKey::Enter), EditOutcome::Commit);
    assert_eq!(edit_key(&mut text, &mut cursor, EditKey::Esc), EditOutcome::Cancel);
    edit_key(&mut text, &mut cursor, EditKey::ClearLine);
    assert_eq!(text, "");
    assert_eq!(cursor, 0);
}

#[test]
fn pasting_flattens_line_breaks() {
    let mut text = "ab".to_string();
    let mut cursor = 1;
    paste_into(&mut text, &mut cursor, "x\r\ny");
    assert_eq!(text, "ax  yb");
    assert_eq!(cursor, 5);
    let mut field = "https://a.test".to_string();
    append_pasted(&mut field, "https://b.test\n");
    assert_eq!(field, "https://a.test https://b.test ");
    let mut empty = String::new();
    append_pasted(&mut empty, "q");
    assert_eq!(empty, "q");
}

#[test]
fn removing_an_inserted_character_restores_the_text() {
    let mut v = String::from("ab界d");
    insert_at_char(&mut v, 2, "🙂");
    remove_char(&mut v, 2);
    assert_eq!(v, "ab界d");
    let mut cursor = 0usize;
    let mut w = String::from("xy");
    assert_eq!(edit_key(&mut w, &mut cursor, EditKey::Backspace), EditOutcome::Continue);
    assert_eq!((w.as_str(), cursor), ("xy", 0));
    cursor = 2;
    edit_key(&mut w, &mut cursor, EditKey::Delete);
    assert_eq!((w.as_str(), cursor), ("xy", 2));
    edit_key(&mut w, &mut cursor, EditKey::Char('z'));
    assert_eq!((w.as_str(), cursor), ("xyz", 3));
}

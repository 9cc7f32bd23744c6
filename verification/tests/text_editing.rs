use rkanban::app::App;

#[test]
fn cursor_moves_over_multibyte_characters() {
    let buf = "aé€x"; // byte offsets 0, 1, 3, 6, 7
    let mut c = 0;
    App::cursor_right(buf, &mut c);
    assert_eq!(c, 1);
    App::cursor_right(buf, &mut c);
    assert_eq!(c, 3);
    App::cursor_right(buf, &mut c);
    assert_eq!(c, 6);
    App::cursor_right(buf, &mut c);
    assert_eq!(c, 7);
    App::cursor_right(buf, &mut c);
    assert_eq!(c, 7);
    App::cursor_left(buf, &mut c);
    assert_eq!(c, 6);
    App::cursor_left(buf, &mut c);
    assert_eq!(c, 3);
    App::cursor_left(buf, &mut c);
    assert_eq!(c, 1);
    App::cursor_left(buf, &mut c);
    assert_eq!(c, 0);
    App::cursor_left(buf, &mut c);
    assert_eq!(c, 0);
}

#[test]
fn cursor_left_from_inside_a_character_goes_to_its_start() {
    let mut c = 5; // inside '€' (bytes 3..6)
    App::cursor_left("aé€x", &mut c);
    assert_eq!(c, 3);
    let mut c = 20; // past the end
    App::cursor_left("aé€x", &mut c);
    assert_eq!(c, 7);
}

#[test]
fn insert_char_at_cursor() {
    let mut buf = String::from("ac");
    let mut c = 1;
    App::insert_char(&mut buf, &mut c, 'b');
    assert_eq!(buf, "abc");
    assert_eq!(c, 2);
    App::insert_char(&mut buf, &mut c, '€');
    assert_eq!(buf, "ab€c");
    assert_eq!(c, 5);
    let mut e = String::new();
    let mut z = 0;
    App::insert_char(&mut e, &mut z, 'é');
    assert_eq!(e, "é");
    assert_eq!(z, 2);
}

#[test]
fn delete_char_before_cursor() {
    let mut buf = String::from("ab€c");
    let mut c = 5;
    App::delete_char_before(&mut buf, &mut c);
    assert_eq!(buf, "abc");
    assert_eq!(c, 2);
    App::delete_char_before(&mut buf, &mut c);
    assert_eq!(buf, "ac");
    assert_eq!(c, 1);
    let mut z = 0;
    App::delete_char_before(&mut buf, &mut z);
    assert_eq!(buf, "ac");
    assert_eq!(z, 0);
}

#[test]
fn type_then_backspace_restores_text_and_cursor() {
    for (text, cursor) in [("", 0usize), ("héllo", 3), ("héllo", 6), ("€", 0)] {
        for ch in ['x', 'ß', '€', '🦀'] {
            let mut buf = String::from(text);
            let mut c = cursor;
            App::insert_char(&mut buf, &mut c, ch);
            App::delete_char_before(&mut buf, &mut c);
            assert_eq!(buf, text);
            assert_eq!(c, cursor);
        }
    }
}

#[test]
fn right_then_left_returns_to_boundary() {
    let text = "a🦀é";
    for start in [0usize, 1, 5] {
        let mut c = start;
        App::cursor_right(text, &mut c);
        App::cursor_left(text, &mut c);
        assert_eq!(c, start);
    }
}

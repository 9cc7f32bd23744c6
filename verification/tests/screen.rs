use rkanban::app::{App, InputMode};
use rkanban::board::Card;
use rkanban::view::{
    card_label, column_title, cursor_display_col, cursor_visual_pos, decimal_string, description_text,
    detail_title, popup_title, status_hint, tags_label, tags_text,
};

#[test]
fn display_column_counts_characters() {
    assert_eq!(cursor_display_col("aé€x", 0), 0);
    assert_eq!(cursor_display_col("aé€x", 3), 2);
    assert_eq!(cursor_display_col("aé€x", 7), 4);
    assert_eq!(cursor_display_col("aé€x", 99), 4);
}

#[test]
fn visual_position_with_wrapping_and_newlines() {
    assert_eq!(cursor_visual_pos("", 0, 10), (0, 0));
    assert_eq!(cursor_visual_pos("hello", 5, 10), (5, 0));
    assert_eq!(cursor_visual_pos("hello", 5, 3), (2, 1));
    assert_eq!(cursor_visual_pos("ab\ncd", 5, 10), (2, 1));
    assert_eq!(cursor_visual_pos("ab\n", 3, 10), (0, 1));
    assert_eq!(cursor_visual_pos("abcdef\nx", 8, 3), (1, 3));
    assert_eq!(cursor_visual_pos("abc", 2, 0), (0, 2));
    assert_eq!(cursor_visual_pos("é\né", 99, 4), (1, 1));
}

#[test]
fn labels() {
    assert_eq!(decimal_string(0), "0");
    assert_eq!(decimal_string(1234), "1234");
    assert_eq!(column_title("Todo", 3), " Todo (3) ");
    assert_eq!(column_title("Done", 12), " Done (12) ");
    let plain = Card { title: "t".into(), description: String::new(), tags: vec![] };
    let full = Card { title: "t".into(), description: "d".into(), tags: vec!["a".into(), "b".into()] };
    assert_eq!(card_label(&plain), " t");
    assert_eq!(card_label(&full), " t ✎");
    assert_eq!(tags_label(&plain), None);
    assert_eq!(tags_label(&full).as_deref(), Some(" [a, b]"));
    assert_eq!(tags_text(&full), "a, b");
    assert_eq!(description_text(&plain), "(no description)");
    assert_eq!(description_text(&full), "d");
    assert_eq!(detail_title("Todo", "t"), " Todo → t ");
}

#[test]
fn hints_and_titles() {
    assert_eq!(status_hint(&InputMode::ViewingCard { col: 0, card: 0 }), "  Esc: back");
    assert_eq!(status_hint(&InputMode::AddingColumn), "  ←/→: cursor  Enter: confirm  Esc: cancel");
    assert!(status_hint(&InputMode::Normal).contains("q quit"));
    assert_eq!(popup_title(&InputMode::AddingCard), " New Card ");
    assert_eq!(popup_title(&InputMode::EditingCard { col: 1, card: 2 }), " Edit Card ");
    assert_eq!(popup_title(&InputMode::Normal), "");
}

#[test]
fn card_lookup() {
    let mut app = App::new();
    app.add_card("a".into(), String::new(), vec![]);
    assert_eq!(app.card_at(0, 0).map(|c| c.title.as_str()), Some("a"));
    assert!(app.card_at(0, 1).is_none());
    assert!(app.card_at(5, 0).is_none());
}

use rkanban::app::{App, BoardSnapshot, InputMode, PopupField};
use rkanban::board::{Card, Column};

fn card(title: &str) -> Card {
    Card { title: title.to_string(), description: String::new(), tags: Vec::new() }
}

fn titles(col: &Column) -> Vec<String> {
    col.cards.iter().map(|c| c.title.clone()).collect()
}

fn names(app: &App) -> Vec<String> {
    app.columns.iter().map(|c| c.name.clone()).collect()
}

#[test]
fn new_app_has_three_empty_columns() {
    let app = App::new();
    assert_eq!(names(&app), vec!["Todo", "Doing", "Done"]);
    assert!(app.columns.iter().all(|c| c.cards.is_empty() && c.selected == 0));
    assert_eq!(app.selected_column, 0);
    assert_eq!(app.save_path, "board.json");
    assert_eq!(app.save_path, App::DEFAULT_FILE);
    assert!(!app.quit);
    assert_eq!(app.input_mode, InputMode::Normal);
    assert_eq!(app.focused_field, PopupField::Title);
    assert!(app.status_message.is_none());
}

#[test]
fn input_mode_defaults_to_normal() {
    assert_eq!(InputMode::default(), InputMode::Normal);
}

#[test]
fn add_card_appends_and_selects_it() {
    let mut app = App::new();
    assert!(app.add_card("a".into(), "desc".into(), vec!["t".into()]));
    assert!(app.add_card("b".into(), String::new(), vec![]));
    assert_eq!(titles(&app.columns[0]), vec!["a", "b"]);
    assert_eq!(app.columns[0].selected, 1);
    assert_eq!(app.columns[0].cards[0].description, "desc");
    assert_eq!(app.columns[0].cards[0].tags, vec!["t"]);
}

#[test]
fn delete_card_on_empty_column_changes_nothing() {
    let mut app = App::new();
    assert!(!app.delete_card());
    assert!(app.columns[0].cards.is_empty());
}

#[test]
fn delete_last_card_moves_selection_up() {
    let mut app = App::new();
    app.add_card("a".into(), String::new(), vec![]);
    app.add_card("b".into(), String::new(), vec![]);
    assert!(app.delete_card());
    assert_eq!(titles(&app.columns[0]), vec!["a"]);
    assert_eq!(app.columns[0].selected, 0);
    assert!(app.delete_card());
    assert!(app.columns[0].cards.is_empty());
    assert_eq!(app.columns[0].selected, 0);
}

#[test]
fn reorder_cards_up_and_down() {
    let mut app = App::new();
    for t in ["a", "b", "c"] {
        app.add_card(t.into(), String::new(), vec![]);
    }
    assert!(app.move_card_up());
    assert_eq!(titles(&app.columns[0]), vec!["a", "c", "b"]);
    assert_eq!(app.columns[0].selected, 1);
    assert!(app.move_card_up());
    assert_eq!(titles(&app.columns[0]), vec!["c", "a", "b"]);
    assert!(!app.move_card_up());
    assert_eq!(titles(&app.columns[0]), vec!["c", "a", "b"]);
    assert!(app.move_card_down());
    assert_eq!(titles(&app.columns[0]), vec!["a", "c", "b"]);
    assert!(app.move_card_down());
    assert!(!app.move_card_down());
    assert_eq!(titles(&app.columns[0]), vec!["a", "b", "c"]);
    assert_eq!(app.columns[0].selected, 2);
}

#[test]
fn reorder_needs_two_cards() {
    let mut app = App::new();
    app.add_card("a".into(), String::new(), vec![]);
    assert!(!app.move_card_up());
    assert!(!app.move_card_down());
}

#[test]
fn reorder_card_up_then_down_restores_column() {
    let mut app = App::new();
    for t in ["a", "b", "c"] {
        app.add_card(t.into(), String::new(), vec![]);
    }
    app.columns[0].selected = 1;
    app.move_card_up();
    app.move_card_down();
    assert_eq!(titles(&app.columns[0]), vec!["a", "b", "c"]);
    assert_eq!(app.columns[0].selected, 1);
}

#[test]
fn reorder_columns() {
    let mut app = App::new();
    assert!(!app.move_column_left());
    assert!(app.move_column_right());
    assert_eq!(names(&app), vec!["Doing", "Todo", "Done"]);
    assert_eq!(app.selected_column, 1);
    assert!(app.move_column_right());
    assert!(!app.move_column_right());
    assert_eq!(names(&app), vec!["Doing", "Done", "Todo"]);
    assert!(app.move_column_left());
    assert_eq!(names(&app), vec!["Doing", "Todo", "Done"]);
    assert_eq!(app.selected_column, 1);
}

#[test]
fn move_card_right_and_left() {
    let mut app = App::new();
    app.add_card("a".into(), String::new(), vec![]);
    app.add_card("b".into(), String::new(), vec![]);
    app.columns[0].selected = 0;
    assert!(app.move_card_right());
    assert_eq!(app.selected_column, 1);
    assert_eq!(titles(&app.columns[0]), vec!["b"]);
    assert_eq!(titles(&app.columns[1]), vec!["a"]);
    assert_eq!(app.columns[1].selected, 0);
    assert!(app.move_card_right());
    assert_eq!(titles(&app.columns[2]), vec!["a"]);
    assert!(!app.move_card_right());
    assert!(app.move_card_left());
    assert!(app.move_card_left());
    assert_eq!(app.selected_column, 0);
    assert_eq!(titles(&app.columns[0]), vec!["b", "a"]);
    assert_eq!(app.columns[0].selected, 1);
    assert!(!app.move_card_left());
}

#[test]
fn move_card_from_empty_column_changes_nothing() {
    let mut app = App::new();
    assert!(!app.move_card_right());
    assert_eq!(app.selected_column, 0);
}

#[test]
fn moves_conserve_cards() {
    let mut app = App::new();
    for t in ["a", "b", "c"] {
        app.add_card(t.into(), String::new(), vec![]);
    }
    app.move_card_right();
    app.move_column_right();
    app.move_card_left();
    app.move_card_up();
    let total: usize = app.columns.iter().map(|c| c.cards.len()).sum();
    assert_eq!(total, 3);
}

#[test]
fn add_then_delete_card_restores_cards() {
    let mut app = App::new();
    app.add_card("a".into(), String::new(), vec![]);
    app.add_card("b".into(), String::new(), vec![]);
    app.add_card("x".into(), String::new(), vec![]);
    app.delete_card();
    assert_eq!(titles(&app.columns[0]), vec!["a", "b"]);
}

#[test]
fn add_and_rename_columns() {
    let mut app = App::new();
    assert!(app.add_column("Later".into()));
    assert_eq!(app.selected_column, 3);
    assert_eq!(app.columns[3].name, "Later");
    assert!(app.rename_column(0, "Backlog".into()));
    assert_eq!(app.columns[0].name, "Backlog");
    assert!(!app.rename_column(9, "Nope".into()));
    assert_eq!(names(&app), vec!["Backlog", "Doing", "Done", "Later"]);
}

#[test]
fn delete_column_selects_previous_and_keeps_one() {
    let mut app = App::new();
    assert!(app.delete_column(2));
    assert_eq!(names(&app), vec!["Todo", "Doing"]);
    assert_eq!(app.selected_column, 1);
    assert!(app.delete_column(0));
    assert_eq!(names(&app), vec!["Doing"]);
    assert_eq!(app.selected_column, 0);
    assert!(!app.delete_column(0));
    assert_eq!(names(&app), vec!["Doing"]);
}

#[test]
fn clamp_selected_moves_cursor_into_range() {
    let mut col = Column { name: "c".into(), cards: vec![card("a"), card("b")], selected: 7 };
    col.clamp_selected();
    assert_eq!(col.selected, 1);
    col.selected = 1;
    col.clamp_selected();
    assert_eq!(col.selected, 1);
    let mut empty = Column { name: "e".into(), cards: vec![], selected: 3 };
    empty.clamp_selected();
    assert_eq!(empty.selected, 0);
}

#[test]
fn from_saved_clamps_cursors() {
    let snap = BoardSnapshot {
        columns: vec![
            Column { name: "A".into(), cards: vec![card("x")], selected: 5 },
            Column { name: "B".into(), cards: vec![], selected: 2 },
        ],
        selected_column: 9,
    };
    let app = App::from_saved("my.json", Some(snap));
    assert_eq!(app.save_path, "my.json");
    assert_eq!(app.selected_column, 1);
    assert_eq!(app.columns[0].selected, 0);
    assert_eq!(app.columns[1].selected, 0);
    assert_eq!(names(&app), vec!["A", "B"]);
}

#[test]
fn from_saved_without_board_gives_default() {
    let app = App::from_saved("other.json", None);
    assert_eq!(names(&app), vec!["Todo", "Doing", "Done"]);
    assert_eq!(app.save_path, "other.json");
}

#[test]
fn from_saved_with_no_columns() {
    let app = App::from_saved("b.json", Some(BoardSnapshot { columns: vec![], selected_column: 4 }));
    assert!(app.columns.is_empty());
    assert_eq!(app.selected_column, 0);
}

#[test]
fn snapshot_copies_the_board() {
    let mut app = App::new();
    app.add_card("a".into(), "d".into(), vec!["t".into()]);
    app.move_card_right();
    let snap = app.snapshot();
    assert_eq!(snap.selected_column, 1);
    assert_eq!(snap.columns.len(), 3);
    assert_eq!(snap.columns[1].cards[0].title, "a");
    assert_eq!(snap.columns[1].cards[0].tags, vec!["t"]);
}

#[test]
fn parse_tags_trims_and_skips_empty() {
    let mut app = App::new();
    app.tags_buffer = " bug, urgent,,backend , ".into();
    assert_eq!(app.parse_tags(), vec!["bug", "urgent", "backend"]);
    app.tags_buffer = String::new();
    assert!(app.parse_tags().is_empty());
    app.tags_buffer = "one".into();
    assert_eq!(app.parse_tags(), vec!["one"]);
    app.tags_buffer = "a b,\tc\u{3000}".into();
    assert_eq!(app.parse_tags(), vec!["a b", "c"]);
}

#[test]
fn reset_popup_clears_buffers() {
    let mut app = App::new();
    app.input_buffer = "t".into();
    app.desc_buffer = "d".into();
    app.tags_buffer = "g".into();
    app.title_cursor = 1;
    app.desc_cursor = 1;
    app.tags_cursor = 1;
    app.focused_field = PopupField::Tags;
    app.editing_desc = true;
    app.reset_popup();
    assert!(app.input_buffer.is_empty() && app.desc_buffer.is_empty() && app.tags_buffer.is_empty());
    assert_eq!((app.title_cursor, app.desc_cursor, app.tags_cursor), (0, 0, 0));
    assert_eq!(app.focused_field, PopupField::Title);
    assert!(!app.editing_desc);
}

#[test]
fn save_errors_are_reported_on_the_status_line() {
    let mut app = App::from_saved("/x/board.json", None);
    app.record_save_error(rkanban::app::SaveError::Write);
    assert_eq!(app.status_message.as_deref(), Some("⚠ Could not save /x/board.json"));
    app.record_save_error(rkanban::app::SaveError::Serialize);
    assert_eq!(app.status_message.as_deref(), Some("⚠ Serialisation error"));
}

#[test]
fn card_clone_keeps_fields() {
    let c = Card { title: "t".into(), description: "d".into(), tags: vec!["x".into()] };
    let d = c.clone();
    assert_eq!(d.title, "t");
    assert_eq!(d.description, "d");
    assert_eq!(d.tags, vec!["x"]);
}

#[test]
fn restoring_a_snapshot_gives_the_board_back() {
    let mut app = App::new();
    app.add_card("a".into(), "d".into(), vec!["t".into()]);
    app.add_card("b".into(), String::new(), vec![]);
    app.move_card_up();
    app.move_card_right();
    let restored = App::from_saved("board.json", Some(app.snapshot()));
    assert_eq!(restored.selected_column, app.selected_column);
    assert_eq!(names(&restored), names(&app));
    for (r, c) in restored.columns.iter().zip(app.columns.iter()) {
        assert_eq!(titles(r), titles(c));
        assert_eq!(r.selected, c.selected);
    }
    assert_eq!(restored.columns[0].cards[0].description, "d");
    assert_eq!(restored.columns[0].cards[0].tags, vec!["t"]);
    assert_eq!(restored.columns[1].cards[0].title, "b");
}

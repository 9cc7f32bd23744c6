use rkanban::app::{App, InputMode, PopupField};
use rkanban::config::{Key, KeyCode, KeyMap};
use rkanban::input::{handle_column_input, handle_delete_confirm, handle_input, handle_key, handle_normal, needs_column};

fn type_text(app: &mut App, text: &str) {
    for c in text.chars() {
        handle_key(app, KeyCode::Char(c), &KeyMap::default());
    }
}

#[test]
fn add_card_through_the_popup() {
    let mut app = App::new();
    assert!(!handle_key(&mut app, KeyCode::Char('a'), &KeyMap::default()));
    assert_eq!(app.input_mode, InputMode::AddingCard);
    type_text(&mut app, "  Buy milk ");
    handle_key(&mut app, KeyCode::Tab, &KeyMap::default());
    assert_eq!(app.focused_field, PopupField::Description);
    assert!(app.editing_desc);
    type_text(&mut app, "2 litres");
    assert!(!handle_key(&mut app, KeyCode::Enter, &KeyMap::default()));
    type_text(&mut app, "semi  ");
    handle_key(&mut app, KeyCode::Tab, &KeyMap::default());
    assert_eq!(app.focused_field, PopupField::Tags);
    assert!(!app.editing_desc);
    type_text(&mut app, "errand, ,home");
    assert!(handle_key(&mut app, KeyCode::Enter, &KeyMap::default()));
    assert_eq!(app.input_mode, InputMode::Normal);
    let card = &app.columns[0].cards[0];
    assert_eq!(card.title, "Buy milk");
    assert_eq!(card.description, "2 litres\nsemi");
    assert_eq!(card.tags, vec!["errand", "home"]);
    assert!(app.input_buffer.is_empty() && app.desc_buffer.is_empty() && app.tags_buffer.is_empty());
}

#[test]
fn blank_title_adds_nothing() {
    let mut app = App::new();
    handle_key(&mut app, KeyCode::Char('a'), &KeyMap::default());
    type_text(&mut app, "   ");
    assert!(!handle_key(&mut app, KeyCode::Enter, &KeyMap::default()));
    assert!(app.columns[0].cards.is_empty());
    assert_eq!(app.input_mode, InputMode::Normal);
}

#[test]
fn edit_card_keeps_tags_and_updates_title() {
    let mut app = App::new();
    app.add_card("old".into(), "d".into(), vec!["x".into(), "y".into()]);
    handle_key(&mut app, KeyCode::Char('e'), &KeyMap::default());
    assert_eq!(app.input_mode, InputMode::EditingCard { col: 0, card: 0 });
    assert_eq!(app.tags_buffer, "x, y");
    assert_eq!(app.title_cursor, 3);
    handle_key(&mut app, KeyCode::Backspace, &KeyMap::default());
    handle_key(&mut app, KeyCode::Backspace, &KeyMap::default());
    handle_key(&mut app, KeyCode::Char('k'), &KeyMap::default());
    assert!(handle_key(&mut app, KeyCode::Enter, &KeyMap::default()));
    let card = &app.columns[0].cards[0];
    assert_eq!(card.title, "ok");
    assert_eq!(card.description, "d");
    assert_eq!(card.tags, vec!["x", "y"]);
}

#[test]
fn cursor_keys_in_popup() {
    let mut app = App::new();
    handle_key(&mut app, KeyCode::Char('a'), &KeyMap::default());
    type_text(&mut app, "ac");
    handle_key(&mut app, KeyCode::Left, &KeyMap::default());
    handle_key(&mut app, KeyCode::Char('b'), &KeyMap::default());
    assert_eq!(app.input_buffer, "abc");
    handle_key(&mut app, KeyCode::Right, &KeyMap::default());
    assert_eq!(app.title_cursor, 3);
    handle_key(&mut app, KeyCode::Esc, &KeyMap::default());
    assert_eq!(app.input_mode, InputMode::Normal);
    assert!(app.input_buffer.is_empty());
    assert!(app.columns[0].cards.is_empty());
}

#[test]
fn navigation_keys() {
    let mut app = App::new();
    app.add_card("a".into(), String::new(), vec![]);
    app.add_card("b".into(), String::new(), vec![]);
    handle_key(&mut app, KeyCode::Up, &KeyMap::default());
    assert_eq!(app.columns[0].selected, 0);
    handle_key(&mut app, KeyCode::Up, &KeyMap::default());
    assert_eq!(app.columns[0].selected, 0);
    handle_key(&mut app, KeyCode::Down, &KeyMap::default());
    handle_key(&mut app, KeyCode::Down, &KeyMap::default());
    assert_eq!(app.columns[0].selected, 1);
    handle_key(&mut app, KeyCode::Right, &KeyMap::default());
    handle_key(&mut app, KeyCode::Right, &KeyMap::default());
    handle_key(&mut app, KeyCode::Right, &KeyMap::default());
    assert_eq!(app.selected_column, 2);
    handle_key(&mut app, KeyCode::Left, &KeyMap::default());
    assert_eq!(app.selected_column, 1);
}

#[test]
fn quit_and_help() {
    let mut app = App::new();
    handle_key(&mut app, KeyCode::Char('?'), &KeyMap::default());
    assert!(app.show_help);
    handle_key(&mut app, KeyCode::Char('?'), &KeyMap::default());
    assert!(!app.show_help);
    handle_key(&mut app, KeyCode::Char('q'), &KeyMap::default());
    assert!(app.quit);
}

#[test]
fn board_keys_report_saves() {
    let mut app = App::new();
    app.add_card("a".into(), String::new(), vec![]);
    assert!(handle_key(&mut app, KeyCode::Char('l'), &KeyMap::default()));
    assert_eq!(app.selected_column, 1);
    assert!(handle_key(&mut app, KeyCode::Char('h'), &KeyMap::default()));
    assert!(!handle_key(&mut app, KeyCode::Char('H'), &KeyMap::default()));
    assert!(handle_key(&mut app, KeyCode::Char('L'), &KeyMap::default()));
    assert!(!handle_key(&mut app, KeyCode::Char('K'), &KeyMap::default()));
    assert!(!handle_key(&mut app, KeyCode::Char('J'), &KeyMap::default()));
    assert!(handle_key(&mut app, KeyCode::Char('d'), &KeyMap::default()));
    assert!(!handle_key(&mut app, KeyCode::Char('d'), &KeyMap::default()));
    assert!(!handle_key(&mut app, KeyCode::Char('z'), &KeyMap::default()));
}

#[test]
fn view_card_and_back() {
    let mut app = App::new();
    assert!(!handle_key(&mut app, KeyCode::Char('v'), &KeyMap::default()));
    assert_eq!(app.input_mode, InputMode::Normal);
    app.add_card("a".into(), String::new(), vec![]);
    handle_key(&mut app, KeyCode::Enter, &KeyMap::default());
    assert_eq!(app.input_mode, InputMode::ViewingCard { col: 0, card: 0 });
    handle_key(&mut app, KeyCode::Char('x'), &KeyMap::default());
    assert_eq!(app.input_mode, InputMode::ViewingCard { col: 0, card: 0 });
    handle_key(&mut app, KeyCode::Char('q'), &KeyMap::default());
    assert_eq!(app.input_mode, InputMode::Normal);
    assert!(!app.quit);
}

#[test]
fn add_and_rename_column_through_popup() {
    let mut app = App::new();
    handle_key(&mut app, KeyCode::Char('n'), &KeyMap::default());
    assert_eq!(app.input_mode, InputMode::AddingColumn);
    type_text(&mut app, " Later ");
    assert!(handle_key(&mut app, KeyCode::Enter, &KeyMap::default()));
    assert_eq!(app.columns[3].name, "Later");
    assert_eq!(app.selected_column, 3);
    handle_key(&mut app, KeyCode::Char('r'), &KeyMap::default());
    assert_eq!(app.input_mode, InputMode::RenamingColumn { col: 3 });
    assert_eq!(app.input_buffer, "Later");
    assert_eq!(app.title_cursor, 5);
    handle_key(&mut app, KeyCode::Backspace, &KeyMap::default());
    type_text(&mut app, "st");
    assert!(handle_key(&mut app, KeyCode::Enter, &KeyMap::default()));
    assert_eq!(app.columns[3].name, "Latest");
    handle_key(&mut app, KeyCode::Char('n'), &KeyMap::default());
    assert!(!handle_key(&mut app, KeyCode::Enter, &KeyMap::default()));
    assert_eq!(app.columns.len(), 4);
}

#[test]
fn delete_column_needs_yes() {
    let mut app = App::new();
    handle_key(&mut app, KeyCode::Char('x'), &KeyMap::default());
    assert_eq!(app.input_mode, InputMode::DeletingColumn { col: 0 });
    type_text(&mut app, "no");
    assert!(!handle_key(&mut app, KeyCode::Enter, &KeyMap::default()));
    assert_eq!(app.columns.len(), 3);
    handle_key(&mut app, KeyCode::Char('x'), &KeyMap::default());
    type_text(&mut app, " YeSs");
    handle_key(&mut app, KeyCode::Backspace, &KeyMap::default());
    assert_eq!(app.input_buffer, " YeS");
    assert!(handle_key(&mut app, KeyCode::Enter, &KeyMap::default()));
    assert_eq!(app.columns.len(), 2);
    assert_eq!(app.columns[0].name, "Doing");
    assert_eq!(app.input_mode, InputMode::Normal);
}

#[test]
fn cannot_delete_last_column() {
    let mut app = App::new();
    app.delete_column(0);
    app.delete_column(0);
    assert!(!handle_key(&mut app, KeyCode::Char('x'), &KeyMap::default()));
    assert_eq!(app.status_message.as_deref(), Some("⚠ Cannot delete the last column"));
    assert_eq!(app.input_mode, InputMode::Normal);
    handle_key(&mut app, KeyCode::Char('z'), &KeyMap::default());
    assert!(app.status_message.is_none());
}

#[test]
fn handlers_called_directly() {
    let mut app = App::new();
    assert!(!handle_normal(&mut app, KeyCode::Char('a'), &KeyMap::default()));
    assert!(!handle_input(&mut app, KeyCode::Char('t'), &KeyMap::default()));
    assert!(handle_input(&mut app, KeyCode::Enter, &KeyMap::default()));
    assert_eq!(app.columns[0].cards[0].title, "t");
    app.input_mode = InputMode::AddingColumn;
    handle_column_input(&mut app, KeyCode::Char('c'), &KeyMap::default());
    assert!(handle_column_input(&mut app, KeyCode::Enter, &KeyMap::default()));
    assert_eq!(app.columns.len(), 4);
    app.input_mode = InputMode::DeletingColumn { col: 3 };
    handle_delete_confirm(&mut app, KeyCode::Char('y'), &KeyMap::default());
    handle_delete_confirm(&mut app, KeyCode::Char('e'), &KeyMap::default());
    handle_delete_confirm(&mut app, KeyCode::Char('s'), &KeyMap::default());
    assert!(handle_delete_confirm(&mut app, KeyCode::Enter, &KeyMap::default()));
    assert_eq!(app.columns.len(), 3);
    handle_delete_confirm(&mut app, KeyCode::Esc, &KeyMap::default());
    assert_eq!(app.input_mode, InputMode::Normal);
}

#[test]
fn empty_board_keys_that_need_a_column() {
    let mut app = App::from_saved("b.json", Some(rkanban::app::BoardSnapshot { columns: vec![], selected_column: 0 }));
    assert!(needs_column(&app, KeyCode::Up, &KeyMap::default()));
    assert!(needs_column(&app, KeyCode::Char('d'), &KeyMap::default()));
    assert!(!needs_column(&app, KeyCode::Char('a'), &KeyMap::default()));
    assert!(!needs_column(&app, KeyCode::Left, &KeyMap::default()));
    handle_key(&mut app, KeyCode::Char('a'), &KeyMap::default());
    assert!(!needs_column(&app, KeyCode::Enter, &KeyMap::default()));
    handle_key(&mut app, KeyCode::Char('t'), &KeyMap::default());
    assert!(needs_column(&app, KeyCode::Enter, &KeyMap::default()));
    handle_key(&mut app, KeyCode::Esc, &KeyMap::default());
    assert!(handle_key(&mut app, KeyCode::Char('n'), &KeyMap::default()) == false);
    type_text(&mut app, "New");
    assert!(handle_key(&mut app, KeyCode::Enter, &KeyMap::default()));
    assert_eq!(app.columns.len(), 1);
    assert_eq!(app.selected_column, 0);
}

#[test]
fn edit_without_changes_keeps_the_card() {
    let mut app = App::new();
    app.add_card("Plan".into(), "line one\nline two".into(), vec!["a b".into(), "c".into()]);
    assert!(!handle_key(&mut app, KeyCode::Char('e'), &KeyMap::default()));
    assert!(handle_key(&mut app, KeyCode::Enter, &KeyMap::default()));
    let card = &app.columns[0].cards[0];
    assert_eq!(card.title, "Plan");
    assert_eq!(card.description, "line one\nline two");
    assert_eq!(card.tags, vec!["a b", "c"]);
    assert_eq!(app.columns[0].cards.len(), 1);
    assert_eq!(app.input_mode, InputMode::Normal);
}

#[test]
fn keys_without_save_keep_cards() {
    let mut app = App::new();
    app.add_card("a".into(), String::new(), vec![]);
    app.add_card("b".into(), String::new(), vec![]);
    for key in [KeyCode::Up, KeyCode::Down, KeyCode::Left, KeyCode::Right, KeyCode::Char('?'), KeyCode::Other] {
        assert!(!handle_key(&mut app, key, &KeyMap::default()));
        assert_eq!(app.columns[0].cards.len(), 2);
        assert_eq!(app.columns[0].cards[0].title, "a");
        assert_eq!(app.columns[0].cards[1].title, "b");
    }
}

#[test]
fn remapped_keys_drive_the_board() {
    let mut keys = KeyMap::default();
    keys.quit = Key::Char('Q');
    keys.add_card = Key::Char('+');
    keys.popup_confirm = Key::Tab;
    keys.popup_next_field = Key::Enter;
    let mut app = App::new();
    assert!(!handle_key(&mut app, KeyCode::Char('q'), &keys));
    assert!(!app.quit);
    assert!(!handle_key(&mut app, KeyCode::Char('a'), &keys));
    assert_eq!(app.input_mode, InputMode::Normal);
    handle_key(&mut app, KeyCode::Char('+'), &keys);
    assert_eq!(app.input_mode, InputMode::AddingCard);
    handle_key(&mut app, KeyCode::Char('t'), &keys);
    handle_key(&mut app, KeyCode::Enter, &keys);
    assert_eq!(app.focused_field, PopupField::Description);
    handle_key(&mut app, KeyCode::Enter, &keys);
    assert_eq!(app.focused_field, PopupField::Tags);
    assert!(handle_key(&mut app, KeyCode::Tab, &keys));
    assert_eq!(app.columns[0].cards[0].title, "t");
    handle_key(&mut app, KeyCode::Char('Q'), &keys);
    assert!(app.quit);
}

#[test]
fn remapped_cancel_closes_a_shown_card() {
    let mut keys = KeyMap::default();
    keys.popup_cancel = Key::Backspace;
    keys.quit = Key::Char('Q');
    let mut app = App::new();
    app.add_card("a".into(), String::new(), vec![]);
    handle_key(&mut app, KeyCode::Char('v'), &keys);
    assert_eq!(app.input_mode, InputMode::ViewingCard { col: 0, card: 0 });
    handle_key(&mut app, KeyCode::Esc, &keys);
    handle_key(&mut app, KeyCode::Char('q'), &keys);
    assert_eq!(app.input_mode, InputMode::ViewingCard { col: 0, card: 0 });
    handle_key(&mut app, KeyCode::Backspace, &keys);
    assert_eq!(app.input_mode, InputMode::Normal);
    handle_key(&mut app, KeyCode::Char('v'), &keys);
    handle_key(&mut app, KeyCode::Char('Q'), &keys);
    assert_eq!(app.input_mode, InputMode::Normal);
    assert!(!app.quit);
}

#[test]
fn keys_from_a_config_file() {
    let text = "[keys]\nquit = z\nview_card = V\n";
    let config = rkanban::config::Config::from_text(text).unwrap();
    let mut app = App::new();
    app.add_card("a".into(), String::new(), vec![]);
    handle_key(&mut app, KeyCode::Char('v'), &config.keys);
    assert_eq!(app.input_mode, InputMode::Normal);
    handle_key(&mut app, KeyCode::Char('V'), &config.keys);
    assert_eq!(app.input_mode, InputMode::ViewingCard { col: 0, card: 0 });
    handle_key(&mut app, KeyCode::Char('z'), &config.keys);
    assert_eq!(app.input_mode, InputMode::Normal);
    handle_key(&mut app, KeyCode::Char('z'), &config.keys);
    assert!(app.quit);
}

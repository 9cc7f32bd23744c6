//! What each key press does, in each mode of the editor. Every handler
//! returns whether the board changed and is due to be written out.
use vstd::prelude::*;
use crate::app::{App, InputMode, PopupField};
use crate::board::{BoardView, CardView, strings_view};
use crate::config::{KeyCode, KeyMap, default_keymap, key_is};
use crate::editing::{backspaced, law_moved_cursor_on_boundary, moved_left, moved_right, typed};
use crate::text::{
    char_index, lemma_ascii_encoding, lemma_char_index, lemma_encode_concat, lemma_encode_single,
    lemma_take_skip_bytes, law_yes_is_three_letters, byte_len, clean_tag, is_blank_text, is_yes, join_with, joined, law_tags_roundtrip, lemma_ends_are_boundaries,
    pop_char, push_char, says_yes, tags_in, trim, trim_end, trimmed, trimmed_end, utf8_len,
};

use vstd::utf8::encode_utf8;

verus! {

// ── Frames: which parts of the state a key leaves alone ──────────────────────

/// The columns and the column cursor are unchanged.
pub open spec fn same_board(n: App, o: App) -> bool {
    n.columns == o.columns && n.selected_column == o.selected_column
}

/// The popup buffers, cursors and focus are unchanged.
pub open spec fn same_popup(n: App, o: App) -> bool {
    &&& n.input_buffer == o.input_buffer
    &&& n.desc_buffer == o.desc_buffer
    &&& n.tags_buffer == o.tags_buffer
    &&& n.focused_field == o.focused_field
    &&& n.title_cursor == o.title_cursor
    &&& n.desc_cursor == o.desc_cursor
    &&& n.tags_cursor == o.tags_cursor
    &&& n.editing_desc == o.editing_desc
}

/// The quit and help flags, the board file and the status line are unchanged.
pub open spec fn same_misc(n: App, o: App) -> bool {
    n.quit == o.quit && n.show_help == o.show_help && n.save_path == o.save_path
        && n.status_message == o.status_message
}

/// Nothing changed.
pub open spec fn unchanged(n: App, o: App) -> bool {
    same_board(n, o) && same_popup(n, o) && same_misc(n, o) && n.input_mode == o.input_mode
}

/// The popup buffers are empty, the cursors at 0 and the title focused.
pub open spec fn popup_cleared(n: App) -> bool {
    &&& n.input_buffer@ == Seq::<char>::empty()
    &&& n.desc_buffer@ == Seq::<char>::empty()
    &&& n.tags_buffer@ == Seq::<char>::empty()
    &&& n.title_cursor == 0
    &&& n.desc_cursor == 0
    &&& n.tags_cursor == 0
    &&& n.focused_field == PopupField::Title
    &&& !n.editing_desc
}

/// Only the title buffer and its cursor may differ among the popup fields.
pub open spec fn same_popup_but_title(n: App, o: App) -> bool {
    &&& n.desc_buffer == o.desc_buffer
    &&& n.tags_buffer == o.tags_buffer
    &&& n.focused_field == o.focused_field
    &&& n.desc_cursor == o.desc_cursor
    &&& n.tags_cursor == o.tags_cursor
    &&& n.editing_desc == o.editing_desc
}

// ── Normal mode ──────────────────────────────────────────────────────────────

/// An action of normal mode.
#[derive(Clone, Copy, Debug, PartialEq, Eq, Structural)]
pub enum Command {
    Quit,
    ToggleHelp,
    SelectLeft,
    SelectRight,
    SelectUp,
    SelectDown,
    AddCard,
    EditCard,
    ViewCard,
    MoveCardLeft,
    MoveCardRight,
    ReorderUp,
    ReorderDown,
    ReorderColumnLeft,
    ReorderColumnRight,
    DeleteCard,
    AddColumn,
    RenameColumn,
    DeleteColumn,
}

/// The action `key` is bound to in normal mode; the bindings are tried in
/// this order, and Enter also views a card.
pub open spec fn command_of(keys: KeyMap, key: KeyCode) -> Option<Command> {
    if key_is(keys.quit, key) {
        Some(Command::Quit)
    } else if key_is(keys.help, key) {
        Some(Command::ToggleHelp)
    } else if key_is(keys.nav_left, key) {
        Some(Command::SelectLeft)
    } else if key_is(keys.nav_right, key) {
        Some(Command::SelectRight)
    } else if key_is(keys.nav_up, key) {
        Some(Command::SelectUp)
    } else if key_is(keys.nav_down, key) {
        Some(Command::SelectDown)
    } else if key_is(keys.add_card, key) {
        Some(Command::AddCard)
    } else if key_is(keys.edit_card, key) {
        Some(Command::EditCard)
    } else if key_is(keys.view_card, key) || key == KeyCode::Enter {
        Some(Command::ViewCard)
    } else if key_is(keys.move_card_left, key) {
        Some(Command::MoveCardLeft)
    } else if key_is(keys.move_card_right, key) {
        Some(Command::MoveCardRight)
    } else if key_is(keys.reorder_up, key) {
        Some(Command::ReorderUp)
    } else if key_is(keys.reorder_down, key) {
        Some(Command::ReorderDown)
    } else if key_is(keys.reorder_col_left, key) {
        Some(Command::ReorderColumnLeft)
    } else if key_is(keys.reorder_col_right, key) {
        Some(Command::ReorderColumnRight)
    } else if key_is(keys.delete_card, key) {
        Some(Command::DeleteCard)
    } else if key_is(keys.add_column, key) {
        Some(Command::AddColumn)
    } else if key_is(keys.rename_column, key) {
        Some(Command::RenameColumn)
    } else if key_is(keys.delete_column, key) {
        Some(Command::DeleteColumn)
    } else {
        None
    }
}

/// The action `key` is bound to in normal mode.
pub fn command_for(keys: &KeyMap, key: KeyCode) -> (r: Option<Command>)
    ensures
        r == command_of(*keys, key),
{
    if keys.quit.matches(&key) {
        Some(Command::Quit)
    } else if keys.help.matches(&key) {
        Some(Command::ToggleHelp)
    } else if keys.nav_left.matches(&key) {
        Some(Command::SelectLeft)
    } else if keys.nav_right.matches(&key) {
        Some(Command::SelectRight)
    } else if keys.nav_up.matches(&key) {
        Some(Command::SelectUp)
    } else if keys.nav_down.matches(&key) {
        Some(Command::SelectDown)
    } else if keys.add_card.matches(&key) {
        Some(Command::AddCard)
    } else if keys.edit_card.matches(&key) {
        Some(Command::EditCard)
    } else if keys.view_card.matches(&key) || key == KeyCode::Enter {
        Some(Command::ViewCard)
    } else if keys.move_card_left.matches(&key) {
        Some(Command::MoveCardLeft)
    } else if keys.move_card_right.matches(&key) {
        Some(Command::MoveCardRight)
    } else if keys.reorder_up.matches(&key) {
        Some(Command::ReorderUp)
    } else if keys.reorder_down.matches(&key) {
        Some(Command::ReorderDown)
    } else if keys.reorder_col_left.matches(&key) {
        Some(Command::ReorderColumnLeft)
    } else if keys.reorder_col_right.matches(&key) {
        Some(Command::ReorderColumnRight)
    } else if keys.delete_card.matches(&key) {
        Some(Command::DeleteCard)
    } else if keys.add_column.matches(&key) {
        Some(Command::AddColumn)
    } else if keys.rename_column.matches(&key) {
        Some(Command::RenameColumn)
    } else if keys.delete_column.matches(&key) {
        Some(Command::DeleteColumn)
    } else {
        None
    }
}

/// Actions that work on the selected column (and so need one).
pub open spec fn needs_active_column(c: Option<Command>) -> bool {
    match c {
        Some(Command::SelectUp) | Some(Command::SelectDown) | Some(Command::EditCard) | Some(
            Command::ViewCard,
        ) | Some(Command::ReorderUp) | Some(Command::ReorderDown) | Some(Command::DeleteCard)
        | Some(Command::RenameColumn) => true,
        _ => false,
    }
}

/// A board operation: the board becomes `b`, nothing else changes, and the
/// board is saved when `saved`.
pub open spec fn board_step(n: App, o: App, b: BoardView, saved: bool, should_save: bool) -> bool {
    n.board() == b && n.same_ui(o) && saved == should_save
}

/// What an action does in normal mode: `o` before, `n` after; `saved` tells
/// whether the board is due to be written out. No action: nothing changes.
pub open spec fn normal_step(o: App, n: App, cmd: Option<Command>, saved: bool) -> bool {
    let b = o.board();
    let a = b.active();
    let sel = o.selected_column;
    match cmd {
        Some(Command::Quit) => n.quit && n.show_help == o.show_help && same_board(n, o)
            && same_popup(n, o) && n.input_mode == o.input_mode && n.save_path == o.save_path
            && n.status_message == o.status_message && !saved,
        Some(Command::ToggleHelp) => n.show_help == !o.show_help && n.quit == o.quit
            && same_board(n, o) && same_popup(n, o) && n.input_mode == o.input_mode
            && n.save_path == o.save_path && n.status_message == o.status_message && !saved,
        Some(Command::SelectLeft) => board_step(n, o, b.select_prev_column(), saved, false),
        Some(Command::SelectRight) => board_step(n, o, b.select_next_column(), saved, false),
        Some(Command::SelectUp) => board_step(n, o, b.select_prev_card(), saved, false),
        Some(Command::SelectDown) => board_step(n, o, b.select_next_card(), saved, false),
        Some(Command::AddCard) => n.input_mode == InputMode::AddingCard && popup_cleared(n)
            && same_board(n, o) && same_misc(n, o) && !saved,
        Some(Command::EditCard) => !saved && if a.cards.len() > 0 {
            let card = a.cards[a.selected as int];
            &&& n.input_mode == InputMode::EditingCard { col: sel, card: a.selected as usize }
            &&& n.input_buffer@ == card.title
            &&& n.desc_buffer@ == card.description
            &&& n.tags_buffer@ == joined(card.tags, ", "@)
            &&& n.title_cursor == utf8_len(card.title)
            &&& n.desc_cursor == utf8_len(card.description)
            &&& n.tags_cursor == utf8_len(n.tags_buffer@)
            &&& n.focused_field == PopupField::Title
            &&& !n.editing_desc
            &&& same_board(n, o)
            &&& same_misc(n, o)
        } else {
            unchanged(n, o)
        },
        Some(Command::ViewCard) => !saved && if a.cards.len() > 0 {
            n.input_mode == InputMode::ViewingCard { col: sel, card: a.selected as usize }
                && same_board(n, o) && same_popup(n, o) && same_misc(n, o)
        } else {
            unchanged(n, o)
        },
        Some(Command::MoveCardLeft) => board_step(n, o, b.move_card_left(), saved, b.can_move_card_left()),
        Some(Command::MoveCardRight) => board_step(n, o, b.move_card_right(), saved, b.can_move_card_right()),
        Some(Command::ReorderUp) => board_step(n, o, b.move_card_up(), saved, b.can_move_card_up()),
        Some(Command::ReorderDown) => board_step(n, o, b.move_card_down(), saved, b.can_move_card_down()),
        Some(Command::ReorderColumnLeft) => board_step(n, o, b.move_column_left(), saved, b.can_move_column_left()),
        Some(Command::ReorderColumnRight) => board_step(n, o, b.move_column_right(), saved, b.can_move_column_right()),
        Some(Command::DeleteCard) => board_step(n, o, b.delete_card(), saved, b.can_delete_card()),
        Some(Command::AddColumn) => n.input_mode == InputMode::AddingColumn && n.input_buffer@
            == Seq::<char>::empty() && n.title_cursor == 0 && same_popup_but_title(n, o)
            && same_board(n, o) && same_misc(n, o) && !saved,
        Some(Command::RenameColumn) => n.input_mode == InputMode::RenamingColumn { col: sel }
            && n.input_buffer@ == a.name && n.title_cursor == utf8_len(a.name)
            && same_popup_but_title(n, o) && same_board(n, o) && same_misc(n, o) && !saved,
        Some(Command::DeleteColumn) => !saved && if o.columns.len() > 1 {
            n.input_mode == InputMode::DeletingColumn { col: sel } && n.input_buffer@
                == Seq::<char>::empty() && n.title_cursor == 0 && same_popup_but_title(n, o)
                && same_board(n, o) && same_misc(n, o)
        } else {
            &&& n.status_message matches Some(m) && m@ == "⚠ Cannot delete the last column"@
            &&& n.quit == o.quit && n.show_help == o.show_help && n.save_path == o.save_path
            &&& same_board(n, o) && same_popup(n, o) && n.input_mode == o.input_mode
        },
        None => unchanged(n, o) && !saved,
    }
}

/// Handles a key in normal mode: navigation, card and column commands, as
/// bound by `keys`.
pub fn handle_normal(app: &mut App, key: KeyCode, keys: &KeyMap) -> (saved: bool)
    requires
        old(app).wf(),
        old(app).columns.len() > 0 || !needs_active_column(command_of(*keys, key)),
    ensures
        normal_step(*old(app), *final(app), command_of(*keys, key), saved),
        old(app).input_mode == InputMode::Normal ==> final(app).wf(),
{
    proof {
        if old(app).columns.len() > 0 {
            assert(old(app).board().columns[old(app).selected_column as int].cursor_ok());
        }
    }
    let cmd = command_for(keys, key);
    match cmd {
        Some(Command::Quit) => {
            app.quit = true;
            false
        },
        Some(Command::ToggleHelp) => {
            app.show_help = !app.show_help;
            false
        },
        Some(Command::SelectLeft) => {
            if app.selected_column > 0 {
                app.selected_column = app.selected_column - 1;
            }
            false
        },
        Some(Command::SelectRight) => {
            let last = if app.columns.len() == 0 { 0 } else { app.columns.len() - 1 };
            app.selected_column = if app.selected_column + 1 < last { app.selected_column + 1 } else { last };
            false
        },
        Some(Command::SelectUp) => {
            let i = app.selected_column;
            let col = &mut app.columns[i];
            if col.selected > 0 {
                col.selected = col.selected - 1;
            }
            proof {
                assert(app.board().columns =~= old(app).board().select_prev_card().columns);
                crate::board::law_navigation_keeps_wf(old(app).board());
            }
            false
        },
        Some(Command::SelectDown) => {
            let i = app.selected_column;
            let col = &mut app.columns[i];
            if col.cards.len() > 0 && col.selected + 1 < col.cards.len() {
                col.selected = col.selected + 1;
            }
            proof {
                assert(app.board().columns =~= old(app).board().select_next_card().columns);
                crate::board::law_navigation_keeps_wf(old(app).board());
            }
            false
        },
        Some(Command::AddCard) => {
            app.input_mode = InputMode::AddingCard;
            app.reset_popup();
            proof {
                lemma_ends_are_boundaries(Seq::<char>::empty());
            }
            false
        },
        Some(Command::EditCard) => {
            let col_idx = app.selected_column;
            if app.columns[col_idx].cards.len() > 0 {
                let card_idx = app.columns[col_idx].selected;
                let title = app.columns[col_idx].cards[card_idx].title.clone();
                let desc = app.columns[col_idx].cards[card_idx].description.clone();
                let tags = join_with(&app.columns[col_idx].cards[card_idx].tags, ", ");
                let tl = byte_len(title.as_str());
                let dl = byte_len(desc.as_str());
                let gl = byte_len(tags.as_str());
                app.input_buffer = title;
                app.desc_buffer = desc;
                app.tags_buffer = tags;
                app.title_cursor = tl;
                app.desc_cursor = dl;
                app.tags_cursor = gl;
                app.focused_field = PopupField::Title;
                app.editing_desc = false;
                app.input_mode = InputMode::EditingCard { col: col_idx, card: card_idx };
                proof {
                    lemma_ends_are_boundaries(app.input_buffer@);
                    lemma_ends_are_boundaries(app.desc_buffer@);
                    lemma_ends_are_boundaries(app.tags_buffer@);
                }
            }
            false
        },
        Some(Command::ViewCard) => {
            let col_idx = app.selected_column;
            if app.columns[col_idx].cards.len() > 0 {
                app.input_mode = InputMode::ViewingCard { col: col_idx, card: app.columns[col_idx].selected };
            }
            false
        },
        Some(Command::MoveCardLeft) => app.move_card_left(),
        Some(Command::MoveCardRight) => app.move_card_right(),
        Some(Command::ReorderUp) => app.move_card_up(),
        Some(Command::ReorderDown) => app.move_card_down(),
        Some(Command::ReorderColumnLeft) => app.move_column_left(),
        Some(Command::ReorderColumnRight) => app.move_column_right(),
        Some(Command::DeleteCard) => app.delete_card(),
        Some(Command::AddColumn) => {
            app.input_mode = InputMode::AddingColumn;
            app.input_buffer = String::new();
            app.title_cursor = 0;
            proof {
                lemma_ends_are_boundaries(Seq::<char>::empty());
            }
            false
        },
        Some(Command::RenameColumn) => {
            let col_idx = app.selected_column;
            let name = app.columns[col_idx].name.clone();
            let n = byte_len(name.as_str());
            app.input_buffer = name;
            app.title_cursor = n;
            app.input_mode = InputMode::RenamingColumn { col: col_idx };
            proof {
                lemma_ends_are_boundaries(app.input_buffer@);
            }
            false
        },
        Some(Command::DeleteColumn) => {
            if app.columns.len() > 1 {
                let col_idx = app.selected_column;
                app.input_buffer = String::new();
                app.title_cursor = 0;
                app.input_mode = InputMode::DeletingColumn { col: col_idx };
                proof {
                    lemma_ends_are_boundaries(Seq::<char>::empty());
                }
            } else {
                app.status_message = Some("⚠ Cannot delete the last column".to_string());
            }
            false
        },
        None => false,
    }
}

// ── Popups ───────────────────────────────────────────────────────────────────

/// What a key does in a popup.
#[derive(Clone, Copy, Debug, PartialEq, Eq, Structural)]
pub enum PopupAction {
    NextField,
    Confirm,
    Cancel,
    CursorLeft,
    CursorRight,
    Backspace,
    Type(char),
    Nothing,
}

/// The action of `key` in a popup: the popup bindings of `keys` first
/// (field cycling only where the popup has fields), then the arrow keys,
/// backspace and typing.
pub open spec fn popup_action_of(keys: KeyMap, key: KeyCode, has_fields: bool) -> PopupAction {
    if has_fields && key_is(keys.popup_next_field, key) {
        PopupAction::NextField
    } else if key_is(keys.popup_confirm, key) {
        PopupAction::Confirm
    } else if key_is(keys.popup_cancel, key) {
        PopupAction::Cancel
    } else {
        match key {
            KeyCode::Left => PopupAction::CursorLeft,
            KeyCode::Right => PopupAction::CursorRight,
            KeyCode::Backspace => PopupAction::Backspace,
            KeyCode::Char(c) => PopupAction::Type(c),
            _ => PopupAction::Nothing,
        }
    }
}

/// The action of `key` in a popup.
pub fn popup_action(keys: &KeyMap, key: KeyCode, has_fields: bool) -> (r: PopupAction)
    ensures
        r == popup_action_of(*keys, key, has_fields),
{
    if has_fields && keys.popup_next_field.matches(&key) {
        PopupAction::NextField
    } else if keys.popup_confirm.matches(&key) {
        PopupAction::Confirm
    } else if keys.popup_cancel.matches(&key) {
        PopupAction::Cancel
    } else {
        match key {
            KeyCode::Left => PopupAction::CursorLeft,
            KeyCode::Right => PopupAction::CursorRight,
            KeyCode::Backspace => PopupAction::Backspace,
            KeyCode::Char(c) => PopupAction::Type(c),
            _ => PopupAction::Nothing,
        }
    }
}

// ── Card popup (adding or editing a card) ────────────────────────────────────

/// The text of popup field `f`.
pub open spec fn field_text(a: App, f: PopupField) -> Seq<char> {
    match f {
        PopupField::Title => a.input_buffer@,
        PopupField::Description => a.desc_buffer@,
        PopupField::Tags => a.tags_buffer@,
    }
}

/// The cursor of popup field `f`.
pub open spec fn field_cursor(a: App, f: PopupField) -> int {
    match f {
        PopupField::Title => a.title_cursor as int,
        PopupField::Description => a.desc_cursor as int,
        PopupField::Tags => a.tags_cursor as int,
    }
}

/// Popup field `f` now holds `text` with its cursor at `cursor`; nothing else changed.
pub open spec fn field_edited(n: App, o: App, f: PopupField, text: Seq<char>, cursor: int) -> bool {
    &&& same_board(n, o)
    &&& same_misc(n, o)
    &&& n.input_mode == o.input_mode
    &&& n.focused_field == o.focused_field
    &&& n.editing_desc == o.editing_desc
    &&& f != PopupField::Title ==> n.input_buffer == o.input_buffer && n.title_cursor == o.title_cursor
    &&& f != PopupField::Description ==> n.desc_buffer == o.desc_buffer && n.desc_cursor == o.desc_cursor
    &&& f != PopupField::Tags ==> n.tags_buffer == o.tags_buffer && n.tags_cursor == o.tags_cursor
    &&& field_text(n, f) == text
    &&& field_cursor(n, f) == cursor
}

/// The field after `f` in the cycle title, description, tags.
pub open spec fn next_field(f: PopupField) -> PopupField {
    match f {
        PopupField::Title => PopupField::Description,
        PopupField::Description => PopupField::Tags,
        PopupField::Tags => PopupField::Title,
    }
}

/// The card the popup describes: the trimmed title, the description without
/// trailing whitespace, and the tags.
pub open spec fn popup_card(o: App) -> CardView {
    CardView {
        title: trim(o.input_buffer@),
        description: trim_end(o.desc_buffer@),
        tags: tags_in(o.tags_buffer@),
    }
}

/// Cursor keys, backspace and typing on text field `f`.
pub open spec fn text_step(o: App, n: App, f: PopupField, act: PopupAction, saved: bool) -> bool {
    let t = field_text(o, f);
    let c = field_cursor(o, f);
    match act {
        PopupAction::CursorLeft => field_edited(n, o, f, t, moved_left(t, c)) && !saved,
        PopupAction::CursorRight => field_edited(n, o, f, t, moved_right(t, c)) && !saved,
        PopupAction::Backspace => field_edited(n, o, f, backspaced(t, c).0, backspaced(t, c).1) && !saved,
        PopupAction::Type(ch) => field_edited(n, o, f, typed(t, c, ch).0, typed(t, c, ch).1) && !saved,
        _ => true,
    }
}

/// What an action does in the card popup: cycle the fields; confirm (a
/// newline in the description, otherwise add or update the card when the
/// trimmed title is not empty, and close); cancel; edit the focused field.
pub open spec fn popup_step(o: App, n: App, act: PopupAction, saved: bool) -> bool {
    let f = o.focused_field;
    let b = o.board();
    match act {
        PopupAction::NextField => n.focused_field == next_field(f) && n.editing_desc == (next_field(f)
            == PopupField::Description) && same_board(n, o) && same_misc(n, o) && n.input_mode
            == o.input_mode && n.input_buffer == o.input_buffer && n.desc_buffer == o.desc_buffer
            && n.tags_buffer == o.tags_buffer && n.title_cursor == o.title_cursor && n.desc_cursor
            == o.desc_cursor && n.tags_cursor == o.tags_cursor && !saved,
        PopupAction::Confirm => if f == PopupField::Description {
            field_edited(
                n,
                o,
                f,
                typed(o.desc_buffer@, o.desc_cursor as int, '\n').0,
                typed(o.desc_buffer@, o.desc_cursor as int, '\n').1,
            ) && !saved
        } else {
            &&& n.input_mode == InputMode::Normal
            &&& popup_cleared(n)
            &&& same_misc(n, o)
            &&& if popup_card(o).title.len() == 0 {
                same_board(n, o) && !saved
            } else {
                match o.input_mode {
                    InputMode::AddingCard => n.board() == b.add_card(popup_card(o)) && saved,
                    InputMode::EditingCard { col, card } => n.board() == b.set_card(
                        col as nat,
                        card as nat,
                        popup_card(o),
                    ) && saved,
                    _ => same_board(n, o) && !saved,
                }
            }
        },
        PopupAction::Cancel => n.input_mode == InputMode::Normal && popup_cleared(n) && same_board(n, o)
            && same_misc(n, o) && !saved,
        PopupAction::Nothing => unchanged(n, o) && !saved,
        _ => text_step(o, n, f, act, saved),
    }
}

/// Whether the action adds a card (which needs a column).
pub open spec fn popup_adds_card(o: App, act: PopupAction) -> bool {
    act == PopupAction::Confirm && o.focused_field != PopupField::Description
        && popup_card(o).title.len() > 0 && o.input_mode == InputMode::AddingCard
}

/// Handles a key in the card popup.
pub fn handle_input(app: &mut App, key: KeyCode, keys: &KeyMap) -> (saved: bool)
    requires
        old(app).wf(),
        popup_adds_card(*old(app), popup_action_of(*keys, key, true)) ==> old(app).columns.len() > 0,
    ensures
        popup_step(*old(app), *final(app), popup_action_of(*keys, key, true), saved),
        (old(app).input_mode == InputMode::AddingCard || old(app).input_mode is EditingCard) ==> final(app).wf(),
{
    proof {
        law_moved_cursor_on_boundary(app.input_buffer@, app.title_cursor as int);
        law_moved_cursor_on_boundary(app.desc_buffer@, app.desc_cursor as int);
        law_moved_cursor_on_boundary(app.tags_buffer@, app.tags_cursor as int);
    }
    match popup_action(keys, key, true) {
        PopupAction::NextField => {
            match app.focused_field {
                PopupField::Title => {
                    app.editing_desc = true;
                    app.focused_field = PopupField::Description;
                },
                PopupField::Description => {
                    app.editing_desc = false;
                    app.focused_field = PopupField::Tags;
                },
                PopupField::Tags => {
                    app.editing_desc = false;
                    app.focused_field = PopupField::Title;
                },
            }
            false
        },
        PopupAction::Confirm => {
            if app.focused_field == PopupField::Description {
                App::insert_char(&mut app.desc_buffer, &mut app.desc_cursor, '\n');
                return false;
            }
            let ghost o = *old(app);
            let mut saved = false;
            let title = trimmed(app.input_buffer.as_str());
            if !is_blank_text(title.as_str()) {
                let desc = trimmed_end(app.desc_buffer.as_str());
                let tags = app.parse_tags();
                let ghost cv = CardView { title: title@, description: desc@, tags: strings_view(tags@) };
                assert(cv == popup_card(o));
                match app.input_mode {
                    InputMode::AddingCard => {
                        saved = app.add_card(title, desc, tags);
                    },
                    InputMode::EditingCard { col, card } => {
                        app.columns[col].cards[card].title = title;
                        app.columns[col].cards[card].description = desc;
                        app.columns[col].cards[card].tags = tags;
                        proof {
                            let b = o.board();
                            let k = b.columns[col as int];
                            assert(app.board().columns[col as int].cards =~= k.cards.update(card as int, cv));
                            assert(app.board().columns =~= b.set_card(col as nat, card as nat, cv).columns);
                            crate::board::law_set_card_keeps_wf(b, col as nat, card as nat, cv);
                        }
                        saved = true;
                    },
                    _ => {},
                }
            }
            app.input_mode = InputMode::Normal;
            app.reset_popup();
            proof {
                lemma_ends_are_boundaries(Seq::<char>::empty());
            }
            saved
        },
        PopupAction::Cancel => {
            app.input_mode = InputMode::Normal;
            app.reset_popup();
            proof {
                lemma_ends_are_boundaries(Seq::<char>::empty());
            }
            false
        },
        PopupAction::CursorLeft => {
            match app.focused_field {
                PopupField::Title => App::cursor_left(app.input_buffer.as_str(), &mut app.title_cursor),
                PopupField::Description => App::cursor_left(app.desc_buffer.as_str(), &mut app.desc_cursor),
                PopupField::Tags => App::cursor_left(app.tags_buffer.as_str(), &mut app.tags_cursor),
            }
            false
        },
        PopupAction::CursorRight => {
            match app.focused_field {
                PopupField::Title => App::cursor_right(app.input_buffer.as_str(), &mut app.title_cursor),
                PopupField::Description => App::cursor_right(app.desc_buffer.as_str(), &mut app.desc_cursor),
                PopupField::Tags => App::cursor_right(app.tags_buffer.as_str(), &mut app.tags_cursor),
            }
            false
        },
        PopupAction::Backspace => {
            match app.focused_field {
                PopupField::Title => App::delete_char_before(&mut app.input_buffer, &mut app.title_cursor),
                PopupField::Description => App::delete_char_before(&mut app.desc_buffer, &mut app.desc_cursor),
                PopupField::Tags => App::delete_char_before(&mut app.tags_buffer, &mut app.tags_cursor),
            }
            false
        },
        PopupAction::Type(c) => {
            match app.focused_field {
                PopupField::Title => App::insert_char(&mut app.input_buffer, &mut app.title_cursor, c),
                PopupField::Description => App::insert_char(&mut app.desc_buffer, &mut app.desc_cursor, c),
                PopupField::Tags => App::insert_char(&mut app.tags_buffer, &mut app.tags_cursor, c),
            }
            false
        },
        PopupAction::Nothing => false,
    }
}

// ── Column name popup (adding or renaming a column) ──────────────────────────

/// What an action does in the column-name popup: confirm (add or rename the
/// column when the trimmed name is not empty, and close), cancel, or edit the
/// name.
pub open spec fn column_name_step(o: App, n: App, act: PopupAction, saved: bool) -> bool {
    let b = o.board();
    let name = trim(o.input_buffer@);
    match act {
        PopupAction::Cancel => n.input_mode == InputMode::Normal && n.input_buffer@
            == Seq::<char>::empty() && n.title_cursor == 0 && same_popup_but_title(n, o)
            && same_board(n, o) && same_misc(n, o) && !saved,
        PopupAction::Confirm => {
            &&& n.input_mode == InputMode::Normal
            &&& n.input_buffer@ == Seq::<char>::empty()
            &&& n.title_cursor == 0
            &&& same_popup_but_title(n, o)
            &&& same_misc(n, o)
            &&& if name.len() == 0 {
                same_board(n, o) && !saved
            } else {
                match o.input_mode {
                    InputMode::AddingColumn => n.board() == b.add_column(name) && saved,
                    InputMode::RenamingColumn { col } => n.board() == b.rename_column(col as nat, name)
                        && saved == (col < o.columns.len()),
                    _ => same_board(n, o) && !saved,
                }
            }
        },
        PopupAction::NextField | PopupAction::Nothing => unchanged(n, o) && !saved,
        _ => text_step(o, n, PopupField::Title, act, saved),
    }
}

/// Handles a key in the column-name popup.
pub fn handle_column_input(app: &mut App, key: KeyCode, keys: &KeyMap) -> (saved: bool)
    requires
        old(app).wf(),
    ensures
        column_name_step(*old(app), *final(app), popup_action_of(*keys, key, false), saved),
        (old(app).input_mode == InputMode::AddingColumn || old(app).input_mode is RenamingColumn)
            ==> final(app).wf(),
{
    proof {
        law_moved_cursor_on_boundary(app.input_buffer@, app.title_cursor as int);
        lemma_ends_are_boundaries(Seq::<char>::empty());
    }
    match popup_action(keys, key, false) {
        PopupAction::Cancel => {
            app.input_mode = InputMode::Normal;
            app.input_buffer = String::new();
            app.title_cursor = 0;
            false
        },
        PopupAction::Confirm => {
            let name = trimmed(app.input_buffer.as_str());
            let mut saved = false;
            if !is_blank_text(name.as_str()) {
                match app.input_mode {
                    InputMode::AddingColumn => {
                        saved = app.add_column(name);
                    },
                    InputMode::RenamingColumn { col } => {
                        saved = app.rename_column(col, name);
                    },
                    _ => {},
                }
            }
            app.input_mode = InputMode::Normal;
            app.input_buffer = String::new();
            app.title_cursor = 0;
            saved
        },
        PopupAction::CursorLeft => {
            App::cursor_left(app.input_buffer.as_str(), &mut app.title_cursor);
            false
        },
        PopupAction::CursorRight => {
            App::cursor_right(app.input_buffer.as_str(), &mut app.title_cursor);
            false
        },
        PopupAction::Backspace => {
            App::delete_char_before(&mut app.input_buffer, &mut app.title_cursor);
            false
        },
        PopupAction::Type(c) => {
            App::insert_char(&mut app.input_buffer, &mut app.title_cursor, c);
            false
        },
        _ => false,
    }
}

// ── Column deletion confirmation ─────────────────────────────────────────────

/// What an action does while confirming the deletion of a column: confirm
/// (the column goes when the typed text, trimmed, is "yes" in any ASCII
/// case; the popup closes), cancel, or edit the typed text at its end.
pub open spec fn delete_confirm_step(o: App, n: App, act: PopupAction, saved: bool) -> bool {
    let b = o.board();
    let keeps_rest = same_popup_but_title(n, o) && n.title_cursor == o.title_cursor;
    match act {
        PopupAction::Cancel => n.input_mode == InputMode::Normal && n.input_buffer@
            == Seq::<char>::empty() && keeps_rest && same_board(n, o) && same_misc(n, o) && !saved,
        PopupAction::Confirm => {
            &&& n.input_mode == InputMode::Normal
            &&& n.input_buffer@ == Seq::<char>::empty()
            &&& keeps_rest
            &&& same_misc(n, o)
            &&& match o.input_mode {
                InputMode::DeletingColumn { col } if is_yes(trim(o.input_buffer@)) => n.board()
                    == b.delete_column(col as nat) && saved == b.can_delete_column(),
                _ => same_board(n, o) && !saved,
            }
        },
        PopupAction::Backspace => n.input_buffer@ == (if o.input_buffer@.len() > 0 {
            o.input_buffer@.drop_last()
        } else {
            o.input_buffer@
        }) && keeps_rest && same_board(n, o) && same_misc(n, o) && n.input_mode == o.input_mode
            && !saved,
        PopupAction::Type(ch) => n.input_buffer@ == o.input_buffer@.push(ch) && keeps_rest
            && same_board(n, o) && same_misc(n, o) && n.input_mode == o.input_mode && !saved,
        _ => unchanged(n, o) && !saved,
    }
}

/// Handles a key while confirming the deletion of a column.
pub fn handle_delete_confirm(app: &mut App, key: KeyCode, keys: &KeyMap) -> (saved: bool)
    requires
        old(app).wf(),
    ensures
        delete_confirm_step(*old(app), *final(app), popup_action_of(*keys, key, false), saved),
        old(app).input_mode is DeletingColumn ==> final(app).wf(),
{
    proof {
        lemma_ends_are_boundaries(Seq::<char>::empty());
        lemma_ends_are_boundaries(app.input_buffer@);
    }
    match popup_action(keys, key, false) {
        PopupAction::Cancel => {
            app.input_mode = InputMode::Normal;
            app.input_buffer = String::new();
            false
        },
        PopupAction::Confirm => {
            let t = trimmed(app.input_buffer.as_str());
            let mut saved = false;
            if says_yes(t.as_str()) {
                if let InputMode::DeletingColumn { col } = app.input_mode {
                    saved = app.delete_column(col);
                }
            }
            app.input_mode = InputMode::Normal;
            app.input_buffer = String::new();
            saved
        },
        PopupAction::Backspace => {
            pop_char(&mut app.input_buffer);
            proof {
                lemma_ends_are_boundaries(app.input_buffer@);
            }
            false
        },
        PopupAction::Type(c) => {
            push_char(&mut app.input_buffer, c);
            proof {
                lemma_ends_are_boundaries(app.input_buffer@);
            }
            false
        },
        _ => false,
    }
}

// ── Dispatch ─────────────────────────────────────────────────────────────────

/// `o` with the status line cleared.
pub open spec fn status_cleared(o: App) -> App {
    App { status_message: None, ..o }
}

/// A key press would make the editor index a column that is not there.
pub open spec fn key_needs_column(o: App, keys: KeyMap, key: KeyCode) -> bool {
    match o.input_mode {
        InputMode::Normal => needs_active_column(command_of(keys, key)),
        InputMode::AddingCard => popup_adds_card(o, popup_action_of(keys, key, true)),
        _ => false,
    }
}

/// Whether handling `key` in the state `app` would index a column that is
/// not there (the board has no column and the key acts on the selected one).
pub fn needs_column(app: &App, key: KeyCode, keys: &KeyMap) -> (r: bool)
    ensures
        r == key_needs_column(*app, *keys, key),
{
    match app.input_mode {
        InputMode::Normal => match command_for(keys, key) {
            Some(Command::SelectUp) | Some(Command::SelectDown) | Some(Command::EditCard) | Some(
                Command::ViewCard,
            ) | Some(Command::ReorderUp) | Some(Command::ReorderDown) | Some(Command::DeleteCard)
            | Some(Command::RenameColumn) => true,
            _ => false,
        },
        InputMode::AddingCard => {
            if popup_action(keys, key, true) == PopupAction::Confirm && app.focused_field
                != PopupField::Description {
                let t = trimmed(app.input_buffer.as_str());
                !is_blank_text(t.as_str())
            } else {
                false
            }
        },
        _ => false,
    }
}

/// What a key press does: the status line is cleared, then the key is
/// handled according to the mode; while a card is shown, the cancel or the
/// quit key returns to normal mode.
pub open spec fn key_step(o: App, n: App, keys: KeyMap, key: KeyCode, saved: bool) -> bool {
    let c = status_cleared(o);
    match o.input_mode {
        InputMode::Normal => normal_step(c, n, command_of(keys, key), saved),
        InputMode::AddingCard => popup_step(c, n, popup_action_of(keys, key, true), saved),
        InputMode::EditingCard { .. } => popup_step(c, n, popup_action_of(keys, key, true), saved),
        InputMode::AddingColumn => column_name_step(c, n, popup_action_of(keys, key, false), saved),
        InputMode::RenamingColumn { .. } => column_name_step(c, n, popup_action_of(keys, key, false), saved),
        InputMode::DeletingColumn { .. } => delete_confirm_step(c, n, popup_action_of(keys, key, false), saved),
        InputMode::ViewingCard { .. } => !saved && same_board(n, c) && same_popup(n, c) && same_misc(n, c)
            && if key_is(keys.popup_cancel, key) || key_is(keys.quit, key) {
            n.input_mode == InputMode::Normal
        } else {
            n.input_mode == c.input_mode
        },
    }
}

/// Handles one key press, with the bindings `keys`.
pub fn handle_key(app: &mut App, key: KeyCode, keys: &KeyMap) -> (saved: bool)
    requires
        old(app).wf(),
        old(app).columns.len() > 0 || !key_needs_column(*old(app), *keys, key),
    ensures
        key_step(*old(app), *final(app), *keys, key, saved),
        final(app).wf(),
{
    app.status_message = None;
    match app.input_mode {
        InputMode::Normal => handle_normal(app, key, keys),
        InputMode::AddingCard => handle_input(app, key, keys),
        InputMode::EditingCard { .. } => handle_input(app, key, keys),
        InputMode::AddingColumn => handle_column_input(app, key, keys),
        InputMode::RenamingColumn { .. } => handle_column_input(app, key, keys),
        InputMode::DeletingColumn { .. } => handle_delete_confirm(app, key, keys),
        InputMode::ViewingCard { .. } => {
            if keys.popup_cancel.matches(&key) || keys.quit.matches(&key) {
                app.input_mode = InputMode::Normal;
            }
            false
        },
    }
}

// ── Laws over several key presses ────────────────────────────────────────────

/// A card as the card popup writes it: a non-empty trimmed title, a
/// description without trailing whitespace, and clean tags.
pub open spec fn card_as_written(c: CardView) -> bool {
    &&& c.title.len() > 0
    &&& trim(c.title) == c.title
    &&& trim_end(c.description) == c.description
    &&& forall|i: int| 0 <= i < c.tags.len() ==> clean_tag(#[trigger] c.tags[i])
}

/// Opening the selected card for editing and confirming at once leaves the
/// board as it was, for any card the popup wrote; the confirmation saves the
/// board.
pub proof fn law_edit_without_changes_keeps_board(
    o: App,
    n1: App,
    n2: App,
    keys: KeyMap,
    edit: KeyCode,
    confirm: KeyCode,
    s1: bool,
    s2: bool,
)
    requires
        o.wf(),
        o.input_mode == InputMode::Normal,
        o.selected_column < o.columns.len(),
        o.board().active().cards.len() > 0,
        card_as_written(o.board().active().cards[o.board().active().selected as int]),
        command_of(keys, edit) == Some(Command::EditCard),
        popup_action_of(keys, confirm, true) == PopupAction::Confirm,
        key_step(o, n1, keys, edit, s1),
        key_step(n1, n2, keys, confirm, s2),
    ensures
        n2.board() == o.board(),
        n2.input_mode == InputMode::Normal,
        !s1,
        s2,
{
    let b = o.board();
    let a = b.active();
    assert(b.columns[b.selected as int].cursor_ok());
    let card = a.cards[a.selected as int];
    assert(normal_step(status_cleared(o), n1, Some(Command::EditCard), s1));
    assert(n1.board() == b);
    let c1 = status_cleared(n1);
    assert(popup_step(c1, n2, PopupAction::Confirm, s2));
    law_tags_roundtrip(card.tags);
    assert(popup_card(c1).title =~= card.title);
    assert(popup_card(c1).description =~= card.description);
    assert(popup_card(c1).tags =~= card.tags);
    assert(popup_card(c1) == card);
    let col = o.selected_column as nat;
    let k = b.columns[col as int];
    assert(k.cards.update(a.selected as int, card) =~= k.cards);
    assert(k.with_cards(k.cards, k.selected) == k);
    assert(b.set_card(col, a.selected, card).columns =~= b.columns);
}

proof fn lemma_text_actions_keep_board(o: App, n: App, f: PopupField, act: PopupAction, saved: bool)
    requires
        text_step(o, n, f, act, saved),
    ensures
        (act == PopupAction::CursorLeft || act == PopupAction::CursorRight || act == PopupAction::Backspace
            || act is Type) ==> same_board(n, o),
{
    if let PopupAction::Type(ch) = act {
        let t = field_text(o, f);
        let c = field_cursor(o, f);
        assert(field_edited(n, o, f, typed(t, c, ch).0, typed(t, c, ch).1));
    }
}

/// A key press that does not ask for a save leaves every column's name and
/// cards as they were (it may only move cursors or change the popup): no
/// change to the cards goes unsaved.
pub proof fn law_unsaved_keys_keep_cards(o: App, n: App, keys: KeyMap, key: KeyCode, saved: bool)
    requires
        o.wf(),
        o.columns.len() > 0 || !key_needs_column(o, keys, key),
        key_step(o, n, keys, key, saved),
        !saved,
    ensures
        n.board().content() == o.board().content(),
{
    let b = o.board();
    let c = status_cleared(o);
    assert(c.board() == b);
    let nb = n.board();
    match o.input_mode {
        InputMode::Normal => {
            let cmd = command_of(keys, key);
            assert(normal_step(c, n, cmd, saved));
            match cmd {
                Some(Command::SelectUp) | Some(Command::SelectDown) => {
                    assert(b.columns[b.selected as int].cursor_ok());
                    if cmd == Some(Command::SelectUp) {
                        assert(nb == b.select_prev_card());
                    } else {
                        assert(nb == b.select_next_card());
                    }
                    assert forall|i: int| 0 <= i < nb.columns.len() implies (#[trigger] nb.columns[i]).name
                        == b.columns[i].name && nb.columns[i].cards == b.columns[i].cards by {}
                    assert(nb.content() =~= b.content());
                },
                Some(Command::SelectLeft) | Some(Command::SelectRight) => {
                    assert(nb.columns == b.columns);
                    assert(nb.content() =~= b.content());
                },
                Some(Command::MoveCardLeft) => {
                    assert(nb == b.move_card_left());
                    assert(nb == b);
                },
                Some(Command::MoveCardRight) => {
                    assert(nb == b.move_card_right());
                    assert(nb == b);
                },
                Some(Command::ReorderUp) | Some(Command::ReorderDown) | Some(Command::ReorderColumnLeft)
                | Some(Command::ReorderColumnRight) | Some(Command::DeleteCard) => {
                    assert(nb == b);
                },
                _ => {
                    assert(same_board(n, c));
                    assert(nb == b);
                },
            }
        },
        InputMode::AddingCard | InputMode::EditingCard { .. } => {
            let act = popup_action_of(keys, key, true);
            assert(popup_step(c, n, act, saved));
            lemma_text_actions_keep_board(c, n, c.focused_field, act, saved);
            assert(same_board(n, c));
            assert(nb == b);
        },
        InputMode::AddingColumn => {
            let act = popup_action_of(keys, key, false);
            assert(column_name_step(c, n, act, saved));
            lemma_text_actions_keep_board(c, n, PopupField::Title, act, saved);
            assert(same_board(n, c));
            assert(nb == b);
        },
        InputMode::RenamingColumn { col } => {
            let act = popup_action_of(keys, key, false);
            assert(column_name_step(c, n, act, saved));
            if act == PopupAction::Confirm && trim(o.input_buffer@).len() > 0 {
                assert(nb == b.rename_column(col as nat, trim(o.input_buffer@)));
                assert(nb == b);
            } else {
                lemma_text_actions_keep_board(c, n, PopupField::Title, act, saved);
                assert(same_board(n, c));
                assert(nb == b);
            }
        },
        InputMode::DeletingColumn { col } => {
            let act = popup_action_of(keys, key, false);
            assert(delete_confirm_step(c, n, act, saved));
            if act == PopupAction::Confirm && is_yes(trim(o.input_buffer@)) {
                assert(nb == b.delete_column(col as nat));
                assert(nb == b);
            } else {
                assert(same_board(n, c));
                assert(nb == b);
            }
        },
        InputMode::ViewingCard { .. } => {
            assert(same_board(n, c));
            assert(nb == b);
        },
    }
}

/// In normal mode, the key bound to "select right" selects the next column
/// when there is one and otherwise stays on the last, and the key bound to
/// "select left" selects the previous column or stays on the first; neither
/// changes a column nor asks for a save.
pub proof fn law_column_keys_step_once(o: App, n: App, keys: KeyMap, key: KeyCode, saved: bool)
    requires
        o.wf(),
        o.columns.len() > 0,
        o.input_mode == InputMode::Normal,
        key_step(o, n, keys, key, saved),
    ensures
        command_of(keys, key) == Some(Command::SelectRight) ==> {
            &&& n.board().columns == o.board().columns
            &&& !saved
            &&& (o.selected_column + 1 < o.columns.len() ==> n.selected_column == o.selected_column + 1)
            &&& (o.selected_column + 1 >= o.columns.len() ==> n.selected_column == o.selected_column)
        },
        command_of(keys, key) == Some(Command::SelectLeft) ==> {
            &&& n.board().columns == o.board().columns
            &&& !saved
            &&& (o.selected_column > 0 ==> n.selected_column + 1 == o.selected_column)
            &&& (o.selected_column == 0 ==> n.selected_column == 0)
        },
{
    let c = status_cleared(o);
    assert(normal_step(c, n, command_of(keys, key), saved));
    crate::board::law_column_selection_steps(o.board());
}

/// The default bindings put the arrow keys on column and card selection.
pub proof fn law_default_arrow_keys()
    ensures
        command_of(default_keymap(), KeyCode::Left) == Some(Command::SelectLeft),
        command_of(default_keymap(), KeyCode::Right) == Some(Command::SelectRight),
        command_of(default_keymap(), KeyCode::Up) == Some(Command::SelectUp),
        command_of(default_keymap(), KeyCode::Down) == Some(Command::SelectDown),
{
}

/// Confirming in the description field inserts a newline at the cursor: the
/// new text is the old bytes before the cursor, the newline byte, then the
/// old bytes after the cursor, and the cursor moves past the newline. The
/// board, the mode and the other fields stay as they were, and nothing is
/// saved.
pub proof fn law_enter_in_description_inserts_newline(o: App, n: App, saved: bool)
    requires
        o.wf(),
        o.focused_field == PopupField::Description,
        popup_step(o, n, PopupAction::Confirm, saved),
    ensures
        encode_utf8(n.desc_buffer@) == encode_utf8(o.desc_buffer@).take(o.desc_cursor as int) + seq![0x0Au8]
            + encode_utf8(o.desc_buffer@).skip(o.desc_cursor as int),
        n.desc_cursor == o.desc_cursor + 1,
        n.board() == o.board(),
        n.input_mode == o.input_mode,
        n.input_buffer == o.input_buffer,
        n.tags_buffer == o.tags_buffer,
        !saved,
{
    let t = o.desc_buffer@;
    let c = o.desc_cursor as int;
    lemma_char_index(t, c);
    let k = char_index(t, c);
    assert(field_edited(n, o, PopupField::Description, typed(t, c, '\n').0, typed(t, c, '\n').1));
    let u = t.insert(k, '\n');
    assert(u =~= t.take(k) + seq!['\n'] + t.skip(k));
    lemma_encode_concat(t.take(k) + seq!['\n'], t.skip(k));
    lemma_encode_concat(t.take(k), seq!['\n']);
    lemma_encode_single('\n');
    lemma_ascii_encoding('\n');
    lemma_take_skip_bytes(t, k);
    assert(encode_utf8(u) =~= encode_utf8(t).take(c) + seq![0x0Au8] + encode_utf8(t).skip(c));
}

/// Confirming the deletion of a column: a typed text that is not three
/// characters long once trimmed (in particular an empty or blank one)
/// deletes nothing and saves nothing; "yes" in any ASCII case deletes the
/// column when it is not the only one. Either way the popup closes.
pub proof fn law_delete_confirmation(o: App, n: App, col: usize, saved: bool)
    requires
        o.wf(),
        o.input_mode == (InputMode::DeletingColumn { col }),
        delete_confirm_step(o, n, PopupAction::Confirm, saved),
    ensures
        n.input_mode == InputMode::Normal,
        trim(o.input_buffer@).len() != 3 ==> n.board() == o.board() && !saved,
        ({
            let t = trim(o.input_buffer@);
            (t.len() == 3 && (t[0] == 'y' || t[0] == 'Y') && (t[1] == 'e' || t[1] == 'E') && (t[2] == 's'
                || t[2] == 'S') && o.columns.len() > 1) ==> {
                &&& saved
                &&& n.columns.len() + 1 == o.columns.len()
                &&& forall|j: int| 0 <= j < col ==> #[trigger] n.board().columns[j] == o.board().columns[j]
                &&& forall|j: int| col <= j < n.columns.len() ==> #[trigger] n.board().columns[j]
                    == o.board().columns[j + 1]
            }
        }),
{
    law_yes_is_three_letters(trim(o.input_buffer@));
    let t = trim(o.input_buffer@);
    if is_yes(t) && o.columns.len() > 1 {
        assert(n.board() == o.board().delete_column(col as nat));
        assert(n.board().columns.len() == n.columns.len());
    }
}

} // verus!

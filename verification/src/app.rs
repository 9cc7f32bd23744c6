//! The application state: the board plus what the editor shows (mode, popup
//! buffers, cursors, help, status line), and the board operations.
use vstd::prelude::*;
use crate::text::{lemma_ends_are_boundaries, push_all, on_boundary, chars_of, lemma_split_step, nonempty_trimmed, split_on, string_of_range, tags_in, trim, trim_bounds};
use crate::board::{
    BoardView, Card, CardView, Column, ColumnView, clamp_index, columns_view, strings_view,
    swap_adjacent, restored_board, cards_view,
};

verus! {

/// Which field is focused in the add/edit popup.
#[derive(Clone, Copy, Debug, PartialEq, Eq, Structural)]
pub enum PopupField {
    Title,
    Description,
    Tags,
}

/// What the keyboard currently drives.
#[derive(Clone, Copy, Debug, PartialEq, Eq, Structural)]
pub enum InputMode {
    Normal,
    AddingCard,
    EditingCard { col: usize, card: usize },
    ViewingCard { col: usize, card: usize },
    AddingColumn,
    RenamingColumn { col: usize },
    DeletingColumn { col: usize },
}

impl Default for InputMode {
    fn default() -> (r: Self)
        ensures
            r == InputMode::Normal,
    {
        InputMode::Normal
    }
}

/// The board as it is written to and read from the board file.
#[derive(Debug)]
pub struct BoardSnapshot {
    pub columns: Vec<Column>,
    pub selected_column: usize,
}

/// Why the board could not be written out.
#[derive(Clone, Copy, Debug, PartialEq, Eq, Structural)]
pub enum SaveError {
    /// The board could not be turned into JSON.
    Serialize,
    /// The board file could not be written.
    Write,
}

/// The whole state of the editor.
#[derive(Debug)]
pub struct App {
    pub columns: Vec<Column>,
    pub selected_column: usize,
    pub quit: bool,
    pub input_mode: InputMode,
    /// Title buffer of the add/edit popup; also the column-name and
    /// confirmation buffer.
    pub input_buffer: String,
    /// Description buffer (may contain newlines).
    pub desc_buffer: String,
    /// Comma-separated tags buffer.
    pub tags_buffer: String,
    pub focused_field: PopupField,
    /// Cursor positions, as byte offsets into each buffer.
    pub title_cursor: usize,
    pub desc_cursor: usize,
    pub tags_cursor: usize,
    /// Whether the description field has the focus.
    pub editing_desc: bool,
    pub show_help: bool,
    pub save_path: String,
    pub status_message: Option<String>,
}

/// The board of a new application: empty columns "Todo", "Doing", "Done".
pub open spec fn default_board() -> BoardView {
    BoardView {
        columns: seq![
            ColumnView { name: "Todo"@, cards: Seq::empty(), selected: 0 },
            ColumnView { name: "Doing"@, cards: Seq::empty(), selected: 0 },
            ColumnView { name: "Done"@, cards: Seq::empty(), selected: 0 },
        ],
        selected: 0,
    }
}

impl App {
    /// File the board is kept in when no other is given.
    pub const DEFAULT_FILE: &'static str = "board.json";

    /// The board part of the state.
    pub open spec fn board(self) -> BoardView {
        BoardView { columns: columns_view(self.columns@), selected: self.selected_column as nat }
    }

    /// Everything but the board is the same in `self` and `other`.
    pub open spec fn same_ui(self, other: App) -> bool {
        &&& self.quit == other.quit
        &&& self.input_mode == other.input_mode
        &&& self.input_buffer == other.input_buffer
        &&& self.desc_buffer == other.desc_buffer
        &&& self.tags_buffer == other.tags_buffer
        &&& self.focused_field == other.focused_field
        &&& self.title_cursor == other.title_cursor
        &&& self.desc_cursor == other.desc_cursor
        &&& self.tags_cursor == other.tags_cursor
        &&& self.editing_desc == other.editing_desc
        &&& self.show_help == other.show_help
        &&& self.save_path == other.save_path
        &&& self.status_message == other.status_message
    }

    /// The editor state at start-up, keeping the board in `path`.
    pub open spec fn initial_ui(self, path: Seq<char>) -> bool {
        &&& !self.quit
        &&& self.input_mode == InputMode::Normal
        &&& self.input_buffer@ == Seq::<char>::empty()
        &&& self.desc_buffer@ == Seq::<char>::empty()
        &&& self.tags_buffer@ == Seq::<char>::empty()
        &&& self.focused_field == PopupField::Title
        &&& self.title_cursor == 0
        &&& self.desc_cursor == 0
        &&& self.tags_cursor == 0
        &&& !self.editing_desc
        &&& !self.show_help
        &&& self.save_path@ == path
        &&& self.status_message.is_none()
    }

    /// The popup mode refers to an existing card or column where the
    /// keyboard handling relies on it.
    pub open spec fn mode_ok(self) -> bool {
        match self.input_mode {
            InputMode::EditingCard { col, card } => col < self.columns.len() && card
                < self.columns@[col as int].cards.len(),
            InputMode::DeletingColumn { col } => col < self.columns.len() && self.title_cursor == 0,
            _ => true,
        }
    }

    /// The state the editor keeps between key presses: a well-formed board,
    /// every text cursor on a character boundary of its buffer, and a mode
    /// that refers to existing things.
    pub open spec fn wf(self) -> bool {
        &&& self.board().wf()
        &&& on_boundary(self.input_buffer@, self.title_cursor as int)
        &&& on_boundary(self.desc_buffer@, self.desc_cursor as int)
        &&& on_boundary(self.tags_buffer@, self.tags_cursor as int)
        &&& self.mode_ok()
    }

    /// The selected column exists and its cursor points at a card when it has any.
    pub open spec fn active_ok(self) -> bool {
        &&& self.selected_column < self.columns.len()
        &&& self.board().active().cards.len() > 0 ==> self.board().active().selected
            < self.board().active().cards.len()
    }

    /// A new application with the default board, kept in [`App::DEFAULT_FILE`].
    pub fn new() -> (r: Self)
        ensures
            r.board() == default_board(),
            r.initial_ui(App::DEFAULT_FILE@),
            r.wf(),
    {
        let r = App {
            selected_column: 0,
            quit: false,
            input_mode: InputMode::Normal,
            input_buffer: String::new(),
            desc_buffer: String::new(),
            tags_buffer: String::new(),
            focused_field: PopupField::Title,
            title_cursor: 0,
            desc_cursor: 0,
            tags_cursor: 0,
            editing_desc: false,
            show_help: false,
            save_path: Self::DEFAULT_FILE.to_string(),
            status_message: None,
            columns: vec![
                Column { name: "Todo".to_string(), selected: 0, cards: Vec::new() },
                Column { name: "Doing".to_string(), selected: 0, cards: Vec::new() },
                Column { name: "Done".to_string(), selected: 0, cards: Vec::new() },
            ],
        };
        proof {
            assert(cards_view(Seq::<Card>::empty()) =~= Seq::<CardView>::empty());
            assert(r.board().columns =~= default_board().columns);
            lemma_ends_are_boundaries(Seq::<char>::empty());
        }
        r
    }

    /// The application for the board file `path`: the saved board when one
    /// could be read (`saved`), with every cursor moved into range, or else
    /// the default board.
    pub fn from_saved(path: &str, saved: Option<BoardSnapshot>) -> (r: App)
        ensures
            r.initial_ui(path@),
            r.board() == (match saved {
                Some(s) => restored_board(columns_view(s.columns@), s.selected_column as nat),
                None => default_board(),
            }),
            r.wf(),
    {
        let mut app = App::new();
        app.save_path = path.to_string();
        match saved {
            Some(snap) => {
                let ghost saved_cols = columns_view(snap.columns@);
                let BoardSnapshot { columns, selected_column } = snap;
                app.columns = columns;
                let n = app.columns.len();
                app.selected_column = if n == 0 {
                    0
                } else if selected_column < n {
                    selected_column
                } else {
                    n - 1
                };
                let mut i: usize = 0;
                while i < n
                    invariant
                        n == app.columns@.len() == saved_cols.len(),
                        i <= n,
                        forall|j: int| 0 <= j < i ==> #[trigger] app.columns@[j]@ == saved_cols[j].clamped(),
                        forall|j: int| i <= j < n ==> #[trigger] app.columns@[j]@ == saved_cols[j],
                        app.initial_ui(path@),
                        app.selected_column == (if n == 0 {
                            0
                        } else if selected_column < n {
                            selected_column
                        } else {
                            (n - 1) as usize
                        }),
                    decreases n - i,
                {
                    app.columns[i].clamp_selected();
                    i += 1;
                }
                proof {
                    assert(app.board().columns =~= restored_board(saved_cols, selected_column as nat).columns);
                    crate::board::law_restored_board_wf(saved_cols, selected_column as nat);
                    lemma_ends_are_boundaries(Seq::<char>::empty());
                }
                app
            },
            None => app,
        }
    }

    /// The board as it is written out.
    pub fn snapshot(&self) -> (r: BoardSnapshot)
        ensures
            columns_view(r.columns@) == columns_view(self.columns@),
            r.selected_column == self.selected_column,
    {
        let mut columns: Vec<Column> = Vec::new();
        let mut i: usize = 0;
        while i < self.columns.len()
            invariant
                i <= self.columns@.len(),
                columns@.len() == i,
                forall|j: int| 0 <= j < i ==> #[trigger] columns@[j]@ == self.columns@[j]@,
            decreases self.columns@.len() - i,
        {
            columns.push(self.columns[i].clone());
            i += 1;
        }
        proof {
            assert(columns_view(columns@) =~= columns_view(self.columns@));
        }
        BoardSnapshot { columns, selected_column: self.selected_column }
    }

    /// Clears the popup buffers and cursors and focuses the title field.
    pub fn reset_popup(&mut self)
        ensures
            final(self).columns == old(self).columns,
            final(self).selected_column == old(self).selected_column,
            final(self).quit == old(self).quit,
            final(self).input_mode == old(self).input_mode,
            final(self).show_help == old(self).show_help,
            final(self).save_path == old(self).save_path,
            final(self).status_message == old(self).status_message,
            final(self).input_buffer@ == Seq::<char>::empty(),
            final(self).desc_buffer@ == Seq::<char>::empty(),
            final(self).tags_buffer@ == Seq::<char>::empty(),
            final(self).title_cursor == 0,
            final(self).desc_cursor == 0,
            final(self).tags_cursor == 0,
            final(self).focused_field == PopupField::Title,
            !final(self).editing_desc,
    {
        self.input_buffer = String::new();
        self.desc_buffer = String::new();
        self.tags_buffer = String::new();
        self.title_cursor = 0;
        self.desc_cursor = 0;
        self.tags_cursor = 0;
        self.focused_field = PopupField::Title;
        self.editing_desc = false;
    }

    /// The tags typed in the tags buffer: the comma-separated pieces, trimmed,
    /// without the empty ones.
    pub fn parse_tags(&self) -> (r: Vec<String>)
        ensures
            strings_view(r@) == tags_in(self.tags_buffer@),
    {
        let v = chars_of(self.tags_buffer.as_str());
        let mut r: Vec<String> = Vec::new();
        let mut start: usize = 0;
        let mut i: usize = 0;
        let ghost mut done: Seq<Seq<char>> = Seq::empty();
        assert(v@.take(0) =~= Seq::<char>::empty());
        assert(v@.subrange(0, 0) =~= Seq::<char>::empty());
        while i < v.len()
            invariant
                v@ == self.tags_buffer@,
                start <= i <= v@.len(),
                split_on(v@.take(i as int), ',') == done.push(v@.subrange(start as int, i as int)),
                strings_view(r@) == nonempty_trimmed(done),
            decreases v@.len() - i,
        {
            proof {
                lemma_split_step(v@, ',', i as int);
            }
            if v[i] == ',' {
                let ghost piece = v@.subrange(start as int, i as int);
                push_trimmed(&v, start, i, &mut r);
                proof {
                    assert((done.push(piece)).drop_last() =~= done);
                    done = done.push(piece);
                    assert(v@.subrange(i + 1, i + 1) =~= Seq::<char>::empty());
                }
                start = i + 1;
            } else {
                proof {
                    assert(v@.subrange(start as int, i + 1) =~= v@.subrange(start as int, i as int).push(v@[i as int]));
                }
            }
            i += 1;
        }
        let ghost piece = v@.subrange(start as int, v@.len() as int);
        push_trimmed(&v, start, v.len(), &mut r);
        proof {
            assert((done.push(piece)).drop_last() =~= done);
            assert(v@.take(v@.len() as int) =~= v@);
        }
        r
    }

    /// Reports on the status line that the board could not be written out;
    /// nothing else changes.
    pub fn record_save_error(&mut self, e: SaveError)
        ensures
            final(self).board() == old(self).board(),
            final(self).columns == old(self).columns,
            final(self).status_message matches Some(m) && m@ == (match e {
                SaveError::Write => "⚠ Could not save "@ + old(self).save_path@,
                SaveError::Serialize => "⚠ Serialisation error"@,
            }),
            final(self).quit == old(self).quit,
            final(self).input_mode == old(self).input_mode,
            final(self).input_buffer == old(self).input_buffer,
            final(self).desc_buffer == old(self).desc_buffer,
            final(self).tags_buffer == old(self).tags_buffer,
            final(self).focused_field == old(self).focused_field,
            final(self).title_cursor == old(self).title_cursor,
            final(self).desc_cursor == old(self).desc_cursor,
            final(self).tags_cursor == old(self).tags_cursor,
            final(self).editing_desc == old(self).editing_desc,
            final(self).show_help == old(self).show_help,
            final(self).save_path == old(self).save_path,
    {
        let mut m = String::new();
        match e {
            SaveError::Write => {
                push_all(&mut m, "⚠ Could not save ");
                push_all(&mut m, self.save_path.as_str());
            },
            SaveError::Serialize => {
                push_all(&mut m, "⚠ Serialisation error");
                proof {
                    assert(m@ =~= "⚠ Serialisation error"@);
                }
            },
        }
        self.status_message = Some(m);
    }

    /// Appends a card to the selected column and selects it. Returns whether
    /// the board changed (always).
    pub fn add_card(&mut self, title: String, description: String, tags: Vec<String>) -> (changed: bool)
        requires
            old(self).selected_column < old(self).columns.len(),
        ensures
            final(self).board() == old(self).board().add_card(
                CardView { title: title@, description: description@, tags: strings_view(tags@) },
            ),
            final(self).same_ui(*old(self)),
            changed,
            old(self).board().wf() ==> final(self).board().wf(),
    {
        let ghost card = CardView { title: title@, description: description@, tags: strings_view(tags@) };
        let i = self.selected_column;
        let col = &mut self.columns[i];
        col.cards.push(Card { title, description, tags });
        col.selected = col.cards.len() - 1;
        proof {
            let b = old(self).board();
            let a = b.active();
            assert(cards_view(self.columns@[i as int].cards@) =~= a.cards.push(card));
            assert(self.board().columns =~= b.add_card(card).columns);
            if b.wf() {
                crate::board::law_add_card_keeps_wf(b, card);
            }
        }
        true
    }

    /// Removes the selected card, if the selected column has any. Returns
    /// whether the board changed.
    pub fn delete_card(&mut self) -> (changed: bool)
        requires
            old(self).active_ok(),
        ensures
            final(self).board() == old(self).board().delete_card(),
            final(self).same_ui(*old(self)),
            changed == old(self).board().can_delete_card(),
            old(self).board().wf() ==> final(self).board().wf(),
    {
        let i = self.selected_column;
        let col = &mut self.columns[i];
        if col.cards.len() > 0 {
            let sel = col.selected;
            col.cards.remove(sel);
            col.clamp_selected();
            proof {
                let b = old(self).board();
                let a = b.active();
                assert(cards_view(self.columns@[i as int].cards@) =~= a.cards.remove(sel as int));
                assert(self.board().columns =~= b.delete_card().columns);
                if b.wf() {
                    crate::board::law_delete_card_keeps_wf(b);
                }
            }
            true
        } else {
            proof {
                assert(self.board().columns =~= old(self).board().columns);
            }
            false
        }
    }

    /// Exchanges the selected card with the one above it. Returns whether the
    /// board changed.
    pub fn move_card_up(&mut self) -> (changed: bool)
        requires
            old(self).selected_column < old(self).columns.len(),
            old(self).board().can_move_card_up() ==> old(self).board().active().selected
                < old(self).board().active().cards.len(),
        ensures
            final(self).board() == old(self).board().move_card_up(),
            final(self).same_ui(*old(self)),
            changed == old(self).board().can_move_card_up(),
            old(self).board().wf() ==> final(self).board().wf(),
    {
        let i = self.selected_column;
        let col = &mut self.columns[i];
        if col.selected == 0 || col.cards.len() < 2 {
            proof {
                assert(self.board().columns =~= old(self).board().columns);
            }
            return false;
        }
        let sel = col.selected;
        let card = col.cards.remove(sel);
        col.cards.insert(sel - 1, card);
        col.selected = sel - 1;
        proof {
            let b = old(self).board();
            let a = b.active();
            assert(cards_view(self.columns@[i as int].cards@) =~= swap_adjacent(a.cards, sel - 1));
            assert(self.board().columns =~= b.move_card_up().columns);
            if b.wf() {
                crate::board::law_reorder_card_keeps_wf(b);
            }
        }
        true
    }

    /// Exchanges the selected card with the one below it. Returns whether the
    /// board changed.
    pub fn move_card_down(&mut self) -> (changed: bool)
        requires
            old(self).selected_column < old(self).columns.len(),
        ensures
            final(self).board() == old(self).board().move_card_down(),
            final(self).same_ui(*old(self)),
            changed == old(self).board().can_move_card_down(),
            old(self).board().wf() ==> final(self).board().wf(),
    {
        let i = self.selected_column;
        let col = &mut self.columns[i];
        if col.cards.len() < 2 || col.selected >= col.cards.len() - 1 {
            proof {
                assert(self.board().columns =~= old(self).board().columns);
            }
            return false;
        }
        let sel = col.selected;
        let card = col.cards.remove(sel);
        col.cards.insert(sel + 1, card);
        col.selected = sel + 1;
        proof {
            let b = old(self).board();
            let a = b.active();
            assert(cards_view(self.columns@[i as int].cards@) =~= swap_adjacent(a.cards, sel as int));
            assert(self.board().columns =~= b.move_card_down().columns);
            if b.wf() {
                crate::board::law_reorder_card_keeps_wf(b);
            }
        }
        true
    }

    /// Exchanges the selected column with its left neighbour. Returns whether
    /// the board changed.
    pub fn move_column_left(&mut self) -> (changed: bool)
        requires
            old(self).selected_column == 0 || old(self).selected_column < old(self).columns.len(),
        ensures
            final(self).board() == old(self).board().move_column_left(),
            final(self).same_ui(*old(self)),
            changed == old(self).board().can_move_column_left(),
            old(self).board().wf() ==> final(self).board().wf(),
    {
        let i = self.selected_column;
        if i == 0 {
            return false;
        }
        let col = self.columns.remove(i);
        self.columns.insert(i - 1, col);
        self.selected_column -= 1;
        proof {
            let b = old(self).board();
            assert(self.board().columns =~= b.move_column_left().columns);
            if b.wf() {
                crate::board::law_reorder_column_keeps_wf(b);
            }
        }
        true
    }

    /// Exchanges the selected column with its right neighbour. Returns whether
    /// the board changed.
    pub fn move_column_right(&mut self) -> (changed: bool)
        ensures
            final(self).board() == old(self).board().move_column_right(),
            final(self).same_ui(*old(self)),
            changed == old(self).board().can_move_column_right(),
            old(self).board().wf() ==> final(self).board().wf(),
    {
        let i = self.selected_column;
        if self.columns.len() == 0 || i >= self.columns.len() - 1 {
            return false;
        }
        let col = self.columns.remove(i);
        self.columns.insert(i + 1, col);
        self.selected_column += 1;
        proof {
            let b = old(self).board();
            assert(self.board().columns =~= b.move_column_right().columns);
            if b.wf() {
                crate::board::law_reorder_column_keeps_wf(b);
            }
        }
        true
    }

    /// Moves the selected card to the end of the column on the left, which
    /// becomes selected. Returns whether the board changed.
    pub fn move_card_left(&mut self) -> (changed: bool)
        requires
            old(self).selected_column == 0 || old(self).active_ok(),
        ensures
            final(self).board() == old(self).board().move_card_left(),
            final(self).same_ui(*old(self)),
            changed == old(self).board().can_move_card_left(),
            old(self).board().wf() ==> final(self).board().wf(),
    {
        if self.selected_column == 0 {
            return false;
        }
        let dst = self.selected_column - 1;
        let r = self.move_card_to(dst);
        proof {
            if old(self).board().wf() {
                crate::board::law_move_card_sideways_keeps_wf(old(self).board());
            }
        }
        r
    }

    /// Moves the selected card to the end of the column on the right, which
    /// becomes selected. Returns whether the board changed.
    pub fn move_card_right(&mut self) -> (changed: bool)
        requires
            old(self).selected_column + 1 < old(self).columns.len() ==> old(self).active_ok(),
        ensures
            final(self).board() == old(self).board().move_card_right(),
            final(self).same_ui(*old(self)),
            changed == old(self).board().can_move_card_right(),
            old(self).board().wf() ==> final(self).board().wf(),
    {
        if self.columns.len() == 0 || self.selected_column >= self.columns.len() - 1 {
            return false;
        }
        let dst = self.selected_column + 1;
        let r = self.move_card_to(dst);
        proof {
            if old(self).board().wf() {
                crate::board::law_move_card_sideways_keeps_wf(old(self).board());
            }
        }
        r
    }

    fn move_card_to(&mut self, dst: usize) -> (changed: bool)
        requires
            old(self).active_ok(),
            dst < old(self).columns.len(),
            dst != old(self).selected_column,
        ensures
            final(self).board() == old(self).board().move_card_to(dst as nat),
            final(self).same_ui(*old(self)),
            changed == (old(self).board().active().cards.len() > 0),
    {
        let src = self.selected_column;
        if self.columns[src].cards.len() == 0 {
            proof {
                assert(self.board().columns =~= old(self).board().columns);
            }
            return false;
        }
        let idx = self.columns[src].selected;
        let card = self.columns[src].cards.remove(idx);
        self.columns[src].clamp_selected();
        let ghost mid = self.columns@;
        self.columns[dst].cards.push(card);
        let n = self.columns[dst].cards.len();
        self.columns[dst].selected = n - 1;
        self.selected_column = dst;
        proof {
            let b = old(self).board();
            let a = b.active();
            let rest = a.cards.remove(idx as int);
            assert(cards_view(mid[src as int].cards@) =~= rest);
            let cols = b.columns.update(src as int, a.with_cards(rest, clamp_index(a.selected, rest.len())));
            assert(columns_view(mid) =~= cols);
            assert(cards_view(self.columns@[dst as int].cards@) =~= cols[dst as int].cards.push(a.cards[idx as int]));
            assert(self.board().columns =~= b.move_card_to(dst as nat).columns);
        }
        true
    }

    /// Appends an empty column and selects it. Returns whether the board
    /// changed (always).
    pub fn add_column(&mut self, name: String) -> (changed: bool)
        ensures
            final(self).board() == old(self).board().add_column(name@),
            final(self).same_ui(*old(self)),
            changed,
            old(self).board().wf() ==> final(self).board().wf(),
    {
        self.columns.push(Column { name, cards: Vec::new(), selected: 0 });
        self.selected_column = self.columns.len() - 1;
        proof {
            let b = old(self).board();
            assert(cards_view(Seq::<Card>::empty()) =~= Seq::<CardView>::empty());
            assert(self.board().columns =~= b.add_column(name@).columns);
            if b.wf() {
                crate::board::law_column_edits_keep_wf(b, name@, 0);
            }
        }
        true
    }

    /// Renames column `col`, if it exists. Returns whether the board changed.
    pub fn rename_column(&mut self, col: usize, name: String) -> (changed: bool)
        ensures
            final(self).board() == old(self).board().rename_column(col as nat, name@),
            final(self).same_ui(*old(self)),
            changed == (col < old(self).columns.len()),
            old(self).board().wf() ==> final(self).board().wf(),
    {
        if col < self.columns.len() {
            let ghost nm = name@;
            self.columns[col].name = name;
            proof {
                let b = old(self).board();
                assert(self.board().columns =~= b.rename_column(col as nat, nm).columns);
                if b.wf() {
                    crate::board::law_column_edits_keep_wf(b, nm, col as nat);
                }
            }
            true
        } else {
            false
        }
    }

    /// Removes column `col` unless it is the only one; the column before it
    /// (or the first) becomes selected. Returns whether the board changed.
    pub fn delete_column(&mut self, col: usize) -> (changed: bool)
        requires
            old(self).columns.len() > 1 ==> col < old(self).columns.len(),
        ensures
            final(self).board() == old(self).board().delete_column(col as nat),
            final(self).same_ui(*old(self)),
            changed == old(self).board().can_delete_column(),
            old(self).board().wf() ==> final(self).board().wf(),
            old(self).columns.len() >= 1 ==> final(self).columns.len() >= 1,
    {
        if self.columns.len() <= 1 {
            return false;
        }
        self.columns.remove(col);
        let prev = if col == 0 { 0 } else { col - 1 };
        let last = self.columns.len() - 1;
        self.selected_column = if prev < last { prev } else { last };
        proof {
            let b = old(self).board();
            assert(self.board().columns =~= b.delete_column(col as nat).columns);
            if b.wf() {
                crate::board::law_column_edits_keep_wf(b, Seq::empty(), col as nat);
            }
        }
        true
    }
}

/// Appends the piece `v[from..to]`, trimmed, to `tags` unless it is empty.
fn push_trimmed(v: &Vec<char>, from: usize, to: usize, tags: &mut Vec<String>)
    requires
        from <= to <= v@.len(),
    ensures
        strings_view(final(tags)@) == (if trim(v@.subrange(from as int, to as int)).len() > 0 {
            strings_view(old(tags)@).push(trim(v@.subrange(from as int, to as int)))
        } else {
            strings_view(old(tags)@)
        }),
{
    let (a, b) = trim_bounds(v.as_slice(), from, to);
    if a < b {
        let t = string_of_range(v.as_slice(), a, b);
        tags.push(t);
        proof {
            assert(strings_view(final(tags)@) =~= strings_view(old(tags)@).push(trim(v@.subrange(from as int, to as int))));
        }
    }
}

} // verus!

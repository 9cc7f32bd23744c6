//! The board: cards, columns, the application state, and the operations that
//! change the board.
//!
//! Each operation is specified through [`BoardView`], the mathematical board
//! (column names, cards and cursors as sequences), and returns whether the board
//! changed, i.e. whether it is due to be written out.
use vstd::prelude::*;


verus! {

// ── Mathematical model ───────────────────────────────────────────────────────

/// A card as plain values.
pub struct CardView {
    pub title: Seq<char>,
    pub description: Seq<char>,
    pub tags: Seq<Seq<char>>,
}

/// A column as plain values; `selected` is the card cursor.
pub struct ColumnView {
    pub name: Seq<char>,
    pub cards: Seq<CardView>,
    pub selected: nat,
}

/// The board as plain values; `selected` is the column cursor.
pub struct BoardView {
    pub columns: Seq<ColumnView>,
    pub selected: nat,
}

/// The characters of each string in `v`.
pub open spec fn strings_view(v: Seq<String>) -> Seq<Seq<char>> {
    v.map_values(|s: String| s@)
}

/// `sel` moved into `0..len` (0 when `len == 0`).
pub open spec fn clamp_index(sel: nat, len: nat) -> nat {
    if len == 0 {
        0
    } else if sel >= len {
        (len - 1) as nat
    } else {
        sel
    }
}

/// `s` with the elements at `i` and `i + 1` exchanged.
pub open spec fn swap_adjacent<A>(s: Seq<A>, i: int) -> Seq<A> {
    s.update(i, s[i + 1]).update(i + 1, s[i])
}

impl ColumnView {
    /// The card cursor points at a card, or is 0 in an empty column.
    pub open spec fn cursor_ok(self) -> bool {
        if self.cards.len() == 0 {
            self.selected == 0
        } else {
            self.selected < self.cards.len()
        }
    }

    pub open spec fn with_cards(self, cards: Seq<CardView>, selected: nat) -> ColumnView {
        ColumnView { name: self.name, cards, selected }
    }

    /// The column with its cursor moved into range.
    pub open spec fn clamped(self) -> ColumnView {
        self.with_cards(self.cards, clamp_index(self.selected, self.cards.len()))
    }
}

impl BoardView {
    /// The column cursor points at a column (0 on an empty board) and every
    /// card cursor points at a card of its column.
    pub open spec fn wf(self) -> bool {
        &&& (self.columns.len() == 0 ==> self.selected == 0)
        &&& (self.columns.len() > 0 ==> self.selected < self.columns.len())
        &&& forall|i: int| 0 <= i < self.columns.len() ==> #[trigger] self.columns[i].cursor_ok()
    }

    /// The names and cards of the columns, without the cursors.
    pub open spec fn content(self) -> Seq<(Seq<char>, Seq<CardView>)> {
        self.columns.map_values(|c: ColumnView| (c.name, c.cards))
    }

    /// The selected column.
    pub open spec fn active(self) -> ColumnView {
        self.columns[self.selected as int]
    }

    pub open spec fn with_active(self, c: ColumnView) -> BoardView {
        BoardView { columns: self.columns.update(self.selected as int, c), selected: self.selected }
    }

    /// Total number of cards on the board.
    pub open spec fn card_count(self) -> nat {
        total_cards(self.columns)
    }

    /// The column on the left selected (the first stays selected).
    pub open spec fn select_prev_column(self) -> BoardView {
        BoardView {
            columns: self.columns,
            selected: if self.selected == 0 { 0 } else { (self.selected - 1) as nat },
        }
    }

    /// The column on the right selected (the last stays selected).
    pub open spec fn select_next_column(self) -> BoardView {
        let last: nat = if self.columns.len() == 0 { 0 } else { (self.columns.len() - 1) as nat };
        BoardView {
            columns: self.columns,
            selected: if self.selected + 1 < last { self.selected + 1 } else { last },
        }
    }

    /// The card above selected in the selected column (the first stays selected).
    pub open spec fn select_prev_card(self) -> BoardView {
        let a = self.active();
        self.with_active(a.with_cards(a.cards, if a.selected == 0 { 0 } else { (a.selected - 1) as nat }))
    }

    /// The card below selected in the selected column (the last stays selected).
    pub open spec fn select_next_card(self) -> BoardView {
        let a = self.active();
        if a.cards.len() > 0 && a.selected + 1 < a.cards.len() {
            self.with_active(a.with_cards(a.cards, a.selected + 1))
        } else {
            self
        }
    }

    /// The card appended to the selected column, which then selects it.
    pub open spec fn add_card(self, card: CardView) -> BoardView {
        let a = self.active();
        self.with_active(a.with_cards(a.cards.push(card), a.cards.len()))
    }

    pub open spec fn can_delete_card(self) -> bool {
        self.active().cards.len() > 0
    }

    /// The selected card removed from the selected column.
    pub open spec fn delete_card(self) -> BoardView {
        let a = self.active();
        if self.can_delete_card() {
            let cards = a.cards.remove(a.selected as int);
            self.with_active(a.with_cards(cards, clamp_index(a.selected, cards.len())))
        } else {
            self
        }
    }

    pub open spec fn can_move_card_up(self) -> bool {
        let a = self.active();
        a.selected != 0 && a.cards.len() >= 2
    }

    /// The selected card exchanged with the one above it, keeping it selected.
    pub open spec fn move_card_up(self) -> BoardView {
        let a = self.active();
        if self.can_move_card_up() {
            self.with_active(
                a.with_cards(swap_adjacent(a.cards, a.selected - 1), (a.selected - 1) as nat),
            )
        } else {
            self
        }
    }

    pub open spec fn can_move_card_down(self) -> bool {
        let a = self.active();
        a.cards.len() >= 2 && a.selected + 1 < a.cards.len()
    }

    /// The selected card exchanged with the one below it, keeping it selected.
    pub open spec fn move_card_down(self) -> BoardView {
        let a = self.active();
        if self.can_move_card_down() {
            self.with_active(
                a.with_cards(swap_adjacent(a.cards, a.selected as int), a.selected + 1),
            )
        } else {
            self
        }
    }

    pub open spec fn can_move_column_left(self) -> bool {
        self.selected != 0
    }

    /// The selected column exchanged with its left neighbour, keeping it selected.
    pub open spec fn move_column_left(self) -> BoardView {
        if self.can_move_column_left() {
            BoardView {
                columns: swap_adjacent(self.columns, self.selected - 1),
                selected: (self.selected - 1) as nat,
            }
        } else {
            self
        }
    }

    pub open spec fn can_move_column_right(self) -> bool {
        self.selected + 1 < self.columns.len()
    }

    /// The selected column exchanged with its right neighbour, keeping it selected.
    pub open spec fn move_column_right(self) -> BoardView {
        if self.can_move_column_right() {
            BoardView {
                columns: swap_adjacent(self.columns, self.selected as int),
                selected: self.selected + 1,
            }
        } else {
            self
        }
    }

    /// The selected card moved to the end of column `dst`, which becomes
    /// selected together with the moved card.
    pub open spec fn move_card_to(self, dst: nat) -> BoardView {
        let a = self.active();
        if a.cards.len() == 0 {
            self
        } else {
            let card = a.cards[a.selected as int];
            let rest = a.cards.remove(a.selected as int);
            let cols = self.columns.update(
                self.selected as int,
                a.with_cards(rest, clamp_index(a.selected, rest.len())),
            );
            let d = cols[dst as int];
            BoardView {
                columns: cols.update(dst as int, d.with_cards(d.cards.push(card), d.cards.len())),
                selected: dst,
            }
        }
    }

    pub open spec fn can_move_card_left(self) -> bool {
        self.selected != 0 && self.active().cards.len() > 0
    }

    /// The selected card moved to the column on the left.
    pub open spec fn move_card_left(self) -> BoardView {
        if self.selected == 0 {
            self
        } else {
            self.move_card_to((self.selected - 1) as nat)
        }
    }

    pub open spec fn can_move_card_right(self) -> bool {
        self.selected + 1 < self.columns.len() && self.active().cards.len() > 0
    }

    /// The selected card moved to the column on the right.
    pub open spec fn move_card_right(self) -> BoardView {
        if self.selected + 1 >= self.columns.len() {
            self
        } else {
            self.move_card_to(self.selected + 1)
        }
    }

    /// Card `card` of column `col` replaced by `c`.
    pub open spec fn set_card(self, col: nat, card: nat, c: CardView) -> BoardView {
        let k = self.columns[col as int];
        BoardView {
            columns: self.columns.update(col as int, k.with_cards(k.cards.update(card as int, c), k.selected)),
            selected: self.selected,
        }
    }

    /// An empty column named `name` appended and selected.
    pub open spec fn add_column(self, name: Seq<char>) -> BoardView {
        BoardView {
            columns: self.columns.push(ColumnView { name, cards: Seq::empty(), selected: 0 }),
            selected: self.columns.len(),
        }
    }

    /// Column `col` renamed, if it exists.
    pub open spec fn rename_column(self, col: nat, name: Seq<char>) -> BoardView {
        if col < self.columns.len() {
            let c = self.columns[col as int];
            BoardView {
                columns: self.columns.update(col as int, ColumnView { name, cards: c.cards, selected: c.selected }),
                selected: self.selected,
            }
        } else {
            self
        }
    }

    pub open spec fn can_delete_column(self) -> bool {
        self.columns.len() > 1
    }

    /// Column `col` removed, unless it is the only column; the column before
    /// it (or the first) becomes selected.
    pub open spec fn delete_column(self, col: nat) -> BoardView {
        if self.can_delete_column() {
            let cols = self.columns.remove(col as int);
            let prev: nat = if col == 0 { 0 } else { (col - 1) as nat };
            BoardView {
                columns: cols,
                selected: if prev < (cols.len() - 1) as nat { prev } else { (cols.len() - 1) as nat },
            }
        } else {
            self
        }
    }
}

/// Number of cards in all of `cols`.
pub open spec fn total_cards(cols: Seq<ColumnView>) -> nat
    decreases cols.len(),
{
    if cols.len() == 0 {
        0
    } else {
        total_cards(cols.drop_last()) + cols.last().cards.len()
    }
}

/// The board restored from a saved column list: every card cursor clamped,
/// and the column cursor moved onto the last column when it lies beyond it.
pub open spec fn restored_board(cols: Seq<ColumnView>, sel: nat) -> BoardView {
    BoardView {
        columns: cols.map_values(|c: ColumnView| c.clamped()),
        selected: if cols.len() == 0 {
            0
        } else if sel < cols.len() {
            sel
        } else {
            (cols.len() - 1) as nat
        },
    }
}

// ── Every board operation keeps the board well-formed ────────────────────────

/// Adding a card to a well-formed board with a selected column keeps it well-formed.
pub proof fn law_add_card_keeps_wf(b: BoardView, card: CardView)
    requires
        b.wf(),
        b.selected < b.columns.len(),
    ensures
        b.add_card(card).wf(),
{
    let r = b.add_card(card);
    assert forall|i: int| 0 <= i < r.columns.len() implies #[trigger] r.columns[i].cursor_ok() by {
        if i != b.selected {
            assert(b.columns[i].cursor_ok());
        }
    }
}

/// Deleting the selected card keeps a well-formed board well-formed.
pub proof fn law_delete_card_keeps_wf(b: BoardView)
    requires
        b.wf(),
        b.selected < b.columns.len(),
    ensures
        b.delete_card().wf(),
{
    let r = b.delete_card();
    assert forall|i: int| 0 <= i < r.columns.len() implies #[trigger] r.columns[i].cursor_ok() by {
        if i != b.selected {
            assert(b.columns[i].cursor_ok());
        }
    }
}

/// Reordering the selected card keeps a well-formed board well-formed.
pub proof fn law_reorder_card_keeps_wf(b: BoardView)
    requires
        b.wf(),
        b.selected < b.columns.len(),
    ensures
        b.move_card_up().wf(),
        b.move_card_down().wf(),
{
    let r = b.move_card_up();
    assert forall|i: int| 0 <= i < r.columns.len() implies #[trigger] r.columns[i].cursor_ok() by {
        assert(b.columns[i].cursor_ok());
    }
    let r = b.move_card_down();
    assert forall|i: int| 0 <= i < r.columns.len() implies #[trigger] r.columns[i].cursor_ok() by {
        assert(b.columns[i].cursor_ok());
    }
}

/// Reordering the selected column keeps a well-formed board well-formed.
pub proof fn law_reorder_column_keeps_wf(b: BoardView)
    requires
        b.wf(),
    ensures
        b.move_column_left().wf(),
        b.move_column_right().wf(),
{
    let r = b.move_column_left();
    assert forall|i: int| 0 <= i < r.columns.len() implies #[trigger] r.columns[i].cursor_ok() by {
        if b.can_move_column_left() {
            if i == b.selected - 1 {
                assert(b.columns[b.selected as int].cursor_ok());
            } else if i == b.selected {
                assert(b.columns[b.selected - 1].cursor_ok());
            } else {
                assert(b.columns[i].cursor_ok());
            }
        } else {
            assert(b.columns[i].cursor_ok());
        }
    }
    let r = b.move_column_right();
    assert forall|i: int| 0 <= i < r.columns.len() implies #[trigger] r.columns[i].cursor_ok() by {
        if b.can_move_column_right() {
            if i == b.selected + 1 {
                assert(b.columns[b.selected as int].cursor_ok());
            } else if i == b.selected {
                assert(b.columns[b.selected + 1int].cursor_ok());
            } else {
                assert(b.columns[i].cursor_ok());
            }
        } else {
            assert(b.columns[i].cursor_ok());
        }
    }
}

/// Moving the selected card to another existing column keeps a well-formed
/// board well-formed.
pub proof fn law_move_card_to_keeps_wf(b: BoardView, dst: nat)
    requires
        b.wf(),
        b.selected < b.columns.len(),
        dst < b.columns.len(),
        dst != b.selected,
    ensures
        b.move_card_to(dst).wf(),
{
    let r = b.move_card_to(dst);
    assert forall|i: int| 0 <= i < r.columns.len() implies #[trigger] r.columns[i].cursor_ok() by {
        assert(b.columns[i].cursor_ok());
    }
}

/// Moving the selected card to a neighbouring column keeps a well-formed board
/// well-formed.
pub proof fn law_move_card_sideways_keeps_wf(b: BoardView)
    requires
        b.wf(),
        b.selected < b.columns.len(),
    ensures
        b.move_card_left().wf(),
        b.move_card_right().wf(),
{
    if b.selected != 0 {
        law_move_card_to_keeps_wf(b, (b.selected - 1) as nat);
    }
    if b.selected + 1 < b.columns.len() {
        law_move_card_to_keeps_wf(b, b.selected + 1);
    }
}

/// Adding, renaming and deleting columns keep a well-formed board well-formed.
pub proof fn law_column_edits_keep_wf(b: BoardView, name: Seq<char>, col: nat)
    requires
        b.wf(),
        b.can_delete_column() ==> col < b.columns.len(),
    ensures
        b.add_column(name).wf(),
        b.rename_column(col, name).wf(),
        b.delete_column(col).wf(),
{
    let r = b.add_column(name);
    assert forall|i: int| 0 <= i < r.columns.len() implies #[trigger] r.columns[i].cursor_ok() by {
        if i < b.columns.len() {
            assert(b.columns[i].cursor_ok());
        }
    }
    let r = b.rename_column(col, name);
    assert forall|i: int| 0 <= i < r.columns.len() implies #[trigger] r.columns[i].cursor_ok() by {
        assert(b.columns[i].cursor_ok());
    }
    let r = b.delete_column(col);
    assert forall|i: int| 0 <= i < r.columns.len() implies #[trigger] r.columns[i].cursor_ok() by {
        if b.can_delete_column() {
            if i < col {
                assert(b.columns[i].cursor_ok());
            } else {
                assert(b.columns[i + 1].cursor_ok());
            }
        } else {
            assert(b.columns[i].cursor_ok());
        }
    }
}

/// A restored board is well-formed, whatever the saved cursors were.
pub proof fn law_restored_board_wf(cols: Seq<ColumnView>, sel: nat)
    ensures
        restored_board(cols, sel).wf(),
{
}

/// Restoring a well-formed board from its own columns and column cursor
/// gives the board back unchanged: what is saved is what is loaded.
pub proof fn law_restore_saved_board(b: BoardView)
    requires
        b.wf(),
    ensures
        restored_board(b.columns, b.selected) == b,
{
    let r = restored_board(b.columns, b.selected);
    assert forall|i: int| 0 <= i < b.columns.len() implies #[trigger] r.columns[i] == b.columns[i] by {
        assert(b.columns[i].cursor_ok());
    }
    assert(r.columns =~= b.columns);
}

/// Moving the cursors keeps a well-formed board well-formed and changes no
/// column's name or cards.
pub proof fn law_navigation_keeps_wf(b: BoardView)
    requires
        b.wf(),
        b.selected < b.columns.len(),
    ensures
        b.select_prev_column().wf(),
        b.select_next_column().wf(),
        b.select_prev_card().wf(),
        b.select_next_card().wf(),
        b.select_prev_card().card_count() == b.card_count(),
        b.select_next_card().card_count() == b.card_count(),
{
    let r = b.select_prev_card();
    assert forall|i: int| 0 <= i < r.columns.len() implies #[trigger] r.columns[i].cursor_ok() by {
        assert(b.columns[i].cursor_ok());
    }
    let r = b.select_next_card();
    assert forall|i: int| 0 <= i < r.columns.len() implies #[trigger] r.columns[i].cursor_ok() by {
        assert(b.columns[i].cursor_ok());
    }
    lemma_total_cards_update(b.columns, b.selected as int, b.select_prev_card().active());
    lemma_total_cards_update(b.columns, b.selected as int, b.select_next_card().active());
}

/// Replacing an existing card keeps a well-formed board well-formed.
pub proof fn law_set_card_keeps_wf(b: BoardView, col: nat, card: nat, c: CardView)
    requires
        b.wf(),
        col < b.columns.len(),
        card < b.columns[col as int].cards.len(),
    ensures
        b.set_card(col, card, c).wf(),
        b.set_card(col, card, c).card_count() == b.card_count(),
{
    let r = b.set_card(col, card, c);
    assert forall|i: int| 0 <= i < r.columns.len() implies #[trigger] r.columns[i].cursor_ok() by {
        assert(b.columns[i].cursor_ok());
    }
    lemma_total_cards_update(b.columns, col as int, r.columns[col as int]);
}

// ── Operations that undo each other; what the moves conserve ─────────────────

/// Moving a card up and then down again gives back the board, and so does
/// moving it down and then up.
pub proof fn law_card_reorder_undo(b: BoardView)
    requires
        b.wf(),
        b.selected < b.columns.len(),
    ensures
        b.can_move_card_up() ==> b.move_card_up().move_card_down() == b,
        b.can_move_card_down() ==> b.move_card_down().move_card_up() == b,
{
    let a = b.active();
    assert(b.columns[b.selected as int].cursor_ok());
    if b.can_move_card_up() {
        let r = b.move_card_up();
        assert(r.active().cards =~= swap_adjacent(a.cards, a.selected - 1));
        assert(swap_adjacent(swap_adjacent(a.cards, a.selected - 1), a.selected - 1) =~= a.cards);
        assert(r.move_card_down().columns =~= b.columns);
    }
    if b.can_move_card_down() {
        let r = b.move_card_down();
        assert(swap_adjacent(swap_adjacent(a.cards, a.selected as int), a.selected as int) =~= a.cards);
        assert(r.move_card_up().columns =~= b.columns);
    }
}

/// Moving a column left and then right again gives back the board, and so
/// does moving it right and then left.
pub proof fn law_column_reorder_undo(b: BoardView)
    requires
        b.wf(),
    ensures
        b.can_move_column_left() ==> b.move_column_left().move_column_right() == b,
        b.can_move_column_right() ==> b.move_column_right().move_column_left() == b,
{
    if b.can_move_column_left() {
        assert(b.move_column_left().move_column_right().columns =~= b.columns);
    }
    if b.can_move_column_right() {
        assert(b.move_column_right().move_column_left().columns =~= b.columns);
    }
}

/// Adding a card and then deleting it (it is the selected card) leaves every
/// column with the cards it had, and the same column selected.
pub proof fn law_add_then_delete_card(b: BoardView, card: CardView)
    requires
        b.wf(),
        b.selected < b.columns.len(),
    ensures
        b.add_card(card).delete_card().columns.len() == b.columns.len(),
        b.add_card(card).delete_card().selected == b.selected,
        forall|i: int| 0 <= i < b.columns.len() ==> (#[trigger] b.add_card(card).delete_card().columns[i]).cards == b.columns[i].cards,
        forall|i: int| 0 <= i < b.columns.len() ==> (#[trigger] b.add_card(card).delete_card().columns[i]).name == b.columns[i].name,
{
    let a = b.active();
    assert(a.cards.push(card).remove(a.cards.len() as int) =~= a.cards);
}

proof fn lemma_total_cards_update(cols: Seq<ColumnView>, i: int, c: ColumnView)
    requires
        0 <= i < cols.len(),
    ensures
        total_cards(cols.update(i, c)) + cols[i].cards.len() == total_cards(cols) + c.cards.len(),
    decreases cols.len(),
{
    if i < cols.len() - 1 {
        lemma_total_cards_update(cols.drop_last(), i, c);
        assert(cols.update(i, c).drop_last() =~= cols.drop_last().update(i, c));
    } else {
        assert(cols.update(i, c).drop_last() =~= cols.drop_last());
    }
}

/// Moving cards and columns around neither creates nor loses cards; adding a
/// card adds one, deleting the selected card removes one.
pub proof fn law_moves_conserve_cards(b: BoardView, card: CardView)
    requires
        b.wf(),
        b.selected < b.columns.len(),
    ensures
        b.move_card_up().card_count() == b.card_count(),
        b.move_card_down().card_count() == b.card_count(),
        b.move_card_left().card_count() == b.card_count(),
        b.move_card_right().card_count() == b.card_count(),
        b.move_column_left().card_count() == b.card_count(),
        b.move_column_right().card_count() == b.card_count(),
        b.add_card(card).card_count() == b.card_count() + 1,
        b.can_delete_card() ==> b.delete_card().card_count() + 1 == b.card_count(),
{
    let a = b.active();
    let sel = b.selected as int;
    assert(b.columns[sel].cursor_ok());
    if b.can_move_card_up() {
        lemma_total_cards_update(b.columns, sel, b.move_card_up().active());
    }
    if b.can_move_card_down() {
        lemma_total_cards_update(b.columns, sel, b.move_card_down().active());
    }
    lemma_total_cards_update(b.columns, sel, b.add_card(card).active());
    if b.can_delete_card() {
        lemma_total_cards_update(b.columns, sel, b.delete_card().active());
    }
    if b.can_move_column_left() {
        let c1 = b.columns.update(sel - 1, b.columns[sel]);
        lemma_total_cards_update(b.columns, sel - 1, b.columns[sel]);
        lemma_total_cards_update(c1, sel, b.columns[sel - 1]);
    }
    if b.can_move_column_right() {
        let c1 = b.columns.update(sel, b.columns[sel + 1]);
        lemma_total_cards_update(b.columns, sel, b.columns[sel + 1]);
        lemma_total_cards_update(c1, sel + 1, b.columns[sel]);
    }
    if a.cards.len() > 0 {
        if b.selected != 0 {
            lemma_move_card_to_conserves(b, (b.selected - 1) as nat);
        }
        if b.selected + 1 < b.columns.len() {
            lemma_move_card_to_conserves(b, b.selected + 1);
        }
    }
}

proof fn lemma_move_card_to_conserves(b: BoardView, dst: nat)
    requires
        b.wf(),
        b.selected < b.columns.len(),
        dst < b.columns.len(),
        dst != b.selected,
        b.active().cards.len() > 0,
    ensures
        b.move_card_to(dst).card_count() == b.card_count(),
{
    let a = b.active();
    assert(b.columns[b.selected as int].cursor_ok());
    let rest = a.cards.remove(a.selected as int);
    let src_col = a.with_cards(rest, clamp_index(a.selected, rest.len()));
    let cols = b.columns.update(b.selected as int, src_col);
    lemma_total_cards_update(b.columns, b.selected as int, src_col);
    let d = cols[dst as int];
    lemma_total_cards_update(cols, dst as int, d.with_cards(d.cards.push(a.cards[a.selected as int]), d.cards.len()));
}

/// Deleting a column never deletes the last remaining one.
pub proof fn law_a_column_always_remains(b: BoardView, col: nat)
    requires
        b.columns.len() >= 1,
        b.can_delete_column() ==> col < b.columns.len(),
    ensures
        b.delete_column(col).columns.len() >= 1,
{
}

/// Deleting a card removes exactly the card under the column's cursor: the
/// cards before it keep their places, the ones after it move up by one, the
/// cursor stays where it was (or on the new last card), and every other
/// column is untouched.
pub proof fn law_delete_card_removes_selected(b: BoardView)
    requires
        b.wf(),
        b.selected < b.columns.len(),
        b.active().cards.len() > 0,
    ensures
        ({
            let a = b.active();
            let n = b.delete_card();
            let m = n.columns[b.selected as int];
            &&& n.selected == b.selected
            &&& n.columns.len() == b.columns.len()
            &&& forall|j: int| 0 <= j < b.columns.len() && j != b.selected ==> #[trigger] n.columns[j] == b.columns[j]
            &&& m.name == a.name
            &&& m.cards.len() + 1 == a.cards.len()
            &&& forall|i: int| 0 <= i < a.selected ==> #[trigger] m.cards[i] == a.cards[i]
            &&& forall|i: int| a.selected <= i < m.cards.len() ==> #[trigger] m.cards[i] == a.cards[i + 1]
            &&& (a.selected < m.cards.len() ==> m.selected == a.selected)
            &&& (a.selected == m.cards.len() && m.cards.len() > 0 ==> m.selected + 1 == a.selected)
            &&& (m.cards.len() == 0 ==> m.selected == 0)
        }),
{
    assert(b.columns[b.selected as int].cursor_ok());
}

/// Moving the selection right selects the next column when there is one and
/// otherwise stays on the last; moving it left selects the previous column,
/// or stays on the first. The columns themselves do not change.
pub proof fn law_column_selection_steps(b: BoardView)
    requires
        b.wf(),
        b.columns.len() > 0,
    ensures
        b.select_next_column().columns == b.columns,
        b.selected + 1 < b.columns.len() ==> b.select_next_column().selected == b.selected + 1,
        b.selected + 1 >= b.columns.len() ==> b.select_next_column().selected == b.selected,
        b.select_prev_column().columns == b.columns,
        b.selected > 0 ==> b.select_prev_column().selected + 1 == b.selected,
        b.selected == 0 ==> b.select_prev_column().selected == 0,
{
}

// ── Cards and columns ────────────────────────────────────────────────────────

/// A card: a title, an optional description (which may span lines) and tags.
#[derive(Debug)]
pub struct Card {
    pub title: String,
    pub description: String,
    pub tags: Vec<String>,
}

impl View for Card {
    type V = CardView;

    open spec fn view(&self) -> CardView {
        CardView { title: self.title@, description: self.description@, tags: strings_view(self.tags@) }
    }
}

/// A copy of the strings in `v`.
pub fn clone_strings(v: &Vec<String>) -> (r: Vec<String>)
    ensures
        strings_view(r@) == strings_view(v@),
{
    let mut r: Vec<String> = Vec::new();
    let mut i: usize = 0;
    while i < v.len()
        invariant
            i <= v@.len(),
            strings_view(r@) == strings_view(v@.take(i as int)),
        decreases v@.len() - i,
    {
        let ghost prev = r@;
        let t = v[i].clone();
        assert(t@ == v@[i as int]@);
        r.push(t);
        assert(v@.take(i + 1) =~= v@.take(i as int).push(v@[i as int]));
        assert(strings_view(prev) == strings_view(v@.take(i as int)));
        assert forall|j: int| 0 <= j < i implies #[trigger] r@[j]@ == v@[j]@ by {
            assert(strings_view(prev)[j] == strings_view(v@.take(i as int))[j]);
        }
        assert(strings_view(r@) =~= strings_view(v@.take(i + 1)));
        i += 1;
    }
    assert(v@.take(v@.len() as int) =~= v@);
    r
}

impl Clone for Card {
    fn clone(&self) -> (r: Self)
        ensures
            r@ == self@,
    {
        Card {
            title: self.title.clone(),
            description: self.description.clone(),
            tags: clone_strings(&self.tags),
        }
    }
}

/// The views of the cards in `v`.
pub open spec fn cards_view(v: Seq<Card>) -> Seq<CardView> {
    v.map_values(|c: Card| c@)
}

/// A column of cards; `selected` is the index of the highlighted card.
#[derive(Debug)]
pub struct Column {
    pub name: String,
    pub cards: Vec<Card>,
    pub selected: usize,
}

impl View for Column {
    type V = ColumnView;

    open spec fn view(&self) -> ColumnView {
        ColumnView { name: self.name@, cards: cards_view(self.cards@), selected: self.selected as nat }
    }
}

impl Clone for Column {
    fn clone(&self) -> (r: Self)
        ensures
            r@ == self@,
    {
        let mut cards: Vec<Card> = Vec::new();
        let mut i: usize = 0;
        while i < self.cards.len()
            invariant
                i <= self.cards@.len(),
                cards@.len() == i,
                cards_view(cards@) == cards_view(self.cards@.take(i as int)),
            decreases self.cards@.len() - i,
        {
            let ghost prev = cards@;
            let c = self.cards[i].clone();
            cards.push(c);
            assert(self.cards@.take(i + 1) =~= self.cards@.take(i as int).push(self.cards@[i as int]));
            assert forall|j: int| 0 <= j < i implies #[trigger] cards@[j]@ == self.cards@[j]@ by {
                assert(cards_view(prev)[j] == cards_view(self.cards@.take(i as int))[j]);
            }
            assert(cards_view(cards@) =~= cards_view(self.cards@.take(i + 1)));
            i += 1;
        }
        assert(self.cards@.take(self.cards@.len() as int) =~= self.cards@);
        Column { name: self.name.clone(), cards, selected: self.selected }
    }
}

impl Column {
    /// Moves the card cursor into range: 0 for an empty column, the last card
    /// when it points past the end.
    pub fn clamp_selected(&mut self)
        ensures
            final(self)@ == old(self)@.clamped(),
            final(self)@.cursor_ok(),
    {
        if self.cards.len() == 0 {
            self.selected = 0;
        } else if self.selected >= self.cards.len() {
            self.selected = self.cards.len() - 1;
        }
    }
}

/// The views of the columns in `v`.
pub open spec fn columns_view(v: Seq<Column>) -> Seq<ColumnView> {
    v.map_values(|c: Column| c@)
}

} // verus!

//! What the screen shows: where the terminal cursor goes in a text field,
//! and the labels and hints drawn around the board.
use vstd::prelude::*;
use crate::app::{App, InputMode};
use crate::board::{Card, strings_view};
use crate::text::{
    byte_len, byte_offset, char_index, chars_of, joined, join_with, lemma_byte_offset_mono,
    lemma_byte_offset_step, lemma_byte_offset_ends, lemma_char_index, lemma_char_width,
    lemma_split_step, on_boundary, push_all, push_char, split_on, utf8_len, utf8_width,
};

verus! {

// ── Cursor placement ─────────────────────────────────────────────────────────

/// Number of characters before the byte offset `cursor` (capped at the end)
/// of a single-line buffer: the column the cursor is drawn in.
pub fn cursor_display_col(buf: &str, cursor: usize) -> (r: usize)
    requires
        on_boundary(buf@, (if cursor < utf8_len(buf@) { cursor as int } else { utf8_len(buf@) as int })),
    ensures
        r == char_index(buf@, (if cursor < utf8_len(buf@) { cursor as int } else { utf8_len(buf@) as int })),
        r <= buf@.len(),
{
    let n = byte_len(buf);
    let target = if cursor < n { cursor } else { n };
    let v = chars_of(buf);
    let mut k: usize = 0;
    let mut off: usize = 0;
    proof {
        lemma_char_index(buf@, target as int);
        lemma_byte_offset_ends(buf@);
    }
    let ghost kt = char_index(buf@, target as int);
    let vn = v.len();
    while off < target
        invariant
            v@ == buf@,
            vn == v@.len(),
            0 <= kt <= buf@.len(),
            byte_offset(buf@, kt) == target,
            target <= n == utf8_len(buf@),
            k <= kt,
            off == byte_offset(buf@, k as int),
        decreases target - off,
    {
        proof {
            if k == kt {
                assert(false);
            }
            lemma_byte_offset_step(buf@, k as int);
            lemma_byte_offset_mono(buf@, k + 1, kt);
            lemma_char_width(v@[k as int]);
        }
        off = off + utf8_width(v[k]);
        k += 1;
    }
    proof {
        if k < kt {
            lemma_byte_offset_mono(buf@, k as int, kt);
        }
    }
    k
}

/// Where the cursor of a wrapped multi-line text goes: for the logical lines
/// before it, each line takes `len / w` extra rows and each line break one
/// row; the column is the length of the last line modulo `w`.
pub open spec fn visual_pos(lines: Seq<Seq<char>>, w: nat) -> (nat, nat)
    decreases lines.len(),
{
    if lines.len() == 0 {
        (0, 0)
    } else {
        let prev = visual_pos(lines.drop_last(), w);
        let n = lines.last().len();
        (n % w, prev.1 + (if lines.len() > 1 { 1nat } else { 0nat }) + n / w)
    }
}

/// The `(column, row)` at which the cursor at byte offset `cursor` (capped
/// at the end) is drawn in a text wrapped at `inner_w` columns (at least 1).
pub fn cursor_visual_pos(buf: &str, cursor: usize, inner_w: usize) -> (r: (usize, usize))
    requires
        on_boundary(buf@, (if cursor < utf8_len(buf@) { cursor as int } else { utf8_len(buf@) as int })),
    ensures
        ({
            let safe = if cursor < utf8_len(buf@) { cursor as int } else { utf8_len(buf@) as int };
            let w: nat = if inner_w == 0 { 1 } else { inner_w as nat };
            (r.0 as nat, r.1 as nat) == visual_pos(split_on(buf@.take(char_index(buf@, safe)), '\n'), w)
        }),
{
    let w = if inner_w == 0 { 1 } else { inner_w };
    let upto = cursor_display_col(buf, cursor);
    let v = chars_of(buf);
    let ghost before = v@.take(upto as int);
    let mut row: usize = 0;
    let mut count: usize = 0;
    let mut i: usize = 0;
    let ghost mut done: Seq<Seq<char>> = Seq::empty();
    proof {
        assert(before.take(0) =~= Seq::<char>::empty());
        reveal_with_fuel(visual_pos, 2);
    }
    while i < upto
        invariant
            v@ == buf@,
            upto <= v@.len(),
            before == v@.take(upto as int),
            i <= upto,
            w >= 1,
            row + count <= i,
            split_on(before.take(i as int), '\n') == done.push(before.subrange(i - count, i as int)),
            visual_pos(done.push(before.subrange(i - count, i as int)), w as nat) == ((count % w) as nat, (row + count / w) as nat),
        decreases upto - i,
    {
        proof {
            lemma_split_step(before, '\n', i as int);
        }
        let ghost cur = before.subrange(i - count, i as int);
        if v[i] == '\n' {
            proof {
                assert(count / w <= count) by (nonlinear_arith)
                    requires w >= 1;
                let nd = done.push(cur);
                assert(nd.push(Seq::<char>::empty()).drop_last() =~= nd);
                assert(before.subrange(i + 1, i + 1) =~= Seq::<char>::empty());
                done = nd;
            }
            row = row + count / w + 1;
            count = 0;
        } else {
            proof {
                assert(before.subrange(i - count, i + 1) =~= cur.push(before[i as int]));
                assert(done.push(cur.push(before[i as int])).drop_last() =~= done);
                assert(done.push(cur).drop_last() =~= done);
                assert(before[i as int] == v@[i as int]);
            }
            count += 1;
        }
        i += 1;
    }
    proof {
        assert(before.take(upto as int) =~= before);
    }
    (count % w, row + count / w)
}

// ── Labels ───────────────────────────────────────────────────────────────────

/// The decimal digits of `n`.
pub open spec fn decimal(n: nat) -> Seq<char>
    decreases n,
{
    let d = ((n % 10) + 48) as char;
    if n < 10 {
        seq![d]
    } else {
        decimal(n / 10).push(d)
    }
}

/// The decimal representation of `n` (`usize::to_string`).
pub fn decimal_string(n: usize) -> (r: String)
    ensures
        r@ == decimal(n as nat),
    decreases n,
{
    let d = ((n % 10) as u8 + 48) as char;
    if n < 10 {
        let mut r = String::new();
        push_char(&mut r, d);
        proof {
            assert(r@ =~= seq![d]);
        }
        r
    } else {
        let mut r = decimal_string(n / 10);
        push_char(&mut r, d);
        r
    }
}

/// The title of a column box: " name (number of cards) ".
pub open spec fn column_title_text(name: Seq<char>, count: nat) -> Seq<char> {
    " "@ + name + " ("@ + decimal(count) + ") "@
}

/// The title drawn on the box of column `name` holding `count` cards.
pub fn column_title(name: &str, count: usize) -> (r: String)
    ensures
        r@ == column_title_text(name@, count as nat),
{
    let mut r = String::new();
    push_all(&mut r, " ");
    push_all(&mut r, name);
    push_all(&mut r, " (");
    let d = decimal_string(count);
    push_all(&mut r, d.as_str());
    push_all(&mut r, ") ");
    proof {
        assert(r@ =~= column_title_text(name@, count as nat));
    }
    r
}

/// The line of a card in its column: " title", with " ✎" when it has a
/// description.
pub open spec fn card_label_text(title: Seq<char>, description: Seq<char>) -> Seq<char> {
    " "@ + title + (if description.len() > 0 { " ✎"@ } else { Seq::empty() })
}

/// The line drawn for `card` in its column.
pub fn card_label(card: &Card) -> (r: String)
    ensures
        r@ == card_label_text(card.title@, card.description@),
{
    let mut r = String::new();
    push_all(&mut r, " ");
    push_all(&mut r, card.title.as_str());
    let has_desc = chars_of(card.description.as_str()).len() > 0;
    if has_desc {
        push_all(&mut r, " ✎");
    }
    proof {
        assert(r@ =~= card_label_text(card.title@, card.description@));
    }
    r
}

/// The tags of a card joined with ", ".
pub fn tags_text(card: &Card) -> (r: String)
    ensures
        r@ == joined(strings_view(card.tags@), ", "@),
{
    join_with(&card.tags, ", ")
}

/// The tags shown after a card's title: " [tag, tag]", or nothing without tags.
pub fn tags_label(card: &Card) -> (r: Option<String>)
    ensures
        card.tags@.len() == 0 ==> r is None,
        card.tags@.len() > 0 ==> (r matches Some(s) && s@ == " ["@ + joined(strings_view(card.tags@), ", "@) + "]"@),
{
    if card.tags.len() == 0 {
        return None;
    }
    let mut r = String::new();
    push_all(&mut r, " [");
    let t = tags_text(card);
    push_all(&mut r, t.as_str());
    push_all(&mut r, "]");
    Some(r)
}

/// The hint shown in the status bar for each mode.
pub open spec fn hint_text(mode: InputMode) -> Seq<char> {
    match mode {
        InputMode::Normal => "  ←/→ col  ↑/↓ card  a add  e edit  v view  h/l move col  H/L reorder col  J/K reorder card  d del  n/r/x col  ? help  q quit"@,
        InputMode::AddingCard => "  Tab: next field  ←/→: cursor  Enter: newline(desc)/confirm  Esc: cancel"@,
        InputMode::EditingCard { .. } => "  Tab: next field  ←/→: cursor  Enter: newline(desc)/confirm  Esc: cancel"@,
        InputMode::AddingColumn => "  ←/→: cursor  Enter: confirm  Esc: cancel"@,
        InputMode::RenamingColumn { .. } => "  ←/→: cursor  Enter: confirm  Esc: cancel"@,
        InputMode::DeletingColumn { .. } => "  Type yes and press Enter to confirm deletion  Esc: cancel"@,
        InputMode::ViewingCard { .. } => "  Esc: back"@,
    }
}

/// The hint shown in the status bar in mode `mode`.
pub fn status_hint(mode: &InputMode) -> (r: &'static str)
    ensures
        r@ == hint_text(*mode),
{
    match mode {
        InputMode::Normal => "  ←/→ col  ↑/↓ card  a add  e edit  v view  h/l move col  H/L reorder col  J/K reorder card  d del  n/r/x col  ? help  q quit",
        InputMode::AddingCard | InputMode::EditingCard { .. } => "  Tab: next field  ←/→: cursor  Enter: newline(desc)/confirm  Esc: cancel",
        InputMode::AddingColumn | InputMode::RenamingColumn { .. } => "  ←/→: cursor  Enter: confirm  Esc: cancel",
        InputMode::DeletingColumn { .. } => "  Type yes and press Enter to confirm deletion  Esc: cancel",
        InputMode::ViewingCard { .. } => "  Esc: back",
    }
}

/// The title of the card popup in mode `mode`.
pub open spec fn popup_title_text(mode: InputMode) -> Seq<char> {
    match mode {
        InputMode::AddingCard => " New Card "@,
        InputMode::EditingCard { .. } => " Edit Card "@,
        _ => ""@,
    }
}

/// The title of the card popup.
pub fn popup_title(mode: &InputMode) -> (r: &'static str)
    ensures
        r@ == popup_title_text(*mode),
{
    match mode {
        InputMode::AddingCard => " New Card ",
        InputMode::EditingCard { .. } => " Edit Card ",
        _ => "",
    }
}

/// The text of the card detail view: the description, or "(no description)".
pub fn description_text(card: &Card) -> (r: String)
    ensures
        card.description@.len() == 0 ==> r@ == "(no description)"@,
        card.description@.len() > 0 ==> r@ == card.description@,
{
    if chars_of(card.description.as_str()).len() == 0 {
        let mut r = String::new();
        push_all(&mut r, "(no description)");
        proof {
            assert(r@ =~= "(no description)"@);
        }
        r
    } else {
        card.description.clone()
    }
}

/// The title of the card detail view: " column → card ".
pub fn detail_title(column: &str, card: &str) -> (r: String)
    ensures
        r@ == " "@ + column@ + " → "@ + card@ + " "@,
{
    let mut r = String::new();
    push_all(&mut r, " ");
    push_all(&mut r, column);
    push_all(&mut r, " → ");
    push_all(&mut r, card);
    push_all(&mut r, " ");
    proof {
        assert(r@ =~= " "@ + column@ + " → "@ + card@ + " "@);
    }
    r
}

impl App {
    /// Card `card` of column `col`, if both exist.
    pub fn card_at(&self, col: usize, card: usize) -> (r: Option<&Card>)
        ensures
            (col < self.columns.len() && card < self.columns@[col as int].cards.len()) ==> r
                == Some(&self.columns@[col as int].cards@[card as int]),
            !(col < self.columns.len() && card < self.columns@[col as int].cards.len()) ==> r is None,
    {
        if col < self.columns.len() && card < self.columns[col].cards.len() {
            Some(&self.columns[col].cards[card])
        } else {
            None
        }
    }
}

} // verus!

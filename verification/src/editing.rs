//! Cursor movement and editing inside the text buffers of the popups. A cursor
//! is a byte offset into the UTF-8 encoding of its buffer.
use vstd::prelude::*;
use crate::app::App;
use crate::text::{
    boundary_at, byte_len, byte_offset, char_index, char_width, insert_at, lemma_byte_offset_mono,
    lemma_char_index, lemma_encode_concat, lemma_encode_injective,
    lemma_encode_single, lemma_offset_is_boundary, lemma_take_skip_bytes, lemma_utf8_len_push,
    lemma_byte_offset_ends, on_boundary, remove_bytes, utf8_len, utf8_width,
};
use vstd::utf8::{encode_utf8, is_char_boundary_start_end_of_seq, encode_utf8_valid_utf8};

verus! {

/// The greatest boundary below a boundary `c > 0` is the start of the
/// character before it.
proof fn lemma_prev_boundary(s: Seq<char>, c: int, r: int)
    requires
        on_boundary(s, c),
        c > 0,
        0 <= r < c,
        r == 0 || on_boundary(s, r),
        forall|j: int| r < j < c ==> !on_boundary(s, j),
    ensures
        char_index(s, c) >= 1,
        r == byte_offset(s, char_index(s, c) - 1),
{
    lemma_char_index(s, c);
    lemma_byte_offset_ends(s);
    let k = char_index(s, c);
    assert(k != 0);
    let t = byte_offset(s, k - 1) as int;
    lemma_byte_offset_mono(s, k - 1, k);
    lemma_offset_is_boundary(s, k - 1);
    if t > r {
        assert(!on_boundary(s, t));
    }
    if r > t {
        lemma_char_index(s, r);
        let m = char_index(s, r);
        if m <= k - 1 {
            lemma_byte_offset_mono(s, m, k - 1);
        } else {
            lemma_byte_offset_mono(s, k, m);
        }
    }
}

/// The least boundary above a boundary `c` before the end is the start of the
/// character after it.
proof fn lemma_next_boundary(s: Seq<char>, c: int, r: int)
    requires
        on_boundary(s, c),
        c < utf8_len(s),
        c < r,
        on_boundary(s, r),
        forall|j: int| c < j < r ==> !on_boundary(s, j),
    ensures
        char_index(s, c) < s.len(),
        r == byte_offset(s, char_index(s, c) + 1),
{
    lemma_char_index(s, c);
    lemma_byte_offset_ends(s);
    let k = char_index(s, c);
    assert(k != s.len());
    let t = byte_offset(s, k + 1) as int;
    lemma_byte_offset_mono(s, k, k + 1);
    lemma_offset_is_boundary(s, k + 1);
    if t < r {
        assert(!on_boundary(s, t));
    }
    if r < t {
        lemma_char_index(s, r);
        let m = char_index(s, r);
        if m <= k {
            lemma_byte_offset_mono(s, m, k);
        } else {
            lemma_byte_offset_mono(s, k + 1, m);
        }
    }
}

/// Where a cursor on a boundary `c` of `s` goes when moved one character left.
pub open spec fn moved_left(s: Seq<char>, c: int) -> int {
    if c == 0 {
        0
    } else {
        byte_offset(s, char_index(s, c) - 1) as int
    }
}

/// Where a cursor on a boundary `c` of `s` goes when moved one character right.
pub open spec fn moved_right(s: Seq<char>, c: int) -> int {
    if c >= utf8_len(s) {
        c
    } else {
        byte_offset(s, char_index(s, c) + 1) as int
    }
}

/// Moving a cursor that lies on a boundary keeps it on a boundary.
pub proof fn law_moved_cursor_on_boundary(s: Seq<char>, c: int)
    requires
        on_boundary(s, c),
    ensures
        on_boundary(s, moved_left(s, c)),
        on_boundary(s, moved_right(s, c)),
{
    lemma_char_index(s, c);
    lemma_byte_offset_ends(s);
    let k = char_index(s, c);
    if c != 0 {
        assert(k != 0);
        lemma_offset_is_boundary(s, k - 1);
    }
    if c < utf8_len(s) {
        assert(k != s.len());
        lemma_offset_is_boundary(s, k + 1);
    }
}

/// Text and cursor after typing `ch` at the boundary `c` of `s`.
pub open spec fn typed(s: Seq<char>, c: int, ch: char) -> (Seq<char>, int) {
    (s.insert(char_index(s, c), ch), c + char_width(ch))
}

/// Text and cursor after a backspace at the cursor `c` of `s`.
pub open spec fn backspaced(s: Seq<char>, c: int) -> (Seq<char>, int) {
    if c == 0 {
        (s, 0)
    } else {
        let k = char_index(s, c);
        (s.remove(k - 1), byte_offset(s, k - 1) as int)
    }
}

/// Typing a character and then deleting it with backspace gives back the
/// text and the cursor.
pub proof fn law_type_then_backspace(s: Seq<char>, c: int, ch: char)
    requires
        on_boundary(s, c),
    ensures
        backspaced(typed(s, c, ch).0, typed(s, c, ch).1) == (s, c),
{
    lemma_char_index(s, c);
    let k = char_index(s, c);
    let t = s.insert(k, ch);
    assert(t.take(k + 1) =~= s.take(k).push(ch));
    lemma_utf8_len_push(s.take(k), ch);
    assert(byte_offset(t, k + 1) == c + char_width(ch));
    crate::text::lemma_char_width(ch);
    lemma_offset_is_boundary(t, k + 1);
    assert(t.remove(k) =~= s);
    assert(t.take(k) =~= s.take(k));
}

/// Moving right and then left from a boundary before the end comes back to it.
pub proof fn law_right_then_left(s: Seq<char>, c: int)
    requires
        on_boundary(s, c),
        c < utf8_len(s),
    ensures
        char_index(s, c) < s.len(),
        byte_offset(s, char_index(s, byte_offset(s, char_index(s, c) + 1) as int) - 1) == c,
{
    lemma_char_index(s, c);
    lemma_byte_offset_ends(s);
    let k = char_index(s, c);
    assert(k != s.len());
    lemma_offset_is_boundary(s, k + 1);
}

impl App {
    /// Moves `cursor` one character to the left in `buf`: to the greatest
    /// character boundary below it (0 stays 0).
    pub fn cursor_left(buf: &str, cursor: &mut usize)
        ensures
            *old(cursor) == 0 ==> *final(cursor) == 0,
            *old(cursor) > 0 ==> {
                &&& *final(cursor) < *old(cursor)
                &&& (*final(cursor) == 0 || on_boundary(buf@, *final(cursor) as int))
                &&& forall|j: int| *final(cursor) < j < *old(cursor) ==> !on_boundary(buf@, j)
            },
            *old(cursor) > 0 && on_boundary(buf@, *old(cursor) as int) ==> *final(cursor)
                == byte_offset(buf@, char_index(buf@, *old(cursor) as int) - 1),
    {
        if *cursor == 0 {
            return;
        }
        let c0 = *cursor;
        let mut c = c0 - 1;
        while c > 0 && !boundary_at(buf, c)
            invariant
                c < c0,
                forall|j: int| c < j < c0 ==> !on_boundary(buf@, j),
            decreases c,
        {
            c -= 1;
        }
        *cursor = c;
        proof {
            if on_boundary(buf@, c0 as int) {
                lemma_prev_boundary(buf@, c0 as int, c as int);
            }
        }
    }

    /// Moves `cursor` one character to the right in `buf`: to the least
    /// character boundary above it (a cursor at or past the end stays).
    pub fn cursor_right(buf: &str, cursor: &mut usize)
        ensures
            *old(cursor) >= utf8_len(buf@) ==> *final(cursor) == *old(cursor),
            *old(cursor) < utf8_len(buf@) ==> {
                &&& *old(cursor) < *final(cursor) <= utf8_len(buf@)
                &&& on_boundary(buf@, *final(cursor) as int)
                &&& forall|j: int| *old(cursor) < j < *final(cursor) ==> !on_boundary(buf@, j)
            },
            *old(cursor) < utf8_len(buf@) && on_boundary(buf@, *old(cursor) as int) ==> *final(cursor)
                == byte_offset(buf@, char_index(buf@, *old(cursor) as int) + 1),
    {
        let n = byte_len(buf);
        if *cursor >= n {
            return;
        }
        let c0 = *cursor;
        let mut c = c0 + 1;
        proof {
            encode_utf8_valid_utf8(buf@);
            is_char_boundary_start_end_of_seq(encode_utf8(buf@));
        }
        while c < n && !boundary_at(buf, c)
            invariant
                c0 < c <= n,
                n == utf8_len(buf@),
                forall|j: int| c0 < j < c ==> !on_boundary(buf@, j),
            decreases n - c,
        {
            c += 1;
        }
        *cursor = c;
        proof {
            if on_boundary(buf@, c0 as int) {
                lemma_next_boundary(buf@, c0 as int, c as int);
            }
        }
    }

    /// Inserts `ch` at the byte offset `cursor` of `buf` and moves the cursor
    /// past it. The cursor must lie on a character boundary.
    pub fn insert_char(buf: &mut String, cursor: &mut usize, ch: char)
        requires
            on_boundary(old(buf)@, *old(cursor) as int),
        ensures
            (final(buf)@, *final(cursor) as int) == typed(old(buf)@, *old(cursor) as int, ch),
            *final(cursor) == byte_offset(final(buf)@, char_index(old(buf)@, *old(cursor) as int) + 1),
            on_boundary(final(buf)@, *final(cursor) as int),
    {
        let ghost s = buf@;
        let ghost k = char_index(s, *cursor as int);
        proof {
            lemma_char_index(s, *cursor as int);
        }
        let c = *cursor;
        insert_at(buf, c, ch);
        let total = byte_len(buf.as_str());
        let w = utf8_width(ch);
        proof {
            let new_s = s.take(k) + seq![ch] + s.skip(k);
            lemma_take_skip_bytes(s, k);
            lemma_encode_concat(s.take(k), seq![ch]);
            lemma_encode_concat(s.take(k) + seq![ch], s.skip(k));
            lemma_encode_single(ch);
            assert(encode_utf8(buf@) =~= encode_utf8(new_s));
            lemma_encode_injective(buf@, new_s);
            assert(new_s =~= s.insert(k, ch));
            assert(buf@.take(k + 1) =~= s.take(k).push(ch));
            lemma_utf8_len_push(s.take(k), ch);
            lemma_byte_offset_mono(buf@, k + 1, buf@.len() as int);
            lemma_byte_offset_ends(buf@);
            lemma_offset_is_boundary(buf@, k + 1);
        }
        *cursor = c + w;
    }

    /// Deletes the character before byte offset `cursor` of `buf` (backspace)
    /// and moves the cursor to where it started. A cursor at 0 changes nothing;
    /// any other cursor must lie on a character boundary.
    pub fn delete_char_before(buf: &mut String, cursor: &mut usize)
        requires
            *old(cursor) == 0 || on_boundary(old(buf)@, *old(cursor) as int),
        ensures
            (final(buf)@, *final(cursor) as int) == backspaced(old(buf)@, *old(cursor) as int),
            *old(cursor) > 0 ==> 1 <= char_index(old(buf)@, *old(cursor) as int) <= old(buf)@.len(),
            on_boundary(final(buf)@, *final(cursor) as int),
    {
        if *cursor == 0 {
            proof {
                encode_utf8_valid_utf8(buf@);
                is_char_boundary_start_end_of_seq(encode_utf8(buf@));
            }
            return;
        }
        let ghost s = buf@;
        let c0 = *cursor;
        let mut start = c0 - 1;
        while start > 0 && !boundary_at(buf.as_str(), start)
            invariant
                start < c0,
                buf@ == s,
                forall|j: int| start < j < c0 ==> !on_boundary(s, j),
            decreases start,
        {
            start -= 1;
        }
        proof {
            lemma_prev_boundary(s, c0 as int, start as int);
            lemma_char_index(s, c0 as int);
            lemma_offset_is_boundary(s, char_index(s, c0 as int) - 1);
        }
        remove_bytes(buf, start, c0);
        *cursor = start;
        proof {
            let k = char_index(s, c0 as int);
            let new_s = s.take(k - 1) + s.skip(k);
            lemma_take_skip_bytes(s, k - 1);
            lemma_take_skip_bytes(s, k);
            lemma_encode_concat(s.take(k - 1), s.skip(k));
            lemma_encode_injective(buf@, new_s);
            assert(new_s =~= s.remove(k - 1));
            assert(buf@.take(k - 1) =~= s.take(k - 1));
            lemma_offset_is_boundary(buf@, k - 1);
        }
    }
}

} // verus!

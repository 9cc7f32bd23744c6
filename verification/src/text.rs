//! Text primitives: the UTF-8 byte view of strings, whitespace trimming,
//! splitting on a separator, and the few `std` string operations the board
//! editor relies on.
use vstd::prelude::*;
use vstd::utf8::*;
use vstd::string::StrSliceExecFns;

verus! {

// ── UTF-8 byte view ──────────────────────────────────────────────────────────

/// Number of bytes in the UTF-8 encoding of `s`.
pub open spec fn utf8_len(s: Seq<char>) -> nat {
    encode_utf8(s).len()
}

/// Byte offset at which the `k`-th character of `s` starts.
pub open spec fn byte_offset(s: Seq<char>, k: int) -> nat {
    utf8_len(s.take(k))
}

/// `i` is a character boundary of the UTF-8 encoding of `s`
/// (the start, the end, or the first byte of some character).
pub open spec fn on_boundary(s: Seq<char>, i: int) -> bool {
    is_char_boundary(encode_utf8(s), i)
}

/// The character index whose byte offset is `i` (meaningful on a boundary).
pub open spec fn char_index(s: Seq<char>, i: int) -> int {
    choose|k: int| 0 <= k <= s.len() && byte_offset(s, k) == i
}

/// Number of bytes that the UTF-8 encoding of `c` takes.
pub open spec fn char_width(c: char) -> nat {
    encode_scalar(c as u32).len()
}

pub proof fn lemma_encode_concat(a: Seq<char>, b: Seq<char>)
    ensures
        encode_utf8(a + b) == encode_utf8(a) + encode_utf8(b),
    decreases a.len(),
{
    if a.len() == 0 {
        assert(a + b =~= b);
        assert(encode_utf8(a) =~= Seq::<u8>::empty());
        assert(encode_utf8(a) + encode_utf8(b) =~= encode_utf8(b));
    } else {
        lemma_encode_concat(a.drop_first(), b);
        assert((a + b).drop_first() =~= a.drop_first() + b);
        assert((a + b)[0] == a[0]);
        assert(encode_utf8(a + b) =~= encode_scalar(a[0] as u32) + encode_utf8(a.drop_first() + b));
    }
}

pub proof fn lemma_char_width(c: char)
    ensures
        char_width(c) == (if (c as u32) < 0x80 {
            1nat
        } else if (c as u32) < 0x800 {
            2nat
        } else if (c as u32) < 0x10000 {
            3nat
        } else {
            4nat
        }),
        1 <= char_width(c) <= 4,
{
    char_is_scalar(c);
}

pub proof fn lemma_encode_single(c: char)
    ensures
        encode_utf8(seq![c]) == encode_scalar(c as u32),
        utf8_len(seq![c]) == char_width(c),
{
    assert(seq![c].drop_first() =~= Seq::<char>::empty());
    assert(encode_utf8(seq![c]) =~= encode_scalar(c as u32) + encode_utf8(Seq::<char>::empty()));
}

pub proof fn lemma_utf8_len_push(s: Seq<char>, c: char)
    ensures
        utf8_len(s.push(c)) == utf8_len(s) + char_width(c),
{
    lemma_encode_concat(s, seq![c]);
    assert(s + seq![c] =~= s.push(c));
    lemma_encode_single(c);
}

/// Byte offsets grow by the width of each character.
pub proof fn lemma_byte_offset_step(s: Seq<char>, k: int)
    requires
        0 <= k < s.len(),
    ensures
        byte_offset(s, k + 1) == byte_offset(s, k) + char_width(s[k]),
{
    assert(s.take(k + 1) =~= s.take(k).push(s[k]));
    lemma_utf8_len_push(s.take(k), s[k]);
}

pub proof fn lemma_byte_offset_mono(s: Seq<char>, j: int, k: int)
    requires
        0 <= j <= k <= s.len(),
    ensures
        byte_offset(s, j) + (k - j) <= byte_offset(s, k),
        j < k ==> byte_offset(s, j) < byte_offset(s, k),
    decreases k - j,
{
    if j < k {
        lemma_byte_offset_mono(s, j, k - 1);
        lemma_byte_offset_step(s, k - 1);
        lemma_char_width(s[k - 1]);
    }
}

pub proof fn lemma_byte_offset_ends(s: Seq<char>)
    ensures
        byte_offset(s, 0) == 0,
        byte_offset(s, s.len() as int) == utf8_len(s),
{
    assert(s.take(0) =~= Seq::<char>::empty());
    assert(s.take(s.len() as int) =~= s);
}

/// Byte offsets of distinct characters differ.
pub proof fn lemma_byte_offset_injective(s: Seq<char>, j: int, k: int)
    requires
        0 <= j <= s.len(),
        0 <= k <= s.len(),
        byte_offset(s, j) == byte_offset(s, k),
    ensures
        j == k,
{
    if j < k {
        lemma_byte_offset_mono(s, j, k);
    } else if k < j {
        lemma_byte_offset_mono(s, k, j);
    }
}

proof fn lemma_first_scalar_of_encoding(s: Seq<char>)
    requires
        s.len() > 0,
    ensures
        valid_utf8(encode_utf8(s)),
        length_of_first_scalar(encode_utf8(s)) == char_width(s[0]),
        pop_first_scalar(encode_utf8(s)) == encode_utf8(s.drop_first()),
{
    encode_utf8_valid_utf8(s);
    encode_utf8_first_scalar(s);
    let bytes = encode_utf8(s);
    assert(pop_first_scalar(bytes) =~= encode_utf8(s.drop_first()));
}

/// The character boundaries of an encoded string are exactly the byte
/// offsets of its characters.
pub proof fn lemma_boundary_iff(s: Seq<char>, i: int)
    ensures
        on_boundary(s, i) <==> exists|k: int| 0 <= k <= s.len() && #[trigger] byte_offset(s, k) == i,
    decreases s.len(),
{
    encode_utf8_valid_utf8(s);
    lemma_byte_offset_ends(s);
    if i == 0 {
        assert(byte_offset(s, 0) == 0);
    } else if i < 0 || utf8_len(s) < i {
        if exists|k: int| 0 <= k <= s.len() && #[trigger] byte_offset(s, k) == i {
            let k = choose|k: int| 0 <= k <= s.len() && #[trigger] byte_offset(s, k) == i;
            lemma_byte_offset_mono(s, k, s.len() as int);
        }
    } else {
        // 0 < i <= utf8_len(s), hence s is not empty
        if s.len() == 0 {
            assert(encode_utf8(s) =~= Seq::<u8>::empty());
        }
        let t = s.drop_first();
        let w = char_width(s[0]);
        lemma_first_scalar_of_encoding(s);
        lemma_boundary_iff(t, i - w);
        assert(on_boundary(s, i) == on_boundary(t, i - w));
        if on_boundary(t, i - w) {
            let k = choose|k: int| 0 <= k <= t.len() && #[trigger] byte_offset(t, k) == i - w;
            lemma_offset_of_drop_first(s, k + 1);
            assert(byte_offset(s, k + 1) == i);
        }
        if exists|k: int| 0 <= k <= s.len() && #[trigger] byte_offset(s, k) == i {
            let k = choose|k: int| 0 <= k <= s.len() && #[trigger] byte_offset(s, k) == i;
            assert(k != 0);
            lemma_offset_of_drop_first(s, k);
            assert(byte_offset(t, k - 1) == i - w);
        }
    }
}

proof fn lemma_offset_of_drop_first(s: Seq<char>, k: int)
    requires
        1 <= k <= s.len(),
    ensures
        byte_offset(s, k) == char_width(s[0]) + byte_offset(s.drop_first(), k - 1),
{
    assert(s.take(k) =~= seq![s[0]] + s.drop_first().take(k - 1));
    lemma_encode_concat(seq![s[0]], s.drop_first().take(k - 1));
    lemma_encode_single(s[0]);
}

/// Every character offset is a boundary; `char_index` recovers the index.
pub proof fn lemma_offset_is_boundary(s: Seq<char>, k: int)
    requires
        0 <= k <= s.len(),
    ensures
        on_boundary(s, byte_offset(s, k) as int),
        char_index(s, byte_offset(s, k) as int) == k,
{
    lemma_boundary_iff(s, byte_offset(s, k) as int);
    let j = char_index(s, byte_offset(s, k) as int);
    lemma_byte_offset_injective(s, j, k);
}

/// On a boundary, `char_index` is a valid index with that byte offset.
pub proof fn lemma_char_index(s: Seq<char>, i: int)
    requires
        on_boundary(s, i),
    ensures
        0 <= char_index(s, i) <= s.len(),
        byte_offset(s, char_index(s, i)) == i,
{
    lemma_boundary_iff(s, i);
}

/// The encoding determines the characters.
pub proof fn lemma_encode_injective(a: Seq<char>, b: Seq<char>)
    requires
        encode_utf8(a) == encode_utf8(b),
    ensures
        a == b,
{
    encode_utf8_decode_utf8(a);
    encode_utf8_decode_utf8(b);
}

pub proof fn lemma_take_skip_bytes(s: Seq<char>, k: int)
    requires
        0 <= k <= s.len(),
    ensures
        encode_utf8(s).take(byte_offset(s, k) as int) == encode_utf8(s.take(k)),
        encode_utf8(s).skip(byte_offset(s, k) as int) == encode_utf8(s.skip(k)),
{
    assert(s =~= s.take(k) + s.skip(k));
    lemma_encode_concat(s.take(k), s.skip(k));
    assert(encode_utf8(s).take(byte_offset(s, k) as int) =~= encode_utf8(s.take(k)));
    assert(encode_utf8(s).skip(byte_offset(s, k) as int) =~= encode_utf8(s.skip(k)));
}

/// The start and the end of an encoding are character boundaries.
pub proof fn lemma_ends_are_boundaries(s: Seq<char>)
    ensures
        on_boundary(s, 0),
        on_boundary(s, utf8_len(s) as int),
{
    encode_utf8_valid_utf8(s);
    is_char_boundary_start_end_of_seq(encode_utf8(s));
}

// ── Whitespace and trimming ──────────────────────────────────────────────────

/// The Unicode `White_Space` property, as used by `char::is_whitespace`.
pub open spec fn is_white(c: char) -> bool {
    let u = c as u32;
    ||| 0x09 <= u <= 0x0D
    ||| u == 0x20
    ||| u == 0x85
    ||| u == 0xA0
    ||| u == 0x1680
    ||| 0x2000 <= u <= 0x200A
    ||| u == 0x2028
    ||| u == 0x2029
    ||| u == 0x202F
    ||| u == 0x205F
    ||| u == 0x3000
}

/// `s` without its leading whitespace.
pub open spec fn trim_start(s: Seq<char>) -> Seq<char>
    decreases s.len(),
{
    if s.len() > 0 && is_white(s[0]) {
        trim_start(s.drop_first())
    } else {
        s
    }
}

/// `s` without its trailing whitespace.
pub open spec fn trim_end(s: Seq<char>) -> Seq<char>
    decreases s.len(),
{
    if s.len() > 0 && is_white(s.last()) {
        trim_end(s.drop_last())
    } else {
        s
    }
}

/// `s` without leading and trailing whitespace (`str::trim`).
pub open spec fn trim(s: Seq<char>) -> Seq<char> {
    trim_end(trim_start(s))
}

/// Whether `c` has the Unicode `White_Space` property.
pub fn is_whitespace(c: char) -> (r: bool)
    ensures
        r == is_white(c),
{
    let u = c as u32;
    (0x09 <= u && u <= 0x0D) || u == 0x20 || u == 0x85 || u == 0xA0 || u == 0x1680 || (0x2000
        <= u && u <= 0x200A) || u == 0x2028 || u == 0x2029 || u == 0x202F || u == 0x205F || u
        == 0x3000
}

proof fn lemma_trim_start_skip(s: Seq<char>, i: int)
    requires
        0 <= i < s.len(),
        is_white(s[i]),
    ensures
        trim_start(s.skip(i)) == trim_start(s.skip(i + 1)),
{
    assert(s.skip(i).drop_first() =~= s.skip(i + 1));
}

proof fn lemma_trim_end_take(s: Seq<char>, j: int)
    requires
        0 < j <= s.len(),
        is_white(s[j - 1]),
    ensures
        trim_end(s.take(j)) == trim_end(s.take(j - 1)),
{
    assert(s.take(j).drop_last() =~= s.take(j - 1));
}

/// Bounds `(i, j)` such that `trim(v[from..to]) == v[i..j]`.
pub fn trim_bounds(v: &[char], from: usize, to: usize) -> (r: (usize, usize))
    requires
        from <= to <= v@.len(),
    ensures
        from <= r.0 <= r.1 <= to,
        trim(v@.subrange(from as int, to as int)) == v@.subrange(r.0 as int, r.1 as int),
        trim_start(v@.subrange(from as int, to as int)) == v@.subrange(r.0 as int, to as int),
{
    let ghost s = v@.subrange(from as int, to as int);
    let mut i: usize = from;
    assert(s.skip(0) =~= s);
    while i < to && is_whitespace(v[i])
        invariant
            from <= i <= to <= v@.len(),
            s == v@.subrange(from as int, to as int),
            trim_start(s) == trim_start(s.skip(i - from)),
        decreases to - i,
    {
        proof {
            assert(s[i - from] == v@[i as int]);
            lemma_trim_start_skip(s, i - from);
        }
        i += 1;
    }
    let ghost t = s.skip(i - from);
    assert(t =~= v@.subrange(i as int, to as int));
    assert(trim_start(t) == t);
    let mut j: usize = to;
    assert(t.take((to - i) as int) =~= t);
    while j > i && is_whitespace(v[j - 1])
        invariant
            from <= i <= j <= to <= v@.len(),
            t == v@.subrange(i as int, to as int),
            trim_end(t) == trim_end(t.take(j - i)),
        decreases j,
    {
        proof {
            assert(t[j - i - 1] == v@[j - 1]);
            lemma_trim_end_take(t, (j - i) as int);
        }
        j -= 1;
    }
    assert(t.take(j - i) =~= v@.subrange(i as int, j as int));
    assert(trim_end(t.take(j - i)) == t.take(j - i));
    (i, j)
}

// ── Splitting ────────────────────────────────────────────────────────────────

/// The pieces of `s` between occurrences of `sep` (`str::split`): always at
/// least one piece; `k` separators give `k + 1` pieces.
pub open spec fn split_on(s: Seq<char>, sep: char) -> Seq<Seq<char>>
    decreases s.len(),
{
    if s.len() == 0 {
        seq![Seq::<char>::empty()]
    } else {
        let r = split_on(s.drop_last(), sep);
        if s.last() == sep {
            r.push(Seq::<char>::empty())
        } else {
            r.update(r.len() - 1, r.last().push(s.last()))
        }
    }
}

pub proof fn lemma_split_nonempty(s: Seq<char>, sep: char)
    ensures
        split_on(s, sep).len() >= 1,
    decreases s.len(),
{
    if s.len() > 0 {
        lemma_split_nonempty(s.drop_last(), sep);
    }
}

/// Splitting the prefix `s[..i+1]` extends the split of `s[..i]` by one character.
pub proof fn lemma_split_step(s: Seq<char>, sep: char, i: int)
    requires
        0 <= i < s.len(),
    ensures
        split_on(s.take(i + 1), sep) == (if s[i] == sep {
            split_on(s.take(i), sep).push(Seq::<char>::empty())
        } else {
            split_on(s.take(i), sep).update(
                split_on(s.take(i), sep).len() - 1,
                split_on(s.take(i), sep).last().push(s[i]),
            )
        }),
{
    assert(s.take(i + 1).drop_last() =~= s.take(i));
    assert(s.take(i + 1).last() == s[i]);
}


/// The trimmed pieces of `parts` that are not empty, in order.
pub open spec fn nonempty_trimmed(parts: Seq<Seq<char>>) -> Seq<Seq<char>>
    decreases parts.len(),
{
    if parts.len() == 0 {
        Seq::empty()
    } else {
        let r = nonempty_trimmed(parts.drop_last());
        let t = trim(parts.last());
        if t.len() > 0 {
            r.push(t)
        } else {
            r
        }
    }
}

/// The tags written in `s`: its comma-separated pieces, trimmed, without the
/// empty ones.
pub open spec fn tags_in(s: Seq<char>) -> Seq<Seq<char>> {
    nonempty_trimmed(split_on(s, ','))
}


/// Index of the first `c` in `s`, or `s.len()` when there is none.
pub open spec fn position_of(s: Seq<char>, c: char) -> nat
    decreases s.len(),
{
    if s.len() == 0 {
        0
    } else if s[0] == c {
        0
    } else {
        1 + position_of(s.drop_first(), c)
    }
}

pub proof fn lemma_position_of(s: Seq<char>, c: char)
    ensures
        position_of(s, c) <= s.len(),
        position_of(s, c) < s.len() ==> s[position_of(s, c) as int] == c,
        forall|j: int| 0 <= j < position_of(s, c) ==> s[j] != c,
    decreases s.len(),
{
    if s.len() > 0 && s[0] != c {
        lemma_position_of(s.drop_first(), c);
        assert forall|j: int| 0 <= j < position_of(s, c) implies s[j] != c by {
            if j > 0 {
                assert(s[j] == s.drop_first()[j - 1]);
            }
        }
    }
}

/// The first index `i` in `from..to` with `v[i] == c`, or `to`.
pub fn find_char(v: &[char], from: usize, to: usize, c: char) -> (r: usize)
    requires
        from <= to <= v@.len(),
    ensures
        from <= r <= to,
        r - from == position_of(v@.subrange(from as int, to as int), c),
{
    let ghost s = v@.subrange(from as int, to as int);
    let mut i = from;
    while i < to && v[i] != c
        invariant
            from <= i <= to <= v@.len(),
            s == v@.subrange(from as int, to as int),
            forall|j: int| from <= j < i ==> v@[j] != c,
        decreases to - i,
    {
        i += 1;
    }
    proof {
        lemma_position_of(s, c);
        let p = position_of(s, c) as int;
        if p < i - from {
            assert(s[p] == v@[from + p]);
        }
        if p > i - from {
            assert(s[i - from] == v@[i as int]);
        }
    }
    i
}


// ── Tags written out and read back ───────────────────────────────────────────

/// A tag as reading tags produces it: not empty, no surrounding whitespace,
/// no comma.
pub open spec fn clean_tag(t: Seq<char>) -> bool {
    &&& t.len() > 0
    &&& !is_white(t[0])
    &&& !is_white(t.last())
    &&& !t.contains(',')
}

proof fn lemma_split_without_sep(t: Seq<char>, sep: char)
    requires
        !t.contains(sep),
    ensures
        split_on(t, sep) == seq![t],
    decreases t.len(),
{
    if t.len() > 0 {
        assert(!t.drop_last().contains(sep)) by {
            if t.drop_last().contains(sep) {
                let i = choose|i: int| 0 <= i < t.drop_last().len() && t.drop_last()[i] == sep;
                assert(t[i] == sep);
            }
        }
        lemma_split_without_sep(t.drop_last(), sep);
        assert(t.drop_last().push(t.last()) =~= t);
        assert(t.last() != sep) by {
            assert(t[t.len() - 1] == t.last());
        }
        assert(seq![t.drop_last()].update(0, t.drop_last().push(t.last())) =~= seq![t]);
    } else {
        assert(t =~= Seq::<char>::empty());
    }
}

proof fn lemma_split_after_sep(x: Seq<char>, t: Seq<char>, sep: char)
    requires
        !t.contains(sep),
    ensures
        split_on(x.push(sep) + t, sep) == split_on(x, sep).push(t),
    decreases t.len(),
{
    if t.len() == 0 {
        assert(t =~= Seq::<char>::empty());
        assert(x.push(sep) + t =~= x.push(sep));
        assert(x.push(sep).drop_last() =~= x);
        assert(x.push(sep).last() == sep);
    } else {
        assert(!t.drop_last().contains(sep)) by {
            if t.drop_last().contains(sep) {
                let i = choose|i: int| 0 <= i < t.drop_last().len() && t.drop_last()[i] == sep;
                assert(t[i] == sep);
            }
        }
        lemma_split_after_sep(x, t.drop_last(), sep);
        let s = x.push(sep) + t;
        assert(s.drop_last() =~= x.push(sep) + t.drop_last());
        assert(s.last() == t.last());
        assert(t.last() != sep) by {
            assert(t[t.len() - 1] == t.last());
        }
        lemma_split_nonempty(x, sep);
        assert(t.drop_last().push(t.last()) =~= t);
        let r = split_on(x, sep).push(t.drop_last());
        assert(r.last() == t.drop_last());
        assert(r.update(r.len() - 1, r.last().push(t.last())) =~= split_on(x, sep).push(t));
    }
}

/// The pieces that splitting `joined(tags, ", ")` at commas gives: the first
/// tag, then each further tag after a space.
pub open spec fn join_pieces(tags: Seq<Seq<char>>) -> Seq<Seq<char>>
    decreases tags.len(),
{
    if tags.len() <= 1 {
        tags
    } else {
        join_pieces(tags.drop_last()).push(" "@ + tags.last())
    }
}

proof fn lemma_split_joined(tags: Seq<Seq<char>>)
    requires
        tags.len() >= 1,
        forall|i: int| 0 <= i < tags.len() ==> !(#[trigger] tags[i]).contains(','),
    ensures
        split_on(joined(tags, ", "@), ',') == join_pieces(tags),
    decreases tags.len(),
{
    reveal_strlit(", ");
    reveal_strlit(" ");
    if tags.len() == 1 {
        lemma_split_without_sep(tags[0], ',');
        assert(seq![tags[0]] =~= tags);
    } else {
        let init = tags.drop_last();
        assert forall|i: int| 0 <= i < init.len() implies !(#[trigger] init[i]).contains(',') by {
            assert(init[i] == tags[i]);
        }
        lemma_split_joined(init);
        let last = " "@ + tags.last();
        assert(!last.contains(',')) by {
            assert(!tags[tags.len() - 1].contains(','));
            if last.contains(',') {
                let i = choose|i: int| 0 <= i < last.len() && last[i] == ',';
                assert(i != 0);
                assert(tags.last()[i - 1] == ',');
            }
        }
        assert(joined(tags, ", "@) =~= joined(init, ", "@).push(',') + last);
        lemma_split_after_sep(joined(init, ", "@), last, ',');
    }
}

proof fn lemma_trim_clean(t: Seq<char>)
    requires
        t.len() > 0,
        !is_white(t[0]),
        !is_white(t.last()),
    ensures
        trim(t) == t,
        trim(" "@ + t) == t,
{
    reveal_strlit(" ");
    let u = " "@ + t;
    assert(u[0] == ' ');
    assert(u.drop_first() =~= t);
    assert(trim_start(u) == trim_start(t));
}

proof fn lemma_tags_of_pieces(tags: Seq<Seq<char>>)
    requires
        forall|i: int| 0 <= i < tags.len() ==> clean_tag(#[trigger] tags[i]),
    ensures
        nonempty_trimmed(join_pieces(tags)) == tags,
    decreases tags.len(),
{
    if tags.len() == 0 {
    } else if tags.len() == 1 {
        assert(clean_tag(tags[0]));
        lemma_trim_clean(tags[0]);
        assert(tags.drop_last() =~= Seq::<Seq<char>>::empty());
        assert(nonempty_trimmed(Seq::<Seq<char>>::empty()) =~= Seq::<Seq<char>>::empty());
        assert(tags.last() == tags[0]);
        assert(join_pieces(tags) == tags);
        assert(Seq::<Seq<char>>::empty().push(tags[0]) =~= tags);
    } else {
        let init = tags.drop_last();
        assert forall|i: int| 0 <= i < init.len() implies clean_tag(#[trigger] init[i]) by {
            assert(init[i] == tags[i]);
        }
        lemma_tags_of_pieces(init);
        assert(clean_tag(tags[tags.len() - 1]));
        lemma_trim_clean(tags.last());
        let p = join_pieces(tags);
        assert(p == join_pieces(init).push(" "@ + tags.last()));
        assert(p.drop_last() =~= join_pieces(init));
        assert(p.last() == " "@ + tags.last());
        assert(trim(p.last()) == tags.last());
        assert(init.push(tags.last()) =~= tags);
    }
}

/// Tags written out as the edit popup shows them (joined with ", ") read
/// back as the same tags, provided each is clean (as every tag read from
/// text is, see [`law_read_tags_are_clean`]).
pub proof fn law_tags_roundtrip(tags: Seq<Seq<char>>)
    requires
        forall|i: int| 0 <= i < tags.len() ==> clean_tag(#[trigger] tags[i]),
    ensures
        tags_in(joined(tags, ", "@)) == tags,
{
    if tags.len() == 0 {
        assert(tags =~= Seq::<Seq<char>>::empty());
        assert(joined(tags, ", "@) == Seq::<char>::empty());
        assert(split_on(Seq::<char>::empty(), ',') == seq![Seq::<char>::empty()]);
        assert(seq![Seq::<char>::empty()].drop_last() =~= Seq::<Seq<char>>::empty());
        assert(trim(Seq::<char>::empty()) =~= Seq::<char>::empty());
        let parts = seq![Seq::<char>::empty()];
        assert(parts.last() == Seq::<char>::empty());
        assert(nonempty_trimmed(parts.drop_last()) == Seq::<Seq<char>>::empty());
        assert(nonempty_trimmed(parts) == Seq::<Seq<char>>::empty());
        assert(tags_in(joined(tags, ", "@)) == nonempty_trimmed(parts));
    } else {
        assert forall|i: int| 0 <= i < tags.len() implies !(#[trigger] tags[i]).contains(',') by {
            assert(clean_tag(tags[i]));
        }
        lemma_split_joined(tags);
        lemma_tags_of_pieces(tags);
        assert(tags_in(joined(tags, ", "@)) == nonempty_trimmed(join_pieces(tags)));
    }
}

proof fn lemma_trim_start_is_suffix(s: Seq<char>)
    ensures
        exists|k: int| 0 <= k <= s.len() && trim_start(s) == s.skip(k),
        trim_start(s).len() > 0 ==> !is_white(trim_start(s)[0]),
    decreases s.len(),
{
    if s.len() > 0 && is_white(s[0]) {
        lemma_trim_start_is_suffix(s.drop_first());
        let k = choose|k: int| 0 <= k <= s.drop_first().len() && trim_start(s.drop_first()) == s.drop_first().skip(k);
        assert(s.drop_first().skip(k) =~= s.skip(k + 1));
    } else {
        assert(s.skip(0) =~= s);
    }
}

proof fn lemma_trim_end_is_prefix(s: Seq<char>)
    ensures
        exists|k: int| 0 <= k <= s.len() && trim_end(s) == s.take(k),
        trim_end(s).len() > 0 ==> !is_white(trim_end(s).last()),
    decreases s.len(),
{
    if s.len() > 0 && is_white(s.last()) {
        lemma_trim_end_is_prefix(s.drop_last());
        let k = choose|k: int| 0 <= k <= s.drop_last().len() && trim_end(s.drop_last()) == s.drop_last().take(k);
        assert(s.drop_last().take(k) =~= s.take(k));
    } else {
        assert(s.take(s.len() as int) =~= s);
    }
}

proof fn lemma_split_pieces_without_sep(s: Seq<char>, sep: char)
    ensures
        forall|i: int| 0 <= i < split_on(s, sep).len() ==> !(#[trigger] split_on(s, sep)[i]).contains(sep),
    decreases s.len(),
{
    if s.len() > 0 {
        lemma_split_pieces_without_sep(s.drop_last(), sep);
        lemma_split_nonempty(s.drop_last(), sep);
        let r = split_on(s.drop_last(), sep);
        if s.last() != sep {
            let l = r.last().push(s.last());
            assert(!r[r.len() - 1].contains(sep));
            assert(!l.contains(sep)) by {
                if l.contains(sep) {
                    let i = choose|i: int| 0 <= i < l.len() && l[i] == sep;
                    if i < r.last().len() {
                        assert(r.last()[i] == sep);
                    }
                }
            }
        }
    }
}

proof fn lemma_nonempty_trimmed_clean(parts: Seq<Seq<char>>)
    requires
        forall|i: int| 0 <= i < parts.len() ==> !(#[trigger] parts[i]).contains(','),
    ensures
        forall|i: int| 0 <= i < nonempty_trimmed(parts).len() ==> clean_tag(#[trigger] nonempty_trimmed(parts)[i]),
    decreases parts.len(),
{
    if parts.len() > 0 {
        let init = parts.drop_last();
        assert forall|i: int| 0 <= i < init.len() implies !(#[trigger] init[i]).contains(',') by {
            assert(init[i] == parts[i]);
        }
        lemma_nonempty_trimmed_clean(init);
        let p = parts.last();
        let u = trim_start(p);
        let t = trim(p);
        if t.len() > 0 {
            lemma_trim_start_is_suffix(p);
            lemma_trim_end_is_prefix(u);
            let a = choose|k: int| 0 <= k <= p.len() && u == p.skip(k);
            let b = choose|k: int| 0 <= k <= u.len() && t == u.take(k);
            assert(t[0] == u[0]);
            assert(!parts[parts.len() - 1].contains(','));
            assert(!t.contains(',')) by {
                if t.contains(',') {
                    let i = choose|i: int| 0 <= i < t.len() && t[i] == ',';
                    assert(p[a + i] == ',');
                }
            }
            assert(clean_tag(t));
        }
        let r = nonempty_trimmed(init);
        assert(nonempty_trimmed(parts) == (if t.len() > 0 { r.push(t) } else { r }));
        assert forall|i: int| 0 <= i < nonempty_trimmed(parts).len() implies clean_tag(#[trigger] nonempty_trimmed(parts)[i]) by {
            if i < r.len() {
                assert(clean_tag(r[i]));
            }
        }
    }
}

/// Every tag read from text is clean.
pub proof fn law_read_tags_are_clean(s: Seq<char>)
    ensures
        forall|i: int| 0 <= i < tags_in(s).len() ==> clean_tag(#[trigger] tags_in(s)[i]),
{
    lemma_split_pieces_without_sep(s, ',');
    lemma_nonempty_trimmed_clean(split_on(s, ','));
}

// ── Conversions between strings and characters ───────────────────────────────

/// The characters of `s`, in order.
pub fn chars_of(s: &str) -> (r: Vec<char>)
    ensures
        r@ == s@,
{
    let n = s.unicode_len();
    let mut r: Vec<char> = Vec::new();
    let mut i: usize = 0;
    while i < n
        invariant
            n == s@.len(),
            i <= n,
            r@ == s@.take(i as int),
        decreases n - i,
    {
        let c = s.get_char(i);
        r.push(c);
        assert(s@.take(i + 1) =~= s@.take(i as int).push(c));
        i += 1;
    }
    assert(s@.take(n as int) =~= s@);
    r
}

/// A `String` holding the characters `v[from..to]`.
pub fn string_of_range(v: &[char], from: usize, to: usize) -> (r: String)
    requires
        from <= to <= v@.len(),
    ensures
        r@ == v@.subrange(from as int, to as int),
{
    let mut r = String::new();
    let mut i = from;
    while i < to
        invariant
            from <= i <= to <= v@.len(),
            r@ == v@.subrange(from as int, i as int),
        decreases to - i,
    {
        push_char(&mut r, v[i]);
        assert(v@.subrange(from as int, i + 1) =~= v@.subrange(from as int, i as int).push(v@[i as int]));
        i += 1;
    }
    r
}

/// Whether two strings hold the same characters.
pub fn same_text(a: &str, b: &str) -> (r: bool)
    ensures
        r == (a@ == b@),
{
    let va = chars_of(a);
    let vb = chars_of(b);
    if va.len() != vb.len() {
        return false;
    }
    let mut i: usize = 0;
    while i < va.len()
        invariant
            va@ == a@,
            vb@ == b@,
            va@.len() == vb@.len(),
            i <= va@.len(),
            forall|j: int| 0 <= j < i ==> va@[j] == vb@[j],
        decreases va@.len() - i,
    {
        if va[i] != vb[i] {
            return false;
        }
        i += 1;
    }
    assert(va@ =~= vb@);
    true
}

/// Byte length of the UTF-8 encoding of `s` (`str::len`).
pub fn byte_len(s: &str) -> (r: usize)
    ensures
        r == utf8_len(s@),
{
    s.as_bytes().len()
}

/// Whether `i` is a character boundary of `s` (`str::is_char_boundary`).
pub fn boundary_at(s: &str, i: usize) -> (r: bool)
    ensures
        r == on_boundary(s@, i as int),
{
    s.is_char_boundary(i)
}

/// Number of bytes in the UTF-8 encoding of `c` (`char::len_utf8`).
pub fn utf8_width(c: char) -> (r: usize)
    ensures
        r == char_width(c),
{
    proof {
        lemma_char_width(c);
    }
    let u = c as u32;
    if u < 0x80 {
        1
    } else if u < 0x800 {
        2
    } else if u < 0x10000 {
        3
    } else {
        4
    }
}


/// Bound `e` such that `trim_end(v[from..to]) == v[from..e]`.
pub fn trim_end_bound(v: &[char], from: usize, to: usize) -> (r: usize)
    requires
        from <= to <= v@.len(),
    ensures
        from <= r <= to,
        trim_end(v@.subrange(from as int, to as int)) == v@.subrange(from as int, r as int),
{
    let ghost t = v@.subrange(from as int, to as int);
    let mut j: usize = to;
    assert(t.take((to - from) as int) =~= t);
    while j > from && is_whitespace(v[j - 1])
        invariant
            from <= j <= to <= v@.len(),
            t == v@.subrange(from as int, to as int),
            trim_end(t) == trim_end(t.take(j - from)),
        decreases j,
    {
        proof {
            assert(t[j - from - 1] == v@[j - 1]);
            lemma_trim_end_take(t, (j - from) as int);
        }
        j -= 1;
    }
    assert(t.take(j - from) =~= v@.subrange(from as int, j as int));
    j
}

/// The trimmed text of `s` (`str::trim`).
pub fn trimmed(s: &str) -> (r: String)
    ensures
        r@ == trim(s@),
{
    let v = chars_of(s);
    let (a, b) = trim_bounds(v.as_slice(), 0, v.len());
    proof {
        assert(v@.subrange(0, v@.len() as int) =~= v@);
    }
    string_of_range(v.as_slice(), a, b)
}

/// The text of `s` without trailing whitespace (`str::trim_end`).
pub fn trimmed_end(s: &str) -> (r: String)
    ensures
        r@ == trim_end(s@),
{
    let v = chars_of(s);
    let e = trim_end_bound(v.as_slice(), 0, v.len());
    proof {
        assert(v@.subrange(0, v@.len() as int) =~= v@);
    }
    string_of_range(v.as_slice(), 0, e)
}

/// The pieces joined with `sep` between consecutive ones (`[T]::join`).
pub open spec fn joined(parts: Seq<Seq<char>>, sep: Seq<char>) -> Seq<char>
    decreases parts.len(),
{
    if parts.len() == 0 {
        Seq::empty()
    } else if parts.len() == 1 {
        parts[0]
    } else {
        joined(parts.drop_last(), sep) + sep + parts.last()
    }
}

/// `s` with the characters of `t` appended.
pub fn push_all(s: &mut String, t: &str)
    ensures
        final(s)@ == old(s)@ + t@,
{
    let v = chars_of(t);
    let mut i: usize = 0;
    while i < v.len()
        invariant
            v@ == t@,
            i <= v@.len(),
            s@ == old(s)@ + v@.take(i as int),
        decreases v@.len() - i,
    {
        push_char(s, v[i]);
        assert(v@.take(i + 1) =~= v@.take(i as int).push(v@[i as int]));
        assert(old(s)@ + v@.take(i + 1) =~= (old(s)@ + v@.take(i as int)).push(v@[i as int]));
        i += 1;
    }
    assert(v@.take(v@.len() as int) =~= v@);
}

/// The strings of `parts` joined with `sep` between consecutive ones.
pub fn join_with(parts: &Vec<String>, sep: &str) -> (r: String)
    ensures
        r@ == joined(parts@.map_values(|s: String| s@), sep@),
{
    let ghost all = parts@.map_values(|s: String| s@);
    let mut r = String::new();
    let mut i: usize = 0;
    assert(all.take(0) =~= Seq::<Seq<char>>::empty());
    while i < parts.len()
        invariant
            i <= parts@.len(),
            all == parts@.map_values(|s: String| s@),
            r@ == joined(all.take(i as int), sep@),
        decreases parts@.len() - i,
    {
        let ghost before = r@;
        if i > 0 {
            push_all(&mut r, sep);
        }
        push_all(&mut r, parts[i].as_str());
        proof {
            let t = all.take(i + 1);
            assert(t.drop_last() =~= all.take(i as int));
            assert(t.last() == parts@[i as int]@);
            if i == 0 {
                assert(Seq::<char>::empty() + parts@[0]@ =~= parts@[0]@);
            }
        }
        i += 1;
    }
    assert(all.take(parts@.len() as int) =~= all);
    r
}

/// `String::pop`: removes the last character of `s`, if any.
#[verifier::external_body]
pub fn pop_char(s: &mut String)
    ensures
        final(s)@ == (if old(s)@.len() > 0 {
            old(s)@.drop_last()
        } else {
            old(s)@
        }),
{
    s.pop();
}

/// A byte with ASCII upper-case letters mapped to lower case.
pub open spec fn ascii_lower(b: u8) -> u8 {
    if 0x41 <= b <= 0x5A {
        (b + 0x20) as u8
    } else {
        b
    }
}

/// Whether `s` has no characters.
pub fn is_blank_text(s: &str) -> (r: bool)
    ensures
        r == (s@.len() == 0),
{
    s.is_empty()
}

/// `s` equals "yes" ignoring ASCII case (`str::eq_ignore_ascii_case`).
pub open spec fn is_yes(s: Seq<char>) -> bool {
    let b = encode_utf8(s);
    b.len() == 3 && ascii_lower(b[0]) == 0x79 && ascii_lower(b[1]) == 0x65 && ascii_lower(b[2]) == 0x73
}

/// A character below 0x80 is encoded as the one byte of its value; any other
/// character starts with a byte of 0xC0 or more.
pub proof fn lemma_ascii_encoding(c: char)
    ensures
        (c as u32) < 0x80 ==> encode_scalar(c as u32) == seq![c as u8],
        (c as u32) < 0x80 ==> (c as u8) as u32 == c as u32,
        (c as u32) >= 0x80 ==> encode_scalar(c as u32)[0] >= 0xC0,
{
    let x = c as u32;
    char_is_scalar(c);
    if x < 0x80 {
        assert((x & 0x7F) as u8 == x as u8 && (x as u8) as u32 == x) by (bit_vector)
            requires
                x < 0x80,
        ;
        assert(encode_scalar(x) =~= seq![c as u8]);
    } else if x <= 0x7FF {
        assert(0xC0 | ((x >> 6) & 0x1F) as u8 >= 0xC0) by (bit_vector);
    } else if x <= 0xFFFF {
        assert(0xE0 | ((x >> 12) & 0x0F) as u8 >= 0xC0) by (bit_vector);
    } else {
        assert(0xF0 | ((x >> 18) & 0x7) as u8 >= 0xC0) by (bit_vector);
    }
}

/// When the encoding of `s` starts with a byte below 0x80, the first
/// character is that byte, and the rest of the encoding is the encoding of
/// the remaining characters.
proof fn lemma_ascii_head(s: Seq<char>)
    requires
        encode_utf8(s).len() > 0,
        encode_utf8(s)[0] < 0x80,
    ensures
        s.len() > 0,
        s[0] as u32 == encode_utf8(s)[0] as u32,
        encode_utf8(s).drop_first() == encode_utf8(s.drop_first()),
{
    if s.len() == 0 {
        assert(encode_utf8(s) =~= Seq::<u8>::empty());
    }
    lemma_ascii_encoding(s[0]);
    assert(encode_utf8(s).drop_first() =~= encode_utf8(s.drop_first()));
}

/// Characters with the same code are the same character.
proof fn lemma_char_from_code(c: char, d: char)
    ensures
        (c as u32) == (d as u32) ==> c == d,
{
}

/// The encoding of a non-empty text is not empty.
proof fn lemma_encoding_nonempty(s: Seq<char>)
    requires
        s.len() > 0,
    ensures
        encode_utf8(s).len() > 0,
{
    lemma_char_width(s[0]);
}

/// The confirmation text is "yes" ignoring ASCII case exactly when it has
/// three characters, `y` or `Y`, `e` or `E`, `s` or `S`; so an empty, blank
/// or longer text is never a confirmation.
pub proof fn law_yes_is_three_letters(s: Seq<char>)
    ensures
        is_yes(s) <==> (s.len() == 3 && (s[0] == 'y' || s[0] == 'Y') && (s[1] == 'e' || s[1] == 'E') && (
        s[2] == 's' || s[2] == 'S')),
{
    let b = encode_utf8(s);
    if is_yes(s) {
        assert(b[0] == 0x59 || b[0] == 0x79);
        lemma_ascii_head(s);
        let t1 = s.drop_first();
        let b1 = encode_utf8(t1);
        assert(b1.len() == 2 && b1[0] == b[1] && b1[1] == b[2]);
        lemma_ascii_head(t1);
        let t2 = t1.drop_first();
        let b2 = encode_utf8(t2);
        assert(b2.len() == 1 && b2[0] == b[2]);
        lemma_ascii_head(t2);
        let t3 = t2.drop_first();
        assert(encode_utf8(t3).len() == 0);
        if t3.len() > 0 {
            lemma_encoding_nonempty(t3);
        }
        assert(s.len() == 3);
        assert(s[1] == t1[0] && s[2] == t2[0]);
        lemma_char_from_code(s[0], 'y');
        lemma_char_from_code(s[0], 'Y');
        lemma_char_from_code(s[1], 'e');
        lemma_char_from_code(s[1], 'E');
        lemma_char_from_code(s[2], 's');
        lemma_char_from_code(s[2], 'S');
        assert(s[2] == 's' || s[2] == 'S');
    }
    if s.len() == 3 && (s[0] == 'y' || s[0] == 'Y') && (s[1] == 'e' || s[1] == 'E') && (s[2] == 's'
        || s[2] == 'S') {
        lemma_ascii_encoding(s[0]);
        lemma_ascii_encoding(s[1]);
        lemma_ascii_encoding(s[2]);
        assert(s =~= seq![s[0]] + seq![s[1]] + seq![s[2]]);
        lemma_encode_concat(seq![s[0]] + seq![s[1]], seq![s[2]]);
        lemma_encode_concat(seq![s[0]], seq![s[1]]);
        lemma_encode_single(s[0]);
        lemma_encode_single(s[1]);
        lemma_encode_single(s[2]);
        assert(b =~= seq![s[0] as u8, s[1] as u8, s[2] as u8]);
    }
}

fn lower_byte(b: u8) -> (r: u8)
    ensures
        r == ascii_lower(b),
{
    if 0x41 <= b && b <= 0x5A {
        b + 0x20
    } else {
        b
    }
}

/// Whether `s` is "yes" ignoring ASCII case.
pub fn says_yes(s: &str) -> (r: bool)
    ensures
        r == is_yes(s@),
{
    let b = s.as_bytes();
    b.len() == 3 && lower_byte(b[0]) == 0x79 && lower_byte(b[1]) == 0x65 && lower_byte(b[2]) == 0x73
}

// ── std operations that have no specification in vstd ───────────────────────

/// `String::push`: appends `c` to the end of `s`.
#[verifier::external_body]
pub fn push_char(s: &mut String, c: char)
    ensures
        final(s)@ == old(s)@.push(c),
{
    s.push(c);
}

/// `String::insert`: inserts the encoding of `c` at byte position `idx`,
/// which must be a character boundary (the call panics otherwise).
#[verifier::external_body]
pub fn insert_at(s: &mut String, idx: usize, c: char)
    requires
        on_boundary(old(s)@, idx as int),
    ensures
        encode_utf8(final(s)@) == encode_utf8(old(s)@).take(idx as int) + encode_scalar(c as u32)
            + encode_utf8(old(s)@).skip(idx as int),
{
    s.insert(idx, c);
}

/// `String::drain`: removes the bytes `start..end`; both ends must be
/// character boundaries (the call panics otherwise).
#[verifier::external_body]
pub fn remove_bytes(s: &mut String, start: usize, end: usize)
    requires
        start <= end,
        on_boundary(old(s)@, start as int),
        on_boundary(old(s)@, end as int),
    ensures
        encode_utf8(final(s)@) == encode_utf8(old(s)@).take(start as int) + encode_utf8(
            old(s)@,
        ).skip(end as int),
{
    s.drain(start..end);
}

/// What `str::to_lowercase` returns for the characters `s`: the Unicode
/// lowercase form of `s` (a character's mapping may depend on its
/// neighbours, as for a final capital sigma), which depends on `s` alone.
pub uninterp spec fn lowercase(s: Seq<char>) -> Seq<char>;

/// `str::to_lowercase`.
#[verifier::external_body]
pub fn to_lowercase(s: &str) -> (r: String)
    ensures
        r@ == lowercase(s@),
{
    s.to_lowercase()
}

} // verus!

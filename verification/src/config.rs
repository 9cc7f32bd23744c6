//! Configuration: key bindings, colour scheme, and the INI text they are read
//! from.
use vstd::prelude::*;
use crate::text::{
    boundary_at, byte_len, chars_of, find_char, lemma_split_step, lowercase, on_boundary,
    position_of, same_text, split_on, string_of_range, to_lowercase, trim, trim_bounds, trimmed,
    utf8_len,
};
use vstd::utf8::encode_utf8;

verus! {

/// The configuration file written on first run.
pub const DEFAULT_CONFIG: &'static str = r#"
# rkanban configuration file
# Keys can be single characters (a-z, A-Z, 0-9) or special names:
#   up, down, left, right, enter, esc, tab, backspace
# Colors can be named: black, red, green, yellow, blue, magenta, cyan, white,
#   darkgray, lightred, lightgreen, lightyellow, lightblue, lightmagenta, lightcyan, gray
# Or RGB hex: #rrggbb

[keys]
# Navigation
nav_left       = left
nav_right      = right
nav_up         = up
nav_down       = down

# Card actions
add_card       = a
edit_card      = e
view_card      = v
delete_card    = d
move_card_left = h
move_card_right= l
reorder_up     = K
reorder_down   = J

# Column management
add_column     = n
rename_column  = r
delete_column  = x
reorder_col_left  = H
reorder_col_right = L

# General
quit           = q
help           = ?

# Popup keys
popup_next_field = tab
popup_confirm    = enter
popup_cancel     = esc

[colors]
accent         = cyan
selected_bg    = cyan
selected_fg    = black
subtle         = darkgray
warning        = yellow
tag            = magenta
text           = white
background     = black
"#;

// ── Keys ─────────────────────────────────────────────────────────────────────

/// A key that an action can be bound to.
#[derive(Clone, Copy, Debug, PartialEq, Eq, Structural)]
pub enum Key {
    Char(char),
    Up,
    Down,
    Left,
    Right,
    Enter,
    Esc,
    Tab,
    Backspace,
}

/// A key as the terminal reports it; `Other` stands for every key that no
/// binding can name (function keys, Home, ...).
#[derive(Clone, Copy, Debug, PartialEq, Eq, Structural)]
pub enum KeyCode {
    Char(char),
    Up,
    Down,
    Left,
    Right,
    Enter,
    Esc,
    Tab,
    Backspace,
    Other,
}

/// The key a trimmed setting value `text` denotes, given its lowercase form
/// `lowered`: a special name in any case (`up`, `Tab`, ...), or a single
/// one-byte character, which keeps its case (`K` is not `k`), or else text
/// whose lowercase form is a single one-byte character (the Kelvin sign
/// names `k`).
pub open spec fn key_named(text: Seq<char>, lowered: Seq<char>) -> Option<Key> {
    if lowered == "up"@ {
        Some(Key::Up)
    } else if lowered == "down"@ {
        Some(Key::Down)
    } else if lowered == "left"@ {
        Some(Key::Left)
    } else if lowered == "right"@ {
        Some(Key::Right)
    } else if lowered == "enter"@ {
        Some(Key::Enter)
    } else if lowered == "esc"@ {
        Some(Key::Esc)
    } else if lowered == "tab"@ {
        Some(Key::Tab)
    } else if lowered == "backspace"@ {
        Some(Key::Backspace)
    } else if utf8_len(text) == 1 {
        Some(Key::Char(text[0]))
    } else if utf8_len(lowered) == 1 {
        Some(Key::Char(lowered[0]))
    } else {
        None
    }
}

/// The key a setting value denotes.
pub open spec fn key_from_text(s: Seq<char>) -> Option<Key> {
    key_named(trim(s), lowercase(trim(s)))
}

/// Whether the key `code` is the key `key`.
pub open spec fn key_is(key: Key, code: KeyCode) -> bool {
    match (key, code) {
        (Key::Char(a), KeyCode::Char(b)) => a == b,
        (Key::Up, KeyCode::Up) => true,
        (Key::Down, KeyCode::Down) => true,
        (Key::Left, KeyCode::Left) => true,
        (Key::Right, KeyCode::Right) => true,
        (Key::Enter, KeyCode::Enter) => true,
        (Key::Esc, KeyCode::Esc) => true,
        (Key::Tab, KeyCode::Tab) => true,
        (Key::Backspace, KeyCode::Backspace) => true,
        _ => false,
    }
}

impl Key {
    /// The key a setting value names, once trimmed: a special name in any
    /// case, or a single one-byte character (as typed, or else as its
    /// lowercase form).
    pub fn from_str(s: &str) -> (r: Option<Self>)
        ensures
            r == key_from_text(s@),
    {
        let t = trimmed(s);
        let lower = to_lowercase(t.as_str());
        Key::from_name(t.as_str(), lower.as_str())
    }

    /// The key the trimmed text `text` names, given its lowercase form
    /// `lowered`.
    pub fn from_name(text: &str, lowered: &str) -> (r: Option<Self>)
        ensures
            r == key_named(text@, lowered@),
    {
        if same_text(lowered, "up") {
            Some(Key::Up)
        } else if same_text(lowered, "down") {
            Some(Key::Down)
        } else if same_text(lowered, "left") {
            Some(Key::Left)
        } else if same_text(lowered, "right") {
            Some(Key::Right)
        } else if same_text(lowered, "enter") {
            Some(Key::Enter)
        } else if same_text(lowered, "esc") {
            Some(Key::Esc)
        } else if same_text(lowered, "tab") {
            Some(Key::Tab)
        } else if same_text(lowered, "backspace") {
            Some(Key::Backspace)
        } else if byte_len(text) == 1 {
            let v = chars_of(text);
            proof {
                if text@.len() == 0 {
                    assert(encode_utf8(text@) =~= Seq::<u8>::empty());
                }
            }
            Some(Key::Char(v[0]))
        } else if byte_len(lowered) == 1 {
            let v = chars_of(lowered);
            proof {
                if lowered@.len() == 0 {
                    assert(encode_utf8(lowered@) =~= Seq::<u8>::empty());
                }
            }
            Some(Key::Char(v[0]))
        } else {
            None
        }
    }

    /// Whether `code` is this key.
    pub fn matches(&self, code: &KeyCode) -> (r: bool)
        ensures
            r == key_is(*self, *code),
    {
        match (self, code) {
            (Key::Char(a), KeyCode::Char(b)) => *a == *b,
            (Key::Up, KeyCode::Up) => true,
            (Key::Down, KeyCode::Down) => true,
            (Key::Left, KeyCode::Left) => true,
            (Key::Right, KeyCode::Right) => true,
            (Key::Enter, KeyCode::Enter) => true,
            (Key::Esc, KeyCode::Esc) => true,
            (Key::Tab, KeyCode::Tab) => true,
            (Key::Backspace, KeyCode::Backspace) => true,
            _ => false,
        }
    }
}

// ── Key map ──────────────────────────────────────────────────────────────────

/// The key bound to each action.
#[derive(Clone, Copy, Debug, PartialEq, Eq, Structural)]
pub struct KeyMap {
    pub nav_left: Key,
    pub nav_right: Key,
    pub nav_up: Key,
    pub nav_down: Key,
    pub add_card: Key,
    pub edit_card: Key,
    pub view_card: Key,
    pub delete_card: Key,
    pub move_card_left: Key,
    pub move_card_right: Key,
    pub reorder_up: Key,
    pub reorder_down: Key,
    pub add_column: Key,
    pub rename_column: Key,
    pub delete_column: Key,
    pub reorder_col_left: Key,
    pub reorder_col_right: Key,
    pub quit: Key,
    pub help: Key,
    pub popup_next_field: Key,
    pub popup_confirm: Key,
    pub popup_cancel: Key,
}

/// The built-in key bindings.
pub open spec fn default_keymap() -> KeyMap {
    KeyMap {
        nav_left: Key::Left,
        nav_right: Key::Right,
        nav_up: Key::Up,
        nav_down: Key::Down,
        add_card: Key::Char('a'),
        edit_card: Key::Char('e'),
        view_card: Key::Char('v'),
        delete_card: Key::Char('d'),
        move_card_left: Key::Char('h'),
        move_card_right: Key::Char('l'),
        reorder_up: Key::Char('K'),
        reorder_down: Key::Char('J'),
        add_column: Key::Char('n'),
        rename_column: Key::Char('r'),
        delete_column: Key::Char('x'),
        reorder_col_left: Key::Char('H'),
        reorder_col_right: Key::Char('L'),
        quit: Key::Char('q'),
        help: Key::Char('?'),
        popup_next_field: Key::Tab,
        popup_confirm: Key::Enter,
        popup_cancel: Key::Esc,
    }
}

impl Default for KeyMap {
    fn default() -> (r: Self)
        ensures
            r == default_keymap(),
    {
        KeyMap {
            nav_left: Key::Left,
            nav_right: Key::Right,
            nav_up: Key::Up,
            nav_down: Key::Down,
            add_card: Key::Char('a'),
            edit_card: Key::Char('e'),
            view_card: Key::Char('v'),
            delete_card: Key::Char('d'),
            move_card_left: Key::Char('h'),
            move_card_right: Key::Char('l'),
            reorder_up: Key::Char('K'),
            reorder_down: Key::Char('J'),
            add_column: Key::Char('n'),
            rename_column: Key::Char('r'),
            delete_column: Key::Char('x'),
            reorder_col_left: Key::Char('H'),
            reorder_col_right: Key::Char('L'),
            quit: Key::Char('q'),
            help: Key::Char('?'),
            popup_next_field: Key::Tab,
            popup_confirm: Key::Enter,
            popup_cancel: Key::Esc,
        }
    }
}

// ── Colours ──────────────────────────────────────────────────────────────────

/// A terminal colour: one of the sixteen named ones, or 24-bit RGB.
#[derive(Clone, Copy, Debug, PartialEq, Eq, Structural)]
pub enum Color {
    Black,
    Red,
    Green,
    Yellow,
    Blue,
    Magenta,
    Cyan,
    White,
    Gray,
    DarkGray,
    LightRed,
    LightGreen,
    LightYellow,
    LightBlue,
    LightMagenta,
    LightCyan,
    Rgb(u8, u8, u8),
}

/// The colour a (lowercased) name denotes.
pub open spec fn color_named(s: Seq<char>) -> Option<Color> {
    if s == "black"@ {
        Some(Color::Black)
    } else if s == "red"@ {
        Some(Color::Red)
    } else if s == "green"@ {
        Some(Color::Green)
    } else if s == "yellow"@ {
        Some(Color::Yellow)
    } else if s == "blue"@ {
        Some(Color::Blue)
    } else if s == "magenta"@ {
        Some(Color::Magenta)
    } else if s == "cyan"@ {
        Some(Color::Cyan)
    } else if s == "white"@ {
        Some(Color::White)
    } else if s == "darkgray"@ {
        Some(Color::DarkGray)
    } else if s == "lightred"@ {
        Some(Color::LightRed)
    } else if s == "lightgreen"@ {
        Some(Color::LightGreen)
    } else if s == "lightyellow"@ {
        Some(Color::LightYellow)
    } else if s == "lightblue"@ {
        Some(Color::LightBlue)
    } else if s == "lightmagenta"@ {
        Some(Color::LightMagenta)
    } else if s == "lightcyan"@ {
        Some(Color::LightCyan)
    } else if s == "gray"@ {
        Some(Color::Gray)
    } else {
        None
    }
}

/// Value of an ASCII hexadecimal digit byte.
pub open spec fn hex_digit(b: u8) -> Option<u8> {
    if 0x30 <= b <= 0x39 {
        Some((b - 0x30) as u8)
    } else if 0x61 <= b <= 0x66 {
        Some((b - 0x57) as u8)
    } else if 0x41 <= b <= 0x46 {
        Some((b - 0x37) as u8)
    } else {
        None
    }
}

/// The byte written by the two hex digits `x y`; `None` unless both are
/// hex digits.
pub open spec fn hex_pair(x: u8, y: u8) -> Option<u8> {
    if hex_digit(x) is Some && hex_digit(y) is Some {
        Some((16 * hex_digit(x)->0 + hex_digit(y)->0) as u8)
    } else {
        None
    }
}

/// `s` has the shape `#` followed by six bytes.
pub open spec fn is_hex_form(s: Seq<char>) -> bool {
    s.len() > 0 && s[0] == '#' && utf8_len(s) == 7
}

/// Reading the `#rrggbb` form of `s` two bytes at a time would cut a
/// character in two (slicing `s` there panics).
pub open spec fn color_split_panics(s: Seq<char>) -> bool {
    let b = encode_utf8(s);
    is_hex_form(s) && (!on_boundary(s, 3) || (hex_pair(b[1], b[2]) is Some && !on_boundary(s, 5)))
}

/// The colour a lowercased value denotes: `#rrggbb` or a colour name.
pub open spec fn color_of(s: Seq<char>) -> Option<Color> {
    let b = encode_utf8(s);
    if is_hex_form(s) {
        match (hex_pair(b[1], b[2]), hex_pair(b[3], b[4]), hex_pair(b[5], b[6])) {
            (Some(r), Some(g), Some(bl)) => Some(Color::Rgb(r, g, bl)),
            _ => None,
        }
    } else {
        color_named(s)
    }
}

/// The colour of a lowercased value: `None` when reading it two bytes at a
/// time would cut a character in two, `Some(None)` when it names no colour.
pub open spec fn color_value_of(s: Seq<char>) -> Option<Option<Color>> {
    if color_split_panics(s) {
        None
    } else {
        Some(color_of(s))
    }
}

/// Each of the sixteen colour names denotes the colour of that name, as a
/// setting value.
pub proof fn law_color_names()
    ensures
        color_value_of("black"@) == Some(Some(Color::Black)),
        color_value_of("red"@) == Some(Some(Color::Red)),
        color_value_of("green"@) == Some(Some(Color::Green)),
        color_value_of("yellow"@) == Some(Some(Color::Yellow)),
        color_value_of("blue"@) == Some(Some(Color::Blue)),
        color_value_of("magenta"@) == Some(Some(Color::Magenta)),
        color_value_of("cyan"@) == Some(Some(Color::Cyan)),
        color_value_of("white"@) == Some(Some(Color::White)),
        color_value_of("gray"@) == Some(Some(Color::Gray)),
        color_value_of("darkgray"@) == Some(Some(Color::DarkGray)),
        color_value_of("lightred"@) == Some(Some(Color::LightRed)),
        color_value_of("lightgreen"@) == Some(Some(Color::LightGreen)),
        color_value_of("lightyellow"@) == Some(Some(Color::LightYellow)),
        color_value_of("lightblue"@) == Some(Some(Color::LightBlue)),
        color_value_of("lightmagenta"@) == Some(Some(Color::LightMagenta)),
        color_value_of("lightcyan"@) == Some(Some(Color::LightCyan)),
{
    reveal_strlit("black");
    reveal_strlit("red");
    reveal_strlit("green");
    reveal_strlit("yellow");
    reveal_strlit("blue");
    reveal_strlit("magenta");
    reveal_strlit("cyan");
    reveal_strlit("white");
    reveal_strlit("gray");
    reveal_strlit("darkgray");
    reveal_strlit("lightred");
    reveal_strlit("lightgreen");
    reveal_strlit("lightyellow");
    reveal_strlit("lightblue");
    reveal_strlit("lightmagenta");
    reveal_strlit("lightcyan");
    assert(!is_hex_form("black"@) && color_named("black"@) == Some(Color::Black));
    assert(!is_hex_form("red"@) && color_named("red"@) == Some(Color::Red));
    assert(!is_hex_form("green"@) && color_named("green"@) == Some(Color::Green));
    assert(!is_hex_form("yellow"@) && color_named("yellow"@) == Some(Color::Yellow));
    assert(!is_hex_form("blue"@) && color_named("blue"@) == Some(Color::Blue));
    assert(!is_hex_form("magenta"@) && color_named("magenta"@) == Some(Color::Magenta));
    assert(!is_hex_form("cyan"@) && color_named("cyan"@) == Some(Color::Cyan));
    assert(!is_hex_form("white"@) && color_named("white"@) == Some(Color::White));
    assert(!is_hex_form("gray"@) && color_named("gray"@) == Some(Color::Gray));
    assert(!is_hex_form("darkgray"@) && color_named("darkgray"@) == Some(Color::DarkGray));
    assert(!is_hex_form("lightred"@) && color_named("lightred"@) == Some(Color::LightRed));
    assert(!is_hex_form("lightgreen"@) && color_named("lightgreen"@) == Some(Color::LightGreen));
    assert(!is_hex_form("lightyellow"@) && color_named("lightyellow"@) == Some(Color::LightYellow));
    assert(!is_hex_form("lightblue"@) && color_named("lightblue"@) == Some(Color::LightBlue));
    assert(!is_hex_form("lightmagenta"@) && color_named("lightmagenta"@) == Some(Color::LightMagenta));
    assert("lightcyan"@[5] != "lightblue"@[5]);
    assert(!is_hex_form("lightcyan"@) && color_named("lightcyan"@) == Some(Color::LightCyan));
}

fn hex_digit_value(b: u8) -> (r: Option<u8>)
    ensures
        r == hex_digit(b),
{
    if 0x30 <= b && b <= 0x39 {
        Some(b - 0x30)
    } else if 0x61 <= b && b <= 0x66 {
        Some(b - 0x57)
    } else if 0x41 <= b && b <= 0x46 {
        Some(b - 0x37)
    } else {
        None
    }
}

fn hex_pair_value(x: u8, y: u8) -> (r: Option<u8>)
    ensures
        r == hex_pair(x, y),
{
    match (hex_digit_value(x), hex_digit_value(y)) {
        (Some(h), Some(l)) => Some(16 * h + l),
        _ => None,
    }
}

fn color_by_name(s: &str) -> (r: Option<Color>)
    ensures
        r == color_named(s@),
{
    if same_text(s, "black") {
        Some(Color::Black)
    } else if same_text(s, "red") {
        Some(Color::Red)
    } else if same_text(s, "green") {
        Some(Color::Green)
    } else if same_text(s, "yellow") {
        Some(Color::Yellow)
    } else if same_text(s, "blue") {
        Some(Color::Blue)
    } else if same_text(s, "magenta") {
        Some(Color::Magenta)
    } else if same_text(s, "cyan") {
        Some(Color::Cyan)
    } else if same_text(s, "white") {
        Some(Color::White)
    } else if same_text(s, "darkgray") {
        Some(Color::DarkGray)
    } else if same_text(s, "lightred") {
        Some(Color::LightRed)
    } else if same_text(s, "lightgreen") {
        Some(Color::LightGreen)
    } else if same_text(s, "lightyellow") {
        Some(Color::LightYellow)
    } else if same_text(s, "lightblue") {
        Some(Color::LightBlue)
    } else if same_text(s, "lightmagenta") {
        Some(Color::LightMagenta)
    } else if same_text(s, "lightcyan") {
        Some(Color::LightCyan)
    } else if same_text(s, "gray") {
        Some(Color::Gray)
    } else {
        None
    }
}

/// The colour of a lowercased, trimmed value: `#rrggbb` or a colour name.
/// `None` when the six bytes after `#` cannot be read two at a time without
/// cutting a character in two; `Some(None)` when the value names no colour.
pub fn color_value(s: &str) -> (r: Option<Option<Color>>)
    ensures
        r == color_value_of(s@),
{
    let n = byte_len(s);
    let v = chars_of(s);
    if n == 7 && v.len() > 0 && v[0] == '#' {
        let bytes = s.as_bytes();
        if !boundary_at(s, 3) {
            return None;
        }
        let r = match hex_pair_value(bytes[1], bytes[2]) {
            Some(r) => r,
            None => return Some(None),
        };
        if !boundary_at(s, 5) {
            return None;
        }
        let g = match hex_pair_value(bytes[3], bytes[4]) {
            Some(g) => g,
            None => return Some(None),
        };
        let b = match hex_pair_value(bytes[5], bytes[6]) {
            Some(b) => b,
            None => return Some(None),
        };
        Some(Some(Color::Rgb(r, g, b)))
    } else {
        Some(color_by_name(s))
    }
}

/// The colour a setting value denotes, after trimming and lowercasing it
/// (`None`: see [`color_value`]).
pub fn parse_color(s: &str) -> (r: Option<Option<Color>>)
    ensures
        r == color_value_of(lowercase(trim(s@))),
{
    let v = chars_of(s);
    let (a, b) = trim_bounds(v.as_slice(), 0, v.len());
    let t = string_of_range(v.as_slice(), a, b);
    proof {
        assert(v@.subrange(0, v@.len() as int) =~= v@);
    }
    let lower = to_lowercase(t.as_str());
    color_value(lower.as_str())
}

/// The colour of each part of the interface.
#[derive(Clone, Copy, Debug, PartialEq, Eq, Structural)]
pub struct ColorScheme {
    pub accent: Color,
    pub selected_bg: Color,
    pub selected_fg: Color,
    pub subtle: Color,
    pub warning: Color,
    pub tag: Color,
    pub text: Color,
    pub background: Color,
}

/// The built-in colour scheme.
pub open spec fn default_colors() -> ColorScheme {
    ColorScheme {
        accent: Color::Cyan,
        selected_bg: Color::Cyan,
        selected_fg: Color::Black,
        subtle: Color::DarkGray,
        warning: Color::Yellow,
        tag: Color::Magenta,
        text: Color::White,
        background: Color::Black,
    }
}

impl Default for ColorScheme {
    fn default() -> (r: Self)
        ensures
            r == default_colors(),
    {
        ColorScheme {
            accent: Color::Cyan,
            selected_bg: Color::Cyan,
            selected_fg: Color::Black,
            subtle: Color::DarkGray,
            warning: Color::Yellow,
            tag: Color::Magenta,
            text: Color::White,
            background: Color::Black,
        }
    }
}

/// Key bindings and colours.
#[derive(Clone, Copy, Debug, PartialEq, Eq, Structural)]
pub struct Config {
    pub keys: KeyMap,
    pub colors: ColorScheme,
}

impl Default for Config {
    fn default() -> (r: Self)
        ensures
            r == (Config { keys: default_keymap(), colors: default_colors() }),
    {
        Config { keys: KeyMap::default(), colors: ColorScheme::default() }
    }
}

// ── INI text ─────────────────────────────────────────────────────────────────

/// What one line of INI text says, as plain values.
pub enum IniLineView {
    Blank,
    Header(Seq<char>),
    Setting(Seq<char>, Seq<char>),
}

/// What one line of INI text says: nothing (blank, comment, or no `=`), a
/// section header `[name]`, or a setting `key = value`, with the raw name or
/// key (not yet lowercased) and the value up to an inline comment, all trimmed.
#[derive(Debug)]
pub enum IniLine {
    Blank,
    Header(String),
    Setting(String, String),
}

impl View for IniLine {
    type V = IniLineView;

    open spec fn view(&self) -> IniLineView {
        match self {
            IniLine::Blank => IniLineView::Blank,
            IniLine::Header(h) => IniLineView::Header(h@),
            IniLine::Setting(k, v) => IniLineView::Setting(k@, v@),
        }
    }
}

/// Where an inline comment starts in a (trimmed) value: at the first `#`
/// after its first character, so that a value may itself start with `#`
/// (`accent = #89b4fa # blue`); the length of the value when there is none.
pub open spec fn comment_start(val: Seq<char>) -> int {
    if val.len() == 0 {
        0
    } else {
        1 + position_of(val.drop_first(), '#') as int
    }
}

/// The meaning of one line of INI text.
pub open spec fn line_meaning(line: Seq<char>) -> IniLineView {
    let t = trim(line);
    if t.len() == 0 || t[0] == '#' || t[0] == ';' {
        IniLineView::Blank
    } else if t[0] == '[' && t.last() == ']' {
        IniLineView::Header(trim(t.subrange(1, t.len() - 1)))
    } else if position_of(t, '=') < t.len() {
        let p = position_of(t, '=') as int;
        let val = trim(t.skip(p + 1));
        IniLineView::Setting(trim(t.take(p)), trim(val.take(comment_start(val))))
    } else {
        IniLineView::Blank
    }
}

fn classify(v: &[char], from: usize, to: usize) -> (r: IniLine)
    requires
        from <= to <= v@.len(),
    ensures
        r@ == line_meaning(v@.subrange(from as int, to as int)),
{
    let ghost line = v@.subrange(from as int, to as int);
    let (a, b) = trim_bounds(v, from, to);
    let ghost t = v@.subrange(a as int, b as int);
    if a == b || v[a] == '#' || v[a] == ';' {
        return IniLine::Blank;
    }
    if v[a] == '[' && v[b - 1] == ']' {
        let (c, d) = trim_bounds(v, a + 1, b - 1);
        proof {
            assert(t.subrange(1, t.len() - 1) =~= v@.subrange(a + 1, b - 1));
        }
        return IniLine::Header(string_of_range(v, c, d));
    }
    let p = find_char(v, a, b, '=');
    if p < b {
        let (ka, kb) = trim_bounds(v, a, p);
        let (va, vb) = trim_bounds(v, p + 1, b);
        let h = if va == vb { va } else { find_char(v, va + 1, vb, '#') };
        let (wa, wb) = trim_bounds(v, va, h);
        proof {
            assert(t.take(p - a) =~= v@.subrange(a as int, p as int));
            assert(t.skip(p - a + 1) =~= v@.subrange(p + 1, b as int));
            let val = v@.subrange(va as int, vb as int);
            if va < vb {
                assert(val.drop_first() =~= v@.subrange(va + 1, vb as int));
            }
            assert(val.take(h - va) =~= v@.subrange(va as int, h as int));
        }
        IniLine::Setting(string_of_range(v, ka, kb), string_of_range(v, wa, wb))
    } else {
        IniLine::Blank
    }
}

impl IniLine {
    /// What the line `line` says.
    pub fn parse(line: &str) -> (r: IniLine)
        ensures
            r@ == line_meaning(line@),
    {
        let v = chars_of(line);
        proof {
            assert(v@.subrange(0, v@.len() as int) =~= v@);
        }
        classify(v.as_slice(), 0, v.len())
    }
}

/// One setting: `key = value` under `[section]`.
#[derive(Debug)]
pub struct IniEntry {
    pub section: String,
    pub key: String,
    pub value: String,
}

/// The settings of an INI text, in the order they appear.
#[derive(Debug)]
pub struct Ini {
    pub entries: Vec<IniEntry>,
}

/// The settings as `(section, key, value)` triples.
pub open spec fn entries_view(v: Seq<IniEntry>) -> Seq<(Seq<char>, Seq<char>, Seq<char>)> {
    v.map_values(|e: IniEntry| (e.section@, e.key@, e.value@))
}

/// The value of the last setting of `key` in `section`.
pub open spec fn lookup(es: Seq<(Seq<char>, Seq<char>, Seq<char>)>, section: Seq<char>, key: Seq<char>) -> Option<Seq<char>>
    decreases es.len(),
{
    if es.len() == 0 {
        None
    } else if es.last().0 == section && es.last().1 == key {
        Some(es.last().2)
    } else {
        lookup(es.drop_last(), section, key)
    }
}

/// The settings of `lines` and the section in force after them. Section
/// names and keys are lowercased; before any header the section is empty.
pub open spec fn ini_state(lines: Seq<Seq<char>>) -> (Seq<(Seq<char>, Seq<char>, Seq<char>)>, Seq<char>)
    decreases lines.len(),
{
    if lines.len() == 0 {
        (Seq::empty(), Seq::empty())
    } else {
        let (es, sec) = ini_state(lines.drop_last());
        match line_meaning(lines.last()) {
            IniLineView::Blank => (es, sec),
            IniLineView::Header(h) => (es, lowercase(h)),
            IniLineView::Setting(k, v) => (es.push((sec, lowercase(k), v)), sec),
        }
    }
}

/// The settings of an INI text, line by line.
pub open spec fn ini_entries(text: Seq<char>) -> Seq<(Seq<char>, Seq<char>, Seq<char>)> {
    ini_state(split_on(text, '\n')).0
}

/// The settings of the INI text `text`.
pub fn parse_ini(text: &str) -> (r: Ini)
    ensures
        entries_view(r.entries@) == ini_entries(text@),
{
    let v = chars_of(text);
    let mut entries: Vec<IniEntry> = Vec::new();
    let mut section = String::new();
    let mut start: usize = 0;
    let mut i: usize = 0;
    let ghost mut done: Seq<Seq<char>> = Seq::empty();
    assert(v@.take(0) =~= Seq::<char>::empty());
    assert(v@.subrange(0, 0) =~= Seq::<char>::empty());
    while i < v.len()
        invariant
            v@ == text@,
            start <= i <= v@.len(),
            split_on(v@.take(i as int), '\n') == done.push(v@.subrange(start as int, i as int)),
            entries_view(entries@) == ini_state(done).0,
            section@ == ini_state(done).1,
        decreases v@.len() - i,
    {
        proof {
            lemma_split_step(v@, '\n', i as int);
        }
        if v[i] == '\n' {
            let ghost line = v@.subrange(start as int, i as int);
            add_line(v.as_slice(), start, i, &mut entries, &mut section);
            proof {
                assert((done.push(line)).drop_last() =~= done);
                done = done.push(line);
                assert(v@.subrange(i + 1, i + 1) =~= Seq::<char>::empty());
            }
            start = i + 1;
        } else {
            proof {
                assert(v@.subrange(start as int, i + 1) =~= v@.subrange(start as int, i as int).push(v@[i as int]));
            }
        }
        i += 1;
    }
    let ghost line = v@.subrange(start as int, v@.len() as int);
    add_line(v.as_slice(), start, v.len(), &mut entries, &mut section);
    proof {
        assert((done.push(line)).drop_last() =~= done);
        assert(v@.take(v@.len() as int) =~= v@);
    }
    Ini { entries }
}

/// Takes in the line `v[from..to]`.
fn add_line(v: &[char], from: usize, to: usize, entries: &mut Vec<IniEntry>, section: &mut String)
    requires
        from <= to <= v@.len(),
    ensures
        ({
            let line = v@.subrange(from as int, to as int);
            let es = entries_view(old(entries)@);
            let sec = old(section)@;
            (entries_view(final(entries)@), final(section)@) == match line_meaning(line) {
                IniLineView::Blank => (es, sec),
                IniLineView::Header(h) => (es, lowercase(h)),
                IniLineView::Setting(k, val) => (es.push((sec, lowercase(k), val)), sec),
            }
        }),
{
    match classify(v, from, to) {
        IniLine::Blank => {},
        IniLine::Header(h) => {
            *section = to_lowercase(h.as_str());
        },
        IniLine::Setting(k, val) => {
            let key = to_lowercase(k.as_str());
            entries.push(IniEntry { section: section.clone(), key, value: val });
            proof {
                assert(entries_view(final(entries)@) =~= entries_view(old(entries)@).push((old(section)@, key@, val@)));
            }
        },
    }
}

impl Ini {
    /// The value of the last setting of `key` in `section`.
    pub fn get(&self, section: &str, key: &str) -> (r: Option<String>)
        ensures
            match r {
                Some(v) => lookup(entries_view(self.entries@), section@, key@) == Some(v@),
                None => lookup(entries_view(self.entries@), section@, key@) is None,
            },
    {
        let ghost es = entries_view(self.entries@);
        let mut i = self.entries.len();
        assert(es.take(i as int) =~= es);
        while i > 0
            invariant
                i <= self.entries@.len(),
                es == entries_view(self.entries@),
                lookup(es, section@, key@) == lookup(es.take(i as int), section@, key@),
            decreases i,
        {
            let e = &self.entries[i - 1];
            proof {
                assert(es.take(i as int).drop_last() =~= es.take(i - 1));
                assert(es.take(i as int).last() == es[i - 1]);
            }
            if same_text(e.section.as_str(), section) && same_text(e.key.as_str(), key) {
                return Some(e.value.clone());
            }
            i -= 1;
        }
        None
    }
}

// ── Configuration from INI text ──────────────────────────────────────────────

/// The key bound to `name` by the `[keys]` section, or `default`.
pub open spec fn key_setting(es: Seq<(Seq<char>, Seq<char>, Seq<char>)>, name: Seq<char>, default: Key) -> Key {
    match lookup(es, "keys"@, name) {
        Some(v) => match key_from_text(v) {
            Some(k) => k,
            None => default,
        },
        None => default,
    }
}

/// The colour set for `name` by the `[colors]` section, or `default`;
/// `None` when reading the value would cut a character in two.
pub open spec fn color_setting(es: Seq<(Seq<char>, Seq<char>, Seq<char>)>, name: Seq<char>, default: Color) -> Option<Color> {
    match lookup(es, "colors"@, name) {
        Some(v) => match color_value_of(lowercase(trim(v))) {
            Some(Some(c)) => Some(c),
            Some(None) => Some(default),
            None => None,
        },
        None => Some(default),
    }
}

/// The key bindings that the settings `es` give.
pub open spec fn keys_from(es: Seq<(Seq<char>, Seq<char>, Seq<char>)>) -> KeyMap {
    let d = default_keymap();
    KeyMap {
        nav_left: key_setting(es, "nav_left"@, d.nav_left),
        nav_right: key_setting(es, "nav_right"@, d.nav_right),
        nav_up: key_setting(es, "nav_up"@, d.nav_up),
        nav_down: key_setting(es, "nav_down"@, d.nav_down),
        add_card: key_setting(es, "add_card"@, d.add_card),
        edit_card: key_setting(es, "edit_card"@, d.edit_card),
        view_card: key_setting(es, "view_card"@, d.view_card),
        delete_card: key_setting(es, "delete_card"@, d.delete_card),
        move_card_left: key_setting(es, "move_card_left"@, d.move_card_left),
        move_card_right: key_setting(es, "move_card_right"@, d.move_card_right),
        reorder_up: key_setting(es, "reorder_up"@, d.reorder_up),
        reorder_down: key_setting(es, "reorder_down"@, d.reorder_down),
        add_column: key_setting(es, "add_column"@, d.add_column),
        rename_column: key_setting(es, "rename_column"@, d.rename_column),
        delete_column: key_setting(es, "delete_column"@, d.delete_column),
        reorder_col_left: key_setting(es, "reorder_col_left"@, d.reorder_col_left),
        reorder_col_right: key_setting(es, "reorder_col_right"@, d.reorder_col_right),
        quit: key_setting(es, "quit"@, d.quit),
        help: key_setting(es, "help"@, d.help),
        popup_next_field: key_setting(es, "popup_next_field"@, d.popup_next_field),
        popup_confirm: key_setting(es, "popup_confirm"@, d.popup_confirm),
        popup_cancel: key_setting(es, "popup_cancel"@, d.popup_cancel),
    }
}

/// The colour scheme that the settings `es` give, or `None` when one of the
/// colour values cannot be read (see [`color_value`]).
pub open spec fn colors_from(es: Seq<(Seq<char>, Seq<char>, Seq<char>)>) -> Option<ColorScheme> {
    let d = default_colors();
    let accent = color_setting(es, "accent"@, d.accent);
    let selected_bg = color_setting(es, "selected_bg"@, d.selected_bg);
    let selected_fg = color_setting(es, "selected_fg"@, d.selected_fg);
    let subtle = color_setting(es, "subtle"@, d.subtle);
    let warning = color_setting(es, "warning"@, d.warning);
    let tag = color_setting(es, "tag"@, d.tag);
    let text = color_setting(es, "text"@, d.text);
    let background = color_setting(es, "background"@, d.background);
    if accent is Some && selected_bg is Some && selected_fg is Some && subtle is Some
        && warning is Some && tag is Some && text is Some && background is Some {
        Some(
            ColorScheme {
                accent: accent->0,
                selected_bg: selected_bg->0,
                selected_fg: selected_fg->0,
                subtle: subtle->0,
                warning: warning->0,
                tag: tag->0,
                text: text->0,
                background: background->0,
            },
        )
    } else {
        None
    }
}

/// The configuration that the settings `es` give.
pub open spec fn config_from(es: Seq<(Seq<char>, Seq<char>, Seq<char>)>) -> Option<Config> {
    match colors_from(es) {
        Some(colors) => Some(Config { keys: keys_from(es), colors }),
        None => None,
    }
}

fn key_of(ini: &Ini, name: &str, default: Key) -> (r: Key)
    ensures
        r == key_setting(entries_view(ini.entries@), name@, default),
{
    match ini.get("keys", name) {
        Some(val) => match Key::from_str(val.as_str()) {
            Some(k) => k,
            None => default,
        },
        None => default,
    }
}

fn color_of_setting(ini: &Ini, name: &str, default: Color) -> (r: Option<Color>)
    ensures
        r == color_setting(entries_view(ini.entries@), name@, default),
{
    match ini.get("colors", name) {
        Some(val) => match parse_color(val.as_str()) {
            Some(Some(c)) => Some(c),
            Some(None) => Some(default),
            None => None,
        },
        None => Some(default),
    }
}

impl Config {
    /// The configuration the settings of `ini` give: each binding and colour
    /// that a setting names validly, the built-in one otherwise. `None` when
    /// a colour value cannot be read two bytes at a time (see [`color_value`]).
    pub fn from_ini(ini: &Ini) -> (r: Option<Config>)
        ensures
            r == config_from(entries_view(ini.entries@)),
    {
        let d = KeyMap::default();
        let keys = KeyMap {
            nav_left: key_of(ini, "nav_left", d.nav_left),
            nav_right: key_of(ini, "nav_right", d.nav_right),
            nav_up: key_of(ini, "nav_up", d.nav_up),
            nav_down: key_of(ini, "nav_down", d.nav_down),
            add_card: key_of(ini, "add_card", d.add_card),
            edit_card: key_of(ini, "edit_card", d.edit_card),
            view_card: key_of(ini, "view_card", d.view_card),
            delete_card: key_of(ini, "delete_card", d.delete_card),
            move_card_left: key_of(ini, "move_card_left", d.move_card_left),
            move_card_right: key_of(ini, "move_card_right", d.move_card_right),
            reorder_up: key_of(ini, "reorder_up", d.reorder_up),
            reorder_down: key_of(ini, "reorder_down", d.reorder_down),
            add_column: key_of(ini, "add_column", d.add_column),
            rename_column: key_of(ini, "rename_column", d.rename_column),
            delete_column: key_of(ini, "delete_column", d.delete_column),
            reorder_col_left: key_of(ini, "reorder_col_left", d.reorder_col_left),
            reorder_col_right: key_of(ini, "reorder_col_right", d.reorder_col_right),
            quit: key_of(ini, "quit", d.quit),
            help: key_of(ini, "help", d.help),
            popup_next_field: key_of(ini, "popup_next_field", d.popup_next_field),
            popup_confirm: key_of(ini, "popup_confirm", d.popup_confirm),
            popup_cancel: key_of(ini, "popup_cancel", d.popup_cancel),
        };
        let c = ColorScheme::default();
        let accent = color_of_setting(ini, "accent", c.accent);
        let selected_bg = color_of_setting(ini, "selected_bg", c.selected_bg);
        let selected_fg = color_of_setting(ini, "selected_fg", c.selected_fg);
        let subtle = color_of_setting(ini, "subtle", c.subtle);
        let warning = color_of_setting(ini, "warning", c.warning);
        let tag = color_of_setting(ini, "tag", c.tag);
        let text = color_of_setting(ini, "text", c.text);
        let background = color_of_setting(ini, "background", c.background);
        match (accent, selected_bg, selected_fg, subtle, warning, tag, text, background) {
            (
                Some(accent),
                Some(selected_bg),
                Some(selected_fg),
                Some(subtle),
                Some(warning),
                Some(tag),
                Some(text),
                Some(background),
            ) => Some(
                Config {
                    keys,
                    colors: ColorScheme {
                        accent,
                        selected_bg,
                        selected_fg,
                        subtle,
                        warning,
                        tag,
                        text,
                        background,
                    },
                },
            ),
            _ => None,
        }
    }

    /// The configuration the INI text `text` gives (see [`Config::from_ini`]).
    pub fn from_text(text: &str) -> (r: Option<Config>)
        ensures
            r == config_from(ini_entries(text@)),
    {
        let ini = parse_ini(text);
        Config::from_ini(&ini)
    }
}

} // verus!

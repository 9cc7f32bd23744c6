use rkanban::config::{
    color_value, parse_color, parse_ini, Color, ColorScheme, Config, IniLine, Key, KeyCode, KeyMap,
    DEFAULT_CONFIG,
};

#[test]
fn key_names() {
    assert_eq!(Key::from_str("up"), Some(Key::Up));
    assert_eq!(Key::from_str(" Down "), Some(Key::Down));
    assert_eq!(Key::from_str("LEFT"), Some(Key::Left));
    assert_eq!(Key::from_str("right"), Some(Key::Right));
    assert_eq!(Key::from_str("enter"), Some(Key::Enter));
    assert_eq!(Key::from_str("Esc"), Some(Key::Esc));
    assert_eq!(Key::from_str("tab"), Some(Key::Tab));
    assert_eq!(Key::from_str("backspace"), Some(Key::Backspace));
    assert_eq!(Key::from_str("a"), Some(Key::Char('a')));
    assert_eq!(Key::from_str("?"), Some(Key::Char('?')));
    assert_eq!(Key::from_str("K"), Some(Key::Char('K')));
    assert_eq!(Key::from_str(" UP "), Some(Key::Up));
    assert_eq!(Key::from_str("ab"), None);
    assert_eq!(Key::from_str(""), None);
    assert_eq!(Key::from_str("é"), None);
    assert_eq!(Key::from_str("\u{212A}"), Some(Key::Char('k')));
    assert_eq!(Key::from_str(" \u{212A} "), Some(Key::Char('k')));
}

#[test]
fn key_from_name_reads_special_names_from_the_lowercase_form() {
    assert_eq!(Key::from_name("Up", "up"), Some(Key::Up));
    assert_eq!(Key::from_name("K", "k"), Some(Key::Char('K')));
    assert_eq!(Key::from_name("Up", "Up"), None);
    assert_eq!(Key::from_name("ß", "ß"), None);
    assert_eq!(Key::from_name("\u{212A}", "k"), Some(Key::Char('k')));
}

#[test]
fn key_matches_codes() {
    assert!(Key::Char('a').matches(&KeyCode::Char('a')));
    assert!(!Key::Char('a').matches(&KeyCode::Char('b')));
    assert!(Key::Up.matches(&KeyCode::Up));
    assert!(!Key::Up.matches(&KeyCode::Down));
    assert!(Key::Backspace.matches(&KeyCode::Backspace));
    assert!(!Key::Esc.matches(&KeyCode::Other));
    assert!(!Key::Tab.matches(&KeyCode::Char('\t')));
}

#[test]
fn ini_lines() {
    assert!(matches!(IniLine::parse("   "), IniLine::Blank));
    assert!(matches!(IniLine::parse("# note = 1"), IniLine::Blank));
    assert!(matches!(IniLine::parse("; note"), IniLine::Blank));
    assert!(matches!(IniLine::parse("no equals"), IniLine::Blank));
    match IniLine::parse("  [ Keys ]  ") {
        IniLine::Header(h) => assert_eq!(h, "Keys"),
        other => panic!("{:?}", other),
    }
    match IniLine::parse(" Quit = q # leave ") {
        IniLine::Setting(k, v) => {
            assert_eq!(k, "Quit");
            assert_eq!(v, "q");
        },
        other => panic!("{:?}", other),
    }
    match IniLine::parse("accent = #89b4fa # blue") {
        IniLine::Setting(k, v) => {
            assert_eq!(k, "accent");
            assert_eq!(v, "#89b4fa");
        },
        other => panic!("{:?}", other),
    }
    match IniLine::parse("help = #") {
        IniLine::Setting(_, v) => assert_eq!(v, "#"),
        other => panic!("{:?}", other),
    }
    match IniLine::parse("a = b = c") {
        IniLine::Setting(k, v) => {
            assert_eq!(k, "a");
            assert_eq!(v, "b = c");
        },
        other => panic!("{:?}", other),
    }
}

#[test]
fn ini_sections_and_last_setting_wins() {
    let ini = parse_ini("top = 1\n[Keys]\nQuit = x\nquit = y # later\r\n\n[colors]\naccent = red\n");
    assert_eq!(ini.get("", "top").as_deref(), Some("1"));
    assert_eq!(ini.get("keys", "quit").as_deref(), Some("y"));
    assert_eq!(ini.get("colors", "accent").as_deref(), Some("red"));
    assert_eq!(ini.get("keys", "accent"), None);
    assert_eq!(ini.entries.len(), 4);
}

#[test]
fn colors() {
    assert_eq!(parse_color("#89b4fa"), Some(Some(Color::Rgb(0x89, 0xb4, 0xfa))));
    assert_eq!(parse_color(" #89B4FA "), Some(Some(Color::Rgb(0x89, 0xb4, 0xfa))));
    assert_eq!(parse_color("Cyan"), Some(Some(Color::Cyan)));
    assert_eq!(parse_color("darkgray"), Some(Some(Color::DarkGray)));
    assert_eq!(parse_color("lightmagenta"), Some(Some(Color::LightMagenta)));
    assert_eq!(parse_color("purple"), Some(None));
    assert_eq!(parse_color("#zzzzzz"), Some(None));
    assert_eq!(parse_color("#12345"), Some(None));
    assert_eq!(parse_color("#+f+f+f"), Some(None));
    assert_eq!(parse_color("#+f0000"), Some(None));
    assert_eq!(parse_color("#Ff0010"), Some(Some(Color::Rgb(255, 0, 16))));
    // the third byte starts inside a character: reading it would cut it
    assert_eq!(parse_color("#aé€"), None);
    // the first pair is invalid, so the rest is never read
    assert_eq!(color_value("#é€x"), Some(None));
}

#[test]
fn defaults() {
    let k = KeyMap::default();
    assert_eq!(k.nav_left, Key::Left);
    assert_eq!(k.reorder_up, Key::Char('K'));
    assert_eq!(k.popup_cancel, Key::Esc);
    let c = ColorScheme::default();
    assert_eq!(c.accent, Color::Cyan);
    assert_eq!(c.subtle, Color::DarkGray);
    assert_eq!(Config::default().keys, k);
}

#[test]
fn catppuccin_colors_from_text() {
    let text = "[colors]\naccent      = #89b4fa\nselected_bg = #89b4fa\nselected_fg = #1e1e2e\nsubtle      = #585b70\nwarning     = #f9e2af\ntag         = #cba6f7\ntext        = #cdd6f4\nbackground  = #1e1e2e\n";
    let cfg = Config::from_text(text).unwrap();
    assert_eq!(cfg.colors.accent, Color::Rgb(0x89, 0xb4, 0xfa));
    assert_eq!(cfg.colors.selected_fg, Color::Rgb(0x1e, 0x1e, 0x2e));
    assert_eq!(cfg.colors.tag, Color::Rgb(0xcb, 0xa6, 0xf7));
    assert_eq!(cfg.colors.background, Color::Rgb(0x1e, 0x1e, 0x2e));
}

#[test]
fn config_from_default_text() {
    let cfg = Config::from_text(DEFAULT_CONFIG).unwrap();
    assert_eq!(cfg.colors, ColorScheme::default());
    assert_eq!(cfg.keys.nav_up, Key::Up);
    assert_eq!(cfg.keys.quit, Key::Char('q'));
    assert_eq!(cfg.keys.reorder_up, Key::Char('K'));
    assert_eq!(cfg.keys.reorder_col_left, Key::Char('H'));
    // the file written on first run gives the built-in configuration
    assert_eq!(cfg, Config::default());
}

#[test]
fn config_settings_override_defaults() {
    let cfg = Config::from_text("[keys]\nquit = x\nhelp = nonsense\n[colors]\naccent = #010203\ntag = nocolor\n").unwrap();
    assert_eq!(cfg.keys.quit, Key::Char('x'));
    assert_eq!(cfg.keys.help, Key::Char('?'));
    assert_eq!(cfg.colors.accent, Color::Rgb(1, 2, 3));
    assert_eq!(cfg.colors.tag, Color::Magenta);
    assert!(Config::from_text("[colors]\nwarning = #aé€\n").is_none());
}

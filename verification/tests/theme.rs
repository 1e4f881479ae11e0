//! Themes and the theme library.

use soltty::theme::{parse_user_theme, Theme};
use soltty::theme_lib::ThemeLib;

fn theme(name: &str) -> Theme {
    Theme {
        name: name.to_string(),
        bg: [0x28, 0x2a, 0x36],
        fg: [0xf8, 0xf8, 0xf2],
        cursor_bg: [0xf8, 0xf8, 0xf2],
        cursor_fg: [0x28, 0x2a, 0x36],
        palette: [[0; 3]; 16],
    }
}

fn library() -> ThemeLib {
    ThemeLib::load(vec![theme("Zenburn"), theme("Dracula"), theme("Dracula Pro"), theme("alabaster")], Vec::new())
}

    #[test]
    fn parses_minimal_theme() {
        // Triple `#` delimiter so the `"#` sequences inside don't close the raw string.
        let src = r###"
[colors.primary]
background = "#000000"
foreground = "#ffffff"
[colors.normal]
black = "#111111"
red = "#222222"
green = "#333333"
yellow = "#444444"
blue = "#555555"
magenta = "#666666"
cyan = "#777777"
white = "#888888"
[colors.bright]
black = "#aaaaaa"
red = "#bbbbbb"
green = "#cccccc"
yellow = "#dddddd"
blue = "#eeeeee"
magenta = "#fefefe"
cyan = "#fdfdfd"
white = "#ffffff"
"###;
        let t = parse_user_theme("MyTheme", src).unwrap();
        assert_eq!(t.bg, [0, 0, 0]);
        assert_eq!(t.fg, [0xff, 0xff, 0xff]);
        assert_eq!(t.palette[0], [0x11, 0x11, 0x11]);
        assert_eq!(t.palette[15], [0xff, 0xff, 0xff]);
        // Cursor colors default to fg/bg when unspecified.
        assert_eq!(t.cursor_bg, t.fg);
        assert_eq!(t.cursor_fg, t.bg);
    }

    #[test]
    fn lib_finds_dracula() {
        let lib = library();
        assert!(lib.find("Dracula").is_some());
        assert!(lib.find("DrAcUlA").is_some());
        assert!(lib.find("dracu").is_some()); // substring
    }

    #[test]
    fn lib_default_is_dracula() {
        let lib = library();
        assert_eq!(lib.default().name.to_lowercase(), "dracula");
    }

//! Configuration, themes and decisions at the start.

use soltty::conf::{read_line, strip_comment, Line};
use soltty::config::{parse, read_u32, reads_as_float, Config};
use soltty::picker::Picker;
use soltty::startup::{
    choose_program, choose_theme, default_shell, is_switched_on, pick_surface, score, SurfaceKind,
    ThemeChoice, TimingRing, FRAME_SLOTS,
};
use soltty::text::{is_white_space, str_is, to_ascii_lower, trimmed};
use soltty::theme::{bad_color_message, parse_hex, parse_user_theme, Theme};
use soltty::theme_lib::{pick_by_name, ThemeLib};

fn chars(s: &str) -> Vec<char> {
    s.chars().collect()
}

fn theme(name: &str, shade: u8) -> Theme {
    Theme {
        name: name.to_string(),
        bg: [shade; 3],
        fg: [1; 3],
        cursor_bg: [2; 3],
        cursor_fg: [3; 3],
        palette: [[4; 3]; 16],
    }
}

fn names(lib: &ThemeLib) -> Vec<String> {
    lib.names()
}

#[test]
fn comments_do_not_matter() {
    let with = parse("theme = \"X\" # note\n# all of it\nframe_hz = 90 # hz").unwrap();
    let without = parse("theme = \"X\"\n\nframe_hz = 90").unwrap();
    assert_eq!(with.theme, without.theme);
    assert_eq!(with.frame_hz, Some(90));
    assert_eq!(strip_comment(&chars("a = '#' # x")), 8);
    assert_eq!(strip_comment(&chars("no comment")), 10);
}

#[test]
fn every_spelling_of_the_vi_binding() {
    for src in [
        "vi_key = \"ctrl+x\"",
        "[keybinds]\nvi_mode = \"ctrl+x\"",
        "[keybinds]\nvi_keybind = 'ctrl+x'",
    ] {
        assert_eq!(parse(src).unwrap().vi_keybind.as_deref(), Some("ctrl+x"), "{src}");
    }
}

#[test]
fn errors_name_the_line_and_the_cause() {
    assert_eq!(
        parse("\nframe_hz = x").unwrap_err(),
        "line 2: bad frame_hz: invalid digit found in string"
    );
    assert_eq!(
        parse("frame_hz = \"\"").unwrap_err(),
        "line 1: bad frame_hz: cannot parse integer from empty string"
    );
    assert_eq!(
        parse("frame_hz = 4294967296").unwrap_err(),
        "line 1: bad frame_hz: number too large to fit in target type"
    );
    assert_eq!(
        parse("font_size = 1,5").unwrap_err(),
        "line 1: bad font_size: invalid float literal"
    );
    assert_eq!(
        parse("font_size = ''").unwrap_err(),
        "line 1: bad font_size: cannot parse float from empty string"
    );
    assert!(parse("a = 1\nwhat").unwrap_err().starts_with("line 2: "));
}

#[test]
fn numbers_read_as_the_standard_library_reads_them() {
    for s in [
        "", "+", "-", "1", "+1", "-1", "007", "1.5", ".5", "5.", ".", "1e3", "1e", "1e+", "1E-9", "inf",
        "-INF", "Infinity", "nan", "+NaN", "0x1", "1_0", " 1", "4294967295", "4294967296", "--1", "1e3.0",
    ] {
        assert_eq!(reads_as_float(&chars(s)), s.parse::<f64>().is_ok(), "{s:?}");
        assert_eq!(
            read_u32(&chars(s)),
            s.parse::<u32>().map_err(|e| e.to_string()),
            "{s:?}"
        );
    }
}

#[test]
fn lines_are_blank_sections_or_pairs() {
    assert!(matches!(read_line(&chars("  # x")), Line::Blank));
    assert!(matches!(read_line(&chars("[a]")), Line::Section(name) if name == chars("a")));
    match read_line(&chars("k = v # c")) {
        Line::Pair(k, v) => assert_eq!((k, v), (chars("k"), chars("v"))),
        _ => panic!("not a pair"),
    }
    assert!(matches!(read_line(&chars("k v")), Line::Malformed));
}

#[test]
fn white_space_and_case_are_those_of_the_standard_library() {
    for n in 0..0x11_0000u32 {
        if let Some(c) = char::from_u32(n) {
            assert_eq!(is_white_space(c), c.is_whitespace(), "{n:x}");
            assert_eq!(to_ascii_lower(c), c.to_ascii_lowercase(), "{n:x}");
        }
    }
    assert_eq!(trimmed(&chars("\u{3000} a b\t\n")), chars("a b"));
    assert!(str_is("é", "é") && !str_is("é", "e"));
}

#[test]
fn colours_are_six_hex_digits() {
    assert_eq!(parse_hex(&chars("#1a2B3c")), Some([0x1a, 0x2b, 0x3c]));
    assert_eq!(parse_hex(&chars("#12345")), None);
    assert_eq!(parse_hex(&chars("#12345g")), None);
}

const COLORS: &str = "[colors.normal]\nblack='#000000'\nred='#010000'\ngreen='#020000'\nyellow='#030000'\nblue='#040000'\nmagenta='#050000'\ncyan='#060000'\nwhite='#070000'\n[colors.bright]\nblack='#080000'\nred='#090000'\ngreen='#0a0000'\nyellow='#0b0000'\nblue='#0c0000'\nmagenta='#0d0000'\ncyan='#0e0000'\nwhite='#0f0000'\n";

#[test]
fn a_theme_without_a_part_is_an_error() {
    let whole = format!("[colors.primary]\nbackground='#111111'\nforeground='#222222'\n{COLORS}");
    let t = parse_user_theme("mine", &whole).unwrap();
    assert_eq!(t.name, "mine");
    assert_eq!(t.palette[13], [0x0d, 0, 0]);
    assert_eq!(
        parse_user_theme("x", COLORS).err().unwrap(),
        "missing colors.primary.background"
    );
    let no_fg = format!("[colors.primary]\nbackground='#111111'\n{COLORS}");
    assert_eq!(
        parse_user_theme("x", &no_fg).err().unwrap(),
        "missing colors.primary.foreground"
    );
    let no_palette = "[colors.primary]\nbackground='#111111'\nforeground='#222222'\n";
    assert!(parse_user_theme("x", no_palette)
        .err()
        .unwrap()
        .starts_with("missing palette index 0"));
    assert_eq!(
        parse_user_theme("x", "[colors.primary]\nbackground = \"t\u{e9}\\\"x\"").err().unwrap(),
        format!("line 2: bad color {:?}", "t\u{e9}\\\"x")
    );
}

#[test]
fn the_library_is_sorted_and_complete() {
    let lib = ThemeLib::load(
        vec![theme("zeta", 1), theme("Alpha", 2), theme("mid", 3)],
        vec![theme("beta", 4)],
    );
    assert_eq!(names(&lib), ["Alpha", "beta", "mid", "zeta"]);
    assert_eq!(lib.len(), 4);
}

#[test]
fn a_user_theme_replaces_the_one_of_its_name() {
    let lib = ThemeLib::load(vec![theme("Dracula", 1)], vec![theme("dracula", 9)]);
    assert_eq!(lib.len(), 1);
    assert_eq!(lib.find("DRACULA").unwrap().bg, [9; 3]);
}

#[test]
fn names_are_compared_in_lower_case_of_any_script() {
    let lib = ThemeLib::load(vec![theme("ÉTÉ", 1), theme("Dracula", 2)], vec![]);
    assert_eq!(lib.find("été").unwrap().bg, [1; 3]);
    assert!(lib.find("ete").is_none());
}

#[test]
fn the_exact_name_comes_before_a_part_of_one() {
    let lib = ThemeLib::load(vec![theme("Gruvbox Dark", 1), theme("Gruvbox", 2)], vec![]);
    assert_eq!(lib.find("gruvbox").unwrap().bg, [2; 3]);
    assert_eq!(lib.find("dark").unwrap().bg, [1; 3]);
    assert_eq!(lib.position("Gruvbox Dark"), Some(1));
    assert_eq!(lib.position("gruvbox dark"), Some(1));
    assert_eq!(lib.position("dark"), None);
    let keys = vec![chars("aab"), chars("ab"), chars("b")];
    let lengths = vec![3usize, 2, 1];
    assert_eq!(pick_by_name(&keys, &lengths, &chars("ab")), Some(1));
    assert_eq!(pick_by_name(&keys, &lengths, &chars("zz")), None);
}

#[test]
fn the_theme_to_begin_with() {
    let lib = ThemeLib::load(vec![theme("Dracula", 1), theme("Other", 2)], vec![]);
    assert!(matches!(choose_theme(&lib, Some("oth"), None), ThemeChoice::Theme(n) if n == "Other"));
    assert!(matches!(choose_theme(&lib, Some("nope"), Some("Other")), ThemeChoice::NotFound));
    assert!(matches!(choose_theme(&lib, None, Some("nope")), ThemeChoice::Instead(n) if n == "Dracula"));
    assert!(matches!(choose_theme(&lib, None, None), ThemeChoice::Theme(n) if n == "Dracula"));
    let without = ThemeLib::load(vec![theme("B", 1), theme("A", 2)], vec![]);
    assert_eq!(without.default().name, "A");
}

#[test]
fn the_picker_moves_and_stays_in_view() {
    let all: Vec<Theme> = (0..30).map(|i| theme(&format!("T{i:02}"), i)).collect();
    let lib = ThemeLib::load(all, vec![]);
    let mut p = Picker::new(&lib, "T05");
    assert_eq!((p.cursor(), p.original()), (5, 5));
    p.move_down();
    p.move_up();
    assert_eq!(p.cursor(), 5);
    p.page_down(8);
    assert_eq!(p.cursor(), 13);
    p.page_up(99);
    assert_eq!(p.cursor(), 0);
    p.end();
    assert_eq!(p.cursor(), 29);
    let layout = p.layout(20, 80);
    assert!(layout.scroll <= 29 && 29 < layout.scroll + layout.list_visible);
    p.home();
    let layout = p.layout(20, 80);
    assert_eq!(layout.scroll, 0);
    assert_eq!(p.current(&lib).name, "T00");
    assert_eq!(p.cancel(&lib).name, "T05");
    assert_eq!(p.themes().len(), 30);
}

#[test]
fn the_program_to_run() {
    assert_eq!(default_shell(None), "/bin/sh");
    assert_eq!(default_shell(Some("/bin/zsh")), "/bin/zsh");
    let command = ["vim".to_string(), "-R".to_string()];
    assert_eq!(choose_program(&command, None), ("vim".to_string(), vec!["-R".to_string()]));
    assert_eq!(choose_program(&[], Some("/bin/fish")), ("/bin/fish".to_string(), vec![]));
}

#[test]
fn the_plainest_surface_wins() {
    let kind = |samples, alpha, depth, stencil| SurfaceKind { samples, alpha, depth, stencil };
    assert_eq!(score(kind(4, 8, 24, 8)), 106);
    assert_eq!(score(kind(0, 0, 0, 0)), 0);
    let kinds = [kind(0, 8, 0, 0), kind(4, 0, 24, 8), kind(0, 0, 24, 0), kind(0, 0, 0, 8)];
    assert_eq!(pick_surface(&kinds), Some(2));
    assert_eq!(pick_surface(&[]), None);
}

#[test]
fn switches_of_the_environment() {
    assert!(is_switched_on(Some("1")) && is_switched_on(Some("TRUE")));
    assert!(!is_switched_on(Some("0")) && !is_switched_on(Some("yes")) && !is_switched_on(None));
}

#[test]
fn a_slot_is_read_only_after_it_was_written() {
    let mut ring = TimingRing::new();
    let read: Vec<Option<usize>> = (0..7).map(|_| ring.advance()).collect();
    assert_eq!(FRAME_SLOTS, 4);
    assert_eq!(read, [None, None, None, None, Some(1), Some(2), Some(3)]);
}

#[test]
fn the_last_user_theme_of_a_name_stays() {
    let lib = ThemeLib::load(
        vec![theme("Nord", 1), theme("Dracula", 2)],
        vec![theme("nord", 3), theme("Own", 4), theme("NORD", 5)],
    );
    assert_eq!(names(&lib), ["Dracula", "NORD", "Own"]);
    assert_eq!(lib.find("nord").unwrap().bg, [5; 3]);
}

#[test]
fn a_section_may_be_left_out() {
    for (key, section) in [
        ("theme", "appearance"),
        ("font", "appearance"),
        ("font_bold", "appearance"),
        ("font_italic", "appearance"),
        ("font_bold_italic", "appearance"),
        ("font_size", "appearance"),
        ("frame_hz", "behavior"),
        ("vi_key", "keybinds"),
        ("vi_mode", "keybinds"),
        ("vi_keybind", "keybinds"),
    ] {
        let bare = parse(&format!("{key} = 77")).unwrap();
        let sectioned = parse(&format!("[{section}]\n{key} = 77")).unwrap();
        let values = |c: &Config| {
            [
                c.theme.clone(),
                c.font.clone(),
                c.font_bold.clone(),
                c.font_italic.clone(),
                c.font_bold_italic.clone(),
                c.font_size.clone(),
                c.frame_hz.map(|n| n.to_string()),
                c.vi_keybind.clone(),
            ]
        };
        assert_eq!(values(&bare), values(&sectioned), "{key}");
        let given: Vec<String> = values(&bare).into_iter().flatten().collect();
        assert_eq!(given, ["77"], "{key}");
    }
}

#[test]
fn the_message_for_a_bad_colour() {
    assert_eq!(bad_color_message(12, "\"red\""), "line 12: bad color \"red\"");
}

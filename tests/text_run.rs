use std::collections::hash_map::DefaultHasher;
use std::hash::{Hash, Hasher};

use text_runs::builder::build_text_runs;
use text_runs::cell::{
    Cell, CursorKey, CursorStyle, Flags, Indexed, Point, RenderableCellContent, BOLD, HIDDEN,
    INVERSE, MAX_ZEROWIDTH_CHARS, UNDERLINE,
};
use text_runs::color::{Color, Config, List, NamedColor, Rgb, ALPHA_OPAQUE, ALPHA_TRANSPARENT};
use text_runs::text_run::{RunStart, TextRun, TextRunContent};

const WHITE: Rgb = Rgb { r: 255, g: 255, b: 255 };
const BLACK: Rgb = Rgb { r: 0, g: 0, b: 0 };
const GREY: Rgb = Rgb { r: 128, g: 128, b: 128 };
const THEME_FG: Rgb = Rgb { r: 200, g: 200, b: 190 };
const THEME_BG: Rgb = Rgb { r: 20, g: 20, b: 30 };

fn palette() -> List {
    List {
        indexed: (0..256u32).map(|i| Rgb { r: i as u8, g: 1, b: 2 }).collect(),
        foreground: THEME_FG,
        background: THEME_BG,
        cursor: GREY,
    }
}

fn no_overrides() -> Config {
    Config { selection_background: None, selection_text: None, draw_bold_text_with_bright_colors: false }
}

fn start(fg: Color, bg: Color, selected: bool, bits: u16) -> RunStart {
    RunStart { line: 0, column: 0, fg, bg, selected, flags: Flags { bits } }
}

fn cell_at(column: usize, c: char, fg: Color, bg: Color, bits: u16) -> Indexed<Cell> {
    Indexed { line: 7, column, inner: Cell::new(c, fg, bg, Flags { bits }) }
}

fn plain(column: usize, c: char) -> Indexed<Cell> {
    cell_at(column, c, Color::Spec(WHITE), Color::Spec(BLACK), 0)
}

fn chars_of(run: &TextRun) -> String {
    match &run.content {
        TextRunContent::CharRun(s, _) => s.iter().collect(),
        TextRunContent::Cursor(_) => panic!("cursor run"),
    }
}

fn run(span: (usize, usize), line: usize, fg: Rgb, bg: Rgb, alpha: f32, bits: u16, text: &str) -> TextRun {
    TextRun {
        line,
        span,
        content: TextRunContent::CharRun(text.chars().collect(), text.chars().map(|_| Vec::new()).collect()),
        fg,
        bg,
        bg_alpha: alpha.to_bits(),
        flags: Flags { bits },
        data: None,
    }
}

fn hash_of(run: &TextRun) -> u64 {
    let mut h = DefaultHasher::new();
    run.identity().hash(&mut h);
    h.finish()
}

#[test]
fn plain_cell_keeps_palette_colors() {
    let colors = palette();
    let (fg, bg, alpha) =
        TextRun::color_to_rgb(&no_overrides(), &colors, &start(Color::Indexed(3), Color::Indexed(9), false, 0));
    assert_eq!(fg, Rgb { r: 3, g: 1, b: 2 });
    assert_eq!(bg, Rgb { r: 9, g: 1, b: 2 });
    assert_eq!(alpha, ALPHA_OPAQUE);
}

#[test]
fn theme_background_is_transparent() {
    let colors = palette();
    let s = start(Color::Named(NamedColor::Foreground), Color::Named(NamedColor::Background), false, 0);
    let (fg, bg, alpha) = TextRun::color_to_rgb(&no_overrides(), &colors, &s);
    assert_eq!((fg, bg), (THEME_FG, THEME_BG));
    assert_eq!(alpha, ALPHA_TRANSPARENT);
    assert_eq!(f32::from_bits(alpha), 0.0);
    assert_eq!(f32::from_bits(ALPHA_OPAQUE), 1.0);
}

#[test]
fn bold_takes_bright_variant_when_configured() {
    let colors = palette();
    let mut config = no_overrides();
    let s = start(Color::Indexed(2), Color::Spec(BLACK), false, BOLD);
    assert_eq!(TextRun::color_to_rgb(&config, &colors, &s).0, Rgb { r: 2, g: 1, b: 2 });
    config.draw_bold_text_with_bright_colors = true;
    assert_eq!(TextRun::color_to_rgb(&config, &colors, &s).0, Rgb { r: 10, g: 1, b: 2 });
    let s = start(Color::Indexed(12), Color::Spec(BLACK), false, BOLD);
    assert_eq!(TextRun::color_to_rgb(&config, &colors, &s).0, Rgb { r: 12, g: 1, b: 2 });
}

#[test]
fn selection_background_override_wins_over_inverse() {
    let colors = palette();
    let config = Config { selection_background: Some(GREY), ..no_overrides() };
    for bits in [0, INVERSE] {
        let s = start(Color::Spec(WHITE), Color::Named(NamedColor::Background), true, bits);
        let (fg, bg, alpha) = TextRun::color_to_rgb(&config, &colors, &s);
        assert_eq!(fg, WHITE);
        assert_eq!(bg, GREY);
        assert_eq!(alpha, ALPHA_OPAQUE);
    }
}

#[test]
fn equal_colors_are_revealed_when_highlighted() {
    let colors = palette();
    for (selected, bits) in [(true, 0), (false, INVERSE)] {
        let s = start(Color::Spec(GREY), Color::Spec(GREY), selected, bits);
        let (fg, bg, alpha) = TextRun::color_to_rgb(&no_overrides(), &colors, &s);
        assert_eq!((fg, bg, alpha), (THEME_BG, THEME_FG, ALPHA_OPAQUE));
    }
}

#[test]
fn highlighted_colors_are_swapped() {
    let colors = palette();
    for (selected, bits) in [(true, 0), (false, INVERSE)] {
        let s = start(Color::Spec(WHITE), Color::Named(NamedColor::Background), selected, bits);
        let (fg, bg, alpha) = TextRun::color_to_rgb(&no_overrides(), &colors, &s);
        assert_eq!((fg, bg, alpha), (THEME_BG, WHITE, ALPHA_OPAQUE));
    }
    // Hidden text with equal colors is swapped, not revealed.
    let s = start(Color::Spec(GREY), Color::Spec(GREY), true, HIDDEN);
    assert_eq!(TextRun::color_to_rgb(&no_overrides(), &colors, &s), (GREY, GREY, ALPHA_OPAQUE));
}

#[test]
fn selected_and_inverse_cancel() {
    let colors = palette();
    let s = start(Color::Spec(WHITE), Color::Named(NamedColor::Background), true, INVERSE);
    assert_eq!(
        TextRun::color_to_rgb(&no_overrides(), &colors, &s),
        (WHITE, THEME_BG, ALPHA_TRANSPARENT)
    );
}

#[test]
fn selection_text_override_wins() {
    let colors = palette();
    let text = Rgb { r: 1, g: 2, b: 3 };
    let config = Config { selection_text: Some(text), ..no_overrides() };
    let swapped = start(Color::Spec(WHITE), Color::Spec(BLACK), true, 0);
    assert_eq!(TextRun::color_to_rgb(&config, &colors, &swapped), (text, WHITE, ALPHA_OPAQUE));
    let revealed = start(Color::Spec(GREY), Color::Spec(GREY), true, 0);
    assert_eq!(TextRun::color_to_rgb(&config, &colors, &revealed), (text, THEME_FG, ALPHA_OPAQUE));
    let config = Config { selection_background: Some(GREY), selection_text: Some(text), ..no_overrides() };
    assert_eq!(TextRun::color_to_rgb(&config, &colors, &swapped), (text, GREY, ALPHA_OPAQUE));
    // Not selected: no override.
    let unselected = start(Color::Spec(WHITE), Color::Spec(BLACK), false, 0);
    assert_eq!(TextRun::color_to_rgb(&config, &colors, &unselected), (WHITE, BLACK, ALPHA_OPAQUE));
}

#[test]
fn belongs_to_text_run_compares_resolved_colors() {
    let colors = palette();
    let config = no_overrides();
    let cell = cell_at(4, 'x', Color::Spec(WHITE), Color::Spec(BLACK), UNDERLINE);
    let open = RunStart { line: 7, column: 0, fg: Color::Spec(WHITE), bg: Color::Spec(BLACK), selected: false, flags: Flags { bits: UNDERLINE } };
    assert!(open.belongs_to_text_run(&config, &colors, &cell, false));
    assert!(!open.belongs_to_text_run(&config, &colors, &cell, true));
    let other_line = Indexed { line: 8, ..cell.clone() };
    assert!(!open.belongs_to_text_run(&config, &colors, &other_line, false));
    let other_fg = cell_at(4, 'x', Color::Spec(GREY), Color::Spec(BLACK), UNDERLINE);
    assert!(!open.belongs_to_text_run(&config, &colors, &other_fg, false));
    let other_bg = cell_at(4, 'x', Color::Spec(WHITE), Color::Spec(GREY), UNDERLINE);
    assert!(!open.belongs_to_text_run(&config, &colors, &other_bg, false));
    let other_flags = cell_at(4, 'x', Color::Spec(WHITE), Color::Spec(BLACK), 0);
    assert!(!open.belongs_to_text_run(&config, &colors, &other_flags, false));
}

#[test]
fn belongs_to_text_run_merges_alike_references() {
    let mut colors = palette();
    colors.foreground = BLACK;
    let config = no_overrides();
    let open = RunStart { line: 7, column: 0, fg: Color::Spec(BLACK), bg: Color::Spec(WHITE), selected: false, flags: Flags { bits: 0 } };
    let cell = cell_at(1, 'b', Color::Named(NamedColor::Foreground), Color::Spec(WHITE), 0);
    assert!(open.belongs_to_text_run(&config, &colors, &cell, false));
    let cells = vec![cell_at(0, 'a', Color::Spec(BLACK), Color::Spec(WHITE), 0), cell];
    let runs = build_text_runs(&config, &colors, &cells, &vec![false; 2]);
    assert_eq!(runs.len(), 1);
    assert_eq!(runs[0].span, (0, 1));
    assert_eq!(chars_of(&runs[0]), "ab");
}

#[test]
fn five_cell_line_with_one_selected_cell() {
    let colors = palette();
    let cells: Vec<_> = "abcde".chars().enumerate().map(|(i, c)| plain(i, c)).collect();
    let selected = vec![false, false, false, true, false];
    let runs = build_text_runs(&no_overrides(), &colors, &cells, &selected);
    assert_eq!(runs.len(), 3);
    assert_eq!(runs[0].span, (0, 2));
    assert_eq!(chars_of(&runs[0]), "abc");
    assert_eq!((runs[0].fg, runs[0].bg, runs[0].bg_alpha), (WHITE, BLACK, ALPHA_OPAQUE));
    assert_eq!(runs[1].span, (3, 3));
    assert_eq!(chars_of(&runs[1]), "d");
    assert_eq!((runs[1].fg, runs[1].bg, runs[1].bg_alpha), (BLACK, WHITE, ALPHA_OPAQUE));
    assert_eq!(f32::from_bits(runs[1].bg_alpha), 1.0);
    assert_eq!(runs[2].span, (4, 4));
    assert_eq!(chars_of(&runs[2]), "e");
    assert_eq!((runs[2].fg, runs[2].bg, runs[2].bg_alpha), (runs[0].fg, runs[0].bg, runs[0].bg_alpha));
    for r in &runs {
        assert_eq!(r.line, 7);
        assert!(r.span.0 <= r.span.1);
        assert!(r.data.is_none());
    }
}

#[test]
fn flag_change_splits_run() {
    let colors = palette();
    let mut cells: Vec<_> = "abcdef".chars().enumerate().map(|(i, c)| plain(i + 10, c)).collect();
    cells[3].inner.flags = Flags { bits: UNDERLINE };
    cells[4].inner.flags = Flags { bits: UNDERLINE };
    let runs = build_text_runs(&no_overrides(), &colors, &cells, &vec![false; 6]);
    let spans: Vec<_> = runs.iter().map(|r| r.span).collect();
    assert_eq!(spans, vec![(10, 12), (13, 14), (15, 15)]);
    assert_eq!(runs[1].flags, Flags { bits: UNDERLINE });
    assert_eq!(chars_of(&runs[1]), "de");
}

#[test]
fn same_resolved_colors_merge() {
    let colors = palette();
    let cells = vec![
        cell_at(0, 'a', Color::Indexed(5), Color::Spec(BLACK), 0),
        cell_at(1, 'b', Color::Spec(Rgb { r: 5, g: 1, b: 2 }), Color::Spec(BLACK), 0),
        cell_at(2, 'c', Color::Spec(Rgb { r: 5, g: 1, b: 2 }), Color::Spec(GREY), 0),
    ];
    let runs = build_text_runs(&no_overrides(), &colors, &cells, &vec![false; 3]);
    assert_eq!(runs.len(), 2);
    assert_eq!(runs[0].span, (0, 1));
    assert_eq!(chars_of(&runs[0]), "ab");
    assert_eq!(runs[1].span, (2, 2));
    assert_eq!(runs[1].bg, GREY);
}

#[test]
fn uniform_line_is_one_run() {
    let colors = palette();
    let cells: Vec<_> = "hello world".chars().enumerate().map(|(i, c)| plain(i, c)).collect();
    let runs = build_text_runs(&no_overrides(), &colors, &cells, &vec![false; 11]);
    assert_eq!(runs.len(), 1);
    assert_eq!(runs[0].span, (0, 10));
    assert_eq!(chars_of(&runs[0]), "hello world");
}

#[test]
fn empty_line_has_no_runs() {
    let runs = build_text_runs(&no_overrides(), &palette(), &Vec::new(), &Vec::new());
    assert!(runs.is_empty());
}

#[test]
fn zerowidth_beyond_maximum_is_dropped() {
    let mut cell = plain(0, 'e');
    for i in 0..MAX_ZEROWIDTH_CHARS + 3 {
        cell.inner.push_extra(char::from_u32(0x301 + i as u32).unwrap());
    }
    assert_eq!(cell.inner.extra.len(), MAX_ZEROWIDTH_CHARS);
    assert_eq!(cell.inner.extra[0], '\u{301}');
    assert_eq!(cell.inner.extra[MAX_ZEROWIDTH_CHARS - 1], char::from_u32(0x301 + MAX_ZEROWIDTH_CHARS as u32 - 1).unwrap());
    let cells = vec![cell, plain(1, 'f')];
    let runs = build_text_runs(&no_overrides(), &palette(), &cells, &vec![false; 2]);
    assert_eq!(runs.len(), 1);
    assert_eq!(runs[0].span, (0, 1));
    match &runs[0].content {
        TextRunContent::CharRun(s, z) => {
            assert_eq!(s, &vec!['e', 'f']);
            assert_eq!(z.len(), 2);
            assert_eq!(z[0].len(), MAX_ZEROWIDTH_CHARS);
            assert!(z[1].is_empty());
        }
        TextRunContent::Cursor(_) => panic!("cursor run"),
    }
}

#[test]
fn dropped_zerowidth_leaves_runs_unchanged() {
    let colors = palette();
    let mut full = plain(1, 'e');
    for i in 0..MAX_ZEROWIDTH_CHARS {
        full.inner.push_extra(char::from_u32(0x301 + i as u32).unwrap());
    }
    let mut overfull = full.clone();
    for _ in 0..4 {
        overfull.inner.push_extra('\u{35c}');
    }
    let line1 = vec![plain(0, 'a'), full, plain(2, 'b')];
    let line2 = vec![plain(0, 'a'), overfull, plain(2, 'b')];
    let runs1 = build_text_runs(&no_overrides(), &colors, &line1, &vec![false; 3]);
    let runs2 = build_text_runs(&no_overrides(), &colors, &line2, &vec![false; 3]);
    assert_eq!(runs1.len(), 1);
    assert_eq!(runs2.len(), 1);
    assert_eq!(runs1[0].span, runs2[0].span);
    assert_eq!(runs1[0].content, runs2[0].content);
    assert!(runs1[0] == runs2[0]);
    assert_eq!(hash_of(&runs1[0]), hash_of(&runs2[0]));
}

#[test]
fn cloned_run_keeps_its_fields() {
    let mut r = run((2, 4), 3, WHITE, GREY, 1.0, BOLD, "abc");
    let c = r.clone();
    assert_eq!((c.line, c.span, c.fg, c.bg, c.bg_alpha, c.flags), (3, (2, 4), WHITE, GREY, 1.0f32.to_bits(), Flags { bits: BOLD }));
    assert_eq!(c.content, r.content);
    assert!(c.data.is_none());
    r.data = Some(vec![(r.start_cell(), Default::default())]);
    let c = r.clone();
    assert_eq!(c.data.as_ref().map(|d| d.len()), Some(1));
    assert_eq!(c.data.unwrap()[0].0.column, 2);
}

#[test]
fn cursor_run_covers_one_column() {
    let colors = palette();
    let key = CursorKey { style: CursorStyle::Beam, is_wide: false };
    let s = RunStart { line: 2, column: 3, fg: Color::Spec(WHITE), bg: Color::Spec(BLACK), selected: false, flags: Flags { bits: 0 } };
    let r = TextRun::from_cursor_key(&no_overrides(), &colors, s, key);
    assert_eq!(r.span, (3, 3));
    assert_eq!(r.line, 2);
    assert_eq!(r.content, TextRunContent::Cursor(key));
    assert_eq!((r.fg, r.bg, r.bg_alpha), (WHITE, BLACK, ALPHA_OPAQUE));
    assert!(r.data.is_none());
    assert_eq!(r.start_point(), Point { line: 2, col: 3 });
    assert_eq!(r.end_point(), Point { line: 2, col: 3 });
}

#[test]
fn run_points_and_start_cell() {
    let r = run((4, 9), 6, WHITE, GREY, 1.0, UNDERLINE, "abcdef");
    assert_eq!(r.start_point(), Point { line: 6, col: 4 });
    assert_eq!(r.end_point(), Point { line: 6, col: 9 });
    let c = r.start_cell();
    assert_eq!((c.line, c.column), (6, 4));
    assert_eq!((c.fg, c.bg, c.bg_alpha, c.flags), (WHITE, GREY, 1.0f32.to_bits(), Flags { bits: UNDERLINE }));
    match c.inner {
        RenderableCellContent::Chars(v) => assert_eq!(v, vec![' '; MAX_ZEROWIDTH_CHARS + 1]),
        RenderableCellContent::Cursor(_) => panic!("cursor cell"),
    }
}

#[test]
fn identity_ignores_colors_and_position() {
    let a = run((0, 2), 1, WHITE, BLACK, 1.0, 0, "abc");
    let b = run((10, 12), 5, GREY, THEME_BG, 1.0, 0, "abc");
    assert!(a == b);
    assert_eq!(hash_of(&a), hash_of(&b));
    assert!(a.identity() == b.identity());
}

#[test]
fn identity_changes_break_equality() {
    let a = run((0, 2), 1, WHITE, BLACK, 1.0, 0, "abc");
    assert!(a != run((0, 2), 1, WHITE, BLACK, 1.0, 0, "abd"));
    assert!(a != run((0, 3), 1, WHITE, BLACK, 1.0, 0, "abc"));
    assert!(a != run((0, 2), 1, WHITE, BLACK, 1.0, BOLD, "abc"));
    assert!(a != run((0, 2), 1, WHITE, BLACK, 0.0, 0, "abc"));
    // Numerically equal, bitwise different.
    assert!(run((0, 2), 1, WHITE, BLACK, 0.0, 0, "abc") != run((0, 2), 1, WHITE, BLACK, -0.0, 0, "abc"));
    let mut z = run((0, 2), 1, WHITE, BLACK, 1.0, 0, "abc");
    if let TextRunContent::CharRun(_, slots) = &mut z.content {
        slots[1].push('\u{301}');
    }
    assert!(a != z);
    assert!(a.identity() != z.identity());
}

#[test]
fn content_equality() {
    let k = CursorKey { style: CursorStyle::Block, is_wide: true };
    assert_eq!(TextRunContent::Cursor(k), TextRunContent::Cursor(k));
    assert_ne!(TextRunContent::Cursor(k), TextRunContent::Cursor(CursorKey { is_wide: false, ..k }));
    assert_ne!(TextRunContent::Cursor(k), TextRunContent::CharRun(vec!['a'], vec![vec![]]));
    assert_eq!(
        TextRunContent::CharRun(vec!['a'], vec![vec!['\u{301}']]).clone_content(),
        TextRunContent::CharRun(vec!['a'], vec![vec!['\u{301}']])
    );
}

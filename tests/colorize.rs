use lolcrab::{Cell, Gradient, Lolcrab, Paint, RGB};
use noise::NoiseFn;

/// A noise-driven color field over the rainbow gradient.
struct Field {
    noise: noise::OpenSimplex,
    gradient: Box<dyn colorgrad::Gradient>,
    scale: f64,
}

impl Field {
    fn new(seed: u32, scale: f64) -> Field {
        Field {
            noise: noise::OpenSimplex::new(seed),
            gradient: Box::new(colorgrad::preset::rainbow()),
            scale,
        }
    }

    fn color(&self, x: isize, y: isize) -> colorgrad::Color {
        let v = self.noise.get([x as f64 * self.scale, y as f64 * self.scale * 2.0]) as f32;
        self.gradient.at((v + 0.5) * 1.2 - 0.1)
    }

    fn rgb(&self, x: isize, y: isize) -> [u8; 4] {
        self.color(x, y).to_rgba8()
    }

    fn paint(&self, x: isize, y: isize) -> Paint {
        let c = self.color(x, y);
        let [r, g, b, _] = c.to_rgba8();
        let lum = luminance(&c);
        let eps = 0.013;
        let v = if lum < eps {
            (lum - eps) * ((0.2 - 0.22) / (0.0 - eps)) + 0.22
        } else {
            (lum - eps) * (0.7 / (1.0 - eps))
        };
        let [x, y, z, _] = colorgrad::Color::new(v, v, v, 1.0).to_rgba8();
        Paint::new(RGB::new(r, g, b), RGB::new(x, y, z))
    }
}

fn luminance(c: &colorgrad::Color) -> f32 {
    fn lum(t: f32) -> f32 {
        if t <= 0.03928 {
            t / 12.92
        } else {
            ((t + 0.055) / 1.055).powf(2.4)
        }
    }
    0.2126 * lum(c.r) + 0.7152 * lum(c.g) + 0.0722 * lum(c.b)
}

fn paints(field: &Field, cells: &[Cell]) -> Vec<Paint> {
    cells
        .iter()
        .filter_map(|c| match c {
            Cell::Glyph { col, row, .. } => Some(field.paint(*col, *row)),
            Cell::Plain(_) => None,
        })
        .collect()
}

fn colorize(lol: &mut Lolcrab, field: &Field, text: &[u8]) -> Vec<u8> {
    let cells = lol.colorize(text);
    let ps = paints(field, &cells);
    lol.render(&cells, &ps)
}

fn colorize_str(lol: &mut Lolcrab, field: &Field, text: &str) -> Vec<u8> {
    let cells = lol.colorize_str(text);
    let ps = paints(field, &cells);
    lol.render(&cells, &ps)
}

fn new_lol(seed: u32) -> (Lolcrab, Field) {
    (Lolcrab::new(), Field::new(seed, 0.034))
}

fn create_rb() -> (Lolcrab, Field) {
    (Lolcrab::new(), Field::new(0, 0.03))
}

#[test]
fn eq_str_u8() {
    let text = "foobar";

    let (mut lol1, f1) = new_lol(7);
    let out1 = colorize(&mut lol1, &f1, text.as_bytes());

    let (mut lol2, f2) = new_lol(7);
    let out2 = colorize_str(&mut lol2, &f2, text);

    assert_eq!(out1, out2);
}

#[test]
fn str_width() {
    let mut lol = Lolcrab::new();

    lol.colorize_str("f");
    assert_eq!(lol.col(), 1);

    lol.reset_col();
    lol.colorize_str("😃");
    assert_eq!(lol.col(), 2);

    lol.reset_col();
    lol.colorize_str(" ");
    assert_eq!(lol.col(), 1);

    lol.reset_col();
    lol.colorize_str("  ");
    assert_eq!(lol.col(), 2);

    // Tab characters

    lol.reset_col();
    lol.colorize_str("\t");
    assert_eq!(lol.col(), 4);

    lol.reset_col();
    lol.colorize_str(" \t");
    assert_eq!(lol.col(), 4);

    lol.reset_col();
    lol.colorize_str("  \t");
    assert_eq!(lol.col(), 4);

    lol.reset_col();
    lol.colorize_str("   \t");
    assert_eq!(lol.col(), 4);

    lol.reset_col();
    lol.set_tab_width(8);
    lol.colorize_str("   \t");
    assert_eq!(lol.col(), 8);

    lol.reset_col();
    lol.set_tab_width(4);
    lol.colorize_str("    \t");
    assert_eq!(lol.col(), 8);

    lol.reset_col();
    lol.colorize_str("\t  ");
    assert_eq!(lol.col(), 6);

    lol.reset_col();
    lol.colorize_str("\t  \t");
    assert_eq!(lol.col(), 8);
}

#[test]
fn step_row() {
    let text = "foobar\n";

    let (mut lol1, f1) = new_lol(0);
    colorize(&mut lol1, &f1, text.as_bytes());

    let (mut lol2, f2) = new_lol(0);
    lol2.step_row(1);

    assert_eq!(lol1.col(), lol2.col());
    assert_eq!(lol1.row(), lol2.row());
    assert_eq!(f1.rgb(lol1.col(), lol1.row()), f2.rgb(lol2.col(), lol2.row()));
}

#[test]
fn reset_col() {
    let (mut lol1, f1) = new_lol(23);
    let (lol2, f2) = new_lol(23);
    lol1.step_col(20);
    lol1.reset_col();
    assert_eq!(f1.rgb(lol1.col(), lol1.row()), f2.rgb(lol2.col(), lol2.row()));
}

#[test]
fn noise_position() {
    let (mut lol, field) = new_lol(fastrand::u32(..));
    let text = "Lolcrab\nRust";

    let out1 = colorize_str(&mut lol, &field, text);
    let out2 = colorize_str(&mut lol, &field, text);

    lol.reset_position();
    let out3 = colorize_str(&mut lol, &field, text);

    lol.randomize_position();
    let out4 = colorize_str(&mut lol, &field, text);

    assert_ne!(out1, out2);
    assert_eq!(out1, out3);
    assert_ne!(out1, out4);
    assert_ne!(out2, out4);
}

#[test]
fn test_eq_str_u8() {
    let test = "foobar";

    let (mut rb_a, fa) = create_rb();
    let out_a = colorize(&mut rb_a, &fa, test.as_bytes());

    let (mut rb_b, fb) = create_rb();
    let out_b = colorize_str(&mut rb_b, &fb, test);

    assert_eq!(out_a, out_b);
}

#[test]
fn test_char_width() {
    let test = "f";
    let (mut rb_a, fa) = create_rb();
    colorize_str(&mut rb_a, &fa, test);

    assert_eq!(rb_a.col(), 1);

    let test = "😃";
    let (mut rb_b, fb) = create_rb();
    colorize_str(&mut rb_b, &fb, test);
    assert_eq!(rb_b.col(), 2);
}

#[test]
fn test_step_row() {
    let test_string = "foobar\n";

    let (mut rb_a, fa) = create_rb();
    colorize(&mut rb_a, &fa, test_string.as_bytes());
    let (mut rb_b, fb) = create_rb();
    rb_b.step_row(1);
    assert_eq!(fa.rgb(rb_a.col(), rb_a.row()), fb.rgb(rb_b.col(), rb_b.row()));
}

#[test]
fn test_reset_col() {
    let (mut rb_a, fa) = create_rb();
    let (rb_b, fb) = create_rb();
    rb_a.step_col(20);
    rb_a.reset_col();
    assert_eq!(fa.rgb(rb_a.col(), rb_a.row()), fb.rgb(rb_b.col(), rb_b.row()));
}

#[test]
fn same_seed_same_output() {
    let text = "Lolcrab\tis\u{1F600} the best\n\x1B[1mbold\x1B[0m";
    let (mut a, fa) = new_lol(42);
    let (mut b, fb) = new_lol(42);
    a.set_invert(true);
    b.set_invert(true);
    assert_eq!(colorize(&mut a, &fa, text.as_bytes()), colorize(&mut b, &fb, text.as_bytes()));
    assert_eq!((a.col(), a.row()), (b.col(), b.row()));
}

#[test]
fn foobar_end_to_end() {
    let field = Field::new(5, 0.03);
    let mut lol = Lolcrab::new();
    let out = colorize_str(&mut lol, &field, "foobar");
    let mut expected = String::new();
    for (i, ch) in "foobar".chars().enumerate() {
        let [r, g, b, _] = field.rgb(i as isize, 0);
        expected.push_str(&format!("\x1B[38;2;{r};{g};{b}m{ch}"));
    }
    expected.push_str("\x1B[39m");
    assert_eq!(out, expected.into_bytes());
    assert_eq!(lol.col(), 6);
}

#[test]
fn inverted_paint_and_newline() {
    let field = Field::new(9, 0.03);
    let mut lol = Lolcrab::new();
    lol.set_invert(true);
    let out = colorize_str(&mut lol, &field, "a\n");
    let p = field.paint(0, 0);
    let expected = format!(
        "\x1B[48;2;{};{};{};38;2;{};{};{}ma\x1B[49m\n\x1B[39;49m",
        p.color.r, p.color.g, p.color.b, p.contrast.r, p.contrast.g, p.contrast.b
    );
    assert_eq!(out, expected.into_bytes());
    assert_eq!((lol.col(), lol.row()), (0, 1));
}

#[test]
fn plain_tab_is_spaces() {
    let field = Field::new(1, 0.03);
    let mut lol = Lolcrab::new();
    lol.step_col(1);
    let out = colorize_str(&mut lol, &field, "\t");
    assert_eq!(out, b"   \x1B[39m".to_vec());
    assert_eq!(lol.col(), 4);
}

#[test]
fn inverted_tab_paints_each_space() {
    let mut lol = Lolcrab::new();
    lol.set_invert(true);
    lol.step_col(2);
    let cells = lol.colorize_str("\t");
    assert_eq!(
        cells,
        vec![
            Cell::Glyph { bytes: b" ".to_vec(), col: 2, row: 0 },
            Cell::Glyph { bytes: b" ".to_vec(), col: 3, row: 0 },
        ]
    );
    assert_eq!(lol.col(), 4);
}

#[test]
fn tab_from_negative_column_reaches_next_stop() {
    let mut lol = Lolcrab::new();
    lol.step_col(-1);
    lol.colorize_str("\t");
    assert_eq!(lol.col(), 0);
    lol.step_col(-4);
    lol.colorize_str("\t");
    assert_eq!(lol.col(), 0);
}

#[test]
fn escape_sequence_passes_through() {
    let field = Field::new(3, 0.03);
    let mut lol = Lolcrab::new();
    let text = "ab\x1B[1mBOLD\x1B[0mcd";
    let out = colorize_str(&mut lol, &field, text);
    let out = String::from_utf8(out).unwrap();
    assert!(out.contains("\x1B[1m\x1B[38;2;"));
    assert!(out.contains("\x1B[0m\x1B[38;2;"));
    assert_eq!(lol.col(), 8);
    assert_eq!(out.matches("\x1B[38;2;").count(), 8);
}

#[test]
fn escape_stays_open_across_newline() {
    let mut lol = Lolcrab::new();
    let cells = lol.colorize_str("\x1B[1\nxy");
    assert_eq!((lol.col(), lol.row()), (1, 1));
    assert_eq!(cells[3], Cell::Plain(b"\n".to_vec()));
    assert_eq!(cells[4], Cell::Plain(b"x".to_vec()));
    assert_eq!(cells[5], Cell::Glyph { bytes: b"y".to_vec(), col: 0, row: 1 });
}

#[test]
fn combining_marks_form_one_grapheme() {
    let mut lol = Lolcrab::new();
    let cells = lol.colorize_str("e\u{301}x");
    assert_eq!(cells.len(), 2);
    assert_eq!(lol.col(), 2);
    let mut lol2 = Lolcrab::new();
    let cells2 = lol2.colorize("e\u{301}x".as_bytes());
    assert_eq!(cells, cells2);
}

#[test]
fn invalid_utf8_is_replaced() {
    let mut lol = Lolcrab::new();
    let cells = lol.colorize(b"a\xFFb");
    assert_eq!(cells.len(), 3);
    assert_eq!(cells[1], Cell::Glyph { bytes: "\u{FFFD}".as_bytes().to_vec(), col: 1, row: 0 });
    assert_eq!(lol.col(), 3);
}

#[test]
fn control_character_takes_no_column() {
    let mut lol = Lolcrab::new();
    lol.colorize_str("\u{7}");
    assert_eq!(lol.col(), 0);
}

#[test]
fn reset_position_after_steps() {
    let mut lol = Lolcrab::new();
    lol.step_col(17);
    lol.step_row(-3);
    lol.step_col(-40);
    lol.reset_position();
    assert_eq!((lol.col(), lol.row()), (0, 0));
}

#[test]
fn randomized_row_in_range() {
    let mut lol = Lolcrab::new();
    lol.step_col(5);
    lol.randomize_position();
    assert_eq!(lol.col(), 0);
    assert!((-999_999..999_999).contains(&lol.row()));
}

#[test]
fn settings_are_clamped() {
    let mut lol = Lolcrab::new();
    assert_eq!((lol.anim_duration(), lol.anim_sleep_ms()), (5, 150));
    lol.set_anim_speed(10);
    assert_eq!(lol.anim_sleep_ms(), 30);
    lol.set_anim_speed(255);
    assert_eq!(lol.anim_sleep_ms(), 200);
    lol.set_anim_duration(0);
    assert_eq!(lol.anim_duration(), 1);
    lol.set_anim_duration(99);
    assert_eq!(lol.anim_duration(), 30);
    lol.set_anim_duration(7);
    assert_eq!(lol.anim_duration(), 7);
}

#[test]
fn animation_starts_off_to_the_left() {
    let mut lol = Lolcrab::new();
    assert_eq!(lol.line_width(b"ab\tc\xF0\x9F\x98\x83"), 7);
    let w = lol.start_anim(b"ab\tc");
    assert_eq!(w, 5);
    assert_eq!(lol.col(), -20);
}

#[test]
fn render_writes_decimal_colors() {
    let lol = Lolcrab::new();
    let cells = vec![
        Cell::Glyph { bytes: b"x".to_vec(), col: 0, row: 0 },
        Cell::Plain(b"-".to_vec()),
        Cell::Glyph { bytes: b"y".to_vec(), col: 1, row: 0 },
    ];
    let black = RGB::new(0, 0, 0);
    let paints = vec![Paint::new(RGB::new(0, 9, 10), black), Paint::new(RGB::new(99, 100, 255), black)];
    assert_eq!(lolcrab::count_glyphs(&cells), 2);
    assert_eq!(
        lol.render(&cells, &paints),
        b"\x1B[38;2;0;9;10mx-\x1B[38;2;99;100;255my\x1B[39m".to_vec()
    );
}

#[test]
fn gradient_names() {
    assert_eq!(Gradient::Rainbow.name(), "rainbow");
    assert_eq!(Gradient::RdYlGn.name(), "rd-yl-gn");
    assert_eq!(Gradient::Cubehelix.name(), "cubehelix");
}

#[test]
fn tab_inside_escape_passes_through() {
    let mut lol = Lolcrab::new();
    let cells = lol.colorize_str("\x1B[\tm");
    assert_eq!(
        cells,
        vec![
            Cell::Plain(b"\x1B".to_vec()),
            Cell::Plain(b"[".to_vec()),
            Cell::Plain(b"\t".to_vec()),
            Cell::Plain(b"m".to_vec()),
        ]
    );
    assert_eq!(lol.col(), 0);
}

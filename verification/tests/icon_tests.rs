use tinyicon::atlas;
use tinyicon::icongen::{to_rgba_bytes, IconGenerator};

const BG: [u8; 4] = [255, 115, 51, 120];
const TBG: [u8; 4] = [255, 115, 51, 255];
const TEXT: [u8; 4] = [0, 0, 0, 255];

fn gen() -> IconGenerator {
    IconGenerator::new(BG, TBG, TEXT)
}

fn at(canvas: &Vec<[u8; 4]>, x: usize, y: usize) -> [u8; 4] {
    canvas[y * 32 + x]
}

#[test]
fn atlas_lookup_is_case_insensitive() {
    for (lo, up) in [('a', 'A'), ('m', 'M'), ('z', 'Z')] {
        let g1 = atlas::get(lo).expect("lowercase letter supported");
        let g2 = atlas::get(up).expect("uppercase letter supported");
        assert_eq!(g1.width(), g2.width());
        assert_eq!(g1.pixels(), g2.pixels());
    }
}

#[test]
fn atlas_glyph_shapes() {
    let a = atlas::get('A').unwrap();
    assert_eq!(a.width(), 3);
    assert_eq!(a.pixels().len(), 15);
    assert_eq!(
        a.pixels(),
        &vec![0, 1, 0, 1, 0, 1, 1, 1, 1, 1, 0, 1, 1, 0, 1]
    );
    let space = atlas::get(' ').unwrap();
    assert_eq!(space.width(), 1);
    assert_eq!(space.pixels(), &vec![0, 0, 0, 0, 0]);
    let dot = atlas::get('.').unwrap();
    assert_eq!(dot.width(), 3);
    assert!(atlas::get('/').is_some());
    for d in '0'..='9' {
        assert!(atlas::get(d).is_some());
    }
}

#[test]
fn atlas_rejects_unsupported_characters() {
    for c in ['😀', '#', '-', '_', ',', 'ä', '\n'] {
        assert!(atlas::get(c).is_none());
    }
}

#[test]
fn line_width_counts_advances_minus_trailing_gap() {
    let g = gen();
    assert_eq!(g.get_line_pixel_width(""), 0);
    assert_eq!(g.get_line_pixel_width("0"), 3);
    assert_eq!(g.get_line_pixel_width("000"), 11);
    assert_eq!(g.get_line_pixel_width("A B"), 9);
    assert_eq!(g.get_line_pixel_width("AB"), 7);
    assert_eq!(g.get_line_pixel_width("A😀B"), 7);
    assert_eq!(g.get_line_pixel_width("😀"), 0);
    assert_eq!(g.get_line_pixel_width("abc"), g.get_line_pixel_width("ABC"));
}

#[test]
fn empty_input_is_all_background() {
    let g = gen();
    let canvas = g.generate_image(&[]);
    assert_eq!(canvas.len(), 1024);
    assert!(canvas.iter().all(|p| *p == BG));
}

#[test]
fn single_zero_golden_canvas() {
    // ["0"]: glyph anchored at (14, 14), text-background box rows 13..=19,
    // columns 13..=17, background everywhere else.
    let g = gen();
    let canvas = g.generate_image(&["0".to_string()]);
    let mask = [
        [1, 1, 1],
        [1, 0, 1],
        [1, 0, 1],
        [1, 0, 1],
        [1, 1, 1],
    ];
    for y in 0..32 {
        for x in 0..32 {
            let expected = if (14..=18).contains(&y)
                && (14..=16).contains(&x)
                && mask[y - 14][x - 14] == 1
            {
                TEXT
            } else if (13..=19).contains(&y) && (13..=17).contains(&x) {
                TBG
            } else {
                BG
            };
            assert_eq!(at(&canvas, x, y), expected, "pixel ({x}, {y})");
        }
    }
    // Row 16 spelled out: margin, text, hole, text, margin.
    assert_eq!(at(&canvas, 13, 16), TBG);
    assert_eq!(at(&canvas, 14, 16), TEXT);
    assert_eq!(at(&canvas, 15, 16), TBG);
    assert_eq!(at(&canvas, 16, 16), TEXT);
    assert_eq!(at(&canvas, 17, 16), TBG);
}

#[test]
fn rendering_is_deterministic() {
    let g = gen();
    let lines = vec!["AB".to_string(), "C D".to_string(), "9/9".to_string()];
    let first = g.generate_image(&lines);
    let second = g.generate_image(&lines);
    assert_eq!(first, second);
    assert_eq!(to_rgba_bytes(&first), to_rgba_bytes(&second));
}

#[test]
fn every_pixel_is_a_configured_color() {
    let g = gen();
    let canvas = g.generate_image(&["AB".to_string(), "CD".to_string()]);
    assert!(canvas.iter().all(|p| *p == BG || *p == TBG || *p == TEXT));
}

#[test]
fn unsupported_only_line_matches_empty_line() {
    let g = gen();
    let emoji = g.generate_image(&["😀🚀".to_string()]);
    let empty = g.generate_image(&["".to_string()]);
    assert_eq!(emoji, empty);
    // An empty line still gets a collapsed (2 column wide) box.
    assert_eq!(at(&empty, 15, 13), TBG);
    assert_eq!(at(&empty, 16, 19), TBG);
    assert_eq!(at(&empty, 14, 16), BG);
    assert_eq!(at(&empty, 17, 16), BG);
}

#[test]
fn unsupported_character_inside_line_advances_nothing() {
    let g = gen();
    let with_emoji = g.generate_image(&["A😀B".to_string()]);
    let without = g.generate_image(&["AB".to_string()]);
    assert_eq!(with_emoji, without);
}

#[test]
fn space_advances_two_and_draws_nothing() {
    // "A B" is 9 wide, so it starts at column 11: 'A' in columns 11..=13,
    // the space in column 15 (advance 2, nothing drawn), 'B' in 17..=19.
    let g = gen();
    let canvas = g.generate_image(&["A B".to_string()]);
    let a_cols = 11..=13;
    let gap_cols = 14..=16;
    let b_cols = 17..=19;
    let mut a_text = 0;
    let mut gap_text = 0;
    let mut b_text = 0;
    for y in 14..=18 {
        for x in 0..32 {
            if at(&canvas, x, y) == TEXT {
                if a_cols.contains(&x) {
                    a_text += 1;
                } else if gap_cols.contains(&x) {
                    gap_text += 1;
                } else if b_cols.contains(&x) {
                    b_text += 1;
                } else {
                    panic!("text pixel outside both glyphs at ({x}, {y})");
                }
            }
        }
    }
    assert!(a_text > 0);
    assert_eq!(gap_text, 0);
    assert!(b_text > 0);
    // 'B' row 0 is [1, 1, 0], anchored at (17, 14).
    assert_eq!(at(&canvas, 17, 14), TEXT);
    assert_eq!(at(&canvas, 18, 14), TEXT);
    assert_ne!(at(&canvas, 19, 14), TEXT);
}

#[test]
fn two_lines_glyph_rows_do_not_overlap() {
    // ["AB", "CD"]: glyphs of line 0 in rows 11..=15, of line 1 in 17..=21;
    // no canvas row holds glyph pixels of both lines.
    let g = gen();
    let canvas = g.generate_image(&["AB".to_string(), "CD".to_string()]);
    let row_has_text = |y: usize| (0..32).any(|x| at(&canvas, x, y) == TEXT);
    for y in 11..=15 {
        assert!(row_has_text(y), "row {y} of the first line");
    }
    for y in 17..=21 {
        assert!(row_has_text(y), "row {y} of the second line");
    }
    assert!(!row_has_text(16));
    for y in 0..11 {
        assert!(!row_has_text(y));
    }
    for y in 22..32 {
        assert!(!row_has_text(y));
    }
}

#[test]
fn five_lines_fill_the_canvas_vertically() {
    let g = gen();
    let lines: Vec<String> = ["1", "2", "3", "4", "5"].iter().map(|s| s.to_string()).collect();
    let canvas = g.generate_image(&lines);
    // Line 0 anchors at row 2, line 4 at row 26; boxes span rows 1..=31.
    assert_eq!(at(&canvas, 0, 0), BG);
    assert_eq!(at(&canvas, 15, 1), TBG);
    assert_eq!(at(&canvas, 15, 31), TBG);
}

#[test]
fn vertical_centering_differs_for_odd_and_even_counts() {
    let g = gen();
    // Three lines (odd): anchors at rows 8, 14, 20; boxes span rows 7..=25.
    let three = g.generate_image(&["1".to_string(), "2".to_string(), "3".to_string()]);
    assert_eq!(at(&three, 15, 6), BG);
    assert_eq!(at(&three, 15, 7), TBG);
    assert_eq!(at(&three, 15, 25), TBG);
    assert_eq!(at(&three, 15, 26), BG);
    // Four lines (even): anchors at rows 5, 11, 17, 23; boxes span 4..=28.
    let four = g.generate_image(&[
        "123".to_string(),
        "456".to_string(),
        "789".to_string(),
        "0".to_string(),
    ]);
    assert_eq!(at(&four, 15, 3), BG);
    assert_eq!(at(&four, 15, 4), TBG);
    assert_eq!(at(&four, 15, 28), TBG);
    assert_eq!(at(&four, 15, 29), BG);
    // "123" is 11 wide, so it starts at column 10; '2' row 0 is [1, 1, 1]
    // anchored at (14, 5).
    assert_eq!(at(&four, 15, 5), TEXT);
}

#[test]
fn set_colors_replaces_configuration() {
    let mut g = gen();
    g.set_colors([1, 2, 3, 4], [5, 6, 7, 8], [9, 10, 11, 12]);
    assert_eq!(g.background_color, [1, 2, 3, 4]);
    assert_eq!(g.text_background_color, [5, 6, 7, 8]);
    assert_eq!(g.text_color, [9, 10, 11, 12]);
    let canvas = g.generate_image(&[]);
    assert!(canvas.iter().all(|p| *p == [1, 2, 3, 4]));
}

#[test]
fn rgba_bytes_interleave_in_order() {
    let pixels = vec![[1u8, 2, 3, 4], [5, 6, 7, 8]];
    assert_eq!(to_rgba_bytes(&pixels), vec![1, 2, 3, 4, 5, 6, 7, 8]);
    let g = gen();
    let canvas = g.generate_image(&["0".to_string()]);
    let bytes = to_rgba_bytes(&canvas);
    assert_eq!(bytes.len(), 4096);
    let p = 16 * 32 + 14;
    assert_eq!(&bytes[4 * p..4 * p + 4], &TEXT);
}

#[test]
fn overlong_line_is_left_aligned_not_centered() {
    // Nine 3-wide glyphs: width 35 >= 32, so the line starts at column 0 and
    // its box covers every column of its rows.
    let g = gen();
    let line = "123456789".to_string();
    assert_eq!(g.get_line_pixel_width(&line), 35);
    let canvas = g.generate_image(&[line]);
    for x in 0..32 {
        assert_eq!(at(&canvas, x, 13), TBG, "box row 13, column {x}");
    }
    // '1' row 0 is [0, 1, 0] anchored at (0, 14).
    assert_ne!(at(&canvas, 0, 14), TEXT);
    assert_eq!(at(&canvas, 1, 14), TEXT);
}

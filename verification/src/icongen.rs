//! The icon rasterizer: turns up to five lines of text plus three RGBA
//! colors into a 32x32 pixel buffer. Layout: lines are stacked 6 rows apart
//! and centered vertically; each line is centered horizontally (biased left
//! on odd widths) unless it is at least as wide as the canvas, in which case
//! it starts at column 0. Drawing order is background fill, then per line a
//! text-background box, then the line's glyph pixels; a later write simply
//! overwrites an earlier one (no alpha blending).

use crate::atlas::{glyph_mask, glyph_width, spec_supported};
use vstd::arithmetic::div_mod::{lemma_fundamental_div_mod, lemma_fundamental_div_mod_converse};
use vstd::prelude::*;

verus! {

/// How far the cursor advances for one character: glyph width plus a one
/// pixel gap for a supported character (2 for the space), nothing for an
/// unsupported character.
pub open spec fn advance_of(c: char) -> int {
    if spec_supported(c) {
        glyph_width(c) + 1
    } else {
        0
    }
}

/// Sum of the cursor advances of the first `n` characters of a line.
pub open spec fn width_sum(line: Seq<char>, n: int) -> int
    decreases n,
{
    if n <= 0 {
        0
    } else {
        width_sum(line, n - 1) + advance_of(line[n - 1])
    }
}

/// A line's pixel width: the advances of all its characters, less the
/// trailing one pixel gap, clamped at zero, and saturated the way the
/// 32-bit accumulator computes it (irrelevant on the canvas, which only
/// distinguishes widths below 32).
pub open spec fn spec_line_width(line: Seq<char>) -> int {
    let raw = width_sum(line, line.len() as int);
    if raw == 0 {
        0
    } else if raw > u32::MAX {
        u32::MAX - 1
    } else {
        raw - 1
    }
}

/// Top row of the glyphs of line `i` out of `line_count`: the block of lines
/// is centered vertically, 6 rows per line, shifted up 3 more rows when the
/// line count is odd.
pub open spec fn spec_pos_y(line_count: int, i: int) -> int {
    16 - 6 * (line_count / 2) + 1 - (if line_count % 2 != 0 {
        3int
    } else {
        0int
    }) + 6 * i
}

/// Leftmost glyph column of a line of width `w`: horizontally centered,
/// biased left on odd widths; a line at least as wide as the canvas starts
/// at column 0.
pub open spec fn spec_start_x(w: int) -> int {
    if w < 32 {
        16 - (w + 1) / 2
    } else {
        0
    }
}

/// Whether one of the first `bound` mask entries of `c`'s glyph is an "on"
/// pixel that lands on canvas position `(x, y)`, when the glyph is drawn
/// with its top-left corner at `(cx, py)`.
pub open spec fn char_covers_upto(c: char, cx: int, py: int, bound: int, x: int, y: int) -> bool {
    spec_supported(c) && exists|i: int|
        0 <= i < bound && glyph_mask(c)[i] == 1 && x == cx + i % (glyph_width(c) as int) && y == py
            + i / (glyph_width(c) as int)
}

/// Whether an "on" pixel of `c`'s glyph, drawn at `(cx, py)`, lands on
/// `(x, y)`.
pub open spec fn char_covers(c: char, cx: int, py: int, x: int, y: int) -> bool {
    char_covers_upto(c, cx, py, glyph_mask(c).len() as int, x, y)
}

/// Whether one of the first `n` characters of a line starting at `(sx, py)`
/// draws a glyph pixel on `(x, y)`.
pub open spec fn text_covers_upto(line: Seq<char>, sx: int, py: int, n: int, x: int, y: int) -> bool {
    exists|j: int| 0 <= j < n && char_covers(line[j], sx + width_sum(line, j), py, x, y)
}

/// Whether line `li` of `lines` draws a glyph pixel on `(x, y)`.
pub open spec fn line_glyphs_cover(lines: Seq<Seq<char>>, li: int, x: int, y: int) -> bool {
    let line = lines[li];
    text_covers_upto(
        line,
        spec_start_x(spec_line_width(line)),
        spec_pos_y(lines.len() as int, li),
        line.len() as int,
        x,
        y,
    )
}

/// Whether `(x, y)` lies in the text-background box of line `li`: one pixel
/// of margin around the line's glyph rectangle.
pub open spec fn line_box_covers(lines: Seq<Seq<char>>, li: int, x: int, y: int) -> bool {
    let w = spec_line_width(lines[li]);
    let py = spec_pos_y(lines.len() as int, li);
    let sx = spec_start_x(w);
    py - 1 <= y <= py + 5 && sx - 1 <= x <= sx + w
}

/// The color of canvas position `(x, y)` after the background fill and the
/// boxes and glyphs of the first `k` lines were drawn, in order; the last
/// write wins.
pub open spec fn spec_pixel_upto(
    gen: IconGenerator,
    lines: Seq<Seq<char>>,
    k: int,
    x: int,
    y: int,
) -> [u8; 4]
    decreases k,
{
    if k <= 0 {
        gen.background_color
    } else if line_glyphs_cover(lines, k - 1, x, y) {
        gen.text_color
    } else if line_box_covers(lines, k - 1, x, y) {
        gen.text_background_color
    } else {
        spec_pixel_upto(gen, lines, k - 1, x, y)
    }
}

/// The color the rasterizer gives canvas position `(x, y)`.
pub open spec fn spec_pixel(gen: IconGenerator, lines: Seq<Seq<char>>, x: int, y: int) -> [u8; 4] {
    spec_pixel_upto(gen, lines, lines.len() as int, x, y)
}

/// The lines of text as sequences of characters.
pub open spec fn lines_of(text: Seq<String>) -> Seq<Seq<char>> {
    Seq::new(text.len(), |i: int| text[i]@)
}

/// The rasterizer: three RGBA colors (straight alpha). Stateless otherwise;
/// the pixel buffer is recomputed from scratch on every call.
pub struct IconGenerator {
    pub background_color: [u8; 4],
    pub text_background_color: [u8; 4],
    pub text_color: [u8; 4],
}

impl IconGenerator {
    pub fn new(
        background_color: [u8; 4],
        text_background_color: [u8; 4],
        text_color: [u8; 4],
    ) -> (r: Self)
        ensures
            r.background_color == background_color,
            r.text_background_color == text_background_color,
            r.text_color == text_color,
    {
        Self { background_color, text_background_color, text_color }
    }

    /// Replace the color configuration; nothing is recomputed eagerly.
    pub fn set_colors(
        &mut self,
        background_color: [u8; 4],
        text_background_color: [u8; 4],
        text_color: [u8; 4],
    )
        ensures
            final(self).background_color == background_color,
            final(self).text_background_color == text_background_color,
            final(self).text_color == text_color,
    {
        self.background_color = background_color;
        self.text_background_color = text_background_color;
        self.text_color = text_color;
    }

    /// A line's pixel width: each supported character contributes its glyph
    /// width plus a one pixel gap (the accumulator saturates), less the
    /// trailing gap, never below zero.
    pub fn get_line_pixel_width(&self, text: &str) -> (w: u32)
        ensures
            w as int == spec_line_width(text@),
    {
        let n = text.unicode_len();
        let mut line_width: u32 = 0;
        let mut j: usize = 0;
        while j < n
            invariant
                j <= n,
                n == text@.len(),
                0 <= width_sum(text@, j as int),
                line_width as int == (if width_sum(text@, j as int) > u32::MAX {
                    u32::MAX as int
                } else {
                    width_sum(text@, j as int)
                }),
            decreases n - j,
        {
            let c = text.get_char(j);
            match crate::atlas::get(c) {
                Some(char_data) => {
                    line_width = line_width.saturating_add(char_data.width() + 1);
                },
                None => {},
            }
            j += 1;
        }
        line_width.saturating_sub(1)
    }

    /// Rasterize the lines into a 32x32 canvas, row-major: position `p` of
    /// the result is canvas column `p % 32`, row `p / 32`.
    #[verifier::loop_isolation(false)]
    #[verifier::rlimit(100)]
    pub fn generate_image(&self, text: &[String]) -> (r: Vec<[u8; 4]>)
        requires
            text@.len() <= 5,
        ensures
            r@.len() == 1024,
            forall|p: int|
                0 <= p < 1024 ==> r@[p] == spec_pixel(*self, lines_of(text@), p % 32, p / 32),
            forall|x: int, y: int|
                0 <= x < 32 && 0 <= y < 32 ==> r@[y * 32 + x] == #[trigger] spec_pixel(
                    *self,
                    lines_of(text@),
                    x,
                    y,
                ),
    {
        let ghost lines = lines_of(text@);
        let n = text.len();
        let mut pixels: Vec<[u8; 4]> = Vec::new();
        while pixels.len() < 1024
            invariant
                pixels@.len() <= 1024,
                forall|p: int| 0 <= p < pixels@.len() ==> pixels@[p] == self.background_color,
            decreases 1024 - pixels@.len(),
        {
            pixels.push(self.background_color);
        }
        let mut li: usize = 0;
        while li < n
            invariant
                li <= n,
                pixels@.len() == 1024,
                forall|p: int|
                    0 <= p < 1024 ==> pixels@[p] == spec_pixel_upto(
                        *self,
                        lines,
                        li as int,
                        p % 32,
                        p / 32,
                    ),
            decreases n - li,
        {
            let line: &String = &text[li];
            let ghost lc: Seq<char> = lines[li as int];
            proof {
                assert(lc == line@);
            }
            let line_width: u32 = self.get_line_pixel_width(line.as_str());

            // Vertical anchor of this line's glyphs.
            let half: usize = n / 2;
            let mut pos_y: u32 = 16 - 6 * (half as u32) + 1;
            if n % 2 != 0 {
                pos_y = pos_y - 3;
            }
            pos_y = pos_y + 6 * (li as u32);
            proof {
                assert(pos_y as int == spec_pos_y(n as int, li as int));
                assert(2 <= pos_y <= 26);
            }

            // Horizontal anchor of this line's glyphs.
            let start_x: u32 = if line_width < 32 {
                16 - (line_width + 1) / 2
            } else {
                0
            };
            proof {
                assert(start_x as int == spec_start_x(line_width as int));
                assert(start_x <= 16);
            }

            // Draw the text-background box, clipped to the canvas.
            let y0: u32 = pos_y - 1;
            let y1: u32 = pos_y + 5;
            let x0: u32 = if start_x == 0 {
                0
            } else {
                start_x - 1
            };
            let t: u32 = start_x.saturating_add(line_width);
            let x1: u32 = if t > 31 {
                31
            } else {
                t
            };
            let mut y: u32 = y0;
            while y <= y1
                invariant
                    y0 <= y <= y1 + 1,
                    pixels@.len() == 1024,
                    forall|p: int|
                        0 <= p < 1024 ==> pixels@[p] == (if y0 <= p / 32 < y && x0 <= p % 32 <= x1 {
                            self.text_background_color
                        } else {
                            spec_pixel_upto(*self, lines, li as int, p % 32, p / 32)
                        }),
                decreases y1 + 1 - y,
            {
                let mut x: u32 = x0;
                while x <= x1
                    invariant
                        x0 <= x <= x1 + 1,
                        y0 <= y <= y1,
                        pixels@.len() == 1024,
                        forall|p: int|
                            0 <= p < 1024 ==> pixels@[p] == (if (y0 <= p / 32 < y && x0 <= p % 32
                                <= x1) || (p / 32 == y && x0 <= p % 32 < x) {
                                self.text_background_color
                            } else {
                                spec_pixel_upto(*self, lines, li as int, p % 32, p / 32)
                            }),
                    decreases x1 + 1 - x,
                {
                    let idx: usize = (y * 32 + x) as usize;
                    pixels[idx] = self.text_background_color;
                    proof {
                        lemma_fundamental_div_mod_converse(idx as int, 32, y as int, x as int);
                        assert forall|p: int| 0 <= p < 1024 implies pixels@[p] == (if (y0 <= p / 32
                            < y && x0 <= p % 32 <= x1) || (p / 32 == y && x0 <= p % 32 < x + 1) {
                            self.text_background_color
                        } else {
                            spec_pixel_upto(*self, lines, li as int, p % 32, p / 32)
                        }) by {
                            lemma_fundamental_div_mod(p, 32);
                        };
                    }
                    x = x + 1;
                }
                y = y + 1;
            }
            proof {
                assert forall|p: int| 0 <= p < 1024 implies pixels@[p] == (if line_box_covers(
                    lines,
                    li as int,
                    p % 32,
                    p / 32,
                ) {
                    self.text_background_color
                } else {
                    spec_pixel_upto(*self, lines, li as int, p % 32, p / 32)
                }) by {
                    lemma_fundamental_div_mod(p, 32);
                };
            }

            // Draw the line's glyphs over the box.
            let line_len: usize = line.as_str().unicode_len();
            let mut cx: u32 = start_x;
            let mut j: usize = 0;
            while j < line_len
                invariant
                    j <= line_len,
                    pixels@.len() == 1024,
                    cx as int == (if start_x as int + width_sum(lc, j as int) > u32::MAX {
                        u32::MAX as int
                    } else {
                        start_x as int + width_sum(lc, j as int)
                    }),
                    forall|p: int|
                        0 <= p < 1024 ==> pixels@[p] == (if text_covers_upto(
                            lc,
                            start_x as int,
                            pos_y as int,
                            j as int,
                            p % 32,
                            p / 32,
                        ) {
                            self.text_color
                        } else if line_box_covers(lines, li as int, p % 32, p / 32) {
                            self.text_background_color
                        } else {
                            spec_pixel_upto(*self, lines, li as int, p % 32, p / 32)
                        }),
                decreases line_len - j,
            {
                let c = line.as_str().get_char(j);
                let ghost cxg: int = start_x as int + width_sum(lc, j as int);
                proof {
                    assert(width_sum(lc, j as int + 1) == width_sum(lc, j as int) + advance_of(
                        lc[j as int],
                    ));
                }
                let ghost j1: int = j as int + 1;
                match crate::atlas::get(c) {
                    None => {
                        proof {
                            assert forall|xc: int, yc: int|
                                #[trigger] text_covers_upto(
                                    lc,
                                    start_x as int,
                                    pos_y as int,
                                    j1,
                                    xc,
                                    yc,
                                ) == text_covers_upto(
                                lc,
                                start_x as int,
                                pos_y as int,
                                j as int,
                                xc,
                                yc,
                            ) by {
                                lemma_text_covers_step(
                                    lc,
                                    start_x as int,
                                    pos_y as int,
                                    j as int,
                                    xc,
                                    yc,
                                );
                            };
                        }
                    },
                    Some(char_data) => {
                        let w: u32 = char_data.width();
                        let mask = char_data.pixels();
                        let m: usize = mask.len();
                        let mut i: usize = 0;
                        while i < m
                            invariant
                                i <= m,
                                pixels@.len() == 1024,
                                forall|p: int|
                                    0 <= p < 1024 ==> pixels@[p] == (if text_covers_upto(
                                        lc,
                                        start_x as int,
                                        pos_y as int,
                                        j as int,
                                        p % 32,
                                        p / 32,
                                    ) || char_covers_upto(
                                        c,
                                        cxg,
                                        pos_y as int,
                                        i as int,
                                        p % 32,
                                        p / 32,
                                    ) {
                                        self.text_color
                                    } else if line_box_covers(lines, li as int, p % 32, p / 32) {
                                        self.text_background_color
                                    } else {
                                        spec_pixel_upto(*self, lines, li as int, p % 32, p / 32)
                                    }),
                            decreases m - i,
                        {
                            let ghost i1: int = i as int + 1;
                            proof {
                                assert(i as int / (w as int) <= 4 && i as int % (w as int) < w) by {
                                    assert(w == 1 || w == 3);
                                };
                            }
                            if mask[i] == 1 {
                                let char_x: u32 = (i as u32) % w;
                                let char_y: u32 = (i as u32) / w;
                                let x: u32 = cx.saturating_add(char_x);
                                let y: u32 = pos_y + char_y;
                                if x < 32 && y < 32 {
                                    let idx: usize = (y * 32 + x) as usize;
                                    pixels[idx] = self.text_color;
                                    proof {
                                        lemma_fundamental_div_mod_converse(
                                            idx as int,
                                            32,
                                            y as int,
                                            x as int,
                                        );
                                        assert(x as int == cxg + i as int % (glyph_width(c) as int));
                                        assert(y as int == pos_y as int + i as int / (glyph_width(c)
                                            as int));
                                        assert forall|p: int| 0 <= p < 1024 implies pixels@[p] == (
                                        if text_covers_upto(
                                            lc,
                                            start_x as int,
                                            pos_y as int,
                                            j as int,
                                            p % 32,
                                            p / 32,
                                        ) || char_covers_upto(
                                            c,
                                            cxg,
                                            pos_y as int,
                                            i as int + 1,
                                            p % 32,
                                            p / 32,
                                        ) {
                                            self.text_color
                                        } else if line_box_covers(lines, li as int, p % 32, p / 32) {
                                            self.text_background_color
                                        } else {
                                            spec_pixel_upto(*self, lines, li as int, p % 32, p / 32)
                                        }) by {
                                            lemma_fundamental_div_mod(p, 32);
                                            lemma_char_covers_step(
                                                c,
                                                cxg,
                                                pos_y as int,
                                                i as int,
                                                p % 32,
                                                p / 32,
                                            );
                                        };
                                    }
                                } else {
                                    proof {
                                        assert(cxg + i as int % (glyph_width(c) as int) >= 32);
                                        assert forall|xc: int, yc: int|
                                            0 <= xc < 32 implies #[trigger] char_covers_upto(
                                            c,
                                            cxg,
                                            pos_y as int,
                                            i1,
                                            xc,
                                            yc,
                                        ) == char_covers_upto(
                                            c,
                                            cxg,
                                            pos_y as int,
                                            i as int,
                                            xc,
                                            yc,
                                        ) by {
                                            lemma_char_covers_step(
                                                c,
                                                cxg,
                                                pos_y as int,
                                                i as int,
                                                xc,
                                                yc,
                                            );
                                        };
                                    }
                                }
                            } else {
                                proof {
                                    assert forall|xc: int, yc: int|
                                        #[trigger] char_covers_upto(
                                            c,
                                            cxg,
                                            pos_y as int,
                                            i1,
                                            xc,
                                            yc,
                                        ) == char_covers_upto(
                                        c,
                                        cxg,
                                        pos_y as int,
                                        i as int,
                                        xc,
                                        yc,
                                    ) by {
                                        lemma_char_covers_step(
                                            c,
                                            cxg,
                                            pos_y as int,
                                            i as int,
                                            xc,
                                            yc,
                                        );
                                    };
                                }
                            }
                            i += 1;
                        }
                        cx = cx.saturating_add(w + 1);
                        proof {
                            assert forall|xc: int, yc: int|
                                #[trigger] text_covers_upto(
                                    lc,
                                    start_x as int,
                                    pos_y as int,
                                    j1,
                                    xc,
                                    yc,
                                ) == (text_covers_upto(
                                lc,
                                start_x as int,
                                pos_y as int,
                                j as int,
                                xc,
                                yc,
                            ) || char_covers_upto(
                                c,
                                cxg,
                                pos_y as int,
                                m as int,
                                xc,
                                yc,
                            )) by {
                                lemma_text_covers_step(
                                    lc,
                                    start_x as int,
                                    pos_y as int,
                                    j as int,
                                    xc,
                                    yc,
                                );
                            };
                        }
                    },
                }
                j += 1;
            }
            proof {
                assert forall|p: int| 0 <= p < 1024 implies pixels@[p] == spec_pixel_upto(
                    *self,
                    lines,
                    li as int + 1,
                    p % 32,
                    p / 32,
                ) by {
                    lemma_fundamental_div_mod(p, 32);
                };
            }
            li += 1;
        }
        proof {
            assert forall|x: int, y: int| 0 <= x < 32 && 0 <= y < 32 implies pixels@[y * 32 + x]
                == #[trigger] spec_pixel(*self, lines_of(text@), x, y) by {
                lemma_fundamental_div_mod_converse(y * 32 + x, 32, y, x);
            };
        }
        pixels
    }
}

/// Flatten a pixel buffer into interleaved RGBA bytes, four per pixel, in
/// order, as the display and export layers consume them.
pub fn to_rgba_bytes(pixels: &Vec<[u8; 4]>) -> (r: Vec<u8>)
    requires
        4 * pixels@.len() <= usize::MAX,
    ensures
        r@.len() == 4 * pixels@.len(),
        forall|p: int, k: int|
            0 <= p < pixels@.len() && 0 <= k < 4 ==> r@[4 * p + k] == pixels@[p][k],
{
    let n = pixels.len();
    let mut bytes: Vec<u8> = Vec::new();
    let mut p: usize = 0;
    while p < n
        invariant
            p <= n,
            n == pixels@.len(),
            4 * pixels@.len() <= usize::MAX,
            bytes@.len() == 4 * p,
            forall|q: int, k: int| 0 <= q < p && 0 <= k < 4 ==> bytes@[4 * q + k] == pixels@[q][k],
        decreases n - p,
    {
        let px = pixels[p];
        bytes.push(px[0]);
        bytes.push(px[1]);
        bytes.push(px[2]);
        bytes.push(px[3]);
        p += 1;
    }
    bytes
}

/// Extending a glyph's considered mask entries by one adds exactly the
/// canvas point of entry `i`, if that entry is "on".
proof fn lemma_char_covers_step(c: char, cx: int, py: int, i: int, x: int, y: int)
    requires
        spec_supported(c),
        0 <= i < glyph_mask(c).len(),
    ensures
        char_covers_upto(c, cx, py, i + 1, x, y) <==> (char_covers_upto(c, cx, py, i, x, y) || (
        glyph_mask(c)[i] == 1 && x == cx + i % (glyph_width(c) as int) && y == py + i / (
        glyph_width(c) as int))),
{
    if char_covers_upto(c, cx, py, i + 1, x, y) {
        let ii = choose|ii: int|
            0 <= ii < i + 1 && glyph_mask(c)[ii] == 1 && x == cx + ii % (glyph_width(c) as int)
                && y == py + ii / (glyph_width(c) as int);
        if ii < i {
            assert(char_covers_upto(c, cx, py, i, x, y));
        }
    }
    if char_covers_upto(c, cx, py, i, x, y) {
        let ii = choose|ii: int|
            0 <= ii < i && glyph_mask(c)[ii] == 1 && x == cx + ii % (glyph_width(c) as int) && y
                == py + ii / (glyph_width(c) as int);
        assert(0 <= ii < i + 1 && glyph_mask(c)[ii] == 1 && x == cx + ii % (glyph_width(c) as int)
            && y == py + ii / (glyph_width(c) as int));
    }
    if glyph_mask(c)[i] == 1 && x == cx + i % (glyph_width(c) as int) && y == py + i / (
    glyph_width(c) as int) {
        assert(0 <= i < i + 1 && glyph_mask(c)[i] == 1 && x == cx + i % (glyph_width(c) as int)
            && y == py + i / (glyph_width(c) as int));
        assert(char_covers_upto(c, cx, py, i + 1, x, y));
    }
}

/// Extending a line's considered characters by one adds exactly the canvas
/// points that character's glyph covers at the cursor position.
proof fn lemma_text_covers_step(line: Seq<char>, sx: int, py: int, j: int, x: int, y: int)
    requires
        0 <= j < line.len(),
    ensures
        text_covers_upto(line, sx, py, j + 1, x, y) <==> (text_covers_upto(line, sx, py, j, x, y)
            || char_covers(line[j], sx + width_sum(line, j), py, x, y)),
{
    if text_covers_upto(line, sx, py, j + 1, x, y) {
        let jj = choose|jj: int|
            0 <= jj < j + 1 && char_covers(line[jj], sx + width_sum(line, jj), py, x, y);
        if jj < j {
            assert(text_covers_upto(line, sx, py, j, x, y));
        }
    }
    if text_covers_upto(line, sx, py, j, x, y) {
        let jj = choose|jj: int|
            0 <= jj < j && char_covers(line[jj], sx + width_sum(line, jj), py, x, y);
        assert(0 <= jj < j + 1 && char_covers(line[jj], sx + width_sum(line, jj), py, x, y));
    }
    if char_covers(line[j], sx + width_sum(line, j), py, x, y) {
        assert(0 <= j < j + 1 && char_covers(line[j], sx + width_sum(line, j), py, x, y));
    }
}

} // verus!

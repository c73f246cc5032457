//! Properties of the rasterizer and the atlas that relate several
//! operations, stated and proved over the same spec functions that the
//! executable functions' contracts use.

use crate::atlas::{glyph_mask, glyph_width, lemma_atlas_invariant, spec_supported, spec_to_upper};
use crate::icongen::{
    advance_of, char_covers, line_box_covers, line_glyphs_cover, spec_line_width, spec_pixel,
    spec_pixel_upto, spec_pos_y, spec_start_x, text_covers_upto, width_sum, IconGenerator,
};
use vstd::prelude::*;

verus! {

proof fn lemma_pixel_upto_one_of_three(
    gen: IconGenerator,
    lines: Seq<Seq<char>>,
    k: int,
    x: int,
    y: int,
)
    ensures
        spec_pixel_upto(gen, lines, k, x, y) == gen.background_color || spec_pixel_upto(
            gen,
            lines,
            k,
            x,
            y,
        ) == gen.text_background_color || spec_pixel_upto(gen, lines, k, x, y) == gen.text_color,
    decreases k,
{
    if k > 0 {
        lemma_pixel_upto_one_of_three(gen, lines, k - 1, x, y);
    }
}

/// Every canvas position gets exactly one of the three configured colors:
/// the canvas is drawn only by the background fill, the text-background
/// boxes and the glyph pixels, and no value is ever blended.
pub proof fn lemma_pixel_one_of_three(gen: IconGenerator, lines: Seq<Seq<char>>, x: int, y: int)
    ensures
        spec_pixel(gen, lines, x, y) == gen.background_color || spec_pixel(gen, lines, x, y)
            == gen.text_background_color || spec_pixel(gen, lines, x, y) == gen.text_color,
{
    lemma_pixel_upto_one_of_three(gen, lines, lines.len() as int, x, y);
}

/// The canvas is row-major: position `y * 32 + x` of the rendered buffer is
/// canvas column `x`, row `y`.
pub proof fn lemma_canvas_index(x: int, y: int)
    requires
        0 <= x < 32,
        0 <= y < 32,
    ensures
        0 <= y * 32 + x < 1024,
        (y * 32 + x) % 32 == x,
        (y * 32 + x) / 32 == y,
{
    vstd::arithmetic::div_mod::lemma_fundamental_div_mod_converse(y * 32 + x, 32, y, x);
}

/// A rendered buffer holds no value besides the three configured colors:
/// every position of a buffer that satisfies the rasterizer's contract is
/// the background, the text-background or the text color.
pub proof fn lemma_rendered_buffer_one_of_three(
    gen: IconGenerator,
    lines: Seq<Seq<char>>,
    r: Seq<[u8; 4]>,
)
    requires
        r.len() == 1024,
        forall|p: int| 0 <= p < 1024 ==> r[p] == spec_pixel(gen, lines, p % 32, p / 32),
    ensures
        forall|p: int|
            0 <= p < 1024 ==> r[p] == gen.background_color || r[p] == gen.text_background_color
                || r[p] == gen.text_color,
{
    assert forall|p: int| 0 <= p < 1024 implies r[p] == gen.background_color || r[p]
        == gen.text_background_color || r[p] == gen.text_color by {
        lemma_pixel_one_of_three(gen, lines, p % 32, p / 32);
    };
}

/// Rendering is deterministic and idempotent: any two buffers that satisfy
/// the rasterizer's contract for the same colors and lines are identical,
/// byte for byte, because the contract pins every position to
/// `spec_pixel`.
pub proof fn lemma_render_deterministic(
    gen: IconGenerator,
    lines: Seq<Seq<char>>,
    r1: Seq<[u8; 4]>,
    r2: Seq<[u8; 4]>,
)
    requires
        r1.len() == 1024,
        r2.len() == 1024,
        forall|p: int| 0 <= p < 1024 ==> r1[p] == spec_pixel(gen, lines, p % 32, p / 32),
        forall|p: int| 0 <= p < 1024 ==> r2[p] == spec_pixel(gen, lines, p % 32, p / 32),
    ensures
        r1 == r2,
{
    assert(r1 =~= r2);
}

/// An empty list of lines leaves the whole canvas in the background color.
pub proof fn lemma_empty_is_background(gen: IconGenerator, lines: Seq<Seq<char>>, x: int, y: int)
    requires
        lines.len() == 0,
    ensures
        spec_pixel(gen, lines, x, y) == gen.background_color,
{
}

proof fn lemma_unsupported_width_sum(line: Seq<char>, n: int)
    requires
        forall|i: int| 0 <= i < line.len() ==> !spec_supported(#[trigger] line[i]),
        n <= line.len(),
    ensures
        width_sum(line, n) == 0,
    decreases n,
{
    if n > 0 {
        lemma_unsupported_width_sum(line, n - 1);
    }
}

proof fn lemma_unsupported_line_covers_nothing(line: Seq<char>, sx: int, py: int, x: int, y: int)
    requires
        forall|i: int| 0 <= i < line.len() ==> !spec_supported(#[trigger] line[i]),
    ensures
        !text_covers_upto(line, sx, py, line.len() as int, x, y),
{
    if text_covers_upto(line, sx, py, line.len() as int, x, y) {
        let j = choose|j: int|
            0 <= j < line.len() && char_covers(line[j], sx + width_sum(line, j), py, x, y);
        assert(!spec_supported(line[j]));
    }
}

proof fn lemma_unsupported_pixel_upto(
    gen: IconGenerator,
    lines1: Seq<Seq<char>>,
    lines2: Seq<Seq<char>>,
    k: int,
    up: int,
    x: int,
    y: int,
)
    requires
        lines1.len() == lines2.len(),
        0 <= k < lines1.len(),
        forall|j: int| 0 <= j < lines1.len() && j != k ==> lines1[j] == lines2[j],
        forall|i: int| 0 <= i < lines1[k].len() ==> !spec_supported(#[trigger] lines1[k][i]),
        lines2[k].len() == 0,
        up <= lines1.len(),
    ensures
        spec_pixel_upto(gen, lines1, up, x, y) == spec_pixel_upto(gen, lines2, up, x, y),
    decreases up,
{
    if up > 0 {
        let li = up - 1;
        if li == k {
            lemma_unsupported_width_sum(lines1[k], lines1[k].len() as int);
            assert(spec_line_width(lines1[k]) == 0 && spec_line_width(lines2[k]) == 0);
            lemma_unsupported_line_covers_nothing(
                lines1[k],
                spec_start_x(0),
                spec_pos_y(lines1.len() as int, k),
                x,
                y,
            );
            assert(!line_glyphs_cover(lines1, k, x, y));
            assert(!line_glyphs_cover(lines2, k, x, y));
            assert(line_box_covers(lines1, k, x, y) == line_box_covers(lines2, k, x, y));
        } else {
            assert(lines1[li] == lines2[li]);
            assert(line_glyphs_cover(lines1, li, x, y) == line_glyphs_cover(lines2, li, x, y));
            assert(line_box_covers(lines1, li, x, y) == line_box_covers(lines2, li, x, y));
        }
        lemma_unsupported_pixel_upto(gen, lines1, lines2, k, li, x, y);
    }
}

/// A line of only unsupported characters renders exactly like an empty
/// line in its place: width 0, no glyph pixels, the same collapsed
/// text-background box.
pub proof fn lemma_unsupported_line_like_empty(
    gen: IconGenerator,
    lines1: Seq<Seq<char>>,
    lines2: Seq<Seq<char>>,
    k: int,
    x: int,
    y: int,
)
    requires
        lines1.len() == lines2.len(),
        0 <= k < lines1.len(),
        forall|j: int| 0 <= j < lines1.len() && j != k ==> lines1[j] == lines2[j],
        forall|i: int| 0 <= i < lines1[k].len() ==> !spec_supported(#[trigger] lines1[k][i]),
        lines2[k].len() == 0,
    ensures
        spec_pixel(gen, lines1, x, y) == spec_pixel(gen, lines2, x, y),
{
    lemma_unsupported_pixel_upto(gen, lines1, lines2, k, lines1.len() as int, x, y);
}

/// A literal space advances the cursor by exactly 2 pixels and draws no
/// glyph pixel of its own, while an unsupported character advances it by 0.
pub proof fn lemma_space_advance(c: char, cx: int, py: int, x: int, y: int)
    ensures
        advance_of(' ') == 2,
        !spec_supported(c) ==> advance_of(c) == 0,
        !char_covers(' ', cx, py, x, y),
{
    if char_covers(' ', cx, py, x, y) {
        let i = choose|i: int|
            0 <= i < glyph_mask(' ').len() && glyph_mask(' ')[i] == 1 && x == cx + i % (glyph_width(
                ' ',
            ) as int) && y == py + i / (glyph_width(' ') as int);
        assert(glyph_mask(' ')[i] == 0);
    }
}

/// The rows that hold the glyphs of two distinct lines never overlap: line
/// anchors are 6 rows apart and a glyph is 5 rows tall. (The one-pixel
/// margins of the text-background boxes of adjacent lines do share a single
/// row.)
pub proof fn lemma_lines_vertically_disjoint(
    lines: Seq<Seq<char>>,
    i: int,
    j: int,
    x1: int,
    y: int,
    x2: int,
)
    requires
        0 <= i < j < lines.len(),
    ensures
        !(line_glyphs_cover(lines, i, x1, y) && line_glyphs_cover(lines, j, x2, y)),
{
    let n = lines.len() as int;
    assert(spec_pos_y(n, i) + 6 <= spec_pos_y(n, j));
    if line_glyphs_cover(lines, i, x1, y) && line_glyphs_cover(lines, j, x2, y) {
        lemma_glyph_rows_within(lines, i, x1, y);
        lemma_glyph_rows_within(lines, j, x2, y);
    }
}

/// A glyph pixel of line `li` lies between the line's anchor row and 4 rows
/// below it.
pub proof fn lemma_glyph_rows_within(lines: Seq<Seq<char>>, li: int, x: int, y: int)
    requires
        0 <= li < lines.len(),
        line_glyphs_cover(lines, li, x, y),
    ensures
        spec_pos_y(lines.len() as int, li) <= y <= spec_pos_y(lines.len() as int, li) + 4,
{
    let line = lines[li];
    let sx = spec_start_x(spec_line_width(line));
    let py = spec_pos_y(lines.len() as int, li);
    let j = choose|j: int|
        0 <= j < line.len() && char_covers(line[j], sx + width_sum(line, j), py, x, y);
    let c = line[j];
    let i = choose|i: int|
        0 <= i < glyph_mask(c).len() && glyph_mask(c)[i] == 1 && x == sx + width_sum(line, j) + i
            % (glyph_width(c) as int) && y == py + i / (glyph_width(c) as int);
    lemma_atlas_invariant(c);
    assert(0 <= i / (glyph_width(c) as int) <= 4) by {
        assert(glyph_width(c) == 1 || glyph_width(c) == 3);
    };
}

/// Atlas lookup is case-insensitive: a character and its uppercase fold are
/// supported alike and share one glyph.
pub proof fn lemma_lookup_case_insensitive(c: char)
    ensures
        spec_supported(c) == spec_supported(spec_to_upper(c)),
        glyph_width(c) == glyph_width(spec_to_upper(c)),
        glyph_mask(c) == glyph_mask(spec_to_upper(c)),
{
    assert(spec_to_upper(spec_to_upper(c)) == spec_to_upper(c));
}

} // verus!

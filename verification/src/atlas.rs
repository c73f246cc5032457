//! The glyph atlas: a fixed, immutable mapping from supported characters to
//! small pixel masks. Every glyph is 5 rows tall; every glyph except the
//! space is 3 columns wide, the space is 1 column wide and draws nothing.
//! Lookup folds its argument to uppercase first, so it is case-insensitive.

use vstd::prelude::*;

verus! {

/// Uppercase folding as the atlas applies it before lookup: the twenty-six
/// ASCII lowercase letters map to their uppercase forms, everything else is
/// unchanged.
pub open spec fn spec_to_upper(c: char) -> char {
    if c == 'a' {
        'A'
    } else if c == 'b' {
        'B'
    } else if c == 'c' {
        'C'
    } else if c == 'd' {
        'D'
    } else if c == 'e' {
        'E'
    } else if c == 'f' {
        'F'
    } else if c == 'g' {
        'G'
    } else if c == 'h' {
        'H'
    } else if c == 'i' {
        'I'
    } else if c == 'j' {
        'J'
    } else if c == 'k' {
        'K'
    } else if c == 'l' {
        'L'
    } else if c == 'm' {
        'M'
    } else if c == 'n' {
        'N'
    } else if c == 'o' {
        'O'
    } else if c == 'p' {
        'P'
    } else if c == 'q' {
        'Q'
    } else if c == 'r' {
        'R'
    } else if c == 's' {
        'S'
    } else if c == 't' {
        'T'
    } else if c == 'u' {
        'U'
    } else if c == 'v' {
        'V'
    } else if c == 'w' {
        'W'
    } else if c == 'x' {
        'X'
    } else if c == 'y' {
        'Y'
    } else if c == 'z' {
        'Z'
    } else {
        c
    }
}

/// Whether an uppercase-folded character has a glyph in the atlas.
pub open spec fn is_base_char(c: char) -> bool {
    ||| c == 'A' || c == 'B' || c == 'C' || c == 'D' || c == 'E' || c == 'F' || c == 'G'
    ||| c == 'H' || c == 'I' || c == 'J' || c == 'K' || c == 'L' || c == 'M' || c == 'N'
    ||| c == 'O' || c == 'P' || c == 'Q' || c == 'R' || c == 'S' || c == 'T' || c == 'U'
    ||| c == 'V' || c == 'W' || c == 'X' || c == 'Y' || c == 'Z'
    ||| c == '0' || c == '1' || c == '2' || c == '3' || c == '4' || c == '5' || c == '6'
    ||| c == '7' || c == '8' || c == '9'
    ||| c == '/' || c == '.' || c == ' '
}

/// Width of a base (already uppercase) glyph: the space is 1 column wide,
/// every other glyph is 3 columns wide.
pub open spec fn base_width(c: char) -> u32 {
    if c == ' ' {
        1
    } else {
        3
    }
}

/// The row-major on/off mask of a base glyph, `base_width(c) * 5` entries,
/// each 0 or 1.
pub open spec fn base_mask(c: char) -> Seq<u8> {
    if c == 'A' {
        seq![0u8, 1, 0, 1, 0, 1, 1, 1, 1, 1, 0, 1, 1, 0, 1]
    } else if c == 'B' {
        seq![1u8, 1, 0, 1, 0, 1, 1, 1, 0, 1, 0, 1, 1, 1, 0]
    } else if c == 'C' {
        seq![0u8, 1, 1, 1, 0, 0, 1, 0, 0, 1, 0, 0, 0, 1, 1]
    } else if c == 'D' {
        seq![1u8, 1, 0, 1, 0, 1, 1, 0, 1, 1, 0, 1, 1, 1, 0]
    } else if c == 'E' {
        seq![1u8, 1, 1, 1, 0, 0, 1, 1, 0, 1, 0, 0, 1, 1, 1]
    } else if c == 'F' {
        seq![1u8, 1, 1, 1, 0, 0, 1, 1, 0, 1, 0, 0, 1, 0, 0]
    } else if c == 'G' {
        seq![0u8, 1, 1, 1, 0, 0, 1, 0, 1, 1, 0, 1, 0, 1, 1]
    } else if c == 'H' {
        seq![1u8, 0, 1, 1, 0, 1, 1, 1, 1, 1, 0, 1, 1, 0, 1]
    } else if c == 'I' {
        seq![1u8, 1, 1, 0, 1, 0, 0, 1, 0, 0, 1, 0, 1, 1, 1]
    } else if c == 'J' {
        seq![0u8, 1, 1, 0, 0, 1, 0, 0, 1, 1, 0, 1, 0, 1, 0]
    } else if c == 'K' {
        seq![1u8, 0, 1, 1, 0, 1, 1, 1, 0, 1, 0, 1, 1, 0, 1]
    } else if c == 'L' {
        seq![1u8, 0, 0, 1, 0, 0, 1, 0, 0, 1, 0, 0, 1, 1, 1]
    } else if c == 'M' {
        seq![1u8, 0, 1, 1, 1, 1, 1, 1, 1, 1, 0, 1, 1, 0, 1]
    } else if c == 'N' {
        seq![1u8, 0, 1, 1, 1, 1, 1, 0, 1, 1, 0, 1, 1, 0, 1]
    } else if c == 'O' {
        seq![0u8, 1, 0, 1, 0, 1, 1, 0, 1, 1, 0, 1, 0, 1, 0]
    } else if c == 'P' {
        seq![1u8, 1, 0, 1, 0, 1, 1, 1, 0, 1, 0, 0, 1, 0, 0]
    } else if c == 'Q' {
        seq![0u8, 1, 0, 1, 0, 1, 1, 0, 1, 1, 1, 1, 0, 1, 1]
    } else if c == 'R' {
        seq![1u8, 1, 0, 1, 0, 1, 1, 1, 0, 1, 0, 1, 1, 0, 1]
    } else if c == 'S' {
        seq![0u8, 1, 1, 1, 0, 0, 1, 1, 1, 0, 0, 1, 1, 1, 0]
    } else if c == 'T' {
        seq![1u8, 1, 1, 0, 1, 0, 0, 1, 0, 0, 1, 0, 0, 1, 0]
    } else if c == 'U' {
        seq![1u8, 0, 1, 1, 0, 1, 1, 0, 1, 1, 0, 1, 1, 1, 1]
    } else if c == 'V' {
        seq![1u8, 0, 1, 1, 0, 1, 1, 0, 1, 1, 0, 1, 0, 1, 0]
    } else if c == 'W' {
        seq![1u8, 0, 1, 1, 0, 1, 1, 1, 1, 1, 1, 1, 1, 0, 1]
    } else if c == 'X' {
        seq![1u8, 0, 1, 1, 0, 1, 0, 1, 0, 1, 0, 1, 1, 0, 1]
    } else if c == 'Y' {
        seq![1u8, 0, 1, 1, 0, 1, 0, 1, 0, 0, 1, 0, 0, 1, 0]
    } else if c == 'Z' {
        seq![1u8, 1, 1, 0, 0, 1, 0, 1, 0, 1, 0, 0, 1, 1, 1]
    } else if c == '/' {
        seq![0u8, 0, 1, 0, 0, 1, 0, 1, 0, 1, 0, 0, 1, 0, 0]
    } else if c == '.' {
        seq![0u8, 0, 0, 0, 0, 0, 0, 0, 0, 0, 0, 0, 0, 1, 0]
    } else if c == ' ' {
        seq![0u8, 0, 0, 0, 0]
    } else if c == '1' {
        seq![0u8, 1, 0, 1, 1, 0, 0, 1, 0, 0, 1, 0, 1, 1, 1]
    } else if c == '2' {
        seq![1u8, 1, 1, 0, 0, 1, 1, 1, 1, 1, 0, 0, 1, 1, 1]
    } else if c == '3' {
        seq![1u8, 1, 1, 0, 0, 1, 0, 1, 1, 0, 0, 1, 1, 1, 1]
    } else if c == '4' {
        seq![1u8, 0, 1, 1, 0, 1, 1, 1, 1, 0, 0, 1, 0, 0, 1]
    } else if c == '5' {
        seq![1u8, 1, 1, 1, 0, 0, 1, 1, 1, 0, 0, 1, 1, 1, 1]
    } else if c == '6' {
        seq![1u8, 1, 1, 1, 0, 0, 1, 1, 1, 1, 0, 1, 1, 1, 1]
    } else if c == '7' {
        seq![1u8, 1, 1, 0, 0, 1, 0, 0, 1, 0, 0, 1, 0, 0, 1]
    } else if c == '8' {
        seq![1u8, 1, 1, 1, 0, 1, 1, 1, 1, 1, 0, 1, 1, 1, 1]
    } else if c == '9' {
        seq![1u8, 1, 1, 1, 0, 1, 1, 1, 1, 0, 0, 1, 1, 1, 1]
    } else if c == '0' {
        seq![1u8, 1, 1, 1, 0, 1, 1, 0, 1, 1, 0, 1, 1, 1, 1]
    } else {
        Seq::empty()
    }
}

/// Whether the atlas supports a character (after uppercase folding).
pub open spec fn spec_supported(c: char) -> bool {
    is_base_char(spec_to_upper(c))
}

/// Width of a supported character's glyph.
pub open spec fn glyph_width(c: char) -> u32 {
    base_width(spec_to_upper(c))
}

/// Mask of a supported character's glyph.
pub open spec fn glyph_mask(c: char) -> Seq<u8> {
    base_mask(spec_to_upper(c))
}

/// A glyph: a fixed width together with a row-major on/off pixel mask of
/// `width * 5` entries.
pub struct Character {
    width: u32,
    pixels: Vec<u8>,
}

impl Character {
    /// The glyph's width in columns.
    pub closed spec fn spec_width(&self) -> u32 {
        self.width
    }

    /// The glyph's row-major mask.
    pub closed spec fn spec_pixels(&self) -> Seq<u8> {
        self.pixels@
    }

    /// Every glyph is 5 rows tall and either 1 (space) or 3 columns wide.
    pub open spec fn wf(&self) -> bool {
        &&& self.spec_pixels().len() == 5 * self.spec_width()
        &&& (self.spec_width() == 1 || self.spec_width() == 3)
    }

    pub fn width(&self) -> (w: u32)
        ensures
            w == self.spec_width(),
    {
        self.width
    }

    pub fn pixels(&self) -> (p: &Vec<u8>)
        ensures
            p@ == self.spec_pixels(),
    {
        &self.pixels
    }
}

/// The atlas invariant: every supported character's glyph mask has exactly
/// `5 * width` entries (5 rows), and its width is 1 for the space and 3 for
/// everything else.
pub proof fn lemma_atlas_invariant(c: char)
    requires
        spec_supported(c),
    ensures
        glyph_mask(c).len() == 5 * glyph_width(c),
        glyph_width(c) == 1 || glyph_width(c) == 3,
        glyph_width(c) == 1 <==> spec_to_upper(c) == ' ',
{
}

/// Uppercase folding, executable form.
pub fn to_upper(c: char) -> (u: char)
    ensures
        u == spec_to_upper(c),
{
    match c {
        'a' => 'A',
        'b' => 'B',
        'c' => 'C',
        'd' => 'D',
        'e' => 'E',
        'f' => 'F',
        'g' => 'G',
        'h' => 'H',
        'i' => 'I',
        'j' => 'J',
        'k' => 'K',
        'l' => 'L',
        'm' => 'M',
        'n' => 'N',
        'o' => 'O',
        'p' => 'P',
        'q' => 'Q',
        'r' => 'R',
        's' => 'S',
        't' => 'T',
        'u' => 'U',
        'v' => 'V',
        'w' => 'W',
        'x' => 'X',
        'y' => 'Y',
        'z' => 'Z',
        _ => c,
    }
}

/// Atlas lookup: folds to uppercase, then returns the glyph of a supported
/// character, or nothing for an unsupported one.
pub fn get(c: char) -> (r: Option<Character>)
    ensures
        r is Some <==> spec_supported(c),
        r matches Some(g) ==> {
            &&& g.spec_width() == glyph_width(c)
            &&& g.spec_pixels() == glyph_mask(c)
            &&& g.wf()
        },
{
    let u = to_upper(c);
    match u {
        'A' => {
            let v: Vec<u8> = vec![0u8, 1, 0, 1, 0, 1, 1, 1, 1, 1, 0, 1, 1, 0, 1];
            proof {
                assert(v@ =~= base_mask('A'));
            }
            Some(Character { width: 3, pixels: v })
        },
        'B' => {
            let v: Vec<u8> = vec![1u8, 1, 0, 1, 0, 1, 1, 1, 0, 1, 0, 1, 1, 1, 0];
            proof {
                assert(v@ =~= base_mask('B'));
            }
            Some(Character { width: 3, pixels: v })
        },
        'C' => {
            let v: Vec<u8> = vec![0u8, 1, 1, 1, 0, 0, 1, 0, 0, 1, 0, 0, 0, 1, 1];
            proof {
                assert(v@ =~= base_mask('C'));
            }
            Some(Character { width: 3, pixels: v })
        },
        'D' => {
            let v: Vec<u8> = vec![1u8, 1, 0, 1, 0, 1, 1, 0, 1, 1, 0, 1, 1, 1, 0];
            proof {
                assert(v@ =~= base_mask('D'));
            }
            Some(Character { width: 3, pixels: v })
        },
        'E' => {
            let v: Vec<u8> = vec![1u8, 1, 1, 1, 0, 0, 1, 1, 0, 1, 0, 0, 1, 1, 1];
            proof {
                assert(v@ =~= base_mask('E'));
            }
            Some(Character { width: 3, pixels: v })
        },
        'F' => {
            let v: Vec<u8> = vec![1u8, 1, 1, 1, 0, 0, 1, 1, 0, 1, 0, 0, 1, 0, 0];
            proof {
                assert(v@ =~= base_mask('F'));
            }
            Some(Character { width: 3, pixels: v })
        },
        'G' => {
            let v: Vec<u8> = vec![0u8, 1, 1, 1, 0, 0, 1, 0, 1, 1, 0, 1, 0, 1, 1];
            proof {
                assert(v@ =~= base_mask('G'));
            }
            Some(Character { width: 3, pixels: v })
        },
        'H' => {
            let v: Vec<u8> = vec![1u8, 0, 1, 1, 0, 1, 1, 1, 1, 1, 0, 1, 1, 0, 1];
            proof {
                assert(v@ =~= base_mask('H'));
            }
            Some(Character { width: 3, pixels: v })
        },
        'I' => {
            let v: Vec<u8> = vec![1u8, 1, 1, 0, 1, 0, 0, 1, 0, 0, 1, 0, 1, 1, 1];
            proof {
                assert(v@ =~= base_mask('I'));
            }
            Some(Character { width: 3, pixels: v })
        },
        'J' => {
            let v: Vec<u8> = vec![0u8, 1, 1, 0, 0, 1, 0, 0, 1, 1, 0, 1, 0, 1, 0];
            proof {
                assert(v@ =~= base_mask('J'));
            }
            Some(Character { width: 3, pixels: v })
        },
        'K' => {
            let v: Vec<u8> = vec![1u8, 0, 1, 1, 0, 1, 1, 1, 0, 1, 0, 1, 1, 0, 1];
            proof {
                assert(v@ =~= base_mask('K'));
            }
            Some(Character { width: 3, pixels: v })
        },
        'L' => {
            let v: Vec<u8> = vec![1u8, 0, 0, 1, 0, 0, 1, 0, 0, 1, 0, 0, 1, 1, 1];
            proof {
                assert(v@ =~= base_mask('L'));
            }
            Some(Character { width: 3, pixels: v })
        },
        'M' => {
            let v: Vec<u8> = vec![1u8, 0, 1, 1, 1, 1, 1, 1, 1, 1, 0, 1, 1, 0, 1];
            proof {
                assert(v@ =~= base_mask('M'));
            }
            Some(Character { width: 3, pixels: v })
        },
        'N' => {
            let v: Vec<u8> = vec![1u8, 0, 1, 1, 1, 1, 1, 0, 1, 1, 0, 1, 1, 0, 1];
            proof {
                assert(v@ =~= base_mask('N'));
            }
            Some(Character { width: 3, pixels: v })
        },
        'O' => {
            let v: Vec<u8> = vec![0u8, 1, 0, 1, 0, 1, 1, 0, 1, 1, 0, 1, 0, 1, 0];
            proof {
                assert(v@ =~= base_mask('O'));
            }
            Some(Character { width: 3, pixels: v })
        },
        'P' => {
            let v: Vec<u8> = vec![1u8, 1, 0, 1, 0, 1, 1, 1, 0, 1, 0, 0, 1, 0, 0];
            proof {
                assert(v@ =~= base_mask('P'));
            }
            Some(Character { width: 3, pixels: v })
        },
        'Q' => {
            let v: Vec<u8> = vec![0u8, 1, 0, 1, 0, 1, 1, 0, 1, 1, 1, 1, 0, 1, 1];
            proof {
                assert(v@ =~= base_mask('Q'));
            }
            Some(Character { width: 3, pixels: v })
        },
        'R' => {
            let v: Vec<u8> = vec![1u8, 1, 0, 1, 0, 1, 1, 1, 0, 1, 0, 1, 1, 0, 1];
            proof {
                assert(v@ =~= base_mask('R'));
            }
            Some(Character { width: 3, pixels: v })
        },
        'S' => {
            let v: Vec<u8> = vec![0u8, 1, 1, 1, 0, 0, 1, 1, 1, 0, 0, 1, 1, 1, 0];
            proof {
                assert(v@ =~= base_mask('S'));
            }
            Some(Character { width: 3, pixels: v })
        },
        'T' => {
            let v: Vec<u8> = vec![1u8, 1, 1, 0, 1, 0, 0, 1, 0, 0, 1, 0, 0, 1, 0];
            proof {
                assert(v@ =~= base_mask('T'));
            }
            Some(Character { width: 3, pixels: v })
        },
        'U' => {
            let v: Vec<u8> = vec![1u8, 0, 1, 1, 0, 1, 1, 0, 1, 1, 0, 1, 1, 1, 1];
            proof {
                assert(v@ =~= base_mask('U'));
            }
            Some(Character { width: 3, pixels: v })
        },
        'V' => {
            let v: Vec<u8> = vec![1u8, 0, 1, 1, 0, 1, 1, 0, 1, 1, 0, 1, 0, 1, 0];
            proof {
                assert(v@ =~= base_mask('V'));
            }
            Some(Character { width: 3, pixels: v })
        },
        'W' => {
            let v: Vec<u8> = vec![1u8, 0, 1, 1, 0, 1, 1, 1, 1, 1, 1, 1, 1, 0, 1];
            proof {
                assert(v@ =~= base_mask('W'));
            }
            Some(Character { width: 3, pixels: v })
        },
        'X' => {
            let v: Vec<u8> = vec![1u8, 0, 1, 1, 0, 1, 0, 1, 0, 1, 0, 1, 1, 0, 1];
            proof {
                assert(v@ =~= base_mask('X'));
            }
            Some(Character { width: 3, pixels: v })
        },
        'Y' => {
            let v: Vec<u8> = vec![1u8, 0, 1, 1, 0, 1, 0, 1, 0, 0, 1, 0, 0, 1, 0];
            proof {
                assert(v@ =~= base_mask('Y'));
            }
            Some(Character { width: 3, pixels: v })
        },
        'Z' => {
            let v: Vec<u8> = vec![1u8, 1, 1, 0, 0, 1, 0, 1, 0, 1, 0, 0, 1, 1, 1];
            proof {
                assert(v@ =~= base_mask('Z'));
            }
            Some(Character { width: 3, pixels: v })
        },
        '/' => {
            let v: Vec<u8> = vec![0u8, 0, 1, 0, 0, 1, 0, 1, 0, 1, 0, 0, 1, 0, 0];
            proof {
                assert(v@ =~= base_mask('/'));
            }
            Some(Character { width: 3, pixels: v })
        },
        '.' => {
            let v: Vec<u8> = vec![0u8, 0, 0, 0, 0, 0, 0, 0, 0, 0, 0, 0, 0, 1, 0];
            proof {
                assert(v@ =~= base_mask('.'));
            }
            Some(Character { width: 3, pixels: v })
        },
        ' ' => {
            let v: Vec<u8> = vec![0u8, 0, 0, 0, 0];
            proof {
                assert(v@ =~= base_mask(' '));
            }
            Some(Character { width: 1, pixels: v })
        },
        '1' => {
            let v: Vec<u8> = vec![0u8, 1, 0, 1, 1, 0, 0, 1, 0, 0, 1, 0, 1, 1, 1];
            proof {
                assert(v@ =~= base_mask('1'));
            }
            Some(Character { width: 3, pixels: v })
        },
        '2' => {
            let v: Vec<u8> = vec![1u8, 1, 1, 0, 0, 1, 1, 1, 1, 1, 0, 0, 1, 1, 1];
            proof {
                assert(v@ =~= base_mask('2'));
            }
            Some(Character { width: 3, pixels: v })
        },
        '3' => {
            let v: Vec<u8> = vec![1u8, 1, 1, 0, 0, 1, 0, 1, 1, 0, 0, 1, 1, 1, 1];
            proof {
                assert(v@ =~= base_mask('3'));
            }
            Some(Character { width: 3, pixels: v })
        },
        '4' => {
            let v: Vec<u8> = vec![1u8, 0, 1, 1, 0, 1, 1, 1, 1, 0, 0, 1, 0, 0, 1];
            proof {
                assert(v@ =~= base_mask('4'));
            }
            Some(Character { width: 3, pixels: v })
        },
        '5' => {
            let v: Vec<u8> = vec![1u8, 1, 1, 1, 0, 0, 1, 1, 1, 0, 0, 1, 1, 1, 1];
            proof {
                assert(v@ =~= base_mask('5'));
            }
            Some(Character { width: 3, pixels: v })
        },
        '6' => {
            let v: Vec<u8> = vec![1u8, 1, 1, 1, 0, 0, 1, 1, 1, 1, 0, 1, 1, 1, 1];
            proof {
                assert(v@ =~= base_mask('6'));
            }
            Some(Character { width: 3, pixels: v })
        },
        '7' => {
            let v: Vec<u8> = vec![1u8, 1, 1, 0, 0, 1, 0, 0, 1, 0, 0, 1, 0, 0, 1];
            proof {
                assert(v@ =~= base_mask('7'));
            }
            Some(Character { width: 3, pixels: v })
        },
        '8' => {
            let v: Vec<u8> = vec![1u8, 1, 1, 1, 0, 1, 1, 1, 1, 1, 0, 1, 1, 1, 1];
            proof {
                assert(v@ =~= base_mask('8'));
            }
            Some(Character { width: 3, pixels: v })
        },
        '9' => {
            let v: Vec<u8> = vec![1u8, 1, 1, 1, 0, 1, 1, 1, 1, 0, 0, 1, 1, 1, 1];
            proof {
                assert(v@ =~= base_mask('9'));
            }
            Some(Character { width: 3, pixels: v })
        },
        '0' => {
            let v: Vec<u8> = vec![1u8, 1, 1, 1, 0, 1, 1, 0, 1, 1, 0, 1, 1, 1, 1];
            proof {
                assert(v@ =~= base_mask('0'));
            }
            Some(Character { width: 3, pixels: v })
        },
        _ => None,
    }
}

} // verus!

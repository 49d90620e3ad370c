//! The built-in font: sixteen fixed glyphs for the characters 0x0 through
//! 0xF, five packed rows of one byte each, glyph pixels in the high four bits
//! of every row. The font is copied into the reserved low memory at
//! construction and consumed by the glyph-address and bulk-transfer opcodes.

use vstd::prelude::*;
use crate::draw::{sprite_bit, Drawable};

verus! {

/// Number of characters in the font.
pub const FONT_CHARACTERS: usize = 16;

/// Packed rows per glyph.
pub const FONT_ROWS_PER_GLYPH: usize = 5;

/// The five packed rows of the glyph for `character`.
pub open spec fn glyph_rows(character: int) -> Seq<u8> {
    if character == 0x0 {
        seq![0xF0u8, 0x90, 0x90, 0x90, 0xF0]
    } else if character == 0x1 {
        seq![0x20u8, 0x60, 0x20, 0x20, 0x70]
    } else if character == 0x2 {
        seq![0xF0u8, 0x10, 0xF0, 0x80, 0xF0]
    } else if character == 0x3 {
        seq![0xF0u8, 0x10, 0xF0, 0x10, 0xF0]
    } else if character == 0x4 {
        seq![0x90u8, 0x90, 0xF0, 0x10, 0x10]
    } else if character == 0x5 {
        seq![0xF0u8, 0x80, 0xF0, 0x10, 0xF0]
    } else if character == 0x6 {
        seq![0xF0u8, 0x80, 0xF0, 0x90, 0xF0]
    } else if character == 0x7 {
        seq![0xF0u8, 0x10, 0x20, 0x40, 0x40]
    } else if character == 0x8 {
        seq![0xF0u8, 0x90, 0xF0, 0x90, 0xF0]
    } else if character == 0x9 {
        seq![0xF0u8, 0x90, 0xF0, 0x10, 0xF0]
    } else if character == 0xA {
        seq![0xF0u8, 0x90, 0xF0, 0x90, 0x90]
    } else if character == 0xB {
        seq![0xE0u8, 0x90, 0xE0, 0x90, 0xE0]
    } else if character == 0xC {
        seq![0xF0u8, 0x80, 0x80, 0x80, 0xF0]
    } else if character == 0xD {
        seq![0xE0u8, 0x90, 0x90, 0x90, 0xE0]
    } else if character == 0xE {
        seq![0xF0u8, 0x80, 0xF0, 0x80, 0xF0]
    } else if character == 0xF {
        seq![0xF0u8, 0x80, 0xF0, 0x80, 0x80]
    } else {
        seq![]
    }
}

/// Packed rows unpacked to one byte per pixel, row-major, most significant
/// bit first: one where the sprite bit is set, zero where it is not.
pub open spec fn unpacked(rows: Seq<u8>) -> Seq<u8> {
    Seq::new(
        rows.len() * 8,
        |j: int|
            if sprite_bit(rows[j / 8], j % 8) {
                1u8
            } else {
                0u8
            },
    )
}

/// The packed glyph rows of every character, indexed by character value.
pub fn get_character_set() -> (r: Vec<[u8; 5]>)
    ensures
        r@.len() == FONT_CHARACTERS,
        forall|c: int| 0 <= c < FONT_CHARACTERS ==> (#[trigger] r@[c])@ == glyph_rows(c),
{
    let mut r: Vec<[u8; 5]> = Vec::new();
    r.push([0xF0, 0x90, 0x90, 0x90, 0xF0]);
    r.push([0x20, 0x60, 0x20, 0x20, 0x70]);
    r.push([0xF0, 0x10, 0xF0, 0x80, 0xF0]);
    r.push([0xF0, 0x10, 0xF0, 0x10, 0xF0]);
    r.push([0x90, 0x90, 0xF0, 0x10, 0x10]);
    r.push([0xF0, 0x80, 0xF0, 0x10, 0xF0]);
    r.push([0xF0, 0x80, 0xF0, 0x90, 0xF0]);
    r.push([0xF0, 0x10, 0x20, 0x40, 0x40]);
    r.push([0xF0, 0x90, 0xF0, 0x90, 0xF0]);
    r.push([0xF0, 0x90, 0xF0, 0x10, 0xF0]);
    r.push([0xF0, 0x90, 0xF0, 0x90, 0x90]);
    r.push([0xE0, 0x90, 0xE0, 0x90, 0xE0]);
    r.push([0xF0, 0x80, 0x80, 0x80, 0xF0]);
    r.push([0xE0, 0x90, 0x90, 0x90, 0xE0]);
    r.push([0xF0, 0x80, 0xF0, 0x80, 0xF0]);
    r.push([0xF0, 0x80, 0xF0, 0x80, 0x80]);
    proof {
        assert forall|c: int| 0 <= c < FONT_CHARACTERS implies (#[trigger] r@[c])@ == glyph_rows(
            c,
        ) by {
            assert(r@[0]@ =~= glyph_rows(0));
            assert(r@[1]@ =~= glyph_rows(1));
            assert(r@[2]@ =~= glyph_rows(2));
            assert(r@[3]@ =~= glyph_rows(3));
            assert(r@[4]@ =~= glyph_rows(4));
            assert(r@[5]@ =~= glyph_rows(5));
            assert(r@[6]@ =~= glyph_rows(6));
            assert(r@[7]@ =~= glyph_rows(7));
            assert(r@[8]@ =~= glyph_rows(8));
            assert(r@[9]@ =~= glyph_rows(9));
            assert(r@[10]@ =~= glyph_rows(10));
            assert(r@[11]@ =~= glyph_rows(11));
            assert(r@[12]@ =~= glyph_rows(12));
            assert(r@[13]@ =~= glyph_rows(13));
            assert(r@[14]@ =~= glyph_rows(14));
            assert(r@[15]@ =~= glyph_rows(15));
        }
    }
    r
}

/// One character's glyph unpacked into a blittable rectangle of pixels.
pub struct FontSprite {
    /// The character this glyph renders.
    pub character: u8,
    /// Width of the sprite in pixels.
    pub width: usize,
    /// Height of the sprite in pixels.
    pub height: usize,
    /// Unpacked pixels, one byte per pixel, row-major.
    pub pixels: Vec<u8>,
}

impl FontSprite {
    /// The sprite is eight pixels wide, five tall, and its pixels are the
    /// unpacking of its character's packed glyph rows.
    pub open spec fn wf(&self) -> bool {
        &&& self.character < FONT_CHARACTERS
        &&& self.spec_width() == 8
        &&& self.spec_height() == FONT_ROWS_PER_GLYPH
        &&& self.spec_pixels() == unpacked(glyph_rows(self.character as int))
    }
}

impl Drawable for FontSprite {
    closed spec fn spec_width(&self) -> int {
        self.width as int
    }

    closed spec fn spec_height(&self) -> int {
        self.height as int
    }

    closed spec fn spec_pixels(&self) -> Seq<u8> {
        self.pixels@
    }

    fn width(&self) -> (r: usize)
        ensures
            r == self.spec_width(),
    {
        self.width
    }

    fn height(&self) -> (r: usize)
        ensures
            r == self.spec_height(),
    {
        self.height
    }

    fn pixels(&self) -> (r: &[u8])
        ensures
            r@ == self.spec_pixels(),
    {
        self.pixels.as_slice()
    }
}

/// The typeface: the packed character set and one unpacked sprite per
/// character.
pub struct Font {
    char_set: Vec<[u8; 5]>,
    sprites: Vec<FontSprite>,
}

impl Font {
    /// Both tables cover every character, in character order.
    pub closed spec fn wf(&self) -> bool {
        &&& self.char_set@.len() == FONT_CHARACTERS
        &&& forall|c: int|
            0 <= c < FONT_CHARACTERS ==> (#[trigger] self.char_set@[c])@ == glyph_rows(c)
        &&& self.sprites@.len() == FONT_CHARACTERS
        &&& forall|c: int|
            0 <= c < FONT_CHARACTERS ==> (#[trigger] self.sprites@[c]).wf()
                && self.sprites@[c].character == c
    }

    /// Builds the character set and unpacks every glyph into a sprite.
    pub fn new() -> (r: Font)
        ensures
            r.wf(),
    {
        let char_set = get_character_set();
        let mut sprites: Vec<FontSprite> = Vec::new();
        let mut c: usize = 0;
        while c < FONT_CHARACTERS
            invariant
                char_set@.len() == FONT_CHARACTERS,
                forall|k: int|
                    0 <= k < FONT_CHARACTERS ==> (#[trigger] char_set@[k])@ == glyph_rows(k),
                c <= FONT_CHARACTERS,
                sprites@.len() == c,
                forall|k: int|
                    0 <= k < c ==> (#[trigger] sprites@[k]).wf() && sprites@[k].character == k,
            decreases FONT_CHARACTERS - c,
        {
            let glyph = &char_set[c];
            let pixels = Self::convert_font_to_sprite(glyph.as_slice());
            let sprite = FontSprite { character: c as u8, width: 8, height: FONT_ROWS_PER_GLYPH, pixels };
            sprites.push(sprite);
            c = c + 1;
        }
        Font { char_set, sprites }
    }

    /// The packed five-byte glyph of `symbol`, or an error for a value
    /// outside the character set.
    pub fn get_character(&self, symbol: &u8) -> (r: Result<[u8; 5], String>)
        requires
            self.wf(),
        ensures
            *symbol < FONT_CHARACTERS ==> (r matches Ok(g) && g@ == glyph_rows(*symbol as int)),
            *symbol >= FONT_CHARACTERS ==> (r matches Err(_)),
    {
        if *symbol < 16 {
            Ok(self.char_set[*symbol as usize])
        } else {
            Err("No Character Found".to_string())
        }
    }

    /// Unpacks packed glyph rows into one byte per pixel, row-major, most
    /// significant bit first.
    pub fn convert_font_to_sprite(font_symbol: &[u8]) -> (r: Vec<u8>)
        ensures
            r@ == unpacked(font_symbol@),
    {
        let mut pixels: Vec<u8> = Vec::new();
        let len = font_symbol.len();
        let mut row: usize = 0;
        while row < len
            invariant
                len == font_symbol@.len(),
                row <= len,
                pixels@.len() == row * 8,
                forall|j: int|
                    0 <= j < row * 8 ==> pixels@[j] == #[trigger] unpacked(font_symbol@)[j],
            decreases len - row,
        {
            let byte = font_symbol[row];
            let mut k: usize = 0;
            while k < 8
                invariant
                    len == font_symbol@.len(),
                    row < len,
                    byte == font_symbol@[row as int],
                    k <= 8,
                    pixels@.len() == row * 8 + k,
                    forall|j: int|
                        0 <= j < row * 8 + k ==> pixels@[j] == #[trigger] unpacked(font_symbol@)[j],
                decreases 8 - k,
            {
                let bit = crate::draw::sprite_bit_at(byte, k);
                let value: u8 = if bit {
                    1
                } else {
                    0
                };
                pixels.push(value);
                proof {
                    let j = row * 8 + k;
                    assert(j / 8 == row && j % 8 == k);
                    assert(unpacked(font_symbol@)[j as int] == value);
                }
                k = k + 1;
            }
            row = row + 1;
        }
        proof {
            assert(pixels@ =~= unpacked(font_symbol@));
        }
        pixels
    }

    /// The unpacked sprite of `symbol`, or nothing for a value outside the
    /// character set.
    pub fn get_font_sprite(&self, symbol: &u8) -> (r: Option<&FontSprite>)
        requires
            self.wf(),
        ensures
            *symbol < FONT_CHARACTERS ==> (r matches Some(s) && s.wf() && s.character == *symbol),
            *symbol >= FONT_CHARACTERS ==> r is None,
    {
        if *symbol < 16 {
            Some(&self.sprites[*symbol as usize])
        } else {
            None
        }
    }
}

} // verus!

//! Diagnostics for the presentation layer: a test pattern that marks the
//! four screen corners and renders the whole font ramp.

use vstd::prelude::*;
use crate::draw::{fb_index, spec_blit, Draw, Point};
use crate::font::{glyph_rows, Font, FONT_CHARACTERS, FONT_ROWS_PER_GLYPH};

verus! {

/// Column of the ramp glyph for `character`: ten glyphs on the first row,
/// the rest on the second, five columns apart.
pub open spec fn ramp_x(character: int) -> int {
    if character < 10 {
        2 + character * 5
    } else {
        2 + (character - 10) * 5
    }
}

/// Row of the ramp glyph for `character`.
pub open spec fn ramp_y(character: int) -> int {
    if character < 10 {
        3
    } else {
        10
    }
}

/// The first `count` font glyphs composited at their ramp positions.
pub open spec fn ramp_blit(fb: Seq<bool>, count: int) -> Seq<bool>
    decreases count,
{
    if count <= 0 {
        fb
    } else {
        spec_blit(
            ramp_blit(fb, count - 1),
            glyph_rows(count - 1),
            ramp_x(count - 1),
            ramp_y(count - 1),
        )
    }
}

/// The framebuffer with the four corner pixels lit.
pub open spec fn corner_pixels(fb: Seq<bool>) -> Seq<bool> {
    fb.update(fb_index(0, 0), true).update(fb_index(63, 0), true).update(
        fb_index(0, 31),
        true,
    ).update(fb_index(63, 31), true)
}

/// The full test pattern: the corners lit, then every font glyph composited
/// along the ramp.
pub open spec fn test_pattern(fb: Seq<bool>) -> Seq<bool> {
    ramp_blit(corner_pixels(fb), FONT_CHARACTERS as int)
}

/// Lights the four screen corners and blits the whole font ramp, to
/// demonstrate the screen edges and the typeface.
pub fn test_print(draw: &mut Draw)
    requires
        old(draw).wf(),
    ensures
        final(draw).wf(),
        final(draw)@ == test_pattern(old(draw)@),
{
    draw.draw_pixel(&Point { x: 0, y: 0 });
    draw.draw_pixel(&Point { x: 63, y: 0 });
    draw.draw_pixel(&Point { x: 0, y: 31 });
    draw.draw_pixel(&Point { x: 63, y: 31 });
    let ghost base = draw@;

    let font = Font::new();
    let mut character: usize = 0;
    while character < FONT_CHARACTERS
        invariant
            draw.wf(),
            font.wf(),
            character <= FONT_CHARACTERS,
            draw@ == ramp_blit(base, character as int),
        decreases FONT_CHARACTERS - character,
    {
        let x = if character < 10 {
            2 + character * 5
        } else {
            2 + (character - 10) * 5
        };
        let y = if character < 10 {
            3
        } else {
            10
        };
        let symbol = character as u8;
        match font.get_character(&symbol) {
            Ok(glyph) => {
                draw.blit_raw(
                    glyph.as_slice(),
                    &Point { x, y },
                    FONT_ROWS_PER_GLYPH as u8,
                );
                proof {
                    assert(glyph@.subrange(0, FONT_ROWS_PER_GLYPH as int) =~= glyph_rows(
                        character as int,
                    ));
                }
            },
            Err(_) => {},
        }
        character = character + 1;
    }
}

} // verus!

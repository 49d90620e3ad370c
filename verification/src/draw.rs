//! The monochrome framebuffer: a 64 by 32 grid of one-bit pixels, mutated
//! only by clearing and by XOR-compositing sprite rows. A sprite bit that is
//! set flips its target pixel; a set bit landing on a lit pixel turns it off
//! and reports a collision. Coordinates wrap at the screen edges; rows are
//! never clipped.

use vstd::prelude::*;

verus! {

/// Width of the screen in pixels.
pub const SCREEN_WIDTH: usize = 64;

/// Height of the screen in pixels.
pub const SCREEN_HEIGHT: usize = 32;

/// Total number of pixels on the screen.
pub const SCREEN_PIXELS: usize = 2048;

/// Index in the row-major pixel grid of the pixel at column `x`, row `y`.
pub open spec fn fb_index(x: int, y: int) -> int {
    y * 64 + x
}

/// Bit `k` of a sprite row byte, most significant bit first: bit 0 is the
/// leftmost pixel of the row.
pub open spec fn sprite_bit(byte: u8, k: int) -> bool {
    if k == 0 {
        byte / 128 % 2 == 1
    } else if k == 1 {
        byte / 64 % 2 == 1
    } else if k == 2 {
        byte / 32 % 2 == 1
    } else if k == 3 {
        byte / 16 % 2 == 1
    } else if k == 4 {
        byte / 8 % 2 == 1
    } else if k == 5 {
        byte / 4 % 2 == 1
    } else if k == 6 {
        byte / 2 % 2 == 1
    } else if k == 7 {
        byte % 2 == 1
    } else {
        false
    }
}

/// How far column `px` lies to the right of column `x`, wrapping at the
/// screen width: the unique `k` in `[0, 64)` with `(x + k) % 64 == px`.
pub open spec fn col_offset(x: int, px: int) -> int {
    if px >= x {
        px - x
    } else {
        px + 64 - x
    }
}

/// One sprite row byte XOR-composited into the framebuffer, its leftmost bit
/// at column `x` of pixel row `y % 32`, columns wrapping at the right edge.
pub open spec fn blit_row(fb: Seq<bool>, byte: u8, x: int, y: int) -> Seq<bool> {
    Seq::new(
        fb.len(),
        |p: int|
            if p / 64 == y % 32 && col_offset(x, p % 64) < 8 && sprite_bit(
                byte,
                col_offset(x, p % 64),
            ) {
                !fb[p]
            } else {
                fb[p]
            },
    )
}

/// Whether compositing `byte` at `(x, y % 32)` would turn some lit pixel off:
/// a set sprite bit lands on a pixel that is already on.
pub open spec fn row_collides(fb: Seq<bool>, byte: u8, x: int, y: int) -> bool {
    exists|b: int|
        0 <= b < 8 && sprite_bit(byte, b) && fb[fb_index((x + b) % 64, y % 32)]
}

/// A whole sprite XOR-composited into the framebuffer: row `r` of `rows`
/// lands on pixel row `(y + r) % 32`, starting at column `x`.
pub open spec fn spec_blit(fb: Seq<bool>, rows: Seq<u8>, x: int, y: int) -> Seq<bool>
    decreases rows.len(),
{
    if rows.len() == 0 {
        fb
    } else {
        blit_row(spec_blit(fb, rows.drop_last(), x, y), rows.last(), x, y + rows.len() - 1)
    }
}

/// Whether compositing the whole sprite turns at least one lit pixel off.
pub open spec fn spec_blit_collides(fb: Seq<bool>, rows: Seq<u8>, x: int, y: int) -> bool
    decreases rows.len(),
{
    if rows.len() == 0 {
        false
    } else {
        spec_blit_collides(fb, rows.drop_last(), x, y) || row_collides(
            spec_blit(fb, rows.drop_last(), x, y),
            rows.last(),
            x,
            y + rows.len() - 1,
        )
    }
}

/// The all-off framebuffer.
pub open spec fn blank_fb() -> Seq<bool> {
    Seq::new(SCREEN_PIXELS as nat, |p: int| false)
}

/// A position on the screen.
#[derive(Debug)]
pub struct Point {
    pub x: usize,
    pub y: usize,
}

/// Anything that can be blitted to the pixel grid: a rectangle of unpacked
/// pixels, one byte per pixel, zero for off and one for on.
pub trait Drawable {
    /// Width of the rectangle in pixels.
    spec fn spec_width(&self) -> int;

    /// Height of the rectangle in pixels.
    spec fn spec_height(&self) -> int;

    /// The unpacked pixels, row-major.
    spec fn spec_pixels(&self) -> Seq<u8>;

    fn width(&self) -> (r: usize)
        ensures
            r == self.spec_width(),
    ;

    fn height(&self) -> (r: usize)
        ensures
            r == self.spec_height(),
    ;

    fn pixels(&self) -> (r: &[u8])
        ensures
            r@ == self.spec_pixels(),
    ;
}

/// The screen: owns the pixel grid and composites drawables onto it.
pub struct Draw {
    width: usize,
    screen: Vec<bool>,
}

impl View for Draw {
    type V = Seq<bool>;

    closed spec fn view(&self) -> Seq<bool> {
        self.screen@
    }
}

impl Draw {
    /// The screen has its fixed dimensions.
    pub closed spec fn wf(&self) -> bool {
        &&& self.width == SCREEN_WIDTH
        &&& self.screen@.len() == SCREEN_PIXELS
    }

    /// A blank screen of the fixed 64 by 32 size.
    pub fn new(width: u32, height: u32) -> (r: Draw)
        requires
            width == SCREEN_WIDTH,
            height == SCREEN_HEIGHT,
        ensures
            r.wf(),
            r@ == blank_fb(),
    {
        let screen: Vec<bool> = vec![false; SCREEN_PIXELS];
        proof {
            assert(screen@ =~= blank_fb());
        }
        Draw { width: width as usize, screen }
    }

    /// The pixel at column `x`, row `y`.
    pub fn pixel_at(&self, x: usize, y: usize) -> (r: bool)
        requires
            self.wf(),
            x < SCREEN_WIDTH,
            y < SCREEN_HEIGHT,
        ensures
            r == self@[fb_index(x as int, y as int)],
    {
        self.screen[y * 64 + x]
    }

    /// Turns the pixel at `dest` on.
    pub fn draw_pixel(&mut self, dest: &Point)
        requires
            old(self).wf(),
            dest.x < SCREEN_WIDTH,
            dest.y < SCREEN_HEIGHT,
        ensures
            final(self).wf(),
            final(self)@ == old(self)@.update(fb_index(dest.x as int, dest.y as int), true),
    {
        let loc = dest.y * 64 + dest.x;
        self.screen[loc] = true;
    }

    /// Turns every pixel off.
    pub fn clear(&mut self)
        requires
            old(self).wf(),
        ensures
            final(self).wf(),
            final(self)@ == blank_fb(),
    {
        let mut p: usize = 0;
        while p < SCREEN_PIXELS
            invariant
                self.wf(),
                p <= SCREEN_PIXELS,
                forall|q: int| 0 <= q < p ==> self@[q] == false,
            decreases SCREEN_PIXELS - p,
        {
            let ghost before = self@;
            self.screen[p] = false;
            proof {
                assert(self@ == before.update(p as int, false));
                assert forall|q: int| 0 <= q < p + 1 implies self@[q] == false by {
                    if q < p {
                        assert(before[q] == false);
                    }
                }
            }
            p = p + 1;
        }
        proof {
            assert(self@ =~= blank_fb());
        }
    }

    /// XOR-composites `height` sprite row bytes onto the screen with its top
    /// left corner at `dest`, wrapping at the screen edges. Returns whether
    /// any pixel was turned from on to off.
    pub fn blit_raw(&mut self, pixels: &[u8], dest: &Point, height: u8) -> (collided: bool)
        requires
            old(self).wf(),
            dest.x < SCREEN_WIDTH,
            dest.y < SCREEN_HEIGHT,
            height <= SCREEN_HEIGHT,
            height as int <= pixels@.len(),
        ensures
            final(self).wf(),
            final(self)@ == spec_blit(
                old(self)@,
                pixels@.subrange(0, height as int),
                dest.x as int,
                dest.y as int,
            ),
            collided == spec_blit_collides(
                old(self)@,
                pixels@.subrange(0, height as int),
                dest.x as int,
                dest.y as int,
            ),
    {
        let x = dest.x;
        let y = dest.y;
        let ghost fb0 = self.screen@;
        let ghost rows = pixels@.subrange(0, height as int);
        let mut collided = false;
        let mut r: usize = 0;
        while r < height as usize
            invariant
                self.wf(),
                x < SCREEN_WIDTH,
                y < SCREEN_HEIGHT,
                height <= SCREEN_HEIGHT,
                height as int <= pixels@.len(),
                rows == pixels@.subrange(0, height as int),
                fb0.len() == SCREEN_PIXELS,
                r <= height,
                self@ == spec_blit(fb0, rows.subrange(0, r as int), x as int, y as int),
                collided == spec_blit_collides(fb0, rows.subrange(0, r as int), x as int, y as int),
            decreases height - r,
        {
            let byte = pixels[r];
            let py = (y + r) % 32;
            let ghost fb_row = self.screen@;
            proof {
                lemma_spec_blit_len(fb0, rows.subrange(0, r as int), x as int, y as int);
            }
            let mut b: usize = 0;
            while b < 8
                invariant
                    self.wf(),
                    x < SCREEN_WIDTH,
                    b <= 8,
                    py == (y + r) % 32,
                    py < SCREEN_HEIGHT,
                    fb_row.len() == SCREEN_PIXELS,
                    self@ == blit_row_partial(fb_row, byte, x as int, py as int, b as int),
                    collided == (spec_blit_collides(
                        fb0,
                        rows.subrange(0, r as int),
                        x as int,
                        y as int,
                    ) || row_hit_partial(fb_row, byte, x as int, py as int, b as int)),
                decreases 8 - b,
            {
                proof {
                    assert(blit_row_partial(fb_row, byte, x as int, py as int, b as int)[fb_index(
                        ((x + b) % 64) as int,
                        py as int,
                    )] == fb_row[fb_index(((x + b) % 64) as int, py as int)]) by {
                        lemma_col_offset(x as int, ((x + b) % 64) as int, b as int);
                    }
                }
                let bit = sprite_bit_at(byte, b);
                let px = (x + b) % 64;
                let loc = py * 64 + px;
                proof {
                    assert(loc / 64 == py && loc % 64 == px);
                    lemma_col_offset(x as int, px as int, b as int);
                }
                if bit {
                    let lit = self.screen[loc];
                    if lit {
                        self.screen[loc] = false;
                        collided = true;
                    } else {
                        self.screen[loc] = true;
                    }
                    proof {
                        assert(self@ =~= blit_row_partial(
                            fb_row,
                            byte,
                            x as int,
                            py as int,
                            b + 1,
                        )) by {
                            lemma_col_offset_unique(x as int, b as int);
                        }
                        assert(row_hit_partial(fb_row, byte, x as int, py as int, b + 1)
                            == (row_hit_partial(fb_row, byte, x as int, py as int, b as int)
                            || lit));
                    }
                } else {
                    proof {
                        assert(self@ =~= blit_row_partial(
                            fb_row,
                            byte,
                            x as int,
                            py as int,
                            b + 1,
                        ));
                        assert(row_hit_partial(fb_row, byte, x as int, py as int, b + 1)
                            == row_hit_partial(fb_row, byte, x as int, py as int, b as int));
                    }
                }
                b = b + 1;
            }
            proof {
                assert(self@ =~= blit_row(fb_row, byte, x as int, y + r)) by {
                    lemma_row_done(fb_row, byte, x as int, y + r);
                }
                assert(row_hit_partial(fb_row, byte, x as int, py as int, 8) == row_collides(
                    fb_row,
                    byte,
                    x as int,
                    y + r,
                )) by {
                    lemma_row_hit_done(fb_row, byte, x as int, y + r);
                }
                assert(rows.subrange(0, r + 1).drop_last() =~= rows.subrange(0, r as int));
                assert(rows.subrange(0, r + 1).last() == pixels@[r as int]);
            }
            r = r + 1;
        }
        proof {
            assert(rows.subrange(0, height as int) =~= rows);
        }
        collided
    }
}

/// Bit `k` of a sprite row byte, most significant first.
pub(crate) fn sprite_bit_at(byte: u8, k: usize) -> (r: bool)
    requires
        k < 8,
    ensures
        r == sprite_bit(byte, k as int),
{
    let divisor: u8 = match k {
        0 => 128,
        1 => 64,
        2 => 32,
        3 => 16,
        4 => 8,
        5 => 4,
        6 => 2,
        _ => 1,
    };
    byte / divisor % 2 == 1
}

/// The first `b` bits of one sprite row composited; bits `b..8` still to do.
spec fn blit_row_partial(fb: Seq<bool>, byte: u8, x: int, py: int, b: int) -> Seq<bool> {
    Seq::new(
        fb.len(),
        |p: int|
            if p / 64 == py && col_offset(x, p % 64) < b && sprite_bit(
                byte,
                col_offset(x, p % 64),
            ) {
                !fb[p]
            } else {
                fb[p]
            },
    )
}

/// Whether one of the first `b` bits of the row lands set on a lit pixel.
spec fn row_hit_partial(fb: Seq<bool>, byte: u8, x: int, py: int, b: int) -> bool {
    exists|k: int| 0 <= k < b && sprite_bit(byte, k) && fb[fb_index((x + k) % 64, py)]
}

/// With columns in range, landing column and column offset determine each
/// other.
proof fn lemma_col_offset(x: int, px: int, k: int)
    requires
        0 <= x < 64,
        0 <= px < 64,
        0 <= k < 64,
    ensures
        (col_offset(x, px) == k) <==> ((x + k) % 64 == px),
{
    if x + k < 64 {
        assert((x + k) % 64 == x + k);
    } else {
        assert((x + k) % 64 == x + k - 64);
    }
}

/// Distinct column offsets land on distinct columns.
proof fn lemma_col_offset_unique(x: int, b: int)
    requires
        0 <= x < 64,
        0 <= b < 8,
    ensures
        forall|px: int| 0 <= px < 64 ==> ((col_offset(x, px) == b) <==> px == (x + b) % 64),
{
    assert forall|px: int| 0 <= px < 64 implies ((col_offset(x, px) == b) <==> px == (x + b)
        % 64) by {
        lemma_col_offset(x, px, b);
    }
}

/// A fully composited partial row is the composited row.
proof fn lemma_row_done(fb: Seq<bool>, byte: u8, x: int, y: int)
    requires
        0 <= x < 64,
        0 <= y,
    ensures
        blit_row_partial(fb, byte, x, y % 32, 8) == blit_row(fb, byte, x, y),
{
    assert(blit_row_partial(fb, byte, x, y % 32, 8) =~= blit_row(fb, byte, x, y));
}

/// A fully scanned partial row hit is the row collision.
proof fn lemma_row_hit_done(fb: Seq<bool>, byte: u8, x: int, y: int)
    requires
        0 <= x < 64,
        0 <= y,
    ensures
        row_hit_partial(fb, byte, x, y % 32, 8) == row_collides(fb, byte, x, y),
{
}

/// Compositing keeps the framebuffer's length.
proof fn lemma_spec_blit_len(fb: Seq<bool>, rows: Seq<u8>, x: int, y: int)
    ensures
        spec_blit(fb, rows, x, y).len() == fb.len(),
    decreases rows.len(),
{
    if rows.len() > 0 {
        lemma_spec_blit_len(fb, rows.drop_last(), x, y);
    }
}

/// A pixel in a row that no sprite row lands on is left unmodified.
proof fn lemma_blit_unchanged(fb: Seq<bool>, rows: Seq<u8>, x: int, y: int, p: int)
    requires
        0 <= p < fb.len(),
        forall|r: int| 0 <= r < rows.len() ==> #[trigger] ((y + r) % 32) != p / 64,
    ensures
        spec_blit(fb, rows, x, y)[p] == fb[p],
    decreases rows.len(),
{
    if rows.len() > 0 {
        lemma_blit_unchanged(fb, rows.drop_last(), x, y, p);
        lemma_spec_blit_len(fb, rows.drop_last(), x, y);
        assert((y + (rows.len() - 1)) % 32 != p / 64);
    }
}

/// Sprite rows of a draw land on pairwise distinct pixel rows.
proof fn lemma_rows_distinct(y: int, a: int, b: int)
    requires
        0 <= y < 32,
        0 <= a < 32,
        0 <= b < 32,
        a != b,
    ensures
        (y + a) % 32 != (y + b) % 32,
{
    if y + a < 32 {
        assert((y + a) % 32 == y + a);
    } else {
        assert((y + a) % 32 == y + a - 32);
    }
    if y + b < 32 {
        assert((y + b) % 32 == y + b);
    } else {
        assert((y + b) % 32 == y + b - 32);
    }
}

/// A draw collides exactly when some set sprite bit lands on a pixel that was
/// lit before the draw began: the flag reports that a pixel went from on to
/// off, never anything else.
pub proof fn lemma_draw_collision(fb: Seq<bool>, rows: Seq<u8>, x: int, y: int)
    requires
        fb.len() == SCREEN_PIXELS,
        0 <= x < 64,
        0 <= y < 32,
        rows.len() <= 32,
    ensures
        spec_blit_collides(fb, rows, x, y) <==> (exists|r: int, b: int|
            0 <= r < rows.len() && 0 <= b < 8 && sprite_bit(rows[r], b) && fb[fb_index(
                (x + b) % 64,
                (y + r) % 32,
            )]),
    decreases rows.len(),
{
    if rows.len() > 0 {
        let prefix = rows.drop_last();
        let last = rows.last();
        let ly = y + rows.len() - 1;
        lemma_draw_collision(fb, prefix, x, y);
        lemma_spec_blit_len(fb, prefix, x, y);
        // Pixels the last row lands on are untouched by the earlier rows.
        assert forall|b: int| 0 <= b < 8 implies spec_blit(fb, prefix, x, y)[#[trigger] fb_index(
            (x + b) % 64,
            ly % 32,
        )] == fb[fb_index((x + b) % 64, ly % 32)] by {
            let p = fb_index((x + b) % 64, ly % 32);
            assert(0 <= (x + b) % 64 < 64);
            assert(0 <= ly % 32 < 32);
            assert(p / 64 == ly % 32 && 0 <= p < 2048);
            assert forall|r: int| 0 <= r < prefix.len() implies #[trigger] ((y + r) % 32) != p
                / 64 by {
                lemma_rows_distinct(y, r, rows.len() - 1);
            }
            lemma_blit_unchanged(fb, prefix, x, y, p);
        }
        assert(row_collides(spec_blit(fb, prefix, x, y), last, x, ly) == row_collides(
            fb,
            last,
            x,
            ly,
        ));
        if spec_blit_collides(fb, rows, x, y) {
            if spec_blit_collides(fb, prefix, x, y) {
                let (r, b) = choose|r: int, b: int|
                    0 <= r < prefix.len() && 0 <= b < 8 && sprite_bit(prefix[r], b)
                        && fb[fb_index((x + b) % 64, (y + r) % 32)];
                assert(prefix[r] == rows[r]);
                assert(0 <= r < rows.len() && 0 <= b < 8 && sprite_bit(rows[r], b) && fb[fb_index(
                    (x + b) % 64,
                    (y + r) % 32,
                )]);
            } else {
                let b = choose|b: int|
                    0 <= b < 8 && sprite_bit(last, b) && fb[fb_index((x + b) % 64, ly % 32)];
                assert(rows[rows.len() - 1] == last);
                assert(0 <= rows.len() - 1 < rows.len() && 0 <= b < 8 && sprite_bit(
                    rows[rows.len() - 1],
                    b,
                ) && fb[fb_index((x + b) % 64, (y + (rows.len() - 1)) % 32)]);
            }
        }
        if exists|r: int, b: int|
            0 <= r < rows.len() && 0 <= b < 8 && sprite_bit(rows[r], b) && fb[fb_index(
                (x + b) % 64,
                (y + r) % 32,
            )] {
            let (r, b) = choose|r: int, b: int|
                0 <= r < rows.len() && 0 <= b < 8 && sprite_bit(rows[r], b) && fb[fb_index(
                    (x + b) % 64,
                    (y + r) % 32,
                )];
            if r < rows.len() - 1 {
                assert(prefix[r] == rows[r]);
                assert(0 <= r < prefix.len() && 0 <= b < 8 && sprite_bit(prefix[r], b)
                    && fb[fb_index((x + b) % 64, (y + r) % 32)]);
                assert(spec_blit_collides(fb, prefix, x, y));
            } else {
                assert(rows[r] == last);
                assert(row_collides(fb, last, x, ly));
            }
            assert(spec_blit_collides(fb, rows, x, y));
        }
    }
}

} // verus!

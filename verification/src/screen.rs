//! The monochrome framebuffer. Logically the screen is a width x height
//! grid of on/off pixels; physically each pixel is stored as a multi-byte
//! color pattern so the buffer can be handed directly to a presentation
//! layer. Drawing XORs sprite rows into the grid and reports whether any
//! pixel was turned off (the collision flag); pixels that fall outside the
//! grid are clipped, not wrapped.

use crate::screen_config::{Dimensions, ScreenConfig};
use vstd::arithmetic::div_mod::{lemma_fundamental_div_mod, lemma_fundamental_div_mod_converse};
use vstd::prelude::*;

verus! {

/// The byte pattern of logical pixel `i` in a flat buffer of `bpp`-byte
/// pixels.
pub open spec fn cell_of(p: Seq<u8>, bpp: int, i: int) -> Seq<u8> {
    p.subrange(i * bpp, i * bpp + bpp)
}

/// Whether bit `k` (0 = least significant) of `byte` is set.
pub open spec fn bit_set(byte: u8, k: u8) -> bool {
    (byte >> k) & 1 == 1
}

/// Whether drawing `byte` as one sprite row with its leftmost pixel at
/// column `x` of row `row` flips the pixel with flat index `i`, on a grid
/// `w` pixels wide. The most significant bit is leftmost; columns past the
/// right edge are clipped by `i` ranging over the grid only.
pub open spec fn byte_covers(byte: u8, x: int, row: int, w: int, i: int) -> bool {
    let px = i % w;
    let py = i / w;
    &&& py == row
    &&& x <= px < x + 8
    &&& bit_set(byte, (7 - (px - x)) as u8)
}

/// Like `byte_covers`, restricted to bit indexes below `j`: the part of a
/// row a drawing loop has already processed.
pub open spec fn byte_covers_below(byte: u8, x: int, row: int, w: int, i: int, j: int) -> bool {
    &&& byte_covers(byte, x, row, w, i)
    &&& 7 - (i % w - x) < j
}

/// Whether drawing `sprite` with its top-left pixel at `(x, y)` flips the
/// pixel with flat index `i`: row `r` of the sprite lands on grid row
/// `y + r`, and rows past the bottom edge are clipped.
pub open spec fn sprite_covers(sprite: Seq<u8>, x: int, y: int, w: int, i: int) -> bool {
    let py = i / w;
    &&& y <= py < y + sprite.len()
    &&& byte_covers(sprite[py - y], x, py, w, i)
}

pub struct Screen {
    pub dimensions: Dimensions,
    pub bytes_per_pixel: usize,
    pub on_color: Vec<u8>,
    pub off_color: Vec<u8>,
    pub pixels: Vec<u8>,
}

impl View for Screen {
    type V = Seq<bool>;

    /// The logical pixel grid, row-major: pixel `(x, y)` is element
    /// `y * width + x`, and is on exactly when its cell holds the "on"
    /// byte pattern.
    open spec fn view(&self) -> Seq<bool> {
        Seq::new(
            (self.dimensions.width * self.dimensions.height) as nat,
            |i: int| cell_of(self.pixels@, self.bytes_per_pixel as int, i) == self.on_color@,
        )
    }
}

impl Screen {
    /// The shape of the buffer: pixel cells are `bytes_per_pixel` bytes,
    /// the two color patterns differ, and every cell holds one of them.
    pub open spec fn buffer_wf(&self) -> bool {
        let w = self.dimensions.width as int;
        let h = self.dimensions.height as int;
        let bpp = self.bytes_per_pixel as int;
        &&& self.bytes_per_pixel >= 1
        &&& self.on_color@.len() == bpp
        &&& self.off_color@.len() == bpp
        &&& self.on_color@ != self.off_color@
        &&& self.pixels@.len() == w * h * bpp
        &&& forall|i: int|
            0 <= i < w * h ==> #[trigger] cell_of(self.pixels@, bpp, i) == self.on_color@
                || cell_of(self.pixels@, bpp, i) == self.off_color@
    }

    pub open spec fn wf(&self) -> bool {
        &&& self.buffer_wf()
        &&& self.dimensions.width >= 1
        &&& self.dimensions.height >= 1
        &&& self@.len() == self.dimensions.width * self.dimensions.height
    }

    /// A fresh screen with every pixel off.
    pub fn new(config: &ScreenConfig) -> (s: Self)
        requires
            config.wf(),
        ensures
            s.wf(),
            s.dimensions == config.screen_dimensions,
            forall|i: int| 0 <= i < s@.len() ==> !s@[i],
    {
        let w = config.screen_dimensions.width;
        let h = config.screen_dimensions.height;
        let bpp = config.bytes_per_pixel;
        proof {
            lemma_grid_products(w as int, h as int, bpp as int);
        }
        let count = w * h;
        let mut pixels: Vec<u8> = vec![0u8; count * bpp];
        fill_cells(&mut pixels, count, &config.off_color);
        let s = Screen {
            dimensions: config.screen_dimensions,
            bytes_per_pixel: bpp,
            on_color: config.on_color_u8(),
            off_color: config.off_color_u8(),
            pixels,
        };
        proof {
            assert forall|i: int| 0 <= i < s@.len() implies !s@[i] by {
                assert(cell_of(s.pixels@, bpp as int, i) == s.off_color@);
            }
        }
        s
    }

    /// XOR-draws `sprite`, one byte per row, top-left pixel at `(x, y)`.
    /// Returns true exactly when some pixel that was on is now off.
    pub fn draw_sprite(&mut self, x: usize, y: usize, sprite: &[u8]) -> (flipped_off: bool)
        requires
            old(self).wf(),
            x < old(self).dimensions.width,
            y < old(self).dimensions.height,
            x + 8 <= usize::MAX,
            y + sprite@.len() <= usize::MAX,
        ensures
            final(self).wf(),
            final(self).dimensions == old(self).dimensions,
            final(self)@.len() == old(self)@.len(),
            forall|i: int|
                0 <= i < old(self)@.len() ==> final(self)@[i] == (old(self)@[i] != sprite_covers(
                    sprite@,
                    x as int,
                    y as int,
                    old(self).dimensions.width as int,
                    i,
                )),
            flipped_off == exists|i: int|
                0 <= i < old(self)@.len() && old(self)@[i] && sprite_covers(
                    sprite@,
                    x as int,
                    y as int,
                    old(self).dimensions.width as int,
                    i,
                ),
    {
        let ghost w = self.dimensions.width as int;
        let ghost len = self@.len() as int;
        let mut flipped_off = false;
        let mut r: usize = 0;
        while r < sprite.len()
            invariant
                old(self).wf(),
                self.wf(),
                x < old(self).dimensions.width,
                y < old(self).dimensions.height,
                x + 8 <= usize::MAX,
                y + sprite@.len() <= usize::MAX,
                r <= sprite@.len(),
                w == self.dimensions.width as int,
                len == self@.len() as int,
                self.dimensions == old(self).dimensions,
                self@.len() == old(self)@.len(),
                forall|i: int|
                    0 <= i < len ==> self@[i] == (old(self)@[i] != sprite_covers(
                        sprite@.take(r as int),
                        x as int,
                        y as int,
                        w,
                        i,
                    )),
                flipped_off == exists|i: int|
                    0 <= i < len && old(self)@[i] && sprite_covers(
                        sprite@.take(r as int),
                        x as int,
                        y as int,
                        w,
                        i,
                    ),
            decreases sprite@.len() - r,
        {
            let ghost pre = self@;
            let ghost pre_flipped = flipped_off;
            let byte = *vstd::slice::slice_index_get(sprite, r);
            let row_flip = self.draw_byte(&byte, x, y + r);
            flipped_off = flipped_off || row_flip;
            proof {
                let sx = x as int;
                let sy = y as int;
                let row = y + r;
                let taken = sprite@.take(r as int);
                let taken1 = sprite@.take(r + 1int);
                assert(taken1.len() == r + 1 && taken1[r as int] == sprite@[r as int]);
                // A pixel this row touches was untouched by earlier rows,
                // so the XOR and the collision compose row by row.
                assert forall|i: int| 0 <= i < len implies self@[i] == (old(self)@[i]
                    != sprite_covers(taken1, sx, sy, w, i)) by {
                    if byte_covers(byte, sx, row as int, w, i) {
                        assert(i / w == row);
                        assert(!sprite_covers(taken, sx, sy, w, i));
                        assert(sprite_covers(taken1, sx, sy, w, i));
                    } else {
                        assert(sprite_covers(taken1, sx, sy, w, i) == sprite_covers(
                            taken,
                            sx,
                            sy,
                            w,
                            i,
                        )) by {
                            if sprite_covers(taken, sx, sy, w, i) {
                                assert(taken1[i / w - sy] == taken[i / w - sy]);
                            }
                            if sprite_covers(taken1, sx, sy, w, i) {
                                assert(i / w < sy + r + 1);
                                if i / w < sy + r {
                                    assert(taken1[i / w - sy] == taken[i / w - sy]);
                                }
                            }
                        }
                    }
                }
                // The collision flag likewise: a collision in this row is a
                // collision against the screen as it was before the sprite.
                assert(flipped_off == exists|i: int|
                    0 <= i < len && old(self)@[i] && sprite_covers(taken1, sx, sy, w, i)) by {
                    if row_flip {
                        let i0 = choose|i: int|
                            0 <= i < len && pre[i] && byte_covers(byte, sx, row as int, w, i);
                        assert(!sprite_covers(taken, sx, sy, w, i0));
                        assert(old(self)@[i0]);
                        assert(sprite_covers(taken1, sx, sy, w, i0));
                    }
                    if pre_flipped {
                        let i0 = choose|i: int|
                            0 <= i < len && old(self)@[i] && sprite_covers(taken, sx, sy, w, i);
                        assert(taken1[i0 / w - sy] == taken[i0 / w - sy]);
                        assert(sprite_covers(taken1, sx, sy, w, i0));
                    }
                    if !pre_flipped && !row_flip {
                        assert forall|i: int|
                            0 <= i < len && old(self)@[i] implies !sprite_covers(
                            taken1,
                            sx,
                            sy,
                            w,
                            i,
                        ) by {
                            if sprite_covers(taken1, sx, sy, w, i) {
                                if i / w < sy + r {
                                    assert(taken1[i / w - sy] == taken[i / w - sy]);
                                    assert(sprite_covers(taken, sx, sy, w, i));
                                } else {
                                    assert(!sprite_covers(taken, sx, sy, w, i));
                                    assert(pre[i] == old(self)@[i]);
                                    assert(byte_covers(byte, sx, row as int, w, i));
                                }
                            }
                        }
                    }
                }
            }
            r = r + 1;
        }
        proof {
            assert(sprite@.take(sprite@.len() as int) =~= sprite@);
        }
        flipped_off
    }

    /// Flips the pixel at `(x, y)` and reports whether it was on; a
    /// coordinate outside the grid draws nothing.
    pub fn draw_pixel(&mut self, x: usize, y: usize) -> (flipped_off: bool)
        requires
            old(self).wf(),
        ensures
            final(self).wf(),
            final(self).dimensions == old(self).dimensions,
            final(self)@.len() == old(self)@.len(),
            ({
                let w = old(self).dimensions.width as int;
                let h = old(self).dimensions.height as int;
                if x < w && y < h {
                    &&& flipped_off == old(self)@[y * w + x]
                    &&& final(self)@ == old(self)@.update(y * w + x, !old(self)@[y * w + x])
                } else {
                    &&& flipped_off == false
                    &&& final(self)@ == old(self)@
                }
            }),
    {
        if x >= self.dimensions.width || y >= self.dimensions.height {
            return false;
        }
        proof {
            assert(self.pixels@.len() == self.pixels.len());
            lemma_grid_index(
                self.dimensions.width as int,
                self.dimensions.height as int,
                x as int,
                y as int,
            );
            lemma_grid_products(
                self.dimensions.width as int,
                self.dimensions.height as int,
                self.bytes_per_pixel as int,
            );
        }
        let index = y * self.dimensions.width + x;
        self.flip_pixel(index)
    }

    /// XOR-draws one sprite row at `(x, y)`, most significant bit leftmost,
    /// clipping pixels past the right or bottom edge. Returns true exactly
    /// when some pixel of this row was on and is now off.
    pub fn draw_byte(&mut self, byte: &u8, x: usize, y: usize) -> (flipped_off: bool)
        requires
            old(self).wf(),
            x + 8 <= usize::MAX,
        ensures
            final(self).wf(),
            final(self).dimensions == old(self).dimensions,
            final(self)@.len() == old(self)@.len(),
            forall|i: int|
                0 <= i < old(self)@.len() ==> final(self)@[i] == (old(self)@[i] != byte_covers(
                    *byte,
                    x as int,
                    y as int,
                    old(self).dimensions.width as int,
                    i,
                )),
            flipped_off == exists|i: int|
                0 <= i < old(self)@.len() && old(self)@[i] && byte_covers(
                    *byte,
                    x as int,
                    y as int,
                    old(self).dimensions.width as int,
                    i,
                ),
    {
        let ghost w = self.dimensions.width as int;
        let ghost h = self.dimensions.height as int;
        let ghost len = self@.len() as int;
        let b = *byte;
        let mut flipped_off = false;
        let mut j: usize = 0;
        while j < 8
            invariant
                old(self).wf(),
                self.wf(),
                x + 8 <= usize::MAX,
                j <= 8,
                w == self.dimensions.width as int,
                h == self.dimensions.height as int,
                len == self@.len() as int,
                b == *byte,
                self.dimensions == old(self).dimensions,
                self@.len() == old(self)@.len(),
                forall|i: int|
                    0 <= i < len ==> self@[i] == (old(self)@[i] != byte_covers_below(
                        b,
                        x as int,
                        y as int,
                        w,
                        i,
                        j as int,
                    )),
                flipped_off == exists|i: int|
                    0 <= i < len && old(self)@[i] && byte_covers_below(
                        b,
                        x as int,
                        y as int,
                        w,
                        i,
                        j as int,
                    ),
            decreases 8 - j,
        {
            let ghost pre = self@;
            let ghost pre_flipped = flipped_off;
            let bit_is_set = b & (1u8 << (j as u8)) != 0;
            proof {
                let jj = j as u8;
                assert((b & (1u8 << jj) != 0) == ((b >> jj) & 1 == 1)) by (bit_vector)
                    requires
                        jj < 8,
                ;
            }
            let px = x + (7 - j);
            if bit_is_set {
                let pixel_flip = self.draw_pixel(px, y);
                flipped_off = flipped_off || pixel_flip;
            }
            proof {
                let sx = x as int;
                let sy = y as int;
                let jn = j + 1int;
                if bit_is_set && px < w && sy < h {
                    lemma_grid_index(w, h, px as int, sy);
                    let i0 = sy * w + px;
                    assert(byte_covers_below(b, sx, sy, w, i0, jn));
                    assert(!byte_covers_below(b, sx, sy, w, i0, j as int));
                    assert forall|i: int| 0 <= i < len && i != i0 implies byte_covers_below(
                        b,
                        sx,
                        sy,
                        w,
                        i,
                        jn,
                    ) == byte_covers_below(b, sx, sy, w, i, j as int) by {
                        lemma_flat_unique(w, h, i);
                        if byte_covers_below(b, sx, sy, w, i, jn) && 7 - (i % w - sx) == j {
                            assert(i % w == px && i / w == sy);
                            assert(i == i0);
                        }
                    }
                    assert forall|i: int| 0 <= i < len implies self@[i] == (old(self)@[i]
                        != byte_covers_below(b, sx, sy, w, i, jn)) by {}
                    assert(flipped_off == exists|i: int|
                        0 <= i < len && old(self)@[i] && byte_covers_below(b, sx, sy, w, i, jn))
                        by {
                        if flipped_off {
                            if pre_flipped {
                                let iw = choose|i: int|
                                    0 <= i < len && old(self)@[i] && byte_covers_below(
                                        b,
                                        sx,
                                        sy,
                                        w,
                                        i,
                                        j as int,
                                    );
                                assert(byte_covers_below(b, sx, sy, w, iw, jn));
                            } else {
                                assert(old(self)@[i0] && byte_covers_below(b, sx, sy, w, i0, jn));
                            }
                        }
                    }
                } else {
                    // Nothing was drawn this step: either the bit is clear,
                    // or the pixel is clipped past an edge; bit index j then
                    // covers no grid pixel.
                    assert forall|i: int| 0 <= i < len implies byte_covers_below(
                        b,
                        sx,
                        sy,
                        w,
                        i,
                        jn,
                    ) == byte_covers_below(b, sx, sy, w, i, j as int) by {
                        lemma_flat_unique(w, h, i);
                        if byte_covers_below(b, sx, sy, w, i, jn) && 7 - (i % w - sx) == j {
                            assert(i % w == px as int && i / w == sy);
                            lemma_grid_index_converse(w, h, i);
                        }
                    }
                }
            }
            j = j + 1;
        }
        proof {
            assert forall|i: int| 0 <= i < len implies byte_covers_below(
                b,
                x as int,
                y as int,
                w,
                i,
                8,
            ) == byte_covers(b, x as int, y as int, w, i) by {
                lemma_flat_unique(w, h, i);
            }
        }
        flipped_off
    }

    /// Turns every pixel off.
    pub fn clear(&mut self)
        requires
            old(self).wf(),
        ensures
            final(self).wf(),
            final(self).dimensions == old(self).dimensions,
            final(self)@.len() == old(self)@.len(),
            forall|i: int| 0 <= i < final(self)@.len() ==> !final(self)@[i],
    {
        proof {
            assert(self.pixels@.len() == self.pixels.len());
            lemma_grid_products(
                self.dimensions.width as int,
                self.dimensions.height as int,
                self.bytes_per_pixel as int,
            );
        }
        let count = self.dimensions.width * self.dimensions.height;
        fill_cells(&mut self.pixels, count, &self.off_color);
        proof {
            assert forall|i: int| 0 <= i < self@.len() implies !self@[i] by {
                assert(cell_of(self.pixels@, self.bytes_per_pixel as int, i) == self.off_color@);
            }
        }
    }

    /// Inverts the single pixel with flat index `index` and reports whether
    /// it was on.
    fn flip_pixel(&mut self, index: usize) -> (flipped_off: bool)
        requires
            old(self).wf(),
            index < old(self)@.len(),
        ensures
            final(self).wf(),
            final(self).dimensions == old(self).dimensions,
            flipped_off == old(self)@[index as int],
            final(self)@ == old(self)@.update(index as int, !old(self)@[index as int]),
    {
        proof {
            assert(self.pixels@.len() == self.pixels.len());
            lemma_cell_bounds(
                self.dimensions.width as int,
                self.dimensions.height as int,
                self.bytes_per_pixel as int,
                index as int,
            );
        }
        let begin = index * self.bytes_per_pixel;
        let flipped_off = bytes_eq(&self.pixels, begin, &self.on_color);
        if flipped_off {
            write_bytes(&mut self.pixels, begin, &self.off_color);
        } else {
            write_bytes(&mut self.pixels, begin, &self.on_color);
        }
        proof {
            let bpp = self.bytes_per_pixel as int;
            let idx = index as int;
            let w = self.dimensions.width as int;
            let h = self.dimensions.height as int;
            assert(cell_of(self.pixels@, bpp, idx) =~= if flipped_off {
                self.off_color@
            } else {
                self.on_color@
            });
            assert forall|k: int| 0 <= k < w * h && k != idx implies cell_of(self.pixels@, bpp, k)
                == cell_of(old(self).pixels@, bpp, k) by {
                lemma_cell_bounds(w, h, bpp, k);
                lemma_cells_disjoint(bpp, k, idx);
                assert(cell_of(self.pixels@, bpp, k) =~= cell_of(old(self).pixels@, bpp, k));
            }
            assert(self@ =~= old(self)@.update(idx, !old(self)@[idx]));
        }
        flipped_off
    }
}

/// XOR drawing is an involution: drawing the same sprite at the same
/// location twice restores every pixel, so the second draw turns every
/// pixel the first draw turned on back off. Against a blank screen the
/// first draw reports no collision, and the second draw reports a
/// collision exactly when the sprite covers any pixel of the grid at all.
/// The three clauses are stated over the same pixel transformation and
/// collision condition that `Screen::draw_sprite` ensures.
pub proof fn lemma_sprite_draw_twice(s0: Seq<bool>, sprite: Seq<u8>, x: int, y: int, w: int)
    ensures
        ({
            let s1 = Seq::new(s0.len(), |i: int| s0[i] != sprite_covers(sprite, x, y, w, i));
            let s2 = Seq::new(s1.len(), |i: int| s1[i] != sprite_covers(sprite, x, y, w, i));
            s2 == s0
        }),
        (forall|i: int| 0 <= i < s0.len() ==> !s0[i]) ==> !(exists|i: int|
            0 <= i < s0.len() && s0[i] && sprite_covers(sprite, x, y, w, i)),
        (forall|i: int| 0 <= i < s0.len() ==> !s0[i]) ==> ({
            let s1 = Seq::new(s0.len(), |i: int| s0[i] != sprite_covers(sprite, x, y, w, i));
            (exists|i: int| 0 <= i < s1.len() && s1[i] && sprite_covers(sprite, x, y, w, i))
                <==> (exists|i: int| 0 <= i < s0.len() && sprite_covers(sprite, x, y, w, i))
        }),
{
    let s1 = Seq::new(s0.len(), |i: int| s0[i] != sprite_covers(sprite, x, y, w, i));
    let s2 = Seq::new(s1.len(), |i: int| s1[i] != sprite_covers(sprite, x, y, w, i));
    assert(s2 =~= s0);
    if forall|i: int| 0 <= i < s0.len() ==> !s0[i] {
        if exists|i: int| 0 <= i < s0.len() && sprite_covers(sprite, x, y, w, i) {
            let i0 = choose|i: int| 0 <= i < s0.len() && sprite_covers(sprite, x, y, w, i);
            assert(s1[i0] && sprite_covers(sprite, x, y, w, i0));
        }
        if exists|i: int| 0 <= i < s1.len() && s1[i] && sprite_covers(sprite, x, y, w, i) {
            let i0 = choose|i: int| 0 <= i < s1.len() && s1[i] && sprite_covers(sprite, x, y, w, i);
            assert(0 <= i0 < s0.len() && sprite_covers(sprite, x, y, w, i0));
        }
    }
}

/// Flat grid products: `w * h <= w * h * bpp` and `w <= w * h`, so index
/// arithmetic over the pixel buffer stays in bounds.
proof fn lemma_grid_products(w: int, h: int, bpp: int)
    requires
        w >= 1,
        h >= 1,
        bpp >= 1,
    ensures
        w * h >= w,
        w * h >= h,
        w * h <= w * h * bpp,
        (w * h) * bpp == w * h * bpp,
{
    assert(w * h >= w && w * h >= h && w * h <= w * h * bpp && (w * h) * bpp == w * h * bpp)
        by (nonlinear_arith)
        requires
            w >= 1,
            h >= 1,
            bpp >= 1,
    ;
}

/// A grid coordinate and its flat index: `(x, y)` lies at `y * w + x`,
/// which is inside the grid and decomposes back into `x` and `y`.
proof fn lemma_grid_index(w: int, h: int, x: int, y: int)
    requires
        w >= 1,
        h >= 1,
        0 <= x < w,
        0 <= y < h,
    ensures
        0 <= y * w + x < w * h,
        (y * w + x) / w == y,
        (y * w + x) % w == x,
{
    assert(0 <= y * w + x < w * h) by (nonlinear_arith)
        requires
            w >= 1,
            h >= 1,
            0 <= x < w,
            0 <= y < h,
    ;
    lemma_fundamental_div_mod_converse(y * w + x, w, y, x);
}

/// A flat index decomposes uniquely: `i == (i / w) * w + i % w` with the
/// column inside the row and the row inside the grid.
proof fn lemma_flat_unique(w: int, h: int, i: int)
    requires
        w >= 1,
        h >= 1,
        0 <= i < w * h,
    ensures
        i == (i / w) * w + (i % w),
        0 <= i % w < w,
        0 <= i / w < h,
{
    lemma_fundamental_div_mod(i, w);
    assert(0 <= i % w < w) by (nonlinear_arith)
        requires
            w >= 1,
            0 <= i,
    ;
    assert(0 <= i / w < h) by (nonlinear_arith)
        requires
            w >= 1,
            h >= 1,
            0 <= i < w * h,
            i == (i / w) * w + (i % w),
            0 <= i % w < w,
    ;
}

/// The converse: a flat index inside the grid with a given row and column
/// is that row's and column's flat index.
proof fn lemma_grid_index_converse(w: int, h: int, i: int)
    requires
        w >= 1,
        h >= 1,
        0 <= i < w * h,
    ensures
        i == (i / w) * w + (i % w),
{
    lemma_fundamental_div_mod(i, w);
}

/// The byte range of cell `i` lies inside a `w * h * bpp` buffer.
proof fn lemma_cell_bounds(w: int, h: int, bpp: int, i: int)
    requires
        w >= 1,
        h >= 1,
        bpp >= 1,
        0 <= i < w * h,
    ensures
        0 <= i * bpp,
        i * bpp + bpp <= w * h * bpp,
{
    assert(0 <= i * bpp && i * bpp + bpp <= w * h * bpp) by (nonlinear_arith)
        requires
            w >= 1,
            h >= 1,
            bpp >= 1,
            0 <= i < w * h,
    ;
}

/// Distinct cells occupy disjoint byte ranges.
proof fn lemma_cells_disjoint(bpp: int, a: int, b: int)
    requires
        bpp >= 1,
        a != b,
        0 <= a,
        0 <= b,
    ensures
        a < b ==> a * bpp + bpp <= b * bpp,
        b < a ==> b * bpp + bpp <= a * bpp,
{
    assert((a < b ==> a * bpp + bpp <= b * bpp) && (b < a ==> b * bpp + bpp <= a * bpp))
        by (nonlinear_arith)
        requires
            bpp >= 1,
            0 <= a,
            0 <= b,
    ;
}

/// Whether the bytes of `b` appear in `a` starting at `start`.
fn bytes_eq(a: &Vec<u8>, start: usize, b: &Vec<u8>) -> (r: bool)
    requires
        start + b@.len() <= a@.len(),
    ensures
        r == (a@.subrange(start as int, start + b@.len()) == b@),
{
    proof {
        assert(a@.len() == a.len());
    }
    let mut j: usize = 0;
    while j < b.len()
        invariant
            start + b@.len() <= a@.len(),
            a@.len() <= usize::MAX,
            j <= b@.len(),
            forall|k: int| 0 <= k < j ==> a@[start + k] == b@[k],
        decreases b@.len() - j,
    {
        if a[start + j] != b[j] {
            proof {
                assert(a@.subrange(start as int, start + b@.len())[j as int] != b@[j as int]);
            }
            return false;
        }
        j = j + 1;
    }
    proof {
        assert(a@.subrange(start as int, start + b@.len()) =~= b@);
    }
    true
}

/// Overwrites `a[start ..  start + b.len()]` with the bytes of `b`.
fn write_bytes(a: &mut Vec<u8>, start: usize, b: &Vec<u8>)
    requires
        start + b@.len() <= old(a)@.len(),
    ensures
        final(a)@.len() == old(a)@.len(),
        forall|k: int|
            0 <= k < old(a)@.len() && !(start <= k < start + b@.len()) ==> final(a)@[k] == old(
                a,
            )@[k],
        final(a)@.subrange(start as int, start + b@.len()) == b@,
{
    proof {
        assert(a@.len() == a.len());
    }
    let mut j: usize = 0;
    while j < b.len()
        invariant
            start + b@.len() <= a@.len(),
            a@.len() <= usize::MAX,
            a@.len() == old(a)@.len(),
            j <= b@.len(),
            forall|k: int| 0 <= k < j ==> a@[start + k] == b@[k],
            forall|k: int|
                0 <= k < old(a)@.len() && !(start <= k < start + j) ==> a@[k] == old(a)@[k],
        decreases b@.len() - j,
    {
        a[start + j] = b[j];
        j = j + 1;
    }
    proof {
        assert(a@.subrange(start as int, start + b@.len()) =~= b@);
    }
}

/// Overwrites each of the `count` cells of `pixels` with the pattern
/// `color`.
fn fill_cells(pixels: &mut Vec<u8>, count: usize, color: &Vec<u8>)
    requires
        color@.len() >= 1,
        old(pixels)@.len() == count * color@.len(),
    ensures
        final(pixels)@.len() == old(pixels)@.len(),
        forall|i: int|
            0 <= i < count ==> #[trigger] cell_of(final(pixels)@, color@.len() as int, i)
                == color@,
{
    proof {
        assert(pixels@.len() == pixels.len());
    }
    let bpp = color.len();
    let mut i: usize = 0;
    while i < count
        invariant
            color@.len() == bpp,
            bpp >= 1,
            pixels@.len() <= usize::MAX,
            pixels@.len() == count * bpp,
            pixels@.len() == old(pixels)@.len(),
            i <= count,
            forall|k: int| 0 <= k < i ==> #[trigger] cell_of(pixels@, bpp as int, k) == color@,
        decreases count - i,
    {
        proof {
            lemma_fill_bounds(count as int, bpp as int, i as int);
        }
        let base = i * bpp;
        let ghost mid = pixels@;
        write_bytes(pixels, base, color);
        proof {
            assert(cell_of(pixels@, bpp as int, i as int) =~= color@);
            assert forall|k: int| 0 <= k < i implies #[trigger] cell_of(pixels@, bpp as int, k)
                == color@ by {
                lemma_cells_disjoint(bpp as int, k, i as int);
                assert(cell_of(pixels@, bpp as int, k) =~= cell_of(mid, bpp as int, k));
            }
        }
        i = i + 1;
    }
}

/// The byte range of cell `i` lies inside a buffer of `count` cells.
proof fn lemma_fill_bounds(count: int, bpp: int, i: int)
    requires
        bpp >= 1,
        0 <= i < count,
    ensures
        0 <= i * bpp,
        i * bpp + bpp <= count * bpp,
{
    assert(0 <= i * bpp && i * bpp + bpp <= count * bpp) by (nonlinear_arith)
        requires
            bpp >= 1,
            0 <= i < count,
    ;
}

} // verus!

use vstd::arithmetic::div_mod::{lemma_fundamental_div_mod, lemma_fundamental_div_mod_converse};
use vstd::prelude::*;

use crate::{DISPLAY_HEIGHT, DISPLAY_SIZE, DISPLAY_WIDTH};

verus! {

/// A 64x32 monochrome framebuffer, stored row by row.
#[derive(Debug)]
pub struct Chip8Display {
    pub pixels: Vec<bool>,
}

/// Whether bit `col` (0 = most significant) of a sprite row is set.
pub open spec fn sprite_bit(byte: u8, col: int) -> bool {
    (byte >> ((7 - col) as u8)) & 1u8 == 1u8
}

/// Number of sprite rows drawn from origin row `y0`: drawing stops at the
/// bottom edge.
pub open spec fn sprite_rows(y0: int, n: int) -> int {
    if n < DISPLAY_HEIGHT - y0 { n } else { DISPLAY_HEIGHT - y0 }
}

/// Number of columns of each sprite row drawn from origin column `x0`:
/// drawing stops at the right edge.
pub open spec fn sprite_cols(x0: int) -> int {
    if 8 < DISPLAY_WIDTH - x0 { 8 } else { DISPLAY_WIDTH - x0 }
}

/// Whether pixel `k` is toggled by the part of a sprite draw that has covered
/// every row before `done_r` and the first `done_c` columns of row `done_r`.
pub open spec fn hit_partial(
    ram: Seq<u8>,
    addr: int,
    x0: int,
    y0: int,
    n: int,
    k: int,
    done_r: int,
    done_c: int,
) -> bool {
    let dr = k / DISPLAY_WIDTH as int - y0;
    let dc = k % DISPLAY_WIDTH as int - x0;
    &&& 0 <= dr < sprite_rows(y0, n)
    &&& 0 <= dc < sprite_cols(x0)
    &&& (dr < done_r || (dr == done_r && dc < done_c))
    &&& sprite_bit(ram[addr + dr], dc)
}

/// Whether pixel `k` is toggled by drawing the `n`-row sprite at `ram[addr..]`
/// with its origin at column `x0`, row `y0`.
pub open spec fn hit(ram: Seq<u8>, addr: int, x0: int, y0: int, n: int, k: int) -> bool {
    hit_partial(ram, addr, x0, y0, n, k, sprite_rows(y0, n), 0)
}

/// The display after the sprite draw: each toggled pixel is flipped.
pub open spec fn drawn(d: Seq<bool>, ram: Seq<u8>, addr: int, x0: int, y0: int, n: int) -> Seq<bool> {
    Seq::new(d.len(), |k: int| d[k] != hit(ram, addr, x0, y0, n, k))
}

/// Whether the sprite draw toggles a pixel that was set.
pub open spec fn collides(d: Seq<bool>, ram: Seq<u8>, addr: int, x0: int, y0: int, n: int) -> bool {
    exists|k: int| 0 <= k < d.len() && #[trigger] hit(ram, addr, x0, y0, n, k) && d[k]
}

proof fn lemma_pixel_index(k: int, px: int, py: int)
    requires
        0 <= px < DISPLAY_WIDTH,
        0 <= py < DISPLAY_HEIGHT,
        0 <= k,
    ensures
        k == py * DISPLAY_WIDTH + px <==> (k % DISPLAY_WIDTH as int == px && k / DISPLAY_WIDTH as int == py),
{
    lemma_fundamental_div_mod(k, DISPLAY_WIDTH as int);
    if k == py * DISPLAY_WIDTH + px {
        lemma_fundamental_div_mod_converse(k, DISPLAY_WIDTH as int, py, px);
    }
}

impl Chip8Display {
    pub open spec fn wf(&self) -> bool {
        self.pixels@.len() == DISPLAY_SIZE
    }

    /// A display with every pixel off.
    pub fn new() -> (r: Chip8Display)
        ensures
            r.wf(),
            r.pixels@ == Seq::new(DISPLAY_SIZE as nat, |k: int| false),
    {
        let mut pixels: Vec<bool> = Vec::new();
        let mut k: usize = 0;
        while k < DISPLAY_SIZE
            invariant
                k <= DISPLAY_SIZE,
                pixels@ == Seq::new(k as nat, |j: int| false),
            decreases DISPLAY_SIZE - k,
        {
            pixels.push(false);
            k = k + 1;
            assert(pixels@ =~= Seq::new(k as nat, |j: int| false));
        }
        Chip8Display { pixels }
    }

    /// Turns every pixel off.
    pub fn clear(&mut self)
        requires
            old(self).wf(),
        ensures
            final(self).wf(),
            final(self).pixels@ == Seq::new(DISPLAY_SIZE as nat, |k: int| false),
    {
        let mut k: usize = 0;
        while k < DISPLAY_SIZE
            invariant
                k <= DISPLAY_SIZE,
                self.pixels@.len() == DISPLAY_SIZE,
                forall|j: int| 0 <= j < k ==> !self.pixels@[j],
            decreases DISPLAY_SIZE - k,
        {
            self.pixels.set(k, false);
            k = k + 1;
        }
        assert(self.pixels@ =~= Seq::new(DISPLAY_SIZE as nat, |j: int| false));
    }

    /// The pixel at column `x`, row `y`, for the caller to read or change.
    pub fn get_mut(&mut self, x: u8, y: u8) -> (r: &mut bool)
        requires
            old(self).wf(),
            x < DISPLAY_WIDTH,
            y < DISPLAY_HEIGHT,
        ensures
            *r == old(self).pixels@[y * DISPLAY_WIDTH + x],
            final(self).pixels@ == old(self).pixels@.update(y * DISPLAY_WIDTH + x, *final(r)),
    {
        &mut self.pixels[x as usize + (y as usize) * DISPLAY_WIDTH]
    }

    /// XOR-draws the `n`-row sprite at `ram[addr..]` with its origin at column
    /// `x0`, row `y0`, clipped at the right and bottom edges. Returns whether a
    /// pixel that was set got cleared.
    pub fn draw(&mut self, ram: &Vec<u8>, addr: usize, x0: u8, y0: u8, n: u8) -> (r: bool)
        requires
            old(self).wf(),
            x0 < DISPLAY_WIDTH,
            y0 < DISPLAY_HEIGHT,
            addr + sprite_rows(y0 as int, n as int) <= ram@.len(),
        ensures
            final(self).wf(),
            final(self).pixels@ == drawn(old(self).pixels@, ram@, addr as int, x0 as int, y0 as int, n as int),
            r == collides(old(self).pixels@, ram@, addr as int, x0 as int, y0 as int, n as int),
    {
        let ghost d0 = self.pixels@;
        let ghost (a, xi, yi, ni) = (addr as int, x0 as int, y0 as int, n as int);
        let rows: usize = if (n as usize) < DISPLAY_HEIGHT - y0 as usize {
            n as usize
        } else {
            DISPLAY_HEIGHT - y0 as usize
        };
        let cols: usize = if 8 < DISPLAY_WIDTH - x0 as usize {
            8
        } else {
            DISPLAY_WIDTH - x0 as usize
        };
        let len = ram.len();
        let mut collided = false;
        let mut r: usize = 0;
        while r < rows
            invariant
                a == addr as int,
                xi == x0 as int,
                yi == y0 as int,
                ni == n as int,
                rows == sprite_rows(yi, ni),
                cols == sprite_cols(xi),
                x0 < DISPLAY_WIDTH,
                y0 < DISPLAY_HEIGHT,
                a + rows <= ram@.len(),
                ram@.len() == len,
                d0.len() == DISPLAY_SIZE,
                r <= rows,
                self.pixels@ == Seq::new(DISPLAY_SIZE as nat, |k: int| d0[k] != hit_partial(ram@, a, xi, yi, ni, k, r as int, 0)),
                collided == exists|k: int| 0 <= k < DISPLAY_SIZE && #[trigger] hit_partial(ram@, a, xi, yi, ni, k, r as int, 0) && d0[k],
            decreases rows - r,
        {
            let data = ram[addr + r];
            let mut c: usize = 0;
            while c < cols
                invariant
                    a == addr as int,
                    xi == x0 as int,
                    yi == y0 as int,
                    ni == n as int,
                    rows == sprite_rows(yi, ni),
                    cols == sprite_cols(xi),
                    x0 < DISPLAY_WIDTH,
                    y0 < DISPLAY_HEIGHT,
                    a + rows <= ram@.len(),
                ram@.len() == len,
                    d0.len() == DISPLAY_SIZE,
                    r < rows,
                    c <= cols,
                    data == ram@[a + r],
                    self.pixels@ == Seq::new(DISPLAY_SIZE as nat, |k: int| d0[k] != hit_partial(ram@, a, xi, yi, ni, k, r as int, c as int)),
                    collided == exists|k: int| 0 <= k < DISPLAY_SIZE && #[trigger] hit_partial(ram@, a, xi, yi, ni, k, r as int, c as int) && d0[k],
                decreases cols - c,
            {
                let px: usize = x0 as usize + c;
                let py: usize = y0 as usize + r;
                let idx: usize = py * DISPLAY_WIDTH + px;
                let ghost before = self.pixels@;
                let ghost was = collided;
                let bit = (data >> (7 - c as u8)) & 1u8 == 1u8;
                if bit {
                    let p = self.pixels[idx];
                    if p {
                        collided = true;
                    }
                    self.pixels.set(idx, !p);
                }
                proof {
                    lemma_pixel_index(idx as int, px as int, py as int);
                    assert forall|k: int| 0 <= k < DISPLAY_SIZE implies
                        (hit_partial(ram@, a, xi, yi, ni, k, r as int, c + 1) <==>
                            (hit_partial(ram@, a, xi, yi, ni, k, r as int, c as int) || (k == idx && bit))) by {
                        lemma_pixel_index(k, px as int, py as int);
                    }
                    assert(!hit_partial(ram@, a, xi, yi, ni, idx as int, r as int, c as int));
                    assert(before[idx as int] == d0[idx as int]);
                    assert(self.pixels@ =~= Seq::new(DISPLAY_SIZE as nat, |k: int| d0[k] != hit_partial(ram@, a, xi, yi, ni, k, r as int, c + 1)));
                    if collided {
                        if was {
                            let k0 = choose|k: int| 0 <= k < DISPLAY_SIZE && #[trigger] hit_partial(ram@, a, xi, yi, ni, k, r as int, c as int) && d0[k];
                            assert(hit_partial(ram@, a, xi, yi, ni, k0, r as int, c + 1));
                        } else {
                            assert(hit_partial(ram@, a, xi, yi, ni, idx as int, r as int, c + 1));
                        }
                    } else {
                        assert forall|k: int| 0 <= k < DISPLAY_SIZE && #[trigger] hit_partial(ram@, a, xi, yi, ni, k, r as int, c + 1) implies !d0[k] by {
                            if !hit_partial(ram@, a, xi, yi, ni, k, r as int, c as int) {
                                assert(k == idx);
                            }
                        }
                    }
                }
                c = c + 1;
            }
            proof {
                assert forall|k: int| 0 <= k < DISPLAY_SIZE implies
                    (hit_partial(ram@, a, xi, yi, ni, k, r + 1, 0) == hit_partial(ram@, a, xi, yi, ni, k, r as int, c as int)) by {}
                assert(self.pixels@ =~= Seq::new(DISPLAY_SIZE as nat, |k: int| d0[k] != hit_partial(ram@, a, xi, yi, ni, k, r + 1, 0)));
                if collided {
                    let k0 = choose|k: int| 0 <= k < DISPLAY_SIZE && #[trigger] hit_partial(ram@, a, xi, yi, ni, k, r as int, c as int) && d0[k];
                    assert(hit_partial(ram@, a, xi, yi, ni, k0, r + 1, 0));
                } else {
                    assert forall|k: int| 0 <= k < DISPLAY_SIZE && #[trigger] hit_partial(ram@, a, xi, yi, ni, k, r + 1, 0) implies !d0[k] by {
                        assert(hit_partial(ram@, a, xi, yi, ni, k, r as int, c as int));
                    }
                }
            }
            r = r + 1;
        }
        proof {
            assert forall|k: int| 0 <= k < DISPLAY_SIZE implies
                (hit(ram@, a, xi, yi, ni, k) == hit_partial(ram@, a, xi, yi, ni, k, r as int, 0)) by {}
            assert(self.pixels@ =~= drawn(d0, ram@, a, xi, yi, ni));
            if collided {
                let k0 = choose|k: int| 0 <= k < DISPLAY_SIZE && #[trigger] hit_partial(ram@, a, xi, yi, ni, k, r as int, 0) && d0[k];
                assert(hit(ram@, a, xi, yi, ni, k0));
            } else {
                assert forall|k: int| 0 <= k < DISPLAY_SIZE && #[trigger] hit(ram@, a, xi, yi, ni, k) implies !d0[k] by {
                    assert(hit_partial(ram@, a, xi, yi, ni, k, r as int, 0));
                }
            }
        }
        collided
    }
}

} // verus!

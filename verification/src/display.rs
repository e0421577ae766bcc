//! The display buffer: a 32-row by 64-column grid of boolean pixels.
//!
//! The grid is stored row-major in a flat vector; the pixel at
//! `(row, col)` sits at index `row * 64 + col`. Sprites are composited
//! by XOR, with coordinates wrapping modulo the grid dimensions, and a
//! draw reports a collision when it turns any already-set pixel off.

use vstd::prelude::*;
use vstd::arithmetic::div_mod::lemma_fundamental_div_mod;

verus! {

/// Number of pixel rows.
pub const DISPLAY_ROWS: usize = 32;

/// Number of pixel columns.
pub const DISPLAY_COLS: usize = 64;

/// Total number of pixels: 32 rows of 64 columns.
pub const DISPLAY_PIXELS: usize = 2048;

/// Flat index of the pixel at `(row, col)`.
pub open spec fn pixel_index(row: int, col: int) -> int {
    row * (DISPLAY_COLS as int) + col
}

/// Whether bit `c` of sprite byte `b` is set, counting bit 0 as the
/// most significant (leftmost) bit.
pub open spec fn sprite_bit(b: u8, c: int) -> bool {
    (b >> ((7 - c) as u8)) & 1 == 1
}

/// Flat index of the pixel hit by bit `c` of sprite row `r` when the
/// sprite is drawn at `(x, y)`: coordinates wrap modulo the grid
/// dimensions.
pub open spec fn target_pixel(x: u8, y: u8, r: int, c: int) -> int {
    pixel_index((y + r) % (DISPLAY_ROWS as int), (x + c) % (DISPLAY_COLS as int))
}

/// Whether some set bit of the sprite lands on pixel `p` when drawn at
/// `(x, y)`.
pub open spec fn sprite_covers(x: u8, y: u8, sprite: Seq<u8>, p: int) -> bool {
    exists|r: int, c: int|
        0 <= r < sprite.len() && 0 <= c < 8 && sprite_bit(sprite[r], c) && target_pixel(
            x,
            y,
            r,
            c,
        ) == p
}

/// The screen after XOR-drawing `sprite` at `(x, y)` onto `screen`:
/// each covered pixel is toggled, every other pixel keeps its value.
pub open spec fn draw_spec(screen: Seq<bool>, x: u8, y: u8, sprite: Seq<u8>) -> Seq<bool> {
    Seq::new(DISPLAY_PIXELS as nat, |p: int| screen[p] != sprite_covers(x, y, sprite, p))
}

/// Whether drawing `sprite` at `(x, y)` onto `screen` collides: some
/// set sprite bit lands on a pixel that is already on.
pub open spec fn draw_collides(screen: Seq<bool>, x: u8, y: u8, sprite: Seq<u8>) -> bool {
    exists|r: int, c: int|
        0 <= r < sprite.len() && 0 <= c < 8 && sprite_bit(sprite[r], c) && screen[target_pixel(
            x,
            y,
            r,
            c,
        )]
}

/// Whether some set sprite bit among the pairs `(r, c)` that precede
/// `(rr, cc)` in row-major order lands on pixel `p`.
spec fn covers_before(x: u8, y: u8, sprite: Seq<u8>, p: int, rr: int, cc: int) -> bool {
    exists|r: int, c: int|
        0 <= r < sprite.len() && 0 <= c < 8 && (r < rr || (r == rr && c < cc)) && sprite_bit(
            sprite[r],
            c,
        ) && target_pixel(x, y, r, c) == p
}

/// Whether some set sprite bit among the pairs that precede `(rr, cc)`
/// lands on an already-set pixel of `screen`.
spec fn collides_before(screen: Seq<bool>, x: u8, y: u8, sprite: Seq<u8>, rr: int, cc: int) -> bool {
    exists|r: int, c: int|
        0 <= r < sprite.len() && 0 <= c < 8 && (r < rr || (r == rr && c < cc)) && sprite_bit(
            sprite[r],
            c,
        ) && screen[target_pixel(x, y, r, c)]
}

/// Adding `a` and `b` to the same base cannot agree modulo `m` unless
/// `a == b`, as long as both lie below `m`.
proof fn lemma_mod_shift_injective(base: int, a: int, b: int, m: int)
    requires
        m > 0,
        base >= 0,
        0 <= a < m,
        0 <= b < m,
        (base + a) % m == (base + b) % m,
    ensures
        a == b,
{
    lemma_fundamental_div_mod(base + a, m);
    lemma_fundamental_div_mod(base + b, m);
    let qa = (base + a) / m;
    let qb = (base + b) / m;
    assert(a - b == m * qa - m * qb);
    assert(a == b) by (nonlinear_arith)
        requires
            a - b == m * qa - m * qb,
            -m < a - b < m,
            m > 0,
    ;
}

/// Distinct sprite bit positions hit distinct pixels, as long as the
/// sprite has at most 32 rows.
proof fn lemma_target_injective(x: u8, y: u8, r1: int, c1: int, r2: int, c2: int)
    requires
        0 <= r1 < 32,
        0 <= c1 < 8,
        0 <= r2 < 32,
        0 <= c2 < 8,
        target_pixel(x, y, r1, c1) == target_pixel(x, y, r2, c2),
    ensures
        r1 == r2,
        c1 == c2,
{
    let row1 = (y + r1) % 32;
    let col1 = (x + c1) % 64;
    let row2 = (y + r2) % 32;
    let col2 = (x + c2) % 64;
    assert(0 <= row1 < 32 && 0 <= col1 < 64 && 0 <= row2 < 32 && 0 <= col2 < 64);
    assert(row1 == row2 && col1 == col2) by (nonlinear_arith)
        requires
            row1 * 64 + col1 == row2 * 64 + col2,
            0 <= row1 < 32,
            0 <= col1 < 64,
            0 <= row2 < 32,
            0 <= col2 < 64,
    ;
    lemma_mod_shift_injective(y as int, r1, r2, 32);
    lemma_mod_shift_injective(x as int, c1, c2, 64);
}

/// Every target pixel lies inside the grid.
proof fn lemma_target_in_range(x: u8, y: u8, r: int, c: int)
    ensures
        0 <= target_pixel(x, y, r, c) < DISPLAY_PIXELS,
{
    let row = (y + r) % 32;
    let col = (x + c) % 64;
    assert(0 <= row < 32 && 0 <= col < 64);
    assert(0 <= row * 64 + col < 2048) by (nonlinear_arith)
        requires
            0 <= row < 32,
            0 <= col < 64,
    ;
}

/// Builds an all-off pixel vector of exactly 32 x 64 entries.
fn all_off_screen() -> (r: Vec<bool>)
    ensures
        r@.len() == DISPLAY_PIXELS,
        forall|p: int| 0 <= p < DISPLAY_PIXELS ==> !r@[p],
{
    let mut v: Vec<bool> = Vec::new();
    let mut i: usize = 0;
    while i < DISPLAY_PIXELS
        invariant
            i <= DISPLAY_PIXELS,
            v@.len() == i,
            forall|p: int| 0 <= p < i ==> !v@[p],
        decreases DISPLAY_PIXELS - i,
    {
        v.push(false);
        i = i + 1;
    }
    v
}

/// The CHIP-8 display.
///
/// The screen is 64 pixels wide and 32 pixels tall; each pixel is
/// either on or off.
pub struct Display {
    /// The pixel grid, row-major: pixel `(row, col)` at `row * 64 + col`.
    pub screen: Vec<bool>,
}

impl Display {
    /// The display is well formed when it holds exactly 32 x 64 pixels.
    pub open spec fn wf(self) -> bool {
        self.screen@.len() == DISPLAY_PIXELS
    }

    /// Creates a new display with every pixel off.
    pub fn new() -> (r: Self)
        ensures
            r.wf(),
            forall|p: int| 0 <= p < DISPLAY_PIXELS ==> !r.screen@[p],
    {
        Display { screen: all_off_screen() }
    }

    /// Clears the screen: afterwards the grid holds exactly 32 x 64
    /// pixels, all of them off. Always succeeds.
    pub fn clear(&mut self)
        ensures
            final(self).wf(),
            forall|p: int| 0 <= p < DISPLAY_PIXELS ==> !final(self).screen@[p],
    {
        self.screen = all_off_screen();
    }

    /// XOR-draws `sprite` at `(x, y)`: bit `c` of sprite row `r` (most
    /// significant bit first) toggles the pixel at
    /// `((y + r) mod 32, (x + c) mod 64)` when set. Returns the
    /// collision flag: whether any pixel went from on to off. The
    /// caller, not this method, stores that flag in the flag register.
    pub fn draw_sprite(&mut self, x: u8, y: u8, sprite: &Vec<u8>) -> (collision: bool)
        requires
            old(self).wf(),
            sprite@.len() <= DISPLAY_ROWS,
        ensures
            final(self).wf(),
            final(self).screen@ == draw_spec(old(self).screen@, x, y, sprite@),
            collision == draw_collides(old(self).screen@, x, y, sprite@),
    {
        let ghost screen0 = self.screen@;
        let ghost sp = sprite@;
        let mut collision = false;
        let mut r: usize = 0;
        while r < sprite.len()
            invariant
                self.wf(),
                old(self).wf(),
                sprite@ == sp,
                sp.len() <= DISPLAY_ROWS,
                screen0 == old(self).screen@,
                r <= sp.len(),
                forall|p: int|
                    0 <= p < DISPLAY_PIXELS ==> self.screen@[p] == (screen0[p] != covers_before(
                        x,
                        y,
                        sp,
                        p,
                        r as int,
                        0,
                    )),
                collision == collides_before(screen0, x, y, sp, r as int, 0),
            decreases sp.len() - r,
        {
            let byte = sprite[r];
            let mut c: usize = 0;
            while c < 8
                invariant
                    self.wf(),
                    old(self).wf(),
                    sprite@ == sp,
                    sp.len() <= DISPLAY_ROWS,
                    screen0 == old(self).screen@,
                    r < sp.len(),
                    byte == sp[r as int],
                    c <= 8,
                    forall|p: int|
                        0 <= p < DISPLAY_PIXELS ==> self.screen@[p] == (screen0[p]
                            != covers_before(x, y, sp, p, r as int, c as int)),
                    collision == collides_before(screen0, x, y, sp, r as int, c as int),
                decreases 8 - c,
            {
                let shift: u8 = (7 - c) as u8;
                let bit_set = ((byte >> shift) & 1) == 1;
                proof {
                    assert(bit_set == sprite_bit(sp[r as int], c as int));
                }
                if bit_set {
                    let row: usize = ((y as usize) + r) % DISPLAY_ROWS;
                    let col: usize = ((x as usize) + c) % DISPLAY_COLS;
                    let p: usize = row * DISPLAY_COLS + col;
                    proof {
                        lemma_target_in_range(x, y, r as int, c as int);
                        assert(p == target_pixel(x, y, r as int, c as int));
                        // No earlier sprite bit hits this pixel, so it
                        // still holds its original value.
                        assert(!covers_before(x, y, sp, p as int, r as int, c as int)) by {
                            if covers_before(x, y, sp, p as int, r as int, c as int) {
                                let (r2, c2) = choose|r2: int, c2: int|
                                    0 <= r2 < sp.len() && 0 <= c2 < 8 && (r2 < r as int || (r2
                                        == r as int && c2 < c as int)) && sprite_bit(sp[r2], c2)
                                        && target_pixel(x, y, r2, c2) == p as int;
                                lemma_target_injective(x, y, r2, c2, r as int, c as int);
                            }
                        }
                    }
                    let was_on = self.screen[p];
                    if was_on {
                        collision = true;
                    }
                    self.screen.set(p, !was_on);
                    proof {
                        let rr = r as int;
                        let cc = c as int;
                        assert forall|q: int| 0 <= q < DISPLAY_PIXELS implies self.screen@[q] == (
                        screen0[q] != covers_before(x, y, sp, q, rr, cc + 1)) by {
                            if q == p as int {
                                assert(sprite_bit(sp[rr], cc) && target_pixel(x, y, rr, cc) == q);
                                assert(covers_before(x, y, sp, q, rr, cc + 1));
                            } else {
                                assert(covers_before(x, y, sp, q, rr, cc + 1) == covers_before(
                                    x,
                                    y,
                                    sp,
                                    q,
                                    rr,
                                    cc,
                                )) by {
                                    if covers_before(x, y, sp, q, rr, cc + 1) {
                                        let (r2, c2) = choose|r2: int, c2: int|
                                            0 <= r2 < sp.len() && 0 <= c2 < 8 && (r2 < rr || (r2
                                                == rr && c2 < cc + 1)) && sprite_bit(sp[r2], c2)
                                                && target_pixel(x, y, r2, c2) == q;
                                        assert(!(r2 == rr && c2 == cc));
                                        assert(covers_before(x, y, sp, q, rr, cc));
                                    }
                                }
                            }
                        }
                        assert(collision == collides_before(screen0, x, y, sp, rr, cc + 1)) by {
                            if collides_before(screen0, x, y, sp, rr, cc + 1)
                                && !collides_before(screen0, x, y, sp, rr, cc) {
                                let (r2, c2) = choose|r2: int, c2: int|
                                    0 <= r2 < sp.len() && 0 <= c2 < 8 && (r2 < rr || (r2 == rr
                                        && c2 < cc + 1)) && sprite_bit(sp[r2], c2)
                                        && screen0[target_pixel(x, y, r2, c2)];
                                assert(r2 == rr && c2 == cc);
                            }
                            if was_on {
                                assert(screen0[target_pixel(x, y, rr, cc)]);
                                assert(collides_before(screen0, x, y, sp, rr, cc + 1));
                            }
                        }
                    }
                } else {
                    proof {
                        let rr = r as int;
                        let cc = c as int;
                        assert forall|q: int| 0 <= q < DISPLAY_PIXELS implies covers_before(
                            x,
                            y,
                            sp,
                            q,
                            rr,
                            cc + 1,
                        ) == covers_before(x, y, sp, q, rr, cc) by {
                            if covers_before(x, y, sp, q, rr, cc + 1) {
                                let (r2, c2) = choose|r2: int, c2: int|
                                    0 <= r2 < sp.len() && 0 <= c2 < 8 && (r2 < rr || (r2 == rr
                                        && c2 < cc + 1)) && sprite_bit(sp[r2], c2) && target_pixel(
                                        x,
                                        y,
                                        r2,
                                        c2,
                                    ) == q;
                                assert(!(r2 == rr && c2 == cc));
                                assert(covers_before(x, y, sp, q, rr, cc));
                            }
                        }
                        assert(collides_before(screen0, x, y, sp, rr, cc + 1) == collides_before(
                            screen0,
                            x,
                            y,
                            sp,
                            rr,
                            cc,
                        )) by {
                            if collides_before(screen0, x, y, sp, rr, cc + 1)
                                && !collides_before(screen0, x, y, sp, rr, cc) {
                                let (r2, c2) = choose|r2: int, c2: int|
                                    0 <= r2 < sp.len() && 0 <= c2 < 8 && (r2 < rr || (r2 == rr
                                        && c2 < cc + 1)) && sprite_bit(sp[r2], c2)
                                        && screen0[target_pixel(x, y, r2, c2)];
                                assert(r2 == rr && c2 == cc);
                            }
                        }
                    }
                }
                c = c + 1;
            }
            proof {
                // Row-major order: everything before `(r + 1, 0)` is
                // exactly everything before `(r, 8)`.
                let rr = r as int;
                assert forall|q: int| 0 <= q < DISPLAY_PIXELS implies covers_before(
                    x,
                    y,
                    sp,
                    q,
                    rr + 1,
                    0,
                ) == covers_before(x, y, sp, q, rr, 8) by {
                    if covers_before(x, y, sp, q, rr + 1, 0) {
                        let (r2, c2) = choose|r2: int, c2: int|
                            0 <= r2 < sp.len() && 0 <= c2 < 8 && (r2 < rr + 1 || (r2 == rr + 1
                                && c2 < 0)) && sprite_bit(sp[r2], c2) && target_pixel(x, y, r2, c2)
                                == q;
                        assert(r2 < rr || (r2 == rr && c2 < 8));
                        assert(covers_before(x, y, sp, q, rr, 8));
                    }
                    if covers_before(x, y, sp, q, rr, 8) {
                        let (r2, c2) = choose|r2: int, c2: int|
                            0 <= r2 < sp.len() && 0 <= c2 < 8 && (r2 < rr || (r2 == rr && c2 < 8))
                                && sprite_bit(sp[r2], c2) && target_pixel(x, y, r2, c2) == q;
                        assert(covers_before(x, y, sp, q, rr + 1, 0));
                    }
                }
                assert(collides_before(screen0, x, y, sp, rr + 1, 0) == collides_before(
                    screen0,
                    x,
                    y,
                    sp,
                    rr,
                    8,
                )) by {
                    if collides_before(screen0, x, y, sp, rr + 1, 0) {
                        let (r2, c2) = choose|r2: int, c2: int|
                            0 <= r2 < sp.len() && 0 <= c2 < 8 && (r2 < rr + 1 || (r2 == rr + 1
                                && c2 < 0)) && sprite_bit(sp[r2], c2)
                                && screen0[target_pixel(x, y, r2, c2)];
                        assert(r2 < rr || (r2 == rr && c2 < 8));
                        assert(collides_before(screen0, x, y, sp, rr, 8));
                    }
                    if collides_before(screen0, x, y, sp, rr, 8) {
                        let (r2, c2) = choose|r2: int, c2: int|
                            0 <= r2 < sp.len() && 0 <= c2 < 8 && (r2 < rr || (r2 == rr && c2 < 8))
                                && sprite_bit(sp[r2], c2) && screen0[target_pixel(x, y, r2, c2)];
                        assert(collides_before(screen0, x, y, sp, rr + 1, 0));
                    }
                }
            }
            r = r + 1;
        }
        proof {
            // At the end every sprite bit has been processed, so the
            // prefix predicates coincide with the full ones.
            assert forall|p: int| 0 <= p < DISPLAY_PIXELS implies covers_before(
                x,
                y,
                sp,
                p,
                sp.len() as int,
                0,
            ) == sprite_covers(x, y, sp, p) by {
                if sprite_covers(x, y, sp, p) {
                    let (r2, c2) = choose|r2: int, c2: int|
                        0 <= r2 < sp.len() && 0 <= c2 < 8 && sprite_bit(sp[r2], c2) && target_pixel(
                            x,
                            y,
                            r2,
                            c2,
                        ) == p;
                    assert(covers_before(x, y, sp, p, sp.len() as int, 0));
                }
            }
            assert(collides_before(screen0, x, y, sp, sp.len() as int, 0) == draw_collides(
                screen0,
                x,
                y,
                sp,
            )) by {
                if draw_collides(screen0, x, y, sp) {
                    let (r2, c2) = choose|r2: int, c2: int|
                        0 <= r2 < sp.len() && 0 <= c2 < 8 && sprite_bit(sp[r2], c2)
                            && screen0[target_pixel(x, y, r2, c2)];
                    assert(collides_before(screen0, x, y, sp, sp.len() as int, 0));
                }
            }
            assert(self.screen@ =~= draw_spec(screen0, x, y, sp));
        }
        collision
    }
}

} // verus!

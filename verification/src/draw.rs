//! The sprite blit of Dxyn: an XOR draw with wraparound and collision
//! detection, specified pointwise over the framebuffer.

use vstd::prelude::*;
use crate::arith::lemma_mod_injective;
use crate::state::{Chip8, Chip8View, DISPLAY_HEIGHT, DISPLAY_WIDTH, MEMORY_SIZE};

verus! {

/// The weight of sprite bit `b`, counted from the most significant bit.
pub open spec fn bit_mask_val(b: int) -> int {
    if b == 0 {
        128
    } else if b == 1 {
        64
    } else if b == 2 {
        32
    } else if b == 3 {
        16
    } else if b == 4 {
        8
    } else if b == 5 {
        4
    } else if b == 6 {
        2
    } else {
        1
    }
}

/// Whether bit `b` (0 = most significant) of a sprite row byte is set.
pub open spec fn row_bit(byte: u8, b: int) -> bool {
    (byte as int) / bit_mask_val(b) % 2 == 1
}

/// The framebuffer index of screen row `row`, column `col`.
pub open spec fn pix(row: int, col: int) -> int {
    row * 64 + col
}

/// The framebuffer index that sprite row `r`, bit `b` lands on when the
/// sprite is drawn at `(vx, vy)`: both coordinates wrap.
pub open spec fn target_pix(vx: int, vy: int, r: int, b: int) -> int {
    pix((vy + r) % 32, (vx + b) % 64)
}

/// The sprite row byte read for row `r`, at `i + r` modulo the memory
/// size.
pub open spec fn sprite_row_byte(mem: Seq<u8>, i: int, r: int) -> u8 {
    mem[(i + r) % 4096]
}

/// Whether a set sprite bit among the pairs processed strictly before
/// `(row, bit)` — rows above `row`, or row `row` left of `bit` — lands
/// on pixel `p`. Coordinates wrap modulo the screen size; the sprite
/// rows are read at `i + r` modulo the memory size.
pub open spec fn covers_before(
    mem: Seq<u8>,
    i: int,
    vx: int,
    vy: int,
    row: int,
    bit: int,
    p: int,
) -> bool {
    exists|r: int, b: int|
        0 <= r && 0 <= b < 8 && (r < row || (r == row && b < bit)) && p == #[trigger] target_pix(
            vx,
            vy,
            r,
            b,
        ) && row_bit(sprite_row_byte(mem, i, r), b)
}

/// Whether the `n`-row sprite at `memory[i..]`, drawn at `(vx, vy)`,
/// covers pixel `p`.
pub open spec fn sprite_covers(mem: Seq<u8>, i: int, vx: int, vy: int, n: int, p: int) -> bool {
    covers_before(mem, i, vx, vy, n, 0, p)
}

/// Toggle one pixel.
pub open spec fn flip(d: u8) -> u8 {
    if d == 0 {
        1
    } else {
        0
    }
}

/// The framebuffer after the draw: every covered pixel toggled, every
/// other pixel untouched.
pub open spec fn draw_display(
    mem: Seq<u8>,
    i: int,
    vx: int,
    vy: int,
    n: int,
    d: Seq<u8>,
) -> Seq<u8> {
    Seq::new(
        d.len(),
        |p: int|
            if sprite_covers(mem, i, vx, vy, n, p) {
                flip(d[p])
            } else {
                d[p]
            },
    )
}

/// Whether the draw toggles any pixel that was already lit.
pub open spec fn sprite_collision(
    mem: Seq<u8>,
    i: int,
    vx: int,
    vy: int,
    n: int,
    d: Seq<u8>,
) -> bool {
    exists|p: int| 0 <= p < d.len() && sprite_covers(mem, i, vx, vy, n, p) && d[p] == 1
}

/// The machine state after a Dxyn draw, except for the program counter:
/// VF is cleared before the coordinates are read, so V15 as a coordinate
/// register reads as zero; afterwards VF holds the collision flag.
pub open spec fn spec_draw_result(pre: Chip8View, x: u8, y: u8, n: u8) -> Chip8View {
    let v1 = pre.v.update(15, 0u8);
    let vx = v1[x as int] as int;
    let vy = v1[y as int] as int;
    let collision = sprite_collision(pre.memory, pre.i as int, vx, vy, n as int, pre.display);
    Chip8View {
        display: draw_display(pre.memory, pre.i as int, vx, vy, n as int, pre.display),
        v: v1.update(15, if collision { 1u8 } else { 0u8 }),
        ..pre
    }
}

/// Processing one more bit extends the covered set by that bit's target
/// pixel, when the bit is set, and by nothing otherwise.
proof fn lemma_step_cover(mem: Seq<u8>, i: int, vx: int, vy: int, row: int, bit: int, p: int)
    requires
        0 <= row,
        0 <= bit < 8,
    ensures
        covers_before(mem, i, vx, vy, row, bit + 1, p) <==> (covers_before(
            mem,
            i,
            vx,
            vy,
            row,
            bit,
            p,
        ) || (row_bit(sprite_row_byte(mem, i, row), bit) && p == target_pix(vx, vy, row, bit))),
{
    if covers_before(mem, i, vx, vy, row, bit + 1, p) {
        let (r, b) = choose|r: int, b: int|
            0 <= r && 0 <= b < 8 && (r < row || (r == row && b < bit + 1)) && p == #[trigger] target_pix(
                vx,
                vy,
                r,
                b,
            ) && row_bit(sprite_row_byte(mem, i, r), b);
        if r < row || (r == row && b < bit) {
            assert(covers_before(mem, i, vx, vy, row, bit, p));
        }
    }
    if covers_before(mem, i, vx, vy, row, bit, p) {
        let (r, b) = choose|r: int, b: int|
            0 <= r && 0 <= b < 8 && (r < row || (r == row && b < bit)) && p == #[trigger] target_pix(
                vx,
                vy,
                r,
                b,
            ) && row_bit(sprite_row_byte(mem, i, r), b);
        assert(0 <= r && 0 <= b < 8 && (r < row || (r == row && b < bit + 1)) && p == target_pix(
            vx,
            vy,
            r,
            b,
        ) && row_bit(sprite_row_byte(mem, i, r), b));
        assert(covers_before(mem, i, vx, vy, row, bit + 1, p));
    }
    if row_bit(sprite_row_byte(mem, i, row), bit) && p == target_pix(vx, vy, row, bit) {
        assert(0 <= row && 0 <= bit < 8 && (row < row || (row == row && bit < bit + 1)) && p
            == target_pix(vx, vy, row, bit) && row_bit(sprite_row_byte(mem, i, row), bit));
        assert(covers_before(mem, i, vx, vy, row, bit + 1, p));
    }
}

/// Finishing a row's eight bits is the same as standing at the start of
/// the next row.
proof fn lemma_row_boundary(mem: Seq<u8>, i: int, vx: int, vy: int, row: int, p: int)
    requires
        0 <= row,
    ensures
        covers_before(mem, i, vx, vy, row, 8, p) <==> covers_before(mem, i, vx, vy, row + 1, 0, p),
{
    if covers_before(mem, i, vx, vy, row, 8, p) {
        let (r, b) = choose|r: int, b: int|
            0 <= r && 0 <= b < 8 && (r < row || (r == row && b < 8)) && p == #[trigger] target_pix(
                vx,
                vy,
                r,
                b,
            ) && row_bit(sprite_row_byte(mem, i, r), b);
        assert(r < row + 1 || (r == row + 1 && b < 0));
        assert(covers_before(mem, i, vx, vy, row + 1, 0, p));
    }
    if covers_before(mem, i, vx, vy, row + 1, 0, p) {
        let (r, b) = choose|r: int, b: int|
            0 <= r && 0 <= b < 8 && (r < row + 1 || (r == row + 1 && b < 0)) && p
                == #[trigger] target_pix(vx, vy, r, b) && row_bit(sprite_row_byte(mem, i, r), b);
        assert(r < row || (r == row && b < 8));
        assert(covers_before(mem, i, vx, vy, row, 8, p));
    }
}

/// Within one sprite no pixel is visited twice: the target of the pair
/// `(row, bit)` is not covered by any earlier pair. Rows are distinct
/// modulo 32 because a sprite has at most 15 rows; columns are distinct
/// modulo 64 because a row has 8 bits.
proof fn lemma_target_fresh(mem: Seq<u8>, i: int, vx: int, vy: int, row: int, bit: int)
    requires
        0 <= row < 16,
        0 <= bit < 8,
    ensures
        !covers_before(mem, i, vx, vy, row, bit, target_pix(vx, vy, row, bit)),
{
    let p = target_pix(vx, vy, row, bit);
    if covers_before(mem, i, vx, vy, row, bit, p) {
        let (r, b) = choose|r: int, b: int|
            0 <= r && 0 <= b < 8 && (r < row || (r == row && b < bit)) && p == #[trigger] target_pix(
                vx,
                vy,
                r,
                b,
            ) && row_bit(sprite_row_byte(mem, i, r), b);
        let sy1 = (vy + r) % 32;
        let sx1 = (vx + b) % 64;
        let sy2 = (vy + row) % 32;
        let sx2 = (vx + bit) % 64;
        assert(sy1 * 64 + sx1 == sy2 * 64 + sx2);
        assert(0 <= sy1 < 32 && 0 <= sy2 < 32 && 0 <= sx1 < 64 && 0 <= sx2 < 64);
        assert(sy1 == sy2 && sx1 == sx2) by (nonlinear_arith)
            requires
                sy1 * 64 + sx1 == sy2 * 64 + sx2,
                0 <= sx1 < 64,
                0 <= sx2 < 64,
        ;
        lemma_mod_injective(vy, r, row, 32);
        lemma_mod_injective(vx, b, bit, 64);
    }
}

/// Drawing the same sprite on the same state twice restores the
/// framebuffer exactly: the XOR toggle is its own inverse, and within
/// one sprite no pixel is toggled twice.
pub proof fn lemma_draw_display_twice(mem: Seq<u8>, i: int, vx: int, vy: int, n: int, d: Seq<u8>)
    requires
        forall|p: int| 0 <= p < d.len() ==> d[p] == 0 || d[p] == 1,
    ensures
        draw_display(mem, i, vx, vy, n, draw_display(mem, i, vx, vy, n, d)) =~= d,
{
    let d1 = draw_display(mem, i, vx, vy, n, d);
    assert(d1.len() == d.len());
    assert forall|p: int| 0 <= p < d.len() implies draw_display(mem, i, vx, vy, n, d1)[p] == d[p] by {
        assert(d1[p] == if sprite_covers(mem, i, vx, vy, n, p) {
            flip(d[p])
        } else {
            d[p]
        });
    };
}

/// The low bit of a mask test, as the executor computes it.
fn bit_mask(b: usize) -> (m: u8)
    requires
        b < 8,
    ensures
        m as int == bit_mask_val(b as int),
        m >= 1,
{
    match b {
        0 => 128,
        1 => 64,
        2 => 32,
        3 => 16,
        4 => 8,
        5 => 4,
        6 => 2,
        _ => 1,
    }
}

/// Execute the Dxyn blit, leaving the program counter to the caller.
pub(crate) fn draw_sprite(c: &mut Chip8, x: u8, y: u8, n: u8)
    requires
        old(c)@.wf(),
        x < 16,
        y < 16,
        n < 16,
    ensures
        final(c)@ == spec_draw_result(old(c)@, x, y, n),
        final(c)@.wf(),
{
    let ghost pre = old(c)@;
    c.v.set(15, 0);
    let vx = c.v[x as usize] as usize;
    let vy = c.v[y as usize] as usize;
    let ghost mem = pre.memory;
    let ghost ii = pre.i as int;
    let ghost d0 = pre.display;
    let mut collision = false;
    let mut row: usize = 0;
    while row < n as usize
        invariant
            pre.wf(),
            x < 16,
            y < 16,
            n < 16,
            row <= n as usize,
            vx == pre.v.update(15, 0u8)[x as int] as int,
            vy == pre.v.update(15, 0u8)[y as int] as int,
            vx < 256,
            vy < 256,
            mem == pre.memory,
            ii == pre.i as int,
            d0 == pre.display,
            c@.memory == pre.memory,
            c@.v == pre.v.update(15, 0u8),
            c@.i == pre.i,
            c@.pc == pre.pc,
            c@.stack == pre.stack,
            c@.sp == pre.sp,
            c@.delay_timer == pre.delay_timer,
            c@.sound_timer == pre.sound_timer,
            c@.keypad == pre.keypad,
            c@.display.len() == 2048,
            forall|p: int|
                0 <= p < 2048 ==> c@.display[p] == (if covers_before(
                    mem,
                    ii,
                    vx as int,
                    vy as int,
                    row as int,
                    0,
                    p,
                ) {
                    flip(d0[p])
                } else {
                    d0[p]
                }),
            collision <==> exists|p: int|
                0 <= p < 2048 && covers_before(mem, ii, vx as int, vy as int, row as int, 0, p)
                    && d0[p] == 1,
        decreases n as usize - row,
    {
        let byte = c.memory[(c.i as usize + row) % MEMORY_SIZE];
        let mut bit: usize = 0;
        while bit < 8
            invariant
                pre.wf(),
                x < 16,
                y < 16,
                n < 16,
                row < n as usize,
                bit <= 8,
                vx < 256,
                vy < 256,
                mem == pre.memory,
                ii == pre.i as int,
                d0 == pre.display,
                byte == mem[(ii + row) % 4096],
                c@.memory == pre.memory,
                c@.v == pre.v.update(15, 0u8),
                c@.i == pre.i,
                c@.pc == pre.pc,
                c@.stack == pre.stack,
                c@.sp == pre.sp,
                c@.delay_timer == pre.delay_timer,
                c@.sound_timer == pre.sound_timer,
                c@.keypad == pre.keypad,
                c@.display.len() == 2048,
                forall|p: int|
                    0 <= p < 2048 ==> c@.display[p] == (if covers_before(
                        mem,
                        ii,
                        vx as int,
                        vy as int,
                        row as int,
                        bit as int,
                        p,
                    ) {
                        flip(d0[p])
                    } else {
                        d0[p]
                    }),
                collision <==> exists|p: int|
                    0 <= p < 2048 && covers_before(
                        mem,
                        ii,
                        vx as int,
                        vy as int,
                        row as int,
                        bit as int,
                        p,
                    ) && d0[p] == 1,
            decreases 8 - bit,
        {
            let mask = bit_mask(bit);
            if (byte / mask) % 2 == 1 {
                let sy = (vy + row) % DISPLAY_HEIGHT;
                let sx = (vx + bit) % DISPLAY_WIDTH;
                let idx = sy * DISPLAY_WIDTH + sx;
                proof {
                    lemma_target_fresh(mem, ii, vx as int, vy as int, row as int, bit as int);
                    assert(idx == target_pix(vx as int, vy as int, row as int, bit as int));
                }
                let ghost p0 = idx as int;
                let cur = c.display[idx];
                proof {
                    assert(c@.display[p0] == d0[p0]);
                }
                if cur == 1 {
                    collision = true;
                }
                c.display.set(idx, if cur == 0 { 1 } else { 0 });
                proof {
                    assert(c@.display[p0] == flip(d0[p0]));
                    assert forall|p: int| 0 <= p < 2048 implies c@.display[p] == (if covers_before(
                        mem,
                        ii,
                        vx as int,
                        vy as int,
                        row as int,
                        bit as int + 1,
                        p,
                    ) {
                        flip(d0[p])
                    } else {
                        d0[p]
                    }) by {
                        lemma_step_cover(mem, ii, vx as int, vy as int, row as int, bit as int, p);
                    };
                    if d0[p0] == 1 {
                        lemma_step_cover(mem, ii, vx as int, vy as int, row as int, bit as int, p0);
                        assert(covers_before(
                            mem,
                            ii,
                            vx as int,
                            vy as int,
                            row as int,
                            bit as int + 1,
                            p0,
                        ));
                        assert(collision);
                    } else {
                        assert(collision <==> exists|p: int|
                            0 <= p < 2048 && covers_before(
                                mem,
                                ii,
                                vx as int,
                                vy as int,
                                row as int,
                                bit as int + 1,
                                p,
                            ) && d0[p] == 1) by {
                            if exists|p: int|
                                0 <= p < 2048 && covers_before(
                                    mem,
                                    ii,
                                    vx as int,
                                    vy as int,
                                    row as int,
                                    bit as int + 1,
                                    p,
                                ) && d0[p] == 1 {
                                let p = choose|p: int|
                                    0 <= p < 2048 && covers_before(
                                        mem,
                                        ii,
                                        vx as int,
                                        vy as int,
                                        row as int,
                                        bit as int + 1,
                                        p,
                                    ) && d0[p] == 1;
                                lemma_step_cover(
                                    mem,
                                    ii,
                                    vx as int,
                                    vy as int,
                                    row as int,
                                    bit as int,
                                    p,
                                );
                            }
                            if collision {
                                let p = choose|p: int|
                                    0 <= p < 2048 && covers_before(
                                        mem,
                                        ii,
                                        vx as int,
                                        vy as int,
                                        row as int,
                                        bit as int,
                                        p,
                                    ) && d0[p] == 1;
                                lemma_step_cover(
                                    mem,
                                    ii,
                                    vx as int,
                                    vy as int,
                                    row as int,
                                    bit as int,
                                    p,
                                );
                            }
                        };
                    }
                }
            } else {
                proof {
                    assert forall|p: int| 0 <= p < 2048 implies c@.display[p] == (if covers_before(
                        mem,
                        ii,
                        vx as int,
                        vy as int,
                        row as int,
                        bit as int + 1,
                        p,
                    ) {
                        flip(d0[p])
                    } else {
                        d0[p]
                    }) by {
                        lemma_step_cover(mem, ii, vx as int, vy as int, row as int, bit as int, p);
                    };
                    assert(collision <==> exists|p: int|
                        0 <= p < 2048 && covers_before(
                            mem,
                            ii,
                            vx as int,
                            vy as int,
                            row as int,
                            bit as int + 1,
                            p,
                        ) && d0[p] == 1) by {
                        if exists|p: int|
                            0 <= p < 2048 && covers_before(
                                mem,
                                ii,
                                vx as int,
                                vy as int,
                                row as int,
                                bit as int + 1,
                                p,
                            ) && d0[p] == 1 {
                            let p = choose|p: int|
                                0 <= p < 2048 && covers_before(
                                    mem,
                                    ii,
                                    vx as int,
                                    vy as int,
                                    row as int,
                                    bit as int + 1,
                                    p,
                                ) && d0[p] == 1;
                            lemma_step_cover(mem, ii, vx as int, vy as int, row as int, bit as int, p);
                        }
                        if collision {
                            let p = choose|p: int|
                                0 <= p < 2048 && covers_before(
                                    mem,
                                    ii,
                                    vx as int,
                                    vy as int,
                                    row as int,
                                    bit as int,
                                    p,
                                ) && d0[p] == 1;
                            lemma_step_cover(mem, ii, vx as int, vy as int, row as int, bit as int, p);
                        }
                    };
                }
            }
            bit = bit + 1;
        }
        proof {
            assert forall|p: int| 0 <= p < 2048 implies (covers_before(
                mem,
                ii,
                vx as int,
                vy as int,
                row as int,
                8,
                p,
            ) <==> covers_before(mem, ii, vx as int, vy as int, row as int + 1, 0, p)) by {
                lemma_row_boundary(mem, ii, vx as int, vy as int, row as int, p);
            };
            if collision {
                let p = choose|p: int|
                    0 <= p < 2048 && covers_before(mem, ii, vx as int, vy as int, row as int, 8, p)
                        && d0[p] == 1;
                lemma_row_boundary(mem, ii, vx as int, vy as int, row as int, p);
            }
            if exists|p: int|
                0 <= p < 2048 && covers_before(mem, ii, vx as int, vy as int, row as int + 1, 0, p)
                    && d0[p] == 1 {
                let p = choose|p: int|
                    0 <= p < 2048 && covers_before(
                        mem,
                        ii,
                        vx as int,
                        vy as int,
                        row as int + 1,
                        0,
                        p,
                    ) && d0[p] == 1;
                lemma_row_boundary(mem, ii, vx as int, vy as int, row as int, p);
            }
        }
        row = row + 1;
    }
    let vf: u8 = if collision {
        1
    } else {
        0
    };
    c.v.set(15, vf);
    proof {
        assert(c@.display =~= draw_display(
            mem,
            ii,
            vx as int,
            vy as int,
            n as int,
            d0,
        ));
        assert(collision <==> sprite_collision(mem, ii, vx as int, vy as int, n as int, d0));
        assert(c@ =~= spec_draw_result(pre, x, y, n));
        assert forall|p: int| 0 <= p < 2048 implies (c@.display[p] == 0 || c@.display[p] == 1) by {
            assert(d0[p] == 0 || d0[p] == 1);
        };
    }
}

} // verus!

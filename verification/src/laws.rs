//! General properties of the cycle model, each proved once and for all
//! states: determinism away from the random instruction, the call/return
//! round trip, the wait-for-key counter identity, and the geometry of
//! sprite drawing.

use crate::decode::op_hi;
use crate::decode::op_kk;
use crate::decode::op_nnn;
use crate::error::Error;
use crate::state::ProcState;
use crate::step::draw_bits;
use crate::step::draw_sprite;
use crate::step::spec_cycle;
use crate::step::sprite_bit;
use vstd::arithmetic::div_mod::lemma_add_mod_noop;
use vstd::arithmetic::div_mod::lemma_mod_bound;
use vstd::arithmetic::div_mod::lemma_mod_sub_multiples_vanish;
use vstd::arithmetic::div_mod::lemma_small_mod;
use vstd::prelude::*;

verus! {

/// A cycle is deterministic for every opcode but `Cxkk`: whatever byte the
/// random source produces, the resulting state and result are the same.
/// (The wait-for-key scan reads only the keypad flags, which are part of
/// the state, so it is deterministic in this sense too.)
pub proof fn lemma_cycle_deterministic(s: ProcState, b1: u8, b2: u8)
    requires
        s.wf(),
        s.program_counter + 1 < 4096 ==> op_hi(s.fetch()) != 0xC,
    ensures
        spec_cycle(s, b1) == spec_cycle(s, b2),
{
}

/// A `2nnn` call whose target holds a `00EE` return brings the program
/// counter back to the address immediately after the call instruction:
/// two cycles later it equals the call's address plus two.
pub proof fn lemma_call_then_return(s: ProcState, b1: u8, b2: u8)
    requires
        s.wf(),
        s.program_counter + 1 < 4096,
        op_hi(s.fetch()) == 0x2,
        s.stack_pointer < 16,
        op_nnn(s.fetch()) + 1 < 4096,
        s.memory[op_nnn(s.fetch()) as int] == 0x00,
        s.memory[op_nnn(s.fetch()) as int + 1] == 0xEE,
    ensures
        ({
            let (s1, r1) = spec_cycle(s, b1);
            let (s2, r2) = spec_cycle(s1, b2);
            r1 == Ok::<(), Error>(()) && r2 == Ok::<(), Error>(()) && s2.program_counter
                == s.program_counter + 2
        }),
{
    let (s1, r1) = spec_cycle(s, b1);
    assert(s1.fetch() == (((0x00u8 as u16) << 8u16) | (0xEEu8 as u16)));
    assert((((0x00u8 as u16) << 8u16) | (0xEEu8 as u16)) == 0xEEu16) by (bit_vector);
    assert(op_hi(0xEEu16) == 0x0 && op_kk(0xEEu16) == 0xEE) by (bit_vector);
}

/// The wait-for-key instruction with no key pressed leaves the program
/// counter exactly where it was: the fetch advance is undone by the
/// rewind, so the same instruction re-executes next cycle.
pub proof fn lemma_wait_for_key_holds_the_counter(s: ProcState, b: u8)
    requires
        s.wf(),
        s.program_counter + 1 < 4096,
        op_hi(s.fetch()) == 0xF,
        op_kk(s.fetch()) == 0x0A,
        forall|j: int| 0 <= j < 16 ==> !s.keypad[j],
    ensures
        spec_cycle(s, b).1 == Ok::<(), Error>(()),
        spec_cycle(s, b).0.program_counter == s.program_counter,
{
    crate::step::lemma_first_pressed_none(s.keypad, 0);
}

/// The display pixel a sprite bit lands on: column `(vx + k) % 64`, row
/// `(vy + r) % 32` — coordinates always wrap modulo the display size.
pub open spec fn sprite_target(vx: int, vy: int, r: int, k: int) -> int {
    (vx + k) % 64 + ((vy + r) % 32) * 64
}

/// Whether drawing an `n`-row sprite read from `mem` at `index`, at
/// position `(vx, vy)`, touches pixel `p`: some set sprite bit lands
/// there.
pub open spec fn sprite_covers(
    mem: Seq<u8>,
    index: int,
    vx: int,
    vy: int,
    n: int,
    p: int,
) -> bool {
    exists|r: int, k: int|
        0 <= r < n && 0 <= k < 8 && sprite_bit(mem[index + r], k) && p == sprite_target(
            vx,
            vy,
            r,
            k,
        )
}

/// Two offsets less than `m` apart land on different remainders.
proof fn lemma_mod_distinct(a: int, j1: int, j2: int, m: int)
    requires
        0 <= a,
        0 <= j1 < j2,
        j2 - j1 < m,
        0 < m,
    ensures
        0 <= (a + j1) % m < m,
        0 <= (a + j2) % m < m,
        (a + j1) % m != (a + j2) % m,
{
    lemma_mod_bound(a + j1, m);
    lemma_mod_bound(a + j2, m);
    let r1 = (a + j1) % m;
    let d = j2 - j1;
    lemma_add_mod_noop(a + j1, d, m);
    lemma_small_mod(d as nat, m as nat);
    lemma_small_mod(r1 as nat, m as nat);
    assert((a + j2) % m == (r1 + d) % m);
    if r1 + d < m {
        lemma_small_mod((r1 + d) as nat, m as nat);
        assert((r1 + d) % m == r1 + d);
    } else {
        lemma_mod_sub_multiples_vanish(r1 + d, m);
        assert((r1 + d) % m == (r1 + d - m) % m);
        lemma_small_mod((r1 + d - m) as nat, m as nat);
        assert((r1 + d - m) % m == r1 + d - m);
    }
}

/// What drawing one sprite row does, pixel by pixel: a pixel is toggled
/// exactly when some set bit among the first `kmax` lands on it, and a
/// collision is reported exactly when some set bit lands on a set pixel.
proof fn lemma_draw_bits_pointwise(disp: Seq<bool>, byte: u8, vx: int, yc: int, kmax: int)
    requires
        disp.len() == 2048,
        0 <= vx,
        0 <= yc < 32,
        0 <= kmax <= 8,
    ensures
        ({
            let (d, c) = draw_bits(disp, byte, vx, yc, kmax);
            &&& d.len() == 2048
            &&& forall|p: int|
                0 <= p < 2048 ==> d[p] == (if (exists|k: int|
                    0 <= k < kmax && sprite_bit(byte, k) && p == (vx + k) % 64 + yc * 64) {
                    !disp[p]
                } else {
                    disp[p]
                })
            &&& c == (exists|k: int|
                0 <= k < kmax && sprite_bit(byte, k) && disp[(vx + k) % 64 + yc * 64])
        }),
    decreases kmax,
{
    if kmax > 0 {
        lemma_draw_bits_pointwise(disp, byte, vx, yc, kmax - 1);
        let (d1, c1) = draw_bits(disp, byte, vx, yc, kmax - 1);
        let (d, c) = draw_bits(disp, byte, vx, yc, kmax);
        if sprite_bit(byte, kmax - 1) {
            let t = (vx + kmax - 1) % 64 + yc * 64;
            lemma_mod_bound(vx + kmax - 1, 64);
            assert(0 <= t < 2048);
            assert forall|k: int| 0 <= k < kmax - 1 implies (#[trigger] ((vx + k) % 64)) + yc * 64
                != t by {
                lemma_mod_distinct(vx, k, kmax - 1, 64);
            }
            assert(!(exists|k: int|
                0 <= k < kmax - 1 && sprite_bit(byte, k) && t == (vx + k) % 64 + yc * 64));
            assert(d1[t] == disp[t]);
            assert(d == d1.update(t, !d1[t]));
            assert(c == (c1 || d1[t]));
            assert forall|p: int| 0 <= p < 2048 implies d[p] == (if (exists|k: int|
                0 <= k < kmax && sprite_bit(byte, k) && p == (vx + k) % 64 + yc * 64) {
                !disp[p]
            } else {
                disp[p]
            }) by {
                if p == t {
                    assert(0 <= kmax - 1 < kmax && sprite_bit(byte, kmax - 1) && p == (vx + (kmax
                        - 1)) % 64 + yc * 64);
                } else {
                    if exists|k: int|
                        0 <= k < kmax && sprite_bit(byte, k) && p == (vx + k) % 64 + yc * 64 {
                        let k = choose|k: int|
                            0 <= k < kmax && sprite_bit(byte, k) && p == (vx + k) % 64 + yc * 64;
                        assert(k < kmax - 1);
                        assert(0 <= k < kmax - 1 && sprite_bit(byte, k) && p == (vx + k) % 64 + yc
                            * 64);
                    }
                }
            }
            if d1[t] {
                assert(0 <= kmax - 1 < kmax && sprite_bit(byte, kmax - 1) && disp[(vx + (kmax - 1))
                    % 64 + yc * 64]);
            }
            if c1 {
                let k = choose|k: int|
                    0 <= k < kmax - 1 && sprite_bit(byte, k) && disp[(vx + k) % 64 + yc * 64];
                assert(0 <= k < kmax && sprite_bit(byte, k) && disp[(vx + k) % 64 + yc * 64]);
            }
            if !c {
                assert forall|k: int| 0 <= k < kmax && sprite_bit(byte, k) implies !disp[(vx + k)
                    % 64 + yc * 64] by {
                    if k < kmax - 1 {
                        assert(!c1);
                    } else {
                        assert(!d1[t]);
                    }
                }
            }
        } else {
            assert forall|p: int| 0 <= p < 2048 implies d[p] == (if (exists|k: int|
                0 <= k < kmax && sprite_bit(byte, k) && p == (vx + k) % 64 + yc * 64) {
                !disp[p]
            } else {
                disp[p]
            }) by {
                if exists|k: int|
                    0 <= k < kmax && sprite_bit(byte, k) && p == (vx + k) % 64 + yc * 64 {
                    let k = choose|k: int|
                        0 <= k < kmax && sprite_bit(byte, k) && p == (vx + k) % 64 + yc * 64;
                    assert(0 <= k < kmax - 1 && sprite_bit(byte, k) && p == (vx + k) % 64 + yc
                        * 64);
                }
            }
            assert(c == c1);
            if c1 {
                let k = choose|k: int|
                    0 <= k < kmax - 1 && sprite_bit(byte, k) && disp[(vx + k) % 64 + yc * 64];
                assert(0 <= k < kmax && sprite_bit(byte, k) && disp[(vx + k) % 64 + yc * 64]);
            }
            if c {
                assert(c1);
            }
            if !c1 && (exists|k: int|
                0 <= k < kmax && sprite_bit(byte, k) && disp[(vx + k) % 64 + yc * 64]) {
                let k = choose|k: int|
                    0 <= k < kmax && sprite_bit(byte, k) && disp[(vx + k) % 64 + yc * 64];
                assert(0 <= k < kmax - 1 && sprite_bit(byte, k) && disp[(vx + k) % 64 + yc * 64]);
                assert(false);
            }
        }
    }
}

/// What drawing a whole sprite does, pixel by pixel: a pixel is toggled
/// exactly when the sprite covers it — its coordinates computed modulo 64
/// and 32, so drawing at the display's edge wraps to the opposite side —
/// and a collision is reported exactly when a set sprite bit lands on a
/// set pixel.
pub proof fn lemma_draw_wraps(
    disp: Seq<bool>,
    mem: Seq<u8>,
    index: int,
    vx: int,
    vy: int,
    n: int,
)
    requires
        disp.len() == 2048,
        mem.len() == 4096,
        0 <= index,
        index + n <= 4096,
        0 <= vx,
        0 <= vy,
        0 <= n <= 15,
    ensures
        ({
            let (d, c) = draw_sprite(disp, mem, index, vx, vy, n);
            &&& d.len() == 2048
            &&& forall|p: int|
                0 <= p < 2048 ==> d[p] == (if sprite_covers(mem, index, vx, vy, n, p) {
                    !disp[p]
                } else {
                    disp[p]
                })
            &&& c == (exists|r: int, k: int|
                0 <= r < n && 0 <= k < 8 && sprite_bit(mem[index + r], k) && disp[sprite_target(
                    vx,
                    vy,
                    r,
                    k,
                )])
        }),
    decreases n,
{
    if n > 0 {
        lemma_draw_wraps(disp, mem, index, vx, vy, n - 1);
        let (d1, c1) = draw_sprite(disp, mem, index, vx, vy, n - 1);
        let byte = mem[index + n - 1];
        let yc = (vy + n - 1) % 32;
        lemma_mod_bound(vy + n - 1, 32);
        lemma_draw_bits_pointwise(d1, byte, vx, yc, 8);
        let (d, c) = draw_sprite(disp, mem, index, vx, vy, n);
        let (db, cb) = draw_bits(d1, byte, vx, yc, 8);
        assert(d == db && c == (c1 || cb));
        // A pixel of the last row is touched by no earlier row: the row
        // coordinates differ modulo 32, so the pixel numbers differ.
        assert forall|r: int, k1: int, k2: int|
            0 <= r < n - 1 && 0 <= k1 < 8 && 0 <= k2 < 8 implies #[trigger] sprite_target(
            vx,
            vy,
            r,
            k1,
        ) != (#[trigger] ((vx + k2) % 64)) + yc * 64 by {
            lemma_mod_distinct(vy, r, n - 1, 32);
            lemma_mod_bound(vx + k1, 64);
            lemma_mod_bound(vx + k2, 64);
        }
        // Last-row targets kept their original pixel value through the
        // earlier rows.
        assert forall|k: int| 0 <= k < 8 implies (#[trigger] ((vx + k) % 64)) + yc * 64 < 2048
            && d1[(vx + k) % 64 + yc * 64] == disp[(vx + k) % 64 + yc * 64] by {
            lemma_mod_bound(vx + k, 64);
            let p = (vx + k) % 64 + yc * 64;
            if sprite_covers(mem, index, vx, vy, n - 1, p) {
                let (r2, k2) = choose|r2: int, k2: int|
                    0 <= r2 < n - 1 && 0 <= k2 < 8 && sprite_bit(mem[index + r2], k2) && p
                        == sprite_target(vx, vy, r2, k2);
                assert(sprite_target(vx, vy, r2, k2) != (vx + k) % 64 + yc * 64);
                assert(false);
            }
        }
        // Pointwise composition.
        assert forall|p: int| 0 <= p < 2048 implies d[p] == (if sprite_covers(
            mem,
            index,
            vx,
            vy,
            n,
            p,
        ) {
            !disp[p]
        } else {
            disp[p]
        }) by {
            if exists|k: int| 0 <= k < 8 && sprite_bit(byte, k) && p == (vx + k) % 64 + yc * 64 {
                let k = choose|k: int|
                    0 <= k < 8 && sprite_bit(byte, k) && p == (vx + k) % 64 + yc * 64;
                assert(d[p] == !d1[p]);
                assert(d1[p] == disp[p]);
                assert(0 <= n - 1 < n && 0 <= k < 8 && sprite_bit(mem[index + (n - 1)], k) && p
                    == sprite_target(vx, vy, n - 1, k));
                assert(sprite_covers(mem, index, vx, vy, n, p));
            } else {
                assert(d[p] == d1[p]);
                if sprite_covers(mem, index, vx, vy, n, p) {
                    let (r, k) = choose|r: int, k: int|
                        0 <= r < n && 0 <= k < 8 && sprite_bit(mem[index + r], k) && p
                            == sprite_target(vx, vy, r, k);
                    if r == n - 1 {
                        assert(0 <= k < 8 && sprite_bit(byte, k) && p == (vx + k) % 64 + yc * 64);
                        assert(false);
                    } else {
                        assert(0 <= r < n - 1 && 0 <= k < 8 && sprite_bit(mem[index + r], k) && p
                            == sprite_target(vx, vy, r, k));
                        assert(sprite_covers(mem, index, vx, vy, n - 1, p));
                    }
                } else {
                    if sprite_covers(mem, index, vx, vy, n - 1, p) {
                        let (r, k) = choose|r: int, k: int|
                            0 <= r < n - 1 && 0 <= k < 8 && sprite_bit(mem[index + r], k) && p
                                == sprite_target(vx, vy, r, k);
                        assert(0 <= r < n && 0 <= k < 8 && sprite_bit(mem[index + r], k) && p
                            == sprite_target(vx, vy, r, k));
                        assert(false);
                    }
                }
            }
        }
        // Collision composition.
        if c1 {
            let (r, k) = choose|r: int, k: int|
                0 <= r < n - 1 && 0 <= k < 8 && sprite_bit(mem[index + r], k) && disp[sprite_target(
                    vx,
                    vy,
                    r,
                    k,
                )];
            assert(0 <= r < n && 0 <= k < 8 && sprite_bit(mem[index + r], k) && disp[sprite_target(
                vx,
                vy,
                r,
                k,
            )]);
        }
        if cb {
            let k = choose|k: int|
                0 <= k < 8 && sprite_bit(byte, k) && d1[(vx + k) % 64 + yc * 64];
            assert(disp[sprite_target(vx, vy, n - 1, k)]);
            assert(0 <= n - 1 < n && 0 <= k < 8 && sprite_bit(mem[index + (n - 1)], k)
                && disp[sprite_target(vx, vy, n - 1, k)]);
        }
        if !c1 && !cb && (exists|r: int, k: int|
            0 <= r < n && 0 <= k < 8 && sprite_bit(mem[index + r], k) && disp[sprite_target(
                vx,
                vy,
                r,
                k,
            )]) {
            let (r, k) = choose|r: int, k: int|
                0 <= r < n && 0 <= k < 8 && sprite_bit(mem[index + r], k) && disp[sprite_target(
                    vx,
                    vy,
                    r,
                    k,
                )];
            if r == n - 1 {
                assert(d1[(vx + k) % 64 + yc * 64] == disp[sprite_target(vx, vy, n - 1, k)]);
                assert(false);
            } else {
                assert(0 <= r < n - 1 && 0 <= k < 8 && sprite_bit(mem[index + r], k)
                    && disp[sprite_target(vx, vy, r, k)]);
                assert(false);
            }
        }
    }
}

/// Drawing a sprite twice at one position onto a display whose targeted
/// pixels are all clear: the first draw reports no collision, the second
/// draw clears every pixel the sprite set — restoring the display exactly
/// — and reports a collision precisely when the sprite has any set bit.
pub proof fn lemma_draw_twice(
    disp: Seq<bool>,
    mem: Seq<u8>,
    index: int,
    vx: int,
    vy: int,
    n: int,
)
    requires
        disp.len() == 2048,
        mem.len() == 4096,
        0 <= index,
        index + n <= 4096,
        0 <= vx,
        0 <= vy,
        0 <= n <= 15,
        forall|r: int, k: int|
            0 <= r < n && 0 <= k < 8 && sprite_bit(mem[index + r], k) ==> !disp[sprite_target(
                vx,
                vy,
                r,
                k,
            )],
    ensures
        ({
            let (d1, c1) = draw_sprite(disp, mem, index, vx, vy, n);
            let (d2, c2) = draw_sprite(d1, mem, index, vx, vy, n);
            &&& c1 == false
            &&& d2 == disp
            &&& c2 == (exists|r: int, k: int|
                0 <= r < n && 0 <= k < 8 && #[trigger] sprite_bit(mem[index + r], k))
        }),
{
    lemma_draw_wraps(disp, mem, index, vx, vy, n);
    let (d1, c1) = draw_sprite(disp, mem, index, vx, vy, n);
    lemma_draw_wraps(d1, mem, index, vx, vy, n);
    let (d2, c2) = draw_sprite(d1, mem, index, vx, vy, n);
    if c1 {
        let (r, k) = choose|r: int, k: int|
            0 <= r < n && 0 <= k < 8 && sprite_bit(mem[index + r], k) && disp[sprite_target(
                vx,
                vy,
                r,
                k,
            )];
        assert(!disp[sprite_target(vx, vy, r, k)]);
        assert(false);
    }
    assert forall|p: int| 0 <= p < 2048 implies d2[p] == disp[p] by {
        if sprite_covers(mem, index, vx, vy, n, p) {
            assert(d1[p] == !disp[p]);
            assert(d2[p] == !d1[p]);
        }
    }
    assert(d2 =~= disp);
    if c2 {
        let (r, k) = choose|r: int, k: int|
            0 <= r < n && 0 <= k < 8 && sprite_bit(mem[index + r], k) && d1[sprite_target(
                vx,
                vy,
                r,
                k,
            )];
        assert(0 <= r < n && 0 <= k < 8 && sprite_bit(mem[index + r], k));
    }
    if exists|r: int, k: int| 0 <= r < n && 0 <= k < 8 && #[trigger] sprite_bit(mem[index + r], k) {
        let (r, k) = choose|r: int, k: int|
            0 <= r < n && 0 <= k < 8 && #[trigger] sprite_bit(mem[index + r], k);
        let p = sprite_target(vx, vy, r, k);
        lemma_mod_bound(vx + k, 64);
        lemma_mod_bound(vy + r, 32);
        assert(0 <= p < 2048);
        assert(sprite_covers(mem, index, vx, vy, n, p));
        assert(d1[p] == !disp[p]);
        assert(!disp[p]);
        assert(0 <= r < n && 0 <= k < 8 && sprite_bit(mem[index + r], k) && d1[sprite_target(
            vx,
            vy,
            r,
            k,
        )]);
        assert(c2);
    }
}

} // verus!

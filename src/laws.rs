use vstd::prelude::*;

use crate::machine::{
    alu, any_pressed, collides, draw, execute_op, is_lowest_pressed, low_byte, lowest_pressed,
    misc_op, nib1, nib2, nib3, nib4, opcode_at, step, Machine, FLAG_REG, RAM_SIZE,
};
use crate::stack::STACK_SIZE;

verus! {

/// `6xNN` leaves exactly `NN` in `V[x]`.
pub proof fn lemma_load_immediate(m: Machine, rnd: u8)
    requires
        m.wf(),
        m.pc + 1 < RAM_SIZE,
        nib1(opcode_at(m.ram, m.pc as int)) == 6,
    ensures
        ({
            let op = opcode_at(m.ram, m.pc as int);
            &&& step(m, rnd) is Ok
            &&& step(m, rnd)->Ok_0.v[nib2(op) as int] == low_byte(op)
        }),
{
}

/// `8xy4` leaves the sum modulo 256 in `V[x]` and sets VF to 1 exactly when
/// the unsigned sum exceeds 255. When `x` is VF itself the flag is what remains.
pub proof fn lemma_add_carry(m: Machine, rnd: u8)
    requires
        m.wf(),
        m.pc + 1 < RAM_SIZE,
        nib1(opcode_at(m.ram, m.pc as int)) == 8,
        nib4(opcode_at(m.ram, m.pc as int)) == 4,
    ensures
        ({
            let op = opcode_at(m.ram, m.pc as int);
            let x = nib2(op) as int;
            let vx = m.v[x];
            let vy = m.v[nib3(op) as int];
            let after = step(m, rnd)->Ok_0;
            &&& step(m, rnd) is Ok
            &&& after.v[FLAG_REG as int] == if vx + vy > 255 { 1u8 } else { 0u8 }
            &&& x != FLAG_REG ==> after.v[x] == (vx + vy) % 256
        }),
{
    reveal(alu);
}

/// `8xy5` sets VF to 0 exactly when `V[x] < V[y]` before the subtraction (a
/// borrow), and to 1 otherwise.
pub proof fn lemma_sub_borrow(m: Machine, rnd: u8)
    requires
        m.wf(),
        m.pc + 1 < RAM_SIZE,
        nib1(opcode_at(m.ram, m.pc as int)) == 8,
        nib4(opcode_at(m.ram, m.pc as int)) == 5,
    ensures
        ({
            let op = opcode_at(m.ram, m.pc as int);
            let vx = m.v[nib2(op) as int];
            let vy = m.v[nib3(op) as int];
            let after = step(m, rnd)->Ok_0;
            &&& step(m, rnd) is Ok
            &&& after.v[FLAG_REG as int] == 0 <==> vx < vy
            &&& after.v[FLAG_REG as int] == 1 <==> vx >= vy
        }),
{
    reveal(alu);
}

/// Drawing the same sprite at the same place twice in a row restores the
/// framebuffer, and the second draw's VF tells whether the sprite collides
/// with what the first draw left. The sprite's coordinates must not sit in
/// VF, which the first draw overwrites.
pub proof fn lemma_draw_twice(m: Machine, op: u16, rnd: u8)
    requires
        m.wf(),
        nib1(op) == 0xD,
        nib2(op) != FLAG_REG,
        nib3(op) != FLAG_REG,
        execute_op(m, op, rnd) is Ok,
    ensures
        ({
            let once = execute_op(m, op, rnd)->Ok_0;
            let twice = execute_op(once, op, rnd)->Ok_0;
            let vx = m.v[nib2(op) as int];
            let vy = m.v[nib3(op) as int];
            &&& execute_op(once, op, rnd) is Ok
            &&& twice.screen == m.screen
            &&& twice.v[FLAG_REG as int] == if collides(once.screen, m.ram, m.i, vx, vy, nib4(op)) {
                1u8
            } else {
                0u8
            }
        }),
{
    reveal(draw);
    let once = execute_op(m, op, rnd)->Ok_0;
    let twice = execute_op(once, op, rnd)->Ok_0;
    assert(once.v[nib2(op) as int] == m.v[nib2(op) as int]);
    assert(once.v[nib3(op) as int] == m.v[nib3(op) as int]);
    assert(twice.screen =~= m.screen);
}

/// Two pushes followed by two pops give the addresses back in reverse order
/// and leave the stack as it was.
pub proof fn lemma_stack_round_trip(s: Seq<u16>, a: u16, b: u16)
    requires
        s.len() + 2 <= STACK_SIZE,
    ensures
        s.push(a).len() < STACK_SIZE,
        s.push(a).push(b).last() == b,
        s.push(a).push(b).drop_last() == s.push(a),
        s.push(a).last() == a,
        s.push(a).drop_last() == s,
{
    assert(s.push(a).push(b).drop_last() =~= s.push(a));
    assert(s.push(a).drop_last() =~= s);
}

/// `Fx0A` with no key pressed changes nothing, not even the program counter,
/// so the next cycle executes it again; with a key pressed, `V[x]` receives
/// the lowest-indexed pressed key and execution moves on.
pub proof fn lemma_wait_for_key(m: Machine, rnd: u8)
    requires
        m.wf(),
        m.pc + 1 < RAM_SIZE,
        nib1(opcode_at(m.ram, m.pc as int)) == 0xF,
        low_byte(opcode_at(m.ram, m.pc as int)) == 0x0A,
    ensures
        ({
            let op = opcode_at(m.ram, m.pc as int);
            let after = step(m, rnd)->Ok_0;
            &&& step(m, rnd) is Ok
            &&& !any_pressed(m.keys) ==> after == m
            &&& any_pressed(m.keys) ==> {
                &&& is_lowest_pressed(m.keys, lowest_pressed(m.keys))
                &&& after.v[nib2(op) as int] == lowest_pressed(m.keys)
                &&& after.pc == m.pc + 2
            }
        }),
{
    reveal(misc_op);
    if any_pressed(m.keys) {
        lemma_lowest_pressed_exists(m.keys);
    }
}

/// Where some key at `j` or above is pressed and none below `j` is, there is
/// a lowest-indexed pressed key.
proof fn lemma_lowest_pressed_from(keys: Seq<bool>, j: int)
    requires
        0 <= j <= 16,
        forall|i: int| 0 <= i < j ==> !keys[i],
        exists|k: int| j <= k < 16 && keys[k],
    ensures
        is_lowest_pressed(keys, lowest_pressed(keys)),
    decreases 16 - j,
{
    if keys[j] {
        assert(is_lowest_pressed(keys, j));
    } else {
        lemma_lowest_pressed_from(keys, j + 1);
    }
}

/// Where some key is pressed, there is a lowest-indexed one.
proof fn lemma_lowest_pressed_exists(keys: Seq<bool>)
    requires
        any_pressed(keys),
    ensures
        is_lowest_pressed(keys, lowest_pressed(keys)),
{
    lemma_lowest_pressed_from(keys, 0);
}

} // verus!

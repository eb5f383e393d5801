use vstd::prelude::*;

use crate::error::EmuError;
use crate::font::{fontset, font_glyphs, FONTSET_SIZE};
use crate::machine::{
    alu, any_pressed, collides, covers, draw, drawn, execute_op, initial, is_lowest_pressed,
    key_op, load_regs, load_rom, lowest_pressed, misc_op, opcode_at, outcome, sprite_col,
    sprite_row, step, store_regs, tick_timers_spec, Machine, FLAG_REG, NUM_KEYS, RAM_SIZE,
    REG_COUNT, SCREEN_HEIGHT, SCREEN_SIZE, SCREEN_WIDTH, START_ADDR,
};
use crate::stack::Stack;

verus! {

/// Relies on rand::random: a value drawn from the thread-local generator;
/// nothing is promised of it.
pub assume_specification<T>[ rand::random::<T> ]() -> (r: T)
    where
        rand::distributions::Standard: rand::distributions::Distribution<T>,
;

/// The CHIP-8 virtual machine: memory, registers, call stack, timers,
/// framebuffer and keypad, driven one instruction at a time by its host.
pub struct Emu {
    pc: u16,
    ram: [u8; RAM_SIZE],
    screen: [bool; SCREEN_SIZE],
    v_reg: [u8; REG_COUNT],
    i_reg: u16,
    stack: Stack,
    keys: [bool; NUM_KEYS],
    dt: u8,
    st: u8,
}

impl View for Emu {
    type V = Machine;

    closed spec fn view(&self) -> Machine {
        Machine {
            pc: self.pc,
            i: self.i_reg,
            v: self.v_reg@,
            ram: self.ram@,
            screen: self.screen@,
            stack: self.stack@,
            keys: self.keys@,
            delay: self.dt,
            sound: self.st,
        }
    }
}

/// Pixel `p` has been toggled once the draw loop has passed sprite row `row`,
/// column `col`.
spec fn toggled_before(
    ram: Seq<u8>,
    i: u16,
    vx: u8,
    vy: u8,
    n: u16,
    p: int,
    row: int,
    col: int,
) -> bool {
    let r = sprite_row(p / (SCREEN_WIDTH as int), vy);
    let c = sprite_col(p % (SCREEN_WIDTH as int), vx);
    covers(ram, i, vx, vy, n, p) && (r < row || (r == row && c < col))
}

/// The sprite pixel at `(row, col)` lands on exactly one screen index, and
/// that index maps back to `(row, col)`.
proof fn lemma_pixel_index(vx: u8, vy: u8, row: int, col: int, idx: int)
    requires
        0 <= row < SCREEN_HEIGHT,
        0 <= col < 8,
        idx == (vx + col) % (SCREEN_WIDTH as int) + SCREEN_WIDTH * ((vy + row) % (
        SCREEN_HEIGHT as int)),
    ensures
        0 <= idx < SCREEN_SIZE,
        sprite_row(idx / (SCREEN_WIDTH as int), vy) == row,
        sprite_col(idx % (SCREEN_WIDTH as int), vx) == col,
        forall|p: int|
            #![trigger sprite_row(p / (SCREEN_WIDTH as int), vy), sprite_col(p % (SCREEN_WIDTH as int), vx)]
            0 <= p < SCREEN_SIZE && sprite_row(p / (SCREEN_WIDTH as int), vy) == row
                && sprite_col(p % (SCREEN_WIDTH as int), vx) == col ==> p == idx,
{
    let px = (vx + col) % 64;
    let py = (vy + row) % 32;
    assert(idx % 64 == px && idx / 64 == py);
    assert forall|p: int|
        #![trigger sprite_row(p / (SCREEN_WIDTH as int), vy), sprite_col(p % (SCREEN_WIDTH as int), vx)]
        0 <= p < SCREEN_SIZE && sprite_row(p / (SCREEN_WIDTH as int), vy) == row
            && sprite_col(p % (SCREEN_WIDTH as int), vx) == col implies p == idx by {
        assert(p % 64 == px);
        assert(p / 64 == py);
    }
}

/// Only the key found lowest can be the one that `lowest_pressed` picks.
proof fn lemma_lowest_pressed(keys: Seq<bool>, k: int)
    requires
        is_lowest_pressed(keys, k),
    ensures
        any_pressed(keys),
        lowest_pressed(keys) == k,
{
    let c = lowest_pressed(keys);
    assert(is_lowest_pressed(keys, c));
    if c < k {
        assert(!keys[c]);
    } else if c > k {
        assert(!keys[k]);
    }
}

impl Emu {
    /// The machine's state has the hardware's shape.
    pub open spec fn wf(&self) -> bool {
        self@.wf() && self.stack_wf()
    }

    pub closed spec fn stack_wf(&self) -> bool {
        self.stack.wf()
    }

    /// A machine in its initial state: the glyphs in low memory, all else
    /// zero, the program counter at the start address.
    pub fn new() -> (e: Emu)
        ensures
            e.wf(),
            e@ == initial(),
    {
        let mut ram = [0u8; RAM_SIZE];
        let font = fontset();
        let mut k: usize = 0;
        while k < FONTSET_SIZE
            invariant
                0 <= k <= FONTSET_SIZE,
                font@ == font_glyphs(),
                forall|a: int|
                    0 <= a < RAM_SIZE ==> #[trigger] ram@[a] == if a < k {
                        font_glyphs()[a]
                    } else {
                        0u8
                    },
            decreases FONTSET_SIZE - k,
        {
            ram[k] = font[k];
            k += 1;
        }
        let e = Emu {
            pc: START_ADDR,
            ram,
            screen: [false; SCREEN_SIZE],
            v_reg: [0u8; REG_COUNT],
            i_reg: 0,
            stack: Stack::new(),
            keys: [false; NUM_KEYS],
            dt: 0,
            st: 0,
        };
        assert(e@.ram =~= initial().ram);
        assert(e@.v =~= initial().v);
        assert(e@.screen =~= initial().screen);
        assert(e@.keys =~= initial().keys);
        e
    }

    /// Puts the machine back in its initial state.
    pub fn reset(&mut self)
        ensures
            final(self).wf(),
            final(self)@ == initial(),
    {
        *self = Emu::new();
    }

    /// Reads the big-endian word at the program counter and moves the counter
    /// past it.
    fn fetch(&mut self) -> (op: u16)
        requires
            old(self).wf(),
            old(self)@.pc + 1 < RAM_SIZE,
        ensures
            final(self).wf(),
            final(self)@ == old(self)@.jump((old(self)@.pc + 2) as u16),
            op == opcode_at(old(self)@.ram, old(self)@.pc as int),
    {
        let higher_byte = self.ram[self.pc as usize] as u16;
        let lower_byte = self.ram[self.pc as usize + 1] as u16;
        let op = higher_byte * 256 + lower_byte;
        self.pc = self.pc + 2;
        op
    }

    /// The register arithmetic and logic of family 8.
    fn execute_alu(&mut self, x: usize, y: usize, n: u16, op: u16) -> (r: Result<(), EmuError>)
        requires
            old(self).wf(),
            x < REG_COUNT,
            y < REG_COUNT,
        ensures
            final(self).wf(),
            outcome(old(self)@, final(self)@, r, alu(old(self)@, x as int, y as int, n, op)),
    {
        proof {
            reveal(alu);
        }
        let vx = self.v_reg[x];
        let vy = self.v_reg[y];
        if n == 0 {
            self.v_reg[x] = vy;
        } else if n == 1 {
            self.v_reg[x] = vx | vy;
        } else if n == 2 {
            self.v_reg[x] = vx & vy;
        } else if n == 3 {
            self.v_reg[x] = vx ^ vy;
        } else if n == 4 {
            self.v_reg[x] = vx.wrapping_add(vy);
            self.v_reg[FLAG_REG] = if vx as u16 + vy as u16 > 255 { 1 } else { 0 };
        } else if n == 5 {
            self.v_reg[x] = vx.wrapping_sub(vy);
            self.v_reg[FLAG_REG] = if vx < vy { 0 } else { 1 };
        } else if n == 6 {
            self.v_reg[x] = vx / 2;
            self.v_reg[FLAG_REG] = vx % 2;
        } else if n == 7 {
            self.v_reg[x] = vy.wrapping_sub(vx);
            self.v_reg[FLAG_REG] = if vy < vx { 0 } else { 1 };
        } else if n == 0xE {
            self.v_reg[x] = ((vx as u16 * 2) % 256) as u8;
            self.v_reg[FLAG_REG] = vx / 128;
        } else {
            return Err(EmuError::UnsupportedOpcode(op));
        }
        Ok(())
    }

    /// `Dxyn`: XORs the `n`-row sprite at `I` onto the framebuffer at
    /// `(V[x], V[y])`, wrapping every pixel around the edges, and sets VF to
    /// whether any pixel was turned off.
    fn draw_sprite(&mut self, x: usize, y: usize, n: u16) -> (r: Result<(), EmuError>)
        requires
            old(self).wf(),
            x < REG_COUNT,
            y < REG_COUNT,
            n < 16,
        ensures
            final(self).wf(),
            outcome(old(self)@, final(self)@, r, draw(old(self)@, x as int, y as int, n)),
    {
        proof {
            reveal(draw);
        }
        if self.i_reg as usize + n as usize > RAM_SIZE {
            return Err(EmuError::AddressOutOfRange);
        }
        let ghost pre = self@;
        let vx = self.v_reg[x];
        let vy = self.v_reg[y];
        let mut flipped = false;
        let mut row: u16 = 0;
        while row < n
            invariant
                pre == old(self)@,
                pre.wf(),
                self.stack_wf(),
                self@ == (Machine { screen: self@.screen, ..pre }),
                self@.screen.len() == SCREEN_SIZE,
                0 <= row <= n,
                n < 16,
                pre.i + n <= RAM_SIZE,
                x < REG_COUNT,
                y < REG_COUNT,
                vx == pre.v[x as int],
                vy == pre.v[y as int],
                forall|p: int|
                    0 <= p < SCREEN_SIZE ==> #[trigger] self@.screen[p] == (pre.screen[p]
                        != toggled_before(pre.ram, pre.i, vx, vy, n, p, row as int, 0)),
                flipped == exists|p: int|
                    0 <= p < SCREEN_SIZE && #[trigger] toggled_before(
                        pre.ram,
                        pre.i,
                        vx,
                        vy,
                        n,
                        p,
                        row as int,
                        0,
                    ) && pre.screen[p],
            decreases n - row,
        {
            let pixels = self.ram[self.i_reg as usize + row as usize];
            let mut col: u8 = 0;
            while col < 8
                invariant
                    pre == old(self)@,
                    pre.wf(),
                    self.stack_wf(),
                    self@ == (Machine { screen: self@.screen, ..pre }),
                    self@.screen.len() == SCREEN_SIZE,
                    0 <= row < n,
                    0 <= col <= 8,
                    n < 16,
                    pre.i + n <= RAM_SIZE,
                    pixels == pre.ram[pre.i + row],
                    x < REG_COUNT,
                    y < REG_COUNT,
                    vx == pre.v[x as int],
                    vy == pre.v[y as int],
                    forall|p: int|
                        0 <= p < SCREEN_SIZE ==> #[trigger] self@.screen[p] == (pre.screen[p]
                            != toggled_before(pre.ram, pre.i, vx, vy, n, p, row as int, col as int)),
                    flipped == exists|p: int|
                        0 <= p < SCREEN_SIZE && #[trigger] toggled_before(
                            pre.ram,
                            pre.i,
                            vx,
                            vy,
                            n,
                            p,
                            row as int,
                            col as int,
                        ) && pre.screen[p],
                decreases 8 - col,
            {
                let ghost before = self@.screen;
                let ghost was_flipped = flipped;
                let px = (vx as usize + col as usize) % SCREEN_WIDTH;
                let py = (vy as usize + row as usize) % SCREEN_HEIGHT;
                let idx = px + SCREEN_WIDTH * py;
                proof {
                    lemma_pixel_index(vx, vy, row as int, col as int, idx as int);
                }
                if (pixels >> (7 - col)) & 1 == 1 {
                    assert(covers(pre.ram, pre.i, vx, vy, n, idx as int));
                    flipped = flipped || self.screen[idx];
                    self.screen[idx] = !self.screen[idx];
                } else {
                    assert(!covers(pre.ram, pre.i, vx, vy, n, idx as int));
                }
                assert forall|p: int| 0 <= p < SCREEN_SIZE implies #[trigger] self@.screen[p] == (
                pre.screen[p] != toggled_before(
                    pre.ram,
                    pre.i,
                    vx,
                    vy,
                    n,
                    p,
                    row as int,
                    col + 1,
                )) by {
                    if p != idx {
                        assert(toggled_before(pre.ram, pre.i, vx, vy, n, p, row as int, col + 1)
                            == toggled_before(pre.ram, pre.i, vx, vy, n, p, row as int, col as int));
                    }
                }
                assert(flipped == exists|p: int|
                    0 <= p < SCREEN_SIZE && #[trigger] toggled_before(
                        pre.ram,
                        pre.i,
                        vx,
                        vy,
                        n,
                        p,
                        row as int,
                        col + 1,
                    ) && pre.screen[p]) by {
                    if flipped {
                        if was_flipped {
                            let w = choose|p: int|
                                0 <= p < SCREEN_SIZE && #[trigger] toggled_before(
                                    pre.ram,
                                    pre.i,
                                    vx,
                                    vy,
                                    n,
                                    p,
                                    row as int,
                                    col as int,
                                ) && pre.screen[p];
                            assert(toggled_before(pre.ram, pre.i, vx, vy, n, w, row as int, col + 1));
                        } else {
                            assert(toggled_before(
                                pre.ram,
                                pre.i,
                                vx,
                                vy,
                                n,
                                idx as int,
                                row as int,
                                col + 1,
                            ));
                        }
                    } else {
                        assert forall|p: int|
                            0 <= p < SCREEN_SIZE && #[trigger] toggled_before(
                                pre.ram,
                                pre.i,
                                vx,
                                vy,
                                n,
                                p,
                                row as int,
                                col + 1,
                            ) implies !pre.screen[p] by {
                            if p != idx {
                                assert(toggled_before(
                                    pre.ram,
                                    pre.i,
                                    vx,
                                    vy,
                                    n,
                                    p,
                                    row as int,
                                    col as int,
                                ));
                            }
                        }
                    }
                }
                col += 1;
            }
            proof {
                assert forall|p: int|
                    0 <= p < SCREEN_SIZE implies toggled_before(
                    pre.ram,
                    pre.i,
                    vx,
                    vy,
                    n,
                    p,
                    row as int,
                    8,
                ) == toggled_before(pre.ram, pre.i, vx, vy, n, p, row + 1, 0) by {}
                if flipped {
                    let w = choose|p: int|
                        0 <= p < SCREEN_SIZE && #[trigger] toggled_before(
                            pre.ram,
                            pre.i,
                            vx,
                            vy,
                            n,
                            p,
                            row as int,
                            8,
                        ) && pre.screen[p];
                    assert(toggled_before(pre.ram, pre.i, vx, vy, n, w, row + 1, 0));
                } else {
                    assert forall|p: int|
                        0 <= p < SCREEN_SIZE && #[trigger] toggled_before(
                            pre.ram,
                            pre.i,
                            vx,
                            vy,
                            n,
                            p,
                            row + 1,
                            0,
                        ) implies !pre.screen[p] by {
                        assert(toggled_before(pre.ram, pre.i, vx, vy, n, p, row as int, 8));
                    }
                }
            }
            row += 1;
        }
        assert forall|p: int| 0 <= p < SCREEN_SIZE implies toggled_before(
            pre.ram,
            pre.i,
            vx,
            vy,
            n,
            p,
            n as int,
            0,
        ) == covers(pre.ram, pre.i, vx, vy, n, p) by {}
        assert(self@.screen =~= drawn(pre.screen, pre.ram, pre.i, vx, vy, n));
        assert(flipped == collides(pre.screen, pre.ram, pre.i, vx, vy, n));
        self.v_reg[FLAG_REG] = if flipped { 1 } else { 0 };
        Ok(())
    }

    /// `Ex9E` and `ExA1`: skips the next instruction when key `V[x]` is, or
    /// is not, pressed.
    fn execute_key(&mut self, x: usize, nn: u8, op: u16) -> (r: Result<(), EmuError>)
        requires
            old(self).wf(),
            x < REG_COUNT,
            old(self)@.pc + 2 <= u16::MAX,
        ensures
            final(self).wf(),
            outcome(old(self)@, final(self)@, r, key_op(old(self)@, x as int, nn, op)),
    {
        proof {
            reveal(key_op);
        }
        if nn != 0x9E && nn != 0xA1 {
            return Err(EmuError::UnsupportedOpcode(op));
        }
        let key = self.v_reg[x] as usize;
        if key >= NUM_KEYS {
            return Err(EmuError::KeyOutOfRange);
        }
        let pressed = self.keys[key];
        if (nn == 0x9E && pressed) || (nn == 0xA1 && !pressed) {
            self.pc = self.pc + 2;
        }
        Ok(())
    }

    /// The timer, key-wait, index and memory instructions of family F.
    fn execute_misc(&mut self, x: usize, nn: u8, op: u16) -> (r: Result<(), EmuError>)
        requires
            old(self).wf(),
            x < REG_COUNT,
            old(self)@.pc >= 2,
        ensures
            final(self).wf(),
            outcome(old(self)@, final(self)@, r, misc_op(old(self)@, x as int, nn, op)),
    {
        proof {
            reveal(misc_op);
        }
        let ghost pre = self@;
        let vx = self.v_reg[x];
        if nn == 0x07 {
            self.v_reg[x] = self.dt;
        } else if nn == 0x0A {
            let mut k: usize = 0;
            while k < NUM_KEYS
                invariant
                    self@ == pre,
                    pre == old(self)@,
                    pre.wf(),
                    self.stack_wf(),
                    x < REG_COUNT,
                    nn == 0x0A,
                    0 <= k <= NUM_KEYS,
                    forall|j: int| 0 <= j < k ==> !pre.keys[j],
                decreases NUM_KEYS - k,
            {
                if self.keys[k] {
                    proof {
                        reveal(misc_op);
                        lemma_lowest_pressed(pre.keys, k as int);
                    }
                    self.v_reg[x] = k as u8;
                    return Ok(());
                }
                k += 1;
            }
            assert(!any_pressed(pre.keys));
            self.pc = self.pc - 2;
        } else if nn == 0x15 {
            self.dt = vx;
        } else if nn == 0x18 {
            self.st = vx;
        } else if nn == 0x1E {
            self.i_reg = self.i_reg.wrapping_add(vx as u16);
        } else if nn == 0x29 {
            self.i_reg = vx as u16 * 5;
        } else if nn == 0x33 {
            if self.i_reg as usize + 3 > RAM_SIZE {
                return Err(EmuError::AddressOutOfRange);
            }
            let i = self.i_reg as usize;
            self.ram[i] = vx / 100;
            self.ram[i + 1] = (vx / 10) % 10;
            self.ram[i + 2] = vx % 10;
        } else if nn == 0x55 {
            if self.i_reg as usize + x + 1 > RAM_SIZE {
                return Err(EmuError::AddressOutOfRange);
            }
            let i = self.i_reg as usize;
            let mut k: usize = 0;
            while k <= x
                invariant
                    self@ == (Machine { ram: self@.ram, ..pre }),
                    pre == old(self)@,
                    pre.wf(),
                    self.stack_wf(),
                    x < REG_COUNT,
                    i == pre.i,
                    i + x + 1 <= RAM_SIZE,
                    0 <= k <= x + 1,
                    self@.ram =~= Seq::new(
                        RAM_SIZE as nat,
                        |a: int| if i <= a < i + k { pre.v[a - i] } else { pre.ram[a] },
                    ),
                decreases x + 1 - k,
            {
                self.ram[i + k] = self.v_reg[k];
                k += 1;
            }
            assert(self@.ram =~= store_regs(pre, x as int));
        } else if nn == 0x65 {
            if self.i_reg as usize + x + 1 > RAM_SIZE {
                return Err(EmuError::AddressOutOfRange);
            }
            let i = self.i_reg as usize;
            let mut k: usize = 0;
            while k <= x
                invariant
                    self@ == (Machine { v: self@.v, ..pre }),
                    pre == old(self)@,
                    pre.wf(),
                    self.stack_wf(),
                    x < REG_COUNT,
                    i == pre.i,
                    i + x + 1 <= RAM_SIZE,
                    0 <= k <= x + 1,
                    self@.v =~= Seq::new(
                        REG_COUNT as nat,
                        |j: int| if j < k { pre.ram[i + j] } else { pre.v[j] },
                    ),
                decreases x + 1 - k,
            {
                self.v_reg[k] = self.ram[i + k];
                k += 1;
            }
            assert(self@.v =~= load_regs(pre, x as int));
        } else {
            return Err(EmuError::UnsupportedOpcode(op));
        }
        Ok(())
    }

    /// Executes `op`, the program counter having already moved past it; `rnd`
    /// is the random byte that `Cxnn` masks.
    fn execute(&mut self, op: u16, rnd: u8) -> (r: Result<(), EmuError>)
        requires
            old(self).wf(),
            2 <= old(self)@.pc <= RAM_SIZE,
        ensures
            final(self).wf(),
            outcome(old(self)@, final(self)@, r, execute_op(old(self)@, op, rnd)),
    {
        let family = op / 4096;
        let x = ((op / 256) % 16) as usize;
        let y = ((op / 16) % 16) as usize;
        let n = op % 16;
        let nn = (op % 256) as u8;
        let nnn = op % 4096;
        if family == 0 {
            if op == 0x00E0 {
                self.screen = [false; SCREEN_SIZE];
                assert(self@.screen =~= Seq::new(SCREEN_SIZE as nat, |p: int| false));
            } else if op == 0x00EE {
                match self.stack.pop() {
                    Ok(addr) => {
                        self.pc = addr;
                    },
                    Err(e) => {
                        return Err(e);
                    },
                }
            } else {
                return Err(EmuError::UnsupportedOpcode(op));
            }
            Ok(())
        } else if family == 1 {
            self.pc = nnn;
            Ok(())
        } else if family == 2 {
            match self.stack.push(self.pc) {
                Ok(()) => {
                    self.pc = nnn;
                    Ok(())
                },
                Err(e) => Err(e),
            }
        } else if family == 3 {
            if self.v_reg[x] == nn {
                self.pc = self.pc + 2;
            }
            Ok(())
        } else if family == 4 {
            if self.v_reg[x] != nn {
                self.pc = self.pc + 2;
            }
            Ok(())
        } else if family == 5 {
            if n != 0 {
                return Err(EmuError::UnsupportedOpcode(op));
            }
            if self.v_reg[x] == self.v_reg[y] {
                self.pc = self.pc + 2;
            }
            Ok(())
        } else if family == 6 {
            self.v_reg[x] = nn;
            Ok(())
        } else if family == 7 {
            self.v_reg[x] = self.v_reg[x].wrapping_add(nn);
            Ok(())
        } else if family == 8 {
            self.execute_alu(x, y, n, op)
        } else if family == 9 {
            if n != 0 {
                return Err(EmuError::UnsupportedOpcode(op));
            }
            if self.v_reg[x] != self.v_reg[y] {
                self.pc = self.pc + 2;
            }
            Ok(())
        } else if family == 0xA {
            self.i_reg = nnn;
            Ok(())
        } else if family == 0xB {
            self.pc = self.v_reg[0] as u16 + nnn;
            Ok(())
        } else if family == 0xC {
            self.v_reg[x] = rnd & nn;
            Ok(())
        } else if family == 0xD {
            self.draw_sprite(x, y, n)
        } else if family == 0xE {
            self.execute_key(x, nn, op)
        } else {
            self.execute_misc(x, nn, op)
        }
    }

    /// One fetch-decode-execute cycle, with `rnd` as the random byte for
    /// `Cxnn`. On an error the machine is left exactly as it was.
    pub fn tick_with_random(&mut self, rnd: u8) -> (r: Result<(), EmuError>)
        requires
            old(self).wf(),
        ensures
            final(self).wf(),
            outcome(old(self)@, final(self)@, r, step(old(self)@, rnd)),
    {
        if self.pc as usize + 1 >= RAM_SIZE {
            return Err(EmuError::AddressOutOfRange);
        }
        let start = self.pc;
        let op = self.fetch();
        let r = self.execute(op, rnd);
        if r.is_err() {
            self.pc = start;
        }
        r
    }

    /// One fetch-decode-execute cycle, drawing the random byte for `Cxnn`
    /// from the process-wide generator. On an error the machine is left
    /// exactly as it was.
    pub fn tick(&mut self) -> (r: Result<(), EmuError>)
        requires
            old(self).wf(),
        ensures
            final(self).wf(),
            exists|rnd: u8| outcome(old(self)@, final(self)@, r, #[trigger] step(old(self)@, rnd)),
    {
        let rnd: u8 = rand::random::<u8>();
        self.tick_with_random(rnd)
    }

    /// One 60 Hz tick of the delay and sound timers; returns whether a beep
    /// should sound, which is when the sound timer runs out on this tick.
    pub fn tick_timers(&mut self) -> (beep: bool)
        requires
            old(self).wf(),
        ensures
            final(self).wf(),
            (final(self)@, beep) == tick_timers_spec(old(self)@),
    {
        let beep = self.st == 1;
        if self.dt > 0 {
            self.dt = self.dt - 1;
        }
        if self.st > 0 {
            self.st = self.st - 1;
        }
        beep
    }

    /// The framebuffer, row-major, `SCREEN_WIDTH` pixels to a row.
    pub fn get_display(&self) -> (d: &[bool])
        ensures
            d@ == self@.screen,
    {
        self.screen.as_slice()
    }

    /// Records that key `index` went down or up.
    pub fn keypress(&mut self, index: usize, pressed: bool)
        requires
            old(self).wf(),
            index < NUM_KEYS,
        ensures
            final(self).wf(),
            final(self)@ == (Machine { keys: old(self)@.keys.update(index as int, pressed), ..old(self)@ }),
    {
        self.keys[index] = pressed;
    }

    /// Copies a program image into memory from the start address on. An image
    /// longer than the program area is refused and memory is left untouched.
    pub fn load(&mut self, data: &[u8]) -> (r: Result<(), EmuError>)
        requires
            old(self).wf(),
        ensures
            final(self).wf(),
            outcome(old(self)@, final(self)@, r, load_rom(old(self)@, data@)),
    {
        if data.len() > RAM_SIZE - START_ADDR as usize {
            return Err(EmuError::RomTooLarge);
        }
        let ghost pre = self@;
        let start = START_ADDR as usize;
        let mut k: usize = 0;
        while k < data.len()
            invariant
                self@ == (Machine { ram: self@.ram, ..pre }),
                pre == old(self)@,
                pre.wf(),
                self.stack_wf(),
                start == START_ADDR,
                start + data@.len() <= RAM_SIZE,
                0 <= k <= data@.len(),
                self@.ram =~= Seq::new(
                    RAM_SIZE as nat,
                    |a: int| if start <= a < start + k { data@[a - start] } else { pre.ram[a] },
                ),
            decreases data@.len() - k,
        {
            self.ram[start + k] = data[k];
            k += 1;
        }
        assert(self@.ram =~= load_rom(pre, data@)->Ok_0.ram);
        Ok(())
    }

    /// The program counter.
    pub fn pc(&self) -> (r: u16)
        ensures
            r == self@.pc,
    {
        self.pc
    }

    /// The index register `I`.
    pub fn index(&self) -> (r: u16)
        ensures
            r == self@.i,
    {
        self.i_reg
    }

    /// General-purpose register `V[x]`.
    pub fn register(&self, x: usize) -> (r: u8)
        requires
            self.wf(),
            x < REG_COUNT,
        ensures
            r == self@.v[x as int],
    {
        self.v_reg[x]
    }

    /// The byte of memory at `addr`.
    pub fn memory(&self, addr: usize) -> (r: u8)
        requires
            self.wf(),
            addr < RAM_SIZE,
        ensures
            r == self@.ram[addr as int],
    {
        self.ram[addr]
    }

    /// The delay timer.
    pub fn delay_timer(&self) -> (r: u8)
        ensures
            r == self@.delay,
    {
        self.dt
    }

    /// The sound timer.
    pub fn sound_timer(&self) -> (r: u8)
        ensures
            r == self@.sound,
    {
        self.st
    }

    /// How many return addresses are on the call stack.
    pub fn stack_depth(&self) -> (r: usize)
        requires
            self.wf(),
        ensures
            r == self@.stack.len(),
    {
        self.stack.len()
    }
}

} // verus!

use vstd::prelude::*;

use crate::error::EmuError;
use crate::font::{font_glyphs, FONTSET_SIZE};
use crate::stack::STACK_SIZE;

verus! {

/// Bytes of addressable memory.
pub const RAM_SIZE: usize = 4096;
/// General-purpose registers V0 to VF.
pub const REG_COUNT: usize = 16;
/// Keys of the hexadecimal keypad.
pub const NUM_KEYS: usize = 16;
/// Width of the framebuffer in pixels.
pub const SCREEN_WIDTH: usize = 64;
/// Height of the framebuffer in pixels.
pub const SCREEN_HEIGHT: usize = 32;
/// Pixels of the framebuffer, stored row-major.
pub const SCREEN_SIZE: usize = 2048;
/// Where programs are loaded and where execution begins.
pub const START_ADDR: u16 = 0x200;
/// The register that doubles as carry, borrow and collision flag.
pub const FLAG_REG: usize = 15;

/// The whole state of the machine as mathematical values.
pub struct Machine {
    pub pc: u16,
    pub i: u16,
    pub v: Seq<u8>,
    pub ram: Seq<u8>,
    pub screen: Seq<bool>,
    pub stack: Seq<u16>,
    pub keys: Seq<bool>,
    pub delay: u8,
    pub sound: u8,
}

impl Machine {
    /// Every component has the size of the hardware it stands for.
    pub open spec fn wf(self) -> bool {
        &&& self.v.len() == REG_COUNT
        &&& self.ram.len() == RAM_SIZE
        &&& self.screen.len() == SCREEN_SIZE
        &&& self.keys.len() == NUM_KEYS
        &&& self.stack.len() <= STACK_SIZE
    }

    pub open spec fn set_reg(self, x: int, val: u8) -> Machine {
        Machine { v: self.v.update(x, val), ..self }
    }

    /// Writes `val` to `V[x]`, then `flag` to VF.
    pub open spec fn set_reg_flag(self, x: int, val: u8, flag: u8) -> Machine {
        Machine { v: self.v.update(x, val).update(FLAG_REG as int, flag), ..self }
    }

    pub open spec fn jump(self, target: u16) -> Machine {
        Machine { pc: target, ..self }
    }

    /// Passes over the next instruction when `cond` holds.
    pub open spec fn skip_if(self, cond: bool) -> Machine {
        if cond {
            self.jump((self.pc + 2) as u16)
        } else {
            self
        }
    }
}

/// The state after construction or reset: the glyphs at the bottom of memory,
/// everything else zero, the program counter at the start address.
pub open spec fn initial() -> Machine {
    Machine {
        pc: START_ADDR,
        i: 0,
        v: Seq::new(REG_COUNT as nat, |k: int| 0u8),
        ram: Seq::new(
            RAM_SIZE as nat,
            |a: int| if a < FONTSET_SIZE { font_glyphs()[a] } else { 0u8 },
        ),
        screen: Seq::new(SCREEN_SIZE as nat, |p: int| false),
        stack: Seq::empty(),
        keys: Seq::new(NUM_KEYS as nat, |k: int| false),
        delay: 0,
        sound: 0,
    }
}

/// Highest nibble of an instruction word: the instruction family.
pub open spec fn nib1(op: u16) -> u16 {
    op / 4096
}

/// Second nibble: the register index `x`.
pub open spec fn nib2(op: u16) -> u16 {
    (op / 256) % 16
}

/// Third nibble: the register index `y`.
pub open spec fn nib3(op: u16) -> u16 {
    (op / 16) % 16
}

/// Lowest nibble: the small immediate `n`.
pub open spec fn nib4(op: u16) -> u16 {
    op % 16
}

/// Low byte: the immediate `nn`.
pub open spec fn low_byte(op: u16) -> u8 {
    (op % 256) as u8
}

/// Low twelve bits: the address `nnn`.
pub open spec fn addr12(op: u16) -> u16 {
    op % 4096
}

/// The big-endian instruction word at `addr` and `addr + 1`.
pub open spec fn opcode_at(ram: Seq<u8>, addr: int) -> u16 {
    (ram[addr] as int * 256 + ram[addr + 1] as int) as u16
}

/// Whether column `col` (0 leftmost) of a sprite row is set.
pub open spec fn sprite_bit(row_byte: u8, col: u8) -> bool {
    (row_byte >> (7 - col) as u8) & 1u8 == 1u8
}

/// Which sprite column lands on screen column `px` for an origin at column `vx`.
pub open spec fn sprite_col(px: int, vx: u8) -> int {
    (px - vx) % (SCREEN_WIDTH as int)
}

/// Which sprite row lands on screen row `py` for an origin at row `vy`.
pub open spec fn sprite_row(py: int, vy: u8) -> int {
    (py - vy) % (SCREEN_HEIGHT as int)
}

/// Whether pixel `p` is toggled by the `n`-row sprite at `i`, drawn with its
/// origin at `(vx, vy)` and every pixel wrapped around both edges.
pub open spec fn covers(ram: Seq<u8>, i: u16, vx: u8, vy: u8, n: u16, p: int) -> bool {
    let col = sprite_col(p % (SCREEN_WIDTH as int), vx);
    let row = sprite_row(p / (SCREEN_WIDTH as int), vy);
    &&& row < n
    &&& col < 8
    &&& sprite_bit(ram[i + row], col as u8)
}

/// The framebuffer after XOR-ing the sprite onto it.
pub open spec fn drawn(screen: Seq<bool>, ram: Seq<u8>, i: u16, vx: u8, vy: u8, n: u16) -> Seq<bool> {
    Seq::new(screen.len(), |p: int| screen[p] != covers(ram, i, vx, vy, n, p))
}

/// Whether the sprite turns off a pixel that was on.
pub open spec fn collides(screen: Seq<bool>, ram: Seq<u8>, i: u16, vx: u8, vy: u8, n: u16) -> bool {
    exists|p: int| 0 <= p < screen.len() && #[trigger] covers(ram, i, vx, vy, n, p) && screen[p]
}

/// `Dxyn`: the sprite of `n` rows at `I`, drawn at `(V[x], V[y])`; VF tells
/// whether any pixel was turned off.
#[verifier::opaque]
pub open spec fn draw(m: Machine, x: int, y: int, n: u16) -> Result<Machine, EmuError> {
    if m.i + n > RAM_SIZE {
        Err(EmuError::AddressOutOfRange)
    } else {
        let vx = m.v[x];
        let vy = m.v[y];
        Ok(Machine {
            screen: drawn(m.screen, m.ram, m.i, vx, vy, n),
            v: m.v.update(
                FLAG_REG as int,
                if collides(m.screen, m.ram, m.i, vx, vy, n) { 1u8 } else { 0u8 },
            ),
            ..m
        })
    }
}

/// The register arithmetic and logic of family 8, selected by `n`.
#[verifier::opaque]
pub open spec fn alu(m: Machine, x: int, y: int, n: u16, op: u16) -> Result<Machine, EmuError> {
    let vx = m.v[x];
    let vy = m.v[y];
    if n == 0 {
        Ok(m.set_reg(x, vy))
    } else if n == 1 {
        Ok(m.set_reg(x, vx | vy))
    } else if n == 2 {
        Ok(m.set_reg(x, vx & vy))
    } else if n == 3 {
        Ok(m.set_reg(x, vx ^ vy))
    } else if n == 4 {
        Ok(m.set_reg_flag(x, ((vx + vy) % 256) as u8, if vx + vy > 255 { 1 } else { 0 }))
    } else if n == 5 {
        Ok(m.set_reg_flag(x, ((vx - vy + 256) % 256) as u8, if vx < vy { 0 } else { 1 }))
    } else if n == 6 {
        Ok(m.set_reg_flag(x, vx / 2, vx % 2))
    } else if n == 7 {
        Ok(m.set_reg_flag(x, ((vy - vx + 256) % 256) as u8, if vy < vx { 0 } else { 1 }))
    } else if n == 0xE {
        Ok(m.set_reg_flag(x, ((vx * 2) % 256) as u8, vx / 128))
    } else {
        Err(EmuError::UnsupportedOpcode(op))
    }
}

/// Key `k` is pressed and no key below it is.
pub open spec fn is_lowest_pressed(keys: Seq<bool>, k: int) -> bool {
    &&& 0 <= k < NUM_KEYS
    &&& keys[k]
    &&& forall|j: int| 0 <= j < k ==> !keys[j]
}

pub open spec fn any_pressed(keys: Seq<bool>) -> bool {
    exists|k: int| 0 <= k < NUM_KEYS && keys[k]
}

/// The lowest-indexed pressed key, where one is pressed.
pub open spec fn lowest_pressed(keys: Seq<bool>) -> int {
    choose|k: int| is_lowest_pressed(keys, k)
}

/// The key instructions of family E, selected by `nn`.
#[verifier::opaque]
pub open spec fn key_op(m: Machine, x: int, nn: u8, op: u16) -> Result<Machine, EmuError> {
    if nn != 0x9E && nn != 0xA1 {
        Err(EmuError::UnsupportedOpcode(op))
    } else if m.v[x] >= NUM_KEYS {
        Err(EmuError::KeyOutOfRange)
    } else if nn == 0x9E {
        Ok(m.skip_if(m.keys[m.v[x] as int]))
    } else {
        Ok(m.skip_if(!m.keys[m.v[x] as int]))
    }
}

/// `Fx55`: memory from `I` to `I + x` takes `V[0]` to `V[x]`.
pub open spec fn store_regs(m: Machine, x: int) -> Seq<u8> {
    Seq::new(m.ram.len(), |a: int| if m.i <= a <= m.i + x { m.v[a - m.i] } else { m.ram[a] })
}

/// `Fx65`: `V[0]` to `V[x]` take memory from `I` to `I + x`.
pub open spec fn load_regs(m: Machine, x: int) -> Seq<u8> {
    Seq::new(m.v.len(), |k: int| if k <= x { m.ram[m.i + k] } else { m.v[k] })
}

/// The timer, key, index and memory instructions of family F, selected by `nn`.
#[verifier::opaque]
pub open spec fn misc_op(m: Machine, x: int, nn: u8, op: u16) -> Result<Machine, EmuError> {
    let vx = m.v[x];
    if nn == 0x07 {
        Ok(m.set_reg(x, m.delay))
    } else if nn == 0x0A {
        if any_pressed(m.keys) {
            Ok(m.set_reg(x, lowest_pressed(m.keys) as u8))
        } else {
            Ok(m.jump((m.pc - 2) as u16))
        }
    } else if nn == 0x15 {
        Ok(Machine { delay: vx, ..m })
    } else if nn == 0x18 {
        Ok(Machine { sound: vx, ..m })
    } else if nn == 0x1E {
        Ok(Machine { i: ((m.i + vx) % 0x10000) as u16, ..m })
    } else if nn == 0x29 {
        Ok(Machine { i: (vx * 5) as u16, ..m })
    } else if nn == 0x33 {
        if m.i + 3 > RAM_SIZE {
            Err(EmuError::AddressOutOfRange)
        } else {
            Ok(Machine {
                ram: m.ram.update(m.i as int, vx / 100).update(m.i + 1, (vx / 10) % 10).update(
                    m.i + 2,
                    vx % 10,
                ),
                ..m
            })
        }
    } else if nn == 0x55 {
        if m.i + x + 1 > RAM_SIZE {
            Err(EmuError::AddressOutOfRange)
        } else {
            Ok(Machine { ram: store_regs(m, x), ..m })
        }
    } else if nn == 0x65 {
        if m.i + x + 1 > RAM_SIZE {
            Err(EmuError::AddressOutOfRange)
        } else {
            Ok(Machine { v: load_regs(m, x), ..m })
        }
    } else {
        Err(EmuError::UnsupportedOpcode(op))
    }
}

/// What executing `op` does to a machine whose program counter has already
/// moved past it; `rnd` is the random byte that `Cxnn` uses.
pub open spec fn execute_op(m: Machine, op: u16, rnd: u8) -> Result<Machine, EmuError> {
    let x = nib2(op) as int;
    let y = nib3(op) as int;
    let n = nib4(op);
    let nn = low_byte(op);
    let nnn = addr12(op);
    let family = nib1(op);
    if family == 0 {
        if op == 0x00E0 {
            Ok(Machine { screen: Seq::new(SCREEN_SIZE as nat, |p: int| false), ..m })
        } else if op == 0x00EE {
            if m.stack.len() == 0 {
                Err(EmuError::StackUnderflow)
            } else {
                Ok(Machine { pc: m.stack.last(), stack: m.stack.drop_last(), ..m })
            }
        } else {
            Err(EmuError::UnsupportedOpcode(op))
        }
    } else if family == 1 {
        Ok(m.jump(nnn))
    } else if family == 2 {
        if m.stack.len() >= STACK_SIZE {
            Err(EmuError::StackOverflow)
        } else {
            Ok(Machine { pc: nnn, stack: m.stack.push(m.pc), ..m })
        }
    } else if family == 3 {
        Ok(m.skip_if(m.v[x] == nn))
    } else if family == 4 {
        Ok(m.skip_if(m.v[x] != nn))
    } else if family == 5 {
        if n == 0 {
            Ok(m.skip_if(m.v[x] == m.v[y]))
        } else {
            Err(EmuError::UnsupportedOpcode(op))
        }
    } else if family == 6 {
        Ok(m.set_reg(x, nn))
    } else if family == 7 {
        Ok(m.set_reg(x, ((m.v[x] + nn) % 256) as u8))
    } else if family == 8 {
        alu(m, x, y, n, op)
    } else if family == 9 {
        if n == 0 {
            Ok(m.skip_if(m.v[x] != m.v[y]))
        } else {
            Err(EmuError::UnsupportedOpcode(op))
        }
    } else if family == 0xA {
        Ok(Machine { i: nnn, ..m })
    } else if family == 0xB {
        Ok(m.jump((m.v[0] + nnn) as u16))
    } else if family == 0xC {
        Ok(m.set_reg(x, rnd & nn))
    } else if family == 0xD {
        draw(m, x, y, n)
    } else if family == 0xE {
        key_op(m, x, nn, op)
    } else {
        misc_op(m, x, nn, op)
    }
}

/// One fetch-decode-execute cycle: the word at the program counter is read,
/// the counter moves past it, and the word is executed.
pub open spec fn step(m: Machine, rnd: u8) -> Result<Machine, EmuError> {
    if m.pc + 1 >= RAM_SIZE {
        Err(EmuError::AddressOutOfRange)
    } else {
        execute_op(m.jump((m.pc + 2) as u16), opcode_at(m.ram, m.pc as int), rnd)
    }
}

/// An operation that ends in `expected` took the machine from `pre` to
/// `post` and reported `r`: on success the new state is the expected one, on
/// failure the error is the expected one and nothing changed.
pub open spec fn outcome(
    pre: Machine,
    post: Machine,
    r: Result<(), EmuError>,
    expected: Result<Machine, EmuError>,
) -> bool {
    match expected {
        Ok(m) => r is Ok && post == m,
        Err(e) => r == Err::<(), EmuError>(e) && post == pre,
    }
}

/// One 60 Hz timer tick: both timers count down to zero and stop there; the
/// result tells whether the sound timer ran out on this tick.
pub open spec fn tick_timers_spec(m: Machine) -> (Machine, bool) {
    (
        Machine {
            delay: if m.delay > 0 { (m.delay - 1) as u8 } else { 0 },
            sound: if m.sound > 0 { (m.sound - 1) as u8 } else { 0 },
            ..m
        },
        m.sound == 1,
    )
}

/// The program area: from the start address to the end of memory.
pub open spec fn max_rom_len() -> int {
    RAM_SIZE - START_ADDR
}

/// A program image copied to memory from the start address on; one that does
/// not fit is refused.
pub open spec fn load_rom(m: Machine, rom: Seq<u8>) -> Result<Machine, EmuError> {
    if rom.len() > max_rom_len() {
        Err(EmuError::RomTooLarge)
    } else {
        Ok(
            Machine {
                ram: Seq::new(
                    m.ram.len(),
                    |a: int|
                        if START_ADDR <= a < START_ADDR + rom.len() {
                            rom[a - START_ADDR]
                        } else {
                            m.ram[a]
                        },
                ),
                ..m
            },
        )
    }
}

} // verus!

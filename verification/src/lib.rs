//! An instruction-level emulator for a small fixed-instruction-set virtual
//! machine: 16 general 8-bit registers, 4096 bytes of memory, a 16-level call
//! stack, two countdown timers, a 64x32 monochrome framebuffer and a 16-key
//! input panel. Each call of `tick` executes exactly one instruction; its
//! whole effect is pinned down by the step specification in `model`.

pub mod laws;
pub mod model;
pub mod stack;

use vstd::prelude::*;

use crate::model::EmuError;
use crate::model::EmuView;
use crate::model::StepRes;
use crate::stack::Stack;

verus! {

pub const NUM_KEYS: usize = 16;
pub const NUM_REGS: usize = 16;
pub const RAM_SIZE: usize = 4096;
pub const STACK_SIZE: usize = 16;

pub const START_ADDRESS: u16 = 0x200;

pub const SCREEN_X: usize = 64;
pub const SCREEN_Y: usize = 32;

/// Draws one byte from the global generator of the fastrand crate, for the
/// random-byte opcode. Relies on fastrand::u8 over the full range, of whose
/// result nothing can be promised.
#[verifier::external_body]
fn random_byte() -> u8 {
    fastrand::u8(..)
}

/// A vector of `n` copies of `val`.
fn filled_bytes(n: usize, val: u8) -> (r: Vec<u8>)
    ensures
        r@ == Seq::new(n as nat, |j: int| val),
{
    let mut r: Vec<u8> = Vec::new();
    let mut k: usize = 0;
    while k < n
        invariant
            k <= n,
            r@.len() == k,
            forall|j: int| 0 <= j < k ==> r@[j] == val,
        decreases n - k,
    {
        r.push(val);
        k = k + 1;
    }
    assert(r@ =~= Seq::new(n as nat, |j: int| val));
    r
}

/// A vector of `n` copies of `val`.
fn filled_bools(n: usize, val: bool) -> (r: Vec<bool>)
    ensures
        r@ == Seq::new(n as nat, |j: int| val),
{
    let mut r: Vec<bool> = Vec::new();
    let mut k: usize = 0;
    while k < n
        invariant
            k <= n,
            r@.len() == k,
            forall|j: int| 0 <= j < k ==> r@[j] == val,
        decreases n - k,
    {
        r.push(val);
        k = k + 1;
    }
    assert(r@ =~= Seq::new(n as nat, |j: int| val));
    r
}

/// The 80 bytes of the built-in font, exactly the `font_seq` of the model.
fn font_vec() -> (r: Vec<u8>)
    ensures
        r@ == crate::model::font_seq(),
        r@.len() == 80,
{
    let mut f: Vec<u8> = Vec::new();
    f.push(0xF0);
    f.push(0x90);
    f.push(0x90);
    f.push(0x90);
    f.push(0xF0);
    f.push(0x20);
    f.push(0x60);
    f.push(0x20);
    f.push(0x20);
    f.push(0x70);
    f.push(0xF0);
    f.push(0x10);
    f.push(0xF0);
    f.push(0x80);
    f.push(0xF0);
    f.push(0xF0);
    f.push(0x10);
    f.push(0xF0);
    f.push(0x10);
    f.push(0xF0);
    f.push(0x90);
    f.push(0x90);
    f.push(0xF0);
    f.push(0x10);
    f.push(0x10);
    f.push(0xF0);
    f.push(0x80);
    f.push(0xF0);
    f.push(0x10);
    f.push(0xF0);
    f.push(0xF0);
    f.push(0x80);
    f.push(0xF0);
    f.push(0x90);
    f.push(0xF0);
    f.push(0xF0);
    f.push(0x10);
    f.push(0x20);
    f.push(0x40);
    f.push(0x40);
    f.push(0xF0);
    f.push(0x90);
    f.push(0xF0);
    f.push(0x90);
    f.push(0xF0);
    f.push(0xF0);
    f.push(0x90);
    f.push(0xF0);
    f.push(0x10);
    f.push(0xF0);
    f.push(0xF0);
    f.push(0x90);
    f.push(0xF0);
    f.push(0x90);
    f.push(0x90);
    f.push(0xE0);
    f.push(0x90);
    f.push(0xE0);
    f.push(0x90);
    f.push(0xE0);
    f.push(0xF0);
    f.push(0x80);
    f.push(0x80);
    f.push(0x80);
    f.push(0xF0);
    f.push(0xE0);
    f.push(0x90);
    f.push(0x90);
    f.push(0x90);
    f.push(0xE0);
    f.push(0xF0);
    f.push(0x80);
    f.push(0xF0);
    f.push(0x80);
    f.push(0xF0);
    f.push(0xF0);
    f.push(0x80);
    f.push(0xF0);
    f.push(0x80);
    f.push(0x80);
    proof {
        assert(f@ =~= crate::model::font_seq());
    }
    f
}

/// The machine: all registers, memory, the framebuffer, the timers, the key
/// panel and the call stack. One instance is owned by its host for the whole
/// run; it performs no I/O and schedules nothing itself.
pub struct Emulator {
    pub pc: u16,
    pub stack: Stack,
    pub ram: Vec<u8>,
    pub v: Vec<u8>,
    pub i: u16,
    pub dt: u8,
    pub st: u8,
    pub keys: Vec<bool>,
    pub screen: Vec<bool>,
}

impl View for Emulator {
    type V = EmuView;

    open spec fn view(&self) -> EmuView {
        EmuView {
            pc: self.pc,
            stack: self.stack@,
            ram: self.ram@,
            v: self.v@,
            i: self.i,
            dt: self.dt,
            st: self.st,
            keys: self.keys@,
            screen: self.screen@,
        }
    }
}

impl Emulator {
    /// The machine keeps its declared sizes through every operation.
    pub open spec fn wf(self) -> bool {
        self@.wf()
    }

    /// A freshly initialized machine: font in the first 80 bytes of memory,
    /// program counter at the start address, all else zeroed.
    pub fn new() -> (r: Emulator)
        ensures
            r.wf(),
            r@ == crate::model::initial_view(),
    {
        let mut ram = filled_bytes(RAM_SIZE, 0);
        let font = font_vec();
        let mut k: usize = 0;
        while k < 80
            invariant
                k <= 80,
                ram@.len() == RAM_SIZE,
                font@ == crate::model::font_seq(),
                forall|j: int| 0 <= j < k ==> ram@[j] == font@[j],
                forall|j: int| k <= j < RAM_SIZE ==> ram@[j] == 0u8,
            decreases 80 - k,
        {
            let b = font[k];
            ram[k] = b;
            k = k + 1;
        }
        let r = Emulator {
            pc: START_ADDRESS,
            stack: Stack::new(),
            ram,
            v: filled_bytes(NUM_REGS, 0),
            i: 0,
            dt: 0,
            st: 0,
            keys: filled_bools(NUM_KEYS, false),
            screen: filled_bools(SCREEN_X * SCREEN_Y, false),
        };
        proof {
            assert(r@.ram =~= crate::model::initial_ram());
            assert(r@ =~= crate::model::initial_view());
        }
        r
    }

    /// Copies a program image into memory at the start address; an image
    /// longer than the memory left from there is rejected whole.
    pub fn load_rom(&mut self, data: &[u8]) -> (r: Result<(), EmuError>)
        requires
            old(self).wf(),
        ensures
            final(self).wf(),
            match r {
                Ok(()) => data@.len() <= RAM_SIZE - START_ADDRESS && final(self)@ == (EmuView {
                    ram: crate::model::load_ram(old(self)@.ram, data@),
                    ..old(self)@
                }),
                Err(e) => e == EmuError::RomTooLarge && data@.len() > RAM_SIZE - START_ADDRESS
                    && final(self)@ == old(self)@,
            },
    {
        let start = START_ADDRESS as usize;
        if data.len() > RAM_SIZE - start {
            return Err(EmuError::RomTooLarge);
        }
        let mut k: usize = 0;
        while k < data.len()
            invariant
                old(self).wf(),
                start == 0x200,
                k <= data@.len(),
                data@.len() <= RAM_SIZE - 0x200,
                self@ == (EmuView { ram: self@.ram, ..old(self)@ }),
                self@.ram.len() == RAM_SIZE,
                forall|j: int|
                    0x200 <= j < 0x200 + k ==> self@.ram[j] == data@[j - 0x200],
                forall|j: int|
                    0 <= j < RAM_SIZE && !(0x200 <= j < 0x200 + k) ==> self@.ram[j] == old(self)@.ram[j],
            decreases data@.len() - k,
        {
            let b = data[k];
            self.ram[start + k] = b;
            k = k + 1;
        }
        proof {
            assert(self@.ram =~= crate::model::load_ram(old(self)@.ram, data@));
            assert(self@ =~= (EmuView {
                ram: crate::model::load_ram(old(self)@.ram, data@),
                ..old(self)@
            }));
        }
        Ok(())
    }

    /// Records one key of the 16-key panel as pressed or released.
    pub fn input(&mut self, key_idx: usize, pressed: bool)
        requires
            old(self).wf(),
            key_idx < NUM_KEYS,
        ensures
            final(self).wf(),
            final(self)@ == (EmuView {
                keys: old(self)@.keys.update(key_idx as int, pressed),
                ..old(self)@
            }),
    {
        self.keys[key_idx] = pressed;
    }

    /// Records a key as pressed.
    pub fn key_down(&mut self, key_idx: usize)
        requires
            old(self).wf(),
            key_idx < NUM_KEYS,
        ensures
            final(self).wf(),
            final(self)@ == (EmuView {
                keys: old(self)@.keys.update(key_idx as int, true),
                ..old(self)@
            }),
    {
        self.input(key_idx, true);
    }

    /// Records a key as released.
    pub fn key_up(&mut self, key_idx: usize)
        requires
            old(self).wf(),
            key_idx < NUM_KEYS,
        ensures
            final(self).wf(),
            final(self)@ == (EmuView {
                keys: old(self)@.keys.update(key_idx as int, false),
                ..old(self)@
            }),
    {
        self.input(key_idx, false);
    }

    /// Advances both countdown timers by one tick and says whether a beep is
    /// owed now: exactly on the tick that takes the sound timer through 1.
    pub fn tick_timers(&mut self) -> (r: bool)
        requires
            old(self).wf(),
        ensures
            final(self).wf(),
            final(self)@ == (EmuView {
                dt: crate::model::timer_after(old(self)@.dt),
                st: crate::model::timer_after(old(self)@.st),
                ..old(self)@
            }),
            r == crate::model::beep_now(old(self)@.st),
    {
        let mut should_beep: bool = false;

        if self.dt > 0 {
            self.dt = self.dt - 1;
        }

        if self.st > 0 {
            if self.st == 1 {
                should_beep = true;
            }
            self.st = self.st - 1;
        }

        proof {
            assert(self@ =~= (EmuView {
                dt: crate::model::timer_after(old(self)@.dt),
                st: crate::model::timer_after(old(self)@.st),
                ..old(self)@
            }));
        }
        should_beep
    }
}

impl Emulator {
    /// Clear framebuffer: every cell unlit.
    fn op_00e0(&mut self)
        requires
            old(self).wf(),
        ensures
            final(self).wf(),
            final(self)@ == crate::model::clear_screen(old(self)@),
    {
        self.screen = filled_bools(SCREEN_X * SCREEN_Y, false);
        proof {
            assert(self@.screen =~= crate::model::clear_screen(old(self)@).screen);
            assert(self@ =~= crate::model::clear_screen(old(self)@));
        }
    }

    /// Return from a subroutine.
    fn op_00ee(&mut self) -> (r: Result<(), EmuError>)
        requires
            old(self).wf(),
        ensures
            final(self).wf(),
            match r {
                Ok(()) => old(self)@.stack.len() > 0 && final(self)@ == crate::model::ret_state(
                    old(self)@,
                ),
                Err(e) => e == EmuError::StackUnderflow && old(self)@.stack.len() == 0 && final(self)@ == old(self)@,
            },
    {
        match self.stack.pop() {
            Ok(a) => {
                self.pc = a;
                proof {
                    assert(self@ =~= crate::model::ret_state(old(self)@));
                }
                Ok(())
            },
            Err(e) => {
                proof {
                    assert(self@ =~= old(self)@);
                }
                Err(e)
            },
        }
    }

    /// Unconditional jump.
    fn op_1nnn(&mut self, nnn: u16)
        requires
            old(self).wf(),
        ensures
            final(self).wf(),
            final(self)@ == crate::model::with_pc(old(self)@, nnn),
    {
        self.pc = nnn;
    }

    /// Call a subroutine: the current program counter becomes pending.
    fn op_2nnn(&mut self, nnn: u16) -> (r: Result<(), EmuError>)
        requires
            old(self).wf(),
        ensures
            final(self).wf(),
            match r {
                Ok(()) => old(self)@.stack.len() < STACK_SIZE && final(self)@
                    == crate::model::call_state(old(self)@, nnn),
                Err(e) => e == EmuError::StackOverflow && old(self)@.stack.len() == STACK_SIZE
                    && final(self)@ == old(self)@,
            },
    {
        let pc = self.pc;
        match self.stack.push(pc) {
            Ok(()) => {
                self.pc = nnn;
                proof {
                    assert(self@ =~= crate::model::call_state(old(self)@, nnn));
                }
                Ok(())
            },
            Err(e) => {
                proof {
                    assert(self@ =~= old(self)@);
                }
                Err(e)
            },
        }
    }

    /// Skip the next instruction when the condition holds.
    fn skip_next(&mut self, cond: bool)
        requires
            old(self).wf(),
            old(self)@.pc + 2 <= u16::MAX,
        ensures
            final(self).wf(),
            final(self)@ == crate::model::skip_if(old(self)@, cond),
    {
        if cond {
            self.pc = self.pc + 2;
        }
    }

    /// Skip if Vx == kk.
    fn op_3xkk(&mut self, vx: usize, kk: u8)
        requires
            old(self).wf(),
            vx < NUM_REGS,
            old(self)@.pc + 2 <= u16::MAX,
        ensures
            final(self).wf(),
            final(self)@ == crate::model::skip_if(old(self)@, old(self)@.v[vx as int] == kk),
    {
        let c = self.v[vx] == kk;
        self.skip_next(c);
    }

    /// Skip if Vx != kk.
    fn op_4xkk(&mut self, vx: usize, kk: u8)
        requires
            old(self).wf(),
            vx < NUM_REGS,
            old(self)@.pc + 2 <= u16::MAX,
        ensures
            final(self).wf(),
            final(self)@ == crate::model::skip_if(old(self)@, old(self)@.v[vx as int] != kk),
    {
        let c = self.v[vx] != kk;
        self.skip_next(c);
    }

    /// Skip if Vx == Vy.
    fn op_5xy0(&mut self, vx: usize, vy: usize)
        requires
            old(self).wf(),
            vx < NUM_REGS,
            vy < NUM_REGS,
            old(self)@.pc + 2 <= u16::MAX,
        ensures
            final(self).wf(),
            final(self)@ == crate::model::skip_if(
                old(self)@,
                old(self)@.v[vx as int] == old(self)@.v[vy as int],
            ),
    {
        let c = self.v[vx] == self.v[vy];
        self.skip_next(c);
    }

    /// Set Vx = kk.
    fn op_6xkk(&mut self, vx: usize, kk: u8)
        requires
            old(self).wf(),
            vx < NUM_REGS,
        ensures
            final(self).wf(),
            final(self)@ == crate::model::set_v(old(self)@, vx as int, kk),
    {
        self.v[vx] = kk;
    }

    /// Add Vx = Vx + kk with 8-bit wraparound and no flag effect.
    fn op_7xkk(&mut self, vx: usize, kk: u8)
        requires
            old(self).wf(),
            vx < NUM_REGS,
        ensures
            final(self).wf(),
            final(self)@ == crate::model::set_v(
                old(self)@,
                vx as int,
                ((old(self)@.v[vx as int] + kk) % 256) as u8,
            ),
    {
        let sum = self.v[vx] as u16 + kk as u16;
        self.v[vx] = (sum % 256) as u8;
    }

    /// Set Vx = Vy.
    fn op_8xy0(&mut self, vx: usize, vy: usize)
        requires
            old(self).wf(),
            vx < NUM_REGS,
            vy < NUM_REGS,
        ensures
            final(self).wf(),
            final(self)@ == crate::model::set_v(old(self)@, vx as int, old(self)@.v[vy as int]),
    {
        let val = self.v[vy];
        self.v[vx] = val;
    }

    /// Set Vx = Vx OR Vy.
    fn op_8xy1(&mut self, vx: usize, vy: usize)
        requires
            old(self).wf(),
            vx < NUM_REGS,
            vy < NUM_REGS,
        ensures
            final(self).wf(),
            final(self)@ == crate::model::set_v(
                old(self)@,
                vx as int,
                old(self)@.v[vx as int] | old(self)@.v[vy as int],
            ),
    {
        let val = self.v[vx] | self.v[vy];
        self.v[vx] = val;
    }

    /// Set Vx = Vx AND Vy.
    fn op_8xy2(&mut self, vx: usize, vy: usize)
        requires
            old(self).wf(),
            vx < NUM_REGS,
            vy < NUM_REGS,
        ensures
            final(self).wf(),
            final(self)@ == crate::model::set_v(
                old(self)@,
                vx as int,
                old(self)@.v[vx as int] & old(self)@.v[vy as int],
            ),
    {
        let val = self.v[vx] & self.v[vy];
        self.v[vx] = val;
    }

    /// Set Vx = Vx XOR Vy.
    fn op_8xy3(&mut self, vx: usize, vy: usize)
        requires
            old(self).wf(),
            vx < NUM_REGS,
            vy < NUM_REGS,
        ensures
            final(self).wf(),
            final(self)@ == crate::model::set_v(
                old(self)@,
                vx as int,
                old(self)@.v[vx as int] ^ old(self)@.v[vy as int],
            ),
    {
        let val = self.v[vx] ^ self.v[vy];
        self.v[vx] = val;
    }

    /// Add Vx = Vx + Vy with wraparound; the flag register takes the carry.
    fn op_8xy4(&mut self, vx: usize, vy: usize)
        requires
            old(self).wf(),
            vx < NUM_REGS,
            vy < NUM_REGS,
        ensures
            final(self).wf(),
            final(self)@ == crate::model::alu_add(old(self)@, vx as int, vy as int),
    {
        let sum = self.v[vx] as u16 + self.v[vy] as u16;
        self.v[0xF] = if sum >= 256 {
            1
        } else {
            0
        };
        self.v[vx] = (sum % 256) as u8;
        proof {
            assert(self@ =~= crate::model::alu_add(old(self)@, vx as int, vy as int));
        }
    }

    /// Subtract Vx = Vx - Vy with wraparound; the flag register takes 1
    /// exactly when no borrow occurs.
    fn op_8xy5(&mut self, vx: usize, vy: usize)
        requires
            old(self).wf(),
            vx < NUM_REGS,
            vy < NUM_REGS,
        ensures
            final(self).wf(),
            final(self)@ == crate::model::alu_sub(old(self)@, vx as int, vy as int),
    {
        let a = self.v[vx];
        let b = self.v[vy];
        self.v[0xF] = if a >= b {
            1
        } else {
            0
        };
        let diff = (a as u16 + 256 - b as u16) % 256;
        self.v[vx] = diff as u8;
        proof {
            assert(self@ =~= crate::model::alu_sub(old(self)@, vx as int, vy as int));
        }
    }

    /// Shift Vx right by one; the flag register takes the pre-shift least
    /// significant bit.
    fn op_8xy6(&mut self, vx: usize)
        requires
            old(self).wf(),
            vx < NUM_REGS,
        ensures
            final(self).wf(),
            final(self)@ == crate::model::alu_shr(old(self)@, vx as int),
    {
        let lsb = self.v[vx] % 2;
        self.v[0xF] = lsb;
        let cur = self.v[vx];
        self.v[vx] = cur / 2;
        proof {
            assert(self@ =~= crate::model::alu_shr(old(self)@, vx as int));
        }
    }

    /// Set Vx = Vy - Vx with wraparound; the flag register takes 1 exactly
    /// when Vy exceeds Vx.
    fn op_8xy7(&mut self, vx: usize, vy: usize)
        requires
            old(self).wf(),
            vx < NUM_REGS,
            vy < NUM_REGS,
        ensures
            final(self).wf(),
            final(self)@ == crate::model::alu_sub_rev(old(self)@, vx as int, vy as int),
    {
        let a = self.v[vx];
        let b = self.v[vy];
        self.v[0xF] = if b > a {
            1
        } else {
            0
        };
        let diff = (b as u16 + 256 - a as u16) % 256;
        self.v[vx] = diff as u8;
        proof {
            assert(self@ =~= crate::model::alu_sub_rev(old(self)@, vx as int, vy as int));
        }
    }

    /// Shift Vx left by one, low 8 bits retained; the flag register takes the
    /// pre-shift most significant bit.
    fn op_8xye(&mut self, vx: usize)
        requires
            old(self).wf(),
            vx < NUM_REGS,
        ensures
            final(self).wf(),
            final(self)@ == crate::model::alu_shl(old(self)@, vx as int),
    {
        let msb = self.v[vx] / 128;
        self.v[0xF] = msb;
        let cur = self.v[vx];
        self.v[vx] = ((cur as u16 * 2) % 256) as u8;
        proof {
            assert(self@ =~= crate::model::alu_shl(old(self)@, vx as int));
        }
    }

    /// Skip if Vx != Vy.
    fn op_9xy0(&mut self, vx: usize, vy: usize)
        requires
            old(self).wf(),
            vx < NUM_REGS,
            vy < NUM_REGS,
            old(self)@.pc + 2 <= u16::MAX,
        ensures
            final(self).wf(),
            final(self)@ == crate::model::skip_if(
                old(self)@,
                old(self)@.v[vx as int] != old(self)@.v[vy as int],
            ),
    {
        let c = self.v[vx] != self.v[vy];
        self.skip_next(c);
    }

    /// Set the index register to nnn.
    fn op_annn(&mut self, nnn: u16)
        requires
            old(self).wf(),
        ensures
            final(self).wf(),
            final(self)@ == crate::model::with_i(old(self)@, nnn),
    {
        self.i = nnn;
    }

    /// Jump to nnn + V0.
    fn op_bnnn(&mut self, nnn: u16)
        requires
            old(self).wf(),
            nnn < 0x1000,
        ensures
            final(self).wf(),
            final(self)@ == crate::model::with_pc(
                old(self)@,
                (nnn + old(self)@.v[0]) as u16,
            ),
    {
        let target = nnn + self.v[0] as u16;
        self.pc = target;
    }

    /// Set Vx = rand AND kk, where rand is the byte the random generator
    /// drew. Verified for every value the generator may hand back.
    fn op_cxkk(&mut self, vx: usize, kk: u8, rand: u8)
        requires
            old(self).wf(),
            vx < NUM_REGS,
        ensures
            final(self).wf(),
            final(self)@ == crate::model::set_v(old(self)@, vx as int, rand & kk),
    {
        self.v[vx] = rand & kk;
    }

    /// Skip if the key numbered Vx is pressed; a key number outside the
    /// panel is reported, never silently wrapped.
    fn op_ex9e(&mut self, vx: usize) -> (r: Result<(), EmuError>)
        requires
            old(self).wf(),
            vx < NUM_REGS,
            old(self)@.pc + 2 <= u16::MAX,
        ensures
            final(self).wf(),
            match r {
                Ok(()) => old(self)@.v[vx as int] < NUM_KEYS && final(self)@
                    == crate::model::skip_if(
                    old(self)@,
                    old(self)@.keys[old(self)@.v[vx as int] as int],
                ),
                Err(e) => e == EmuError::OutOfBounds && old(self)@.v[vx as int] >= NUM_KEYS
                    && final(self)@ == old(self)@,
            },
    {
        let key = self.v[vx] as usize;
        if key >= NUM_KEYS {
            return Err(EmuError::OutOfBounds);
        }
        let c = self.keys[key];
        self.skip_next(c);
        Ok(())
    }

    /// Skip if the key numbered Vx is not pressed.
    fn op_exa1(&mut self, vx: usize) -> (r: Result<(), EmuError>)
        requires
            old(self).wf(),
            vx < NUM_REGS,
            old(self)@.pc + 2 <= u16::MAX,
        ensures
            final(self).wf(),
            match r {
                Ok(()) => old(self)@.v[vx as int] < NUM_KEYS && final(self)@
                    == crate::model::skip_if(
                    old(self)@,
                    !old(self)@.keys[old(self)@.v[vx as int] as int],
                ),
                Err(e) => e == EmuError::OutOfBounds && old(self)@.v[vx as int] >= NUM_KEYS
                    && final(self)@ == old(self)@,
            },
    {
        let key = self.v[vx] as usize;
        if key >= NUM_KEYS {
            return Err(EmuError::OutOfBounds);
        }
        let c = !self.keys[key];
        self.skip_next(c);
        Ok(())
    }

    /// Set Vx to the delay timer value.
    fn op_fx07(&mut self, vx: usize)
        requires
            old(self).wf(),
            vx < NUM_REGS,
        ensures
            final(self).wf(),
            final(self)@ == crate::model::set_v(old(self)@, vx as int, old(self)@.dt),
    {
        let val = self.dt;
        self.v[vx] = val;
    }

    /// Poll for a keypress: store the highest pressed key in Vx, or rewind
    /// the program counter so the same instruction re-executes next call.
    fn op_fx0a(&mut self, vx: usize)
        requires
            old(self).wf(),
            vx < NUM_REGS,
            old(self)@.pc >= 2,
        ensures
            final(self).wf(),
            final(self)@ == crate::model::wait_key(old(self)@, vx as int),
    {
        let mut pressed = false;
        let mut stored: u8 = 0;
        let mut k: usize = 0;
        while k < NUM_KEYS
            invariant
                old(self).wf(),
                self@ == old(self)@,
                k <= NUM_KEYS,
                pressed == (crate::model::last_pressed(self@.keys, k as int) >= 0),
                pressed ==> stored == crate::model::last_pressed(self@.keys, k as int),
            decreases NUM_KEYS - k,
        {
            if self.keys[k] {
                pressed = true;
                stored = k as u8;
            }
            k = k + 1;
        }
        if pressed {
            self.v[vx] = stored;
        } else {
            self.pc = self.pc - 2;
        }
        proof {
            assert(self@ =~= crate::model::wait_key(old(self)@, vx as int));
        }
    }

    /// Set the delay timer to Vx.
    fn op_fx15(&mut self, vx: usize)
        requires
            old(self).wf(),
            vx < NUM_REGS,
        ensures
            final(self).wf(),
            final(self)@ == crate::model::with_dt(old(self)@, old(self)@.v[vx as int]),
    {
        let val = self.v[vx];
        self.dt = val;
    }

    /// Set the sound timer to Vx.
    fn op_fx18(&mut self, vx: usize)
        requires
            old(self).wf(),
            vx < NUM_REGS,
        ensures
            final(self).wf(),
            final(self)@ == crate::model::with_st(old(self)@, old(self)@.v[vx as int]),
    {
        let val = self.v[vx];
        self.st = val;
    }

    /// Add Vx to the index register with 16-bit wraparound.
    fn op_fx1e(&mut self, vx: usize)
        requires
            old(self).wf(),
            vx < NUM_REGS,
        ensures
            final(self).wf(),
            final(self)@ == crate::model::index_add_state(old(self)@, vx as int),
    {
        let sum = self.i as u32 + self.v[vx] as u32;
        self.i = (sum % 0x10000) as u16;
    }

    /// Point the index register at the built-in font glyph for digit Vx.
    fn op_fx29(&mut self, vx: usize)
        requires
            old(self).wf(),
            vx < NUM_REGS,
        ensures
            final(self).wf(),
            final(self)@ == crate::model::font_index_state(old(self)@, vx as int),
    {
        let val = self.v[vx];
        self.i = val as u16 * 5;
    }

    /// Store the decimal digits of Vx at the index register: hundreds, tens,
    /// ones.
    fn op_fx33(&mut self, vx: usize) -> (r: Result<(), EmuError>)
        requires
            old(self).wf(),
            vx < NUM_REGS,
        ensures
            final(self).wf(),
            match r {
                Ok(()) => old(self)@.i + 2 < RAM_SIZE && final(self)@ == crate::model::bcd_state(
                    old(self)@,
                    vx as int,
                ),
                Err(e) => e == EmuError::OutOfBounds && old(self)@.i + 2 >= RAM_SIZE && final(self)@ == old(self)@,
            },
    {
        let i0 = self.i as usize;
        if i0 + 2 >= RAM_SIZE {
            return Err(EmuError::OutOfBounds);
        }
        let val = self.v[vx];
        self.ram[i0] = val / 100;
        self.ram[i0 + 1] = (val / 10) % 10;
        self.ram[i0 + 2] = val % 10;
        proof {
            assert(self@ =~= crate::model::bcd_state(old(self)@, vx as int));
        }
        Ok(())
    }

    /// Copy registers V0..Vx inclusive into memory at the index register.
    fn op_fx55(&mut self, vx: usize) -> (r: Result<(), EmuError>)
        requires
            old(self).wf(),
            vx < NUM_REGS,
        ensures
            final(self).wf(),
            match r {
                Ok(()) => old(self)@.i + vx + 1 <= RAM_SIZE && final(self)@
                    == crate::model::store_state(old(self)@, vx as int),
                Err(e) => e == EmuError::OutOfBounds && old(self)@.i + vx + 1 > RAM_SIZE && final(self)@ == old(self)@,
            },
    {
        let i0 = self.i as usize;
        if i0 + vx + 1 > RAM_SIZE {
            return Err(EmuError::OutOfBounds);
        }
        let mut k: usize = 0;
        while k < vx + 1
            invariant
                old(self).wf(),
                vx < NUM_REGS,
                i0 == old(self)@.i,
                i0 + vx + 1 <= RAM_SIZE,
                k <= vx + 1,
                self@ == (EmuView { ram: self@.ram, ..old(self)@ }),
                self@.ram.len() == RAM_SIZE,
                forall|j: int|
                    i0 <= j < i0 + k ==> self@.ram[j] == old(self)@.v[j - i0],
                forall|j: int|
                    0 <= j < RAM_SIZE && !(i0 <= j < i0 + k) ==> self@.ram[j] == old(self)@.ram[j],
            decreases vx + 1 - k,
        {
            let val = self.v[k];
            self.ram[i0 + k] = val;
            k = k + 1;
        }
        proof {
            assert(self@.ram =~= crate::model::store_regs(
                old(self)@.ram,
                old(self)@.v,
                i0 as int,
                vx as int,
            ));
            assert(self@ =~= crate::model::store_state(old(self)@, vx as int));
        }
        Ok(())
    }

    /// Copy memory at the index register into registers V0..Vx inclusive.
    fn op_fx65(&mut self, vx: usize) -> (r: Result<(), EmuError>)
        requires
            old(self).wf(),
            vx < NUM_REGS,
        ensures
            final(self).wf(),
            match r {
                Ok(()) => old(self)@.i + vx + 1 <= RAM_SIZE && final(self)@
                    == crate::model::load_state(old(self)@, vx as int),
                Err(e) => e == EmuError::OutOfBounds && old(self)@.i + vx + 1 > RAM_SIZE && final(self)@ == old(self)@,
            },
    {
        let i0 = self.i as usize;
        if i0 + vx + 1 > RAM_SIZE {
            return Err(EmuError::OutOfBounds);
        }
        let mut k: usize = 0;
        while k < vx + 1
            invariant
                old(self).wf(),
                vx < NUM_REGS,
                i0 == old(self)@.i,
                i0 + vx + 1 <= RAM_SIZE,
                k <= vx + 1,
                self@ == (EmuView { v: self@.v, ..old(self)@ }),
                self@.v.len() == NUM_REGS,
                forall|j: int| 0 <= j < k ==> self@.v[j] == old(self)@.ram[i0 + j],
                forall|j: int| k <= j < NUM_REGS ==> self@.v[j] == old(self)@.v[j],
            decreases vx + 1 - k,
        {
            let val = self.ram[i0 + k];
            self.v[k] = val;
            k = k + 1;
        }
        proof {
            assert(self@.v =~= crate::model::load_regs(
                old(self)@.ram,
                old(self)@.v,
                i0 as int,
                vx as int,
            ));
            assert(self@ =~= crate::model::load_state(old(self)@, vx as int));
        }
        Ok(())
    }
}

/// Whether one sprite row drawn at column x0 flips the pixel in column px.
fn row_hit_exec(row: u8, x0: u8, px: usize) -> (r: bool)
    requires
        px < SCREEN_X,
    ensures
        r == crate::model::row_hit(row, x0 as int, px as int),
{
    let mut b: usize = 0;
    let mut found = false;
    while b < 8
        invariant
            b <= 8,
            px < SCREEN_X,
            found == exists|t: int|
                0 <= t < b && #[trigger] crate::model::col_hit(row, x0 as int, px as int, t),
        decreases 8 - b,
    {
        let col = (x0 as usize + b) % SCREEN_X;
        let shift = 7 - b;
        let bit = (row >> (shift as u8)) & 1;
        if col == px && bit == 1 {
            proof {
                assert(crate::model::col_hit(row, x0 as int, px as int, b as int));
            }
            found = true;
        }
        b = b + 1;
    }
    found
}

impl Emulator {
    /// Whether the sprite of `n` rows at address i0, drawn at (x0, y0), flips
    /// the framebuffer cell `idx`.
    fn sprite_hit(&self, x0: u8, y0: u8, i0: usize, n: usize, idx: usize) -> (r: bool)
        requires
            self.wf(),
            idx < SCREEN_X * SCREEN_Y,
            n < 16,
            i0 + n <= RAM_SIZE,
        ensures
            r == crate::model::sprite_flips(
                self@.ram.subrange(i0 as int, i0 + n),
                x0 as int,
                y0 as int,
                (idx % SCREEN_X) as int,
                (idx / SCREEN_X) as int,
            ),
    {
        let ghost sprite = self@.ram.subrange(i0 as int, i0 + n as int);
        let px = idx % SCREEN_X;
        let py = idx / SCREEN_X;
        let mut q: usize = 0;
        let mut found = false;
        while q < n
            invariant
                self.wf(),
                px == idx % SCREEN_X,
                py == idx / SCREEN_X,
                px < SCREEN_X,
                q <= n,
                n < 16,
                i0 + n <= RAM_SIZE,
                sprite == self@.ram.subrange(i0 as int, i0 + n as int),
                found == exists|t: int|
                    0 <= t < q && #[trigger] crate::model::row_flip(
                        sprite,
                        x0 as int,
                        y0 as int,
                        px as int,
                        py as int,
                        t,
                    ),
            decreases n - q,
        {
            let row = self.ram[i0 + q];
            proof {
                assert(row == sprite[q as int]);
            }
            let ry = (y0 as usize + q) % SCREEN_Y;
            if ry == py {
                if row_hit_exec(row, x0, px) {
                    proof {
                        assert(crate::model::row_flip(
                            sprite,
                            x0 as int,
                            y0 as int,
                            px as int,
                            py as int,
                            q as int,
                        ));
                    }
                    found = true;
                }
            }
            q = q + 1;
        }
        found
    }

    /// Draw an n-row sprite read from memory at the index register at
    /// position (Vx, Vy): XOR blit with wraparound at the screen edges; the
    /// flag register records whether any lit pixel was turned off.
    fn op_dxyn(&mut self, vx: usize, vy: usize, n: usize) -> (r: Result<(), EmuError>)
        requires
            old(self).wf(),
            vx < NUM_REGS,
            vy < NUM_REGS,
            n < 16,
        ensures
            final(self).wf(),
            match r {
                Ok(()) => old(self)@.i + n <= RAM_SIZE && final(self)@
                    == crate::model::draw_state(old(self)@, vx as int, vy as int, n as int),
                Err(e) => e == EmuError::OutOfBounds && old(self)@.i + n > RAM_SIZE
                    && final(self)@ == old(self)@,
            },
    {
        let i0 = self.i as usize;
        if i0 + n > RAM_SIZE {
            return Err(EmuError::OutOfBounds);
        }
        let x0 = self.v[vx];
        let y0 = self.v[vy];
        let ghost sprite = self@.ram.subrange(i0 as int, i0 + n as int);
        let mut newscreen: Vec<bool> = Vec::new();
        let mut collision = false;
        let mut idx: usize = 0;
        while idx < SCREEN_X * SCREEN_Y
            invariant
                old(self).wf(),
                self@ == old(self)@,
                vx < NUM_REGS,
                vy < NUM_REGS,
                n < 16,
                i0 == old(self)@.i,
                i0 + n <= RAM_SIZE,
                x0 == old(self)@.v[vx as int],
                y0 == old(self)@.v[vy as int],
                sprite == old(self)@.ram.subrange(i0 as int, i0 + n as int),
                idx <= SCREEN_X * SCREEN_Y,
                newscreen@.len() == idx,
                forall|j: int|
                    0 <= j < idx ==> newscreen@[j] == (old(self)@.screen[j]
                        != crate::model::sprite_flips(
                        sprite,
                        x0 as int,
                        y0 as int,
                        j % (SCREEN_X as int),
                        j / (SCREEN_X as int),
                    )),
                collision == exists|j: int|
                    0 <= j < idx && #[trigger] crate::model::collides_at(
                        old(self)@.screen,
                        sprite,
                        x0 as int,
                        y0 as int,
                        j,
                    ),
            decreases SCREEN_X * SCREEN_Y - idx,
        {
            let flip = self.sprite_hit(x0, y0, i0, n, idx);
            let cur = self.screen[idx];
            newscreen.push(if flip {
                !cur
            } else {
                cur
            });
            if cur && flip {
                proof {
                    assert(crate::model::collides_at(
                        old(self)@.screen,
                        sprite,
                        x0 as int,
                        y0 as int,
                        idx as int,
                    ));
                }
                collision = true;
            }
            idx = idx + 1;
        }
        self.screen = newscreen;
        self.v[0xF] = if collision {
            1
        } else {
            0
        };
        proof {
            assert(collision == crate::model::draw_collision(
                old(self)@.screen,
                sprite,
                x0 as int,
                y0 as int,
            ));
            assert(self@.screen =~= crate::model::draw_screen(
                old(self)@.screen,
                sprite,
                x0 as int,
                y0 as int,
            ));
            assert(self@ =~= crate::model::draw_state(old(self)@, vx as int, vy as int, n as int));
        }
        Ok(())
    }

    /// Read the two instruction bytes at the program counter, combine them
    /// big-endian, and advance the program counter past them.
    fn fetch(&mut self) -> (r: Result<u16, EmuError>)
        requires
            old(self).wf(),
        ensures
            final(self).wf(),
            match r {
                Ok(w) => !crate::model::fetch_fault(old(self)@) && w == crate::model::instr_word(
                    old(self)@,
                ) && final(self)@ == crate::model::after_fetch(old(self)@),
                Err(e) => e == EmuError::OutOfBounds && crate::model::fetch_fault(old(self)@)
                    && final(self)@ == old(self)@,
            },
    {
        let pc = self.pc as usize;
        if pc + 1 >= RAM_SIZE {
            return Err(EmuError::OutOfBounds);
        }
        let hi = self.ram[pc];
        let lo = self.ram[pc + 1];
        self.pc = self.pc + 2;
        let h16 = hi as u16;
        let l16 = lo as u16;
        let w = (h16 << 8) | l16;
        proof {
            assert((h16 << 8) | l16 == h16 * 0x100 + l16) by (bit_vector)
                requires
                    h16 < 0x100,
                    l16 < 0x100,
            ;
        }
        Ok(w)
    }

    /// Split an instruction word into its four 4-bit fields, the most
    /// significant first.
    fn decode(&self, instruction: u16) -> (r: (u16, u16, u16, u16))
        ensures
            r.0 == crate::model::nib1(instruction),
            r.1 == crate::model::nib2(instruction),
            r.2 == crate::model::nib3(instruction),
            r.3 == crate::model::nib4(instruction),
    {
        let d1 = (instruction & 0xF000) >> 12;
        let d2 = (instruction & 0x0F00) >> 8;
        let d3 = (instruction & 0x00F0) >> 4;
        let d4 = instruction & 0x000F;
        proof {
            assert((instruction & 0xF000) >> 12 == instruction / 0x1000) by (bit_vector);
            assert((instruction & 0x0F00) >> 8 == (instruction / 0x100) % 0x10) by (bit_vector);
            assert((instruction & 0x00F0) >> 4 == (instruction / 0x10) % 0x10) by (bit_vector);
            assert(instruction & 0x000F == instruction % 0x10) by (bit_vector);
        }
        (d1, d2, d3, d4)
    }

    /// Dispatch one decoded instruction. On success the new state is what
    /// `exec_instr` gives for some drawn random byte; on a fault the state is
    /// left as it was and every random byte gives the same fault.
    fn execute(&mut self, d1: u16, d2: u16, d3: u16, d4: u16, instruction: u16) -> (r: Result<
        (),
        EmuError,
    >)
        requires
            old(self).wf(),
            d1 == crate::model::nib1(instruction),
            d2 == crate::model::nib2(instruction),
            d3 == crate::model::nib3(instruction),
            d4 == crate::model::nib4(instruction),
            2 <= old(self)@.pc <= RAM_SIZE,
        ensures
            final(self).wf(),
            match r {
                Ok(()) => exists|rb: u8|
                    crate::model::exec_instr(old(self)@, instruction, rb) == StepRes::Next(
                        final(self)@,
                    ),
                Err(e) => final(self)@ == old(self)@ && forall|rb: u8|
                    crate::model::exec_instr(old(self)@, instruction, rb) == StepRes::Fault(e),
            },
    {
        proof {
            crate::model::lemma_nibbles(instruction);
            assert(instruction & 0x00FF == instruction % 0x100) by (bit_vector);
            assert(instruction & 0x0FFF == instruction % 0x1000) by (bit_vector);
        }
        let x = d2 as usize;
        let y = d3 as usize;
        let kk = (instruction & 0x00FF) as u8;
        let nnn = instruction & 0x0FFF;
        match (d1, d2, d3, d4) {
            (0, 0, 0xE, 0) => {
                self.op_00e0();
                proof {
                    assert(crate::model::exec_instr(old(self)@, instruction, 0u8)
                        == StepRes::Next(self@));
                }
                Ok(())
            },
            (0, 0, 0xE, 0xE) => {
                let r = self.op_00ee();
                proof {
                    if r is Ok {
                        assert(crate::model::exec_instr(old(self)@, instruction, 0u8)
                            == StepRes::Next(self@));
                    }
                }
                r
            },
            (1, _, _, _) => {
                self.op_1nnn(nnn);
                proof {
                    assert(crate::model::exec_instr(old(self)@, instruction, 0u8)
                        == StepRes::Next(self@));
                }
                Ok(())
            },
            (2, _, _, _) => {
                let r = self.op_2nnn(nnn);
                proof {
                    if r is Ok {
                        assert(crate::model::exec_instr(old(self)@, instruction, 0u8)
                            == StepRes::Next(self@));
                    }
                }
                r
            },
            (3, _, _, _) => {
                self.op_3xkk(x, kk);
                proof {
                    assert(crate::model::exec_instr(old(self)@, instruction, 0u8)
                        == StepRes::Next(self@));
                }
                Ok(())
            },
            (4, _, _, _) => {
                self.op_4xkk(x, kk);
                proof {
                    assert(crate::model::exec_instr(old(self)@, instruction, 0u8)
                        == StepRes::Next(self@));
                }
                Ok(())
            },
            (5, _, _, 0) => {
                self.op_5xy0(x, y);
                proof {
                    assert(crate::model::exec_instr(old(self)@, instruction, 0u8)
                        == StepRes::Next(self@));
                }
                Ok(())
            },
            (6, _, _, _) => {
                self.op_6xkk(x, kk);
                proof {
                    assert(crate::model::exec_instr(old(self)@, instruction, 0u8)
                        == StepRes::Next(self@));
                }
                Ok(())
            },
            (7, _, _, _) => {
                self.op_7xkk(x, kk);
                proof {
                    assert(crate::model::exec_instr(old(self)@, instruction, 0u8)
                        == StepRes::Next(self@));
                }
                Ok(())
            },
            (8, _, _, 0) => {
                self.op_8xy0(x, y);
                proof {
                    assert(crate::model::exec_instr(old(self)@, instruction, 0u8)
                        == StepRes::Next(self@));
                }
                Ok(())
            },
            (8, _, _, 1) => {
                self.op_8xy1(x, y);
                proof {
                    assert(crate::model::exec_instr(old(self)@, instruction, 0u8)
                        == StepRes::Next(self@));
                }
                Ok(())
            },
            (8, _, _, 2) => {
                self.op_8xy2(x, y);
                proof {
                    assert(crate::model::exec_instr(old(self)@, instruction, 0u8)
                        == StepRes::Next(self@));
                }
                Ok(())
            },
            (8, _, _, 3) => {
                self.op_8xy3(x, y);
                proof {
                    assert(crate::model::exec_instr(old(self)@, instruction, 0u8)
                        == StepRes::Next(self@));
                }
                Ok(())
            },
            (8, _, _, 4) => {
                self.op_8xy4(x, y);
                proof {
                    assert(crate::model::exec_instr(old(self)@, instruction, 0u8)
                        == StepRes::Next(self@));
                }
                Ok(())
            },
            (8, _, _, 5) => {
                self.op_8xy5(x, y);
                proof {
                    assert(crate::model::exec_instr(old(self)@, instruction, 0u8)
                        == StepRes::Next(self@));
                }
                Ok(())
            },
            (8, _, _, 6) => {
                self.op_8xy6(x);
                proof {
                    assert(crate::model::exec_instr(old(self)@, instruction, 0u8)
                        == StepRes::Next(self@));
                }
                Ok(())
            },
            (8, _, _, 7) => {
                self.op_8xy7(x, y);
                proof {
                    assert(crate::model::exec_instr(old(self)@, instruction, 0u8)
                        == StepRes::Next(self@));
                }
                Ok(())
            },
            (8, _, _, 0xE) => {
                self.op_8xye(x);
                proof {
                    assert(crate::model::exec_instr(old(self)@, instruction, 0u8)
                        == StepRes::Next(self@));
                }
                Ok(())
            },
            (9, _, _, 0) => {
                self.op_9xy0(x, y);
                proof {
                    assert(crate::model::exec_instr(old(self)@, instruction, 0u8)
                        == StepRes::Next(self@));
                }
                Ok(())
            },
            (0xA, _, _, _) => {
                self.op_annn(nnn);
                proof {
                    assert(crate::model::exec_instr(old(self)@, instruction, 0u8)
                        == StepRes::Next(self@));
                }
                Ok(())
            },
            (0xB, _, _, _) => {
                self.op_bnnn(nnn);
                proof {
                    assert(crate::model::exec_instr(old(self)@, instruction, 0u8)
                        == StepRes::Next(self@));
                }
                Ok(())
            },
            (0xC, _, _, _) => {
                let rb = random_byte();
                self.op_cxkk(x, kk, rb);
                proof {
                    assert(crate::model::exec_instr(old(self)@, instruction, rb)
                        == StepRes::Next(self@));
                }
                Ok(())
            },
            (0xD, _, _, _) => {
                let r = self.op_dxyn(x, y, d4 as usize);
                proof {
                    if r is Ok {
                        assert(crate::model::exec_instr(old(self)@, instruction, 0u8)
                            == StepRes::Next(self@));
                    }
                }
                r
            },
            (0xE, _, 9, 0xE) => {
                let r = self.op_ex9e(x);
                proof {
                    if r is Ok {
                        assert(crate::model::exec_instr(old(self)@, instruction, 0u8)
                            == StepRes::Next(self@));
                    }
                }
                r
            },
            (0xE, _, 0xA, 1) => {
                let r = self.op_exa1(x);
                proof {
                    if r is Ok {
                        assert(crate::model::exec_instr(old(self)@, instruction, 0u8)
                            == StepRes::Next(self@));
                    }
                }
                r
            },
            (0xF, _, 0, 7) => {
                self.op_fx07(x);
                proof {
                    assert(crate::model::exec_instr(old(self)@, instruction, 0u8)
                        == StepRes::Next(self@));
                }
                Ok(())
            },
            (0xF, _, 0, 0xA) => {
                self.op_fx0a(x);
                proof {
                    assert(crate::model::exec_instr(old(self)@, instruction, 0u8)
                        == StepRes::Next(self@));
                }
                Ok(())
            },
            (0xF, _, 1, 5) => {
                self.op_fx15(x);
                proof {
                    assert(crate::model::exec_instr(old(self)@, instruction, 0u8)
                        == StepRes::Next(self@));
                }
                Ok(())
            },
            (0xF, _, 1, 8) => {
                self.op_fx18(x);
                proof {
                    assert(crate::model::exec_instr(old(self)@, instruction, 0u8)
                        == StepRes::Next(self@));
                }
                Ok(())
            },
            (0xF, _, 1, 0xE) => {
                self.op_fx1e(x);
                proof {
                    assert(crate::model::exec_instr(old(self)@, instruction, 0u8)
                        == StepRes::Next(self@));
                }
                Ok(())
            },
            (0xF, _, 2, 9) => {
                self.op_fx29(x);
                proof {
                    assert(crate::model::exec_instr(old(self)@, instruction, 0u8)
                        == StepRes::Next(self@));
                }
                Ok(())
            },
            (0xF, _, 3, 3) => {
                let r = self.op_fx33(x);
                proof {
                    if r is Ok {
                        assert(crate::model::exec_instr(old(self)@, instruction, 0u8)
                            == StepRes::Next(self@));
                    }
                }
                r
            },
            (0xF, _, 5, 5) => {
                let r = self.op_fx55(x);
                proof {
                    if r is Ok {
                        assert(crate::model::exec_instr(old(self)@, instruction, 0u8)
                            == StepRes::Next(self@));
                    }
                }
                r
            },
            (0xF, _, 6, 5) => {
                let r = self.op_fx65(x);
                proof {
                    if r is Ok {
                        assert(crate::model::exec_instr(old(self)@, instruction, 0u8)
                            == StepRes::Next(self@));
                    }
                }
                r
            },
            (_, _, _, _) => Err(EmuError::InvalidOpcode(instruction)),
        }
    }

    /// Execute exactly one instruction and hand back the framebuffer for
    /// rendering. On success the new state is one `step` of the model (the
    /// random-byte opcode makes the step relational in the drawn byte); a
    /// fault leaves the machine exactly as it was.
    pub fn tick(&mut self) -> (r: Result<Vec<bool>, EmuError>)
        requires
            old(self).wf(),
        ensures
            final(self).wf(),
            match r {
                Ok(fb) => (exists|rb: u8|
                    crate::model::step(old(self)@, rb) == StepRes::Next(final(self)@)) && fb@
                    == final(self)@.screen,
                Err(e) => final(self)@ == old(self)@ && (forall|rb: u8|
                    crate::model::step(old(self)@, rb) == StepRes::Fault(e)),
            },
    {
        let pc0 = self.pc;
        let instruction = match self.fetch() {
            Ok(w) => w,
            Err(e) => {
                return Err(e);
            },
        };
        let (d1, d2, d3, d4) = self.decode(instruction);
        match self.execute(d1, d2, d3, d4, instruction) {
            Ok(()) => {
                proof {
                    let rb = choose|rb: u8|
                        crate::model::exec_instr(
                            crate::model::after_fetch(old(self)@),
                            instruction,
                            rb,
                        ) == StepRes::Next(self@);
                    assert(crate::model::step(old(self)@, rb) == StepRes::Next(self@));
                }
                Ok(copy_bools(&self.screen))
            },
            Err(e) => {
                self.pc = pc0;
                proof {
                    assert(self@ =~= old(self)@);
                }
                Err(e)
            },
        }
    }
}

/// A fresh copy of a framebuffer.
fn copy_bools(src: &Vec<bool>) -> (r: Vec<bool>)
    ensures
        r@ == src@,
{
    let mut r: Vec<bool> = Vec::new();
    let mut k: usize = 0;
    while k < src.len()
        invariant
            k <= src@.len(),
            r@.len() == k,
            forall|j: int| 0 <= j < k ==> r@[j] == src@[j],
        decreases src@.len() - k,
    {
        let b = src[k];
        r.push(b);
        k = k + 1;
    }
    assert(r@ =~= src@);
    r
}

} // verus!

//! The mathematical model of the machine: a ghost snapshot of the whole
//! state (`EmuView`), the error taxonomy, and the specification of one
//! fetch/decode/execute step (`step`). The executable engine in the crate
//! root is proved against these functions.

use vstd::prelude::*;

verus! {

/// The conditions the engine reports instead of recovering: a malformed
/// program or an oversized image, never ordinary control flow.
#[derive(Clone, Copy, Debug, PartialEq, Eq, Structural)]
pub enum EmuError {
    /// A program image longer than the memory left from the start address.
    RomTooLarge,
    /// A call opcode with 16 return addresses already pending.
    StackOverflow,
    /// A return opcode with no pending return address.
    StackUnderflow,
    /// A fetch, memory or key access outside the declared bounds.
    OutOfBounds,
    /// An instruction word matching no defined pattern, carried for diagnosis.
    InvalidOpcode(u16),
}

/// A snapshot of the whole machine state, the value every contract speaks of.
#[verifier::ext_equal]
pub struct EmuView {
    pub pc: u16,
    pub stack: Seq<u16>,
    pub ram: Seq<u8>,
    pub v: Seq<u8>,
    pub i: u16,
    pub dt: u8,
    pub st: u8,
    pub keys: Seq<bool>,
    pub screen: Seq<bool>,
}

impl EmuView {
    /// The sizes the machine is built with: they hold at construction and
    /// are preserved by every operation.
    pub open spec fn wf(self) -> bool {
        &&& self.stack.len() <= crate::STACK_SIZE
        &&& self.ram.len() == crate::RAM_SIZE
        &&& self.v.len() == crate::NUM_REGS
        &&& self.keys.len() == crate::NUM_KEYS
        &&& self.screen.len() == crate::SCREEN_X * crate::SCREEN_Y
    }
}

/// The outcome of one step: the next state, or the fault that stops it.
#[verifier::ext_equal]
pub enum StepRes {
    Next(EmuView),
    Fault(EmuError),
}

// ---------------------------------------------------------------------------
// Instruction fields. An instruction word splits into four 4-bit fields, the
// most significant first; several opcodes also read the low byte `kk` and the
// low 12 bits `nnn`.
// ---------------------------------------------------------------------------

pub open spec fn nib1(w: u16) -> u16 {
    w / 0x1000
}

pub open spec fn nib2(w: u16) -> u16 {
    (w / 0x100) % 0x10
}

pub open spec fn nib3(w: u16) -> u16 {
    (w / 0x10) % 0x10
}

pub open spec fn nib4(w: u16) -> u16 {
    w % 0x10
}

pub open spec fn low_byte(w: u16) -> u8 {
    (w % 0x100) as u8
}

pub open spec fn low12(w: u16) -> u16 {
    w % 0x1000
}

/// The four fields are 4-bit, they reassemble to the word, and the low byte
/// and low 12 bits are their suffixes.
pub proof fn lemma_nibbles(w: u16)
    ensures
        nib1(w) < 16,
        nib2(w) < 16,
        nib3(w) < 16,
        nib4(w) < 16,
        w == nib1(w) * 0x1000 + nib2(w) * 0x100 + nib3(w) * 0x10 + nib4(w),
        low_byte(w) as u16 == nib3(w) * 0x10 + nib4(w),
        low12(w) == nib2(w) * 0x100 + nib3(w) * 0x10 + nib4(w),
        low12(w) < 0x1000,
{
    assert(w / 0x1000 < 16 && (w / 0x100) % 0x10 < 16 && (w / 0x10) % 0x10 < 16 && w % 0x10
        < 16) by (bit_vector);
    assert(w == (w / 0x1000) * 0x1000 + ((w / 0x100) % 0x10) * 0x100 + ((w / 0x10) % 0x10) * 0x10
        + w % 0x10) by (bit_vector);
    assert(w % 0x100 == ((w / 0x10) % 0x10) * 0x10 + w % 0x10) by (bit_vector);
    assert(w % 0x1000 == ((w / 0x100) % 0x10) * 0x100 + ((w / 0x10) % 0x10) * 0x10 + w
        % 0x10) by (bit_vector);
}

// ---------------------------------------------------------------------------
// Small state transformers, one per opcode effect. Where an opcode writes two
// registers in order, the second write reads the state left by the first, so
// that selecting the flag register as the destination behaves exactly as the
// sequential writes do.
// ---------------------------------------------------------------------------

pub open spec fn with_pc(s: EmuView, pc: u16) -> EmuView {
    EmuView { pc, ..s }
}

pub open spec fn set_v(s: EmuView, x: int, val: u8) -> EmuView {
    EmuView { v: s.v.update(x, val), ..s }
}

/// A conditional skip: the next 2-byte instruction is jumped over.
pub open spec fn skip_if(s: EmuView, c: bool) -> EmuView {
    if c {
        with_pc(s, (s.pc + 2) as u16)
    } else {
        s
    }
}

/// Add with carry: the flag register takes the carry first, then the
/// destination takes the 8-bit wrapped sum.
pub open spec fn alu_add(s: EmuView, x: int, y: int) -> EmuView {
    let sum = s.v[x] + s.v[y];
    let s1 = set_v(s, 0xF, if sum >= 256 { 1u8 } else { 0u8 });
    set_v(s1, x, (sum % 256) as u8)
}

/// Subtract with borrow: the flag register takes 1 exactly when no borrow
/// occurs, then the destination takes the 8-bit wrapped difference.
pub open spec fn alu_sub(s: EmuView, x: int, y: int) -> EmuView {
    let a = s.v[x];
    let b = s.v[y];
    let s1 = set_v(s, 0xF, if a >= b { 1u8 } else { 0u8 });
    set_v(s1, x, ((a - b + 256) % 256) as u8)
}

/// Reversed subtract: the flag register takes 1 exactly when the subtrahend
/// exceeds the minuend, then the destination takes the wrapped difference.
pub open spec fn alu_sub_rev(s: EmuView, x: int, y: int) -> EmuView {
    let a = s.v[x];
    let b = s.v[y];
    let s1 = set_v(s, 0xF, if b > a { 1u8 } else { 0u8 });
    set_v(s1, x, ((b - a + 256) % 256) as u8)
}

/// Shift right: the flag register takes the pre-shift least significant bit.
pub open spec fn alu_shr(s: EmuView, x: int) -> EmuView {
    let s1 = set_v(s, 0xF, (s.v[x] % 2) as u8);
    set_v(s1, x, (s1.v[x] / 2) as u8)
}

/// Shift left: the flag register takes the pre-shift most significant bit.
pub open spec fn alu_shl(s: EmuView, x: int) -> EmuView {
    let s1 = set_v(s, 0xF, (s.v[x] / 128) as u8);
    set_v(s1, x, ((s1.v[x] * 2) % 256) as u8)
}

/// All framebuffer cells unlit.
pub open spec fn clear_screen(s: EmuView) -> EmuView {
    EmuView { screen: Seq::new(s.screen.len(), |j: int| false), ..s }
}

/// Return from a subroutine: the most recent return address leaves the stack.
pub open spec fn ret_state(s: EmuView) -> EmuView {
    EmuView { pc: s.stack.last(), stack: s.stack.drop_last(), ..s }
}

/// Call a subroutine: the current program counter becomes pending.
pub open spec fn call_state(s: EmuView, nnn: u16) -> EmuView {
    EmuView { pc: nnn, stack: s.stack.push(s.pc), ..s }
}

pub open spec fn with_i(s: EmuView, val: u16) -> EmuView {
    EmuView { i: val, ..s }
}

pub open spec fn with_dt(s: EmuView, val: u8) -> EmuView {
    EmuView { dt: val, ..s }
}

pub open spec fn with_st(s: EmuView, val: u8) -> EmuView {
    EmuView { st: val, ..s }
}

/// The index register grows by Vx with 16-bit wraparound.
pub open spec fn index_add_state(s: EmuView, x: int) -> EmuView {
    with_i(s, ((s.i + s.v[x]) % 0x10000) as u16)
}

/// The index register points at the built-in glyph for the digit in Vx.
pub open spec fn font_index_state(s: EmuView, x: int) -> EmuView {
    with_i(s, (s.v[x] * 5) as u16)
}

// ---------------------------------------------------------------------------
// Register file against memory: the block store and load of V0..Vx, and the
// three decimal digits of Vx.
// ---------------------------------------------------------------------------

/// Memory after copying registers 0..=x to addresses i..=i+x.
pub open spec fn store_regs(ram: Seq<u8>, v: Seq<u8>, i: int, x: int) -> Seq<u8> {
    Seq::new(ram.len(), |j: int| if i <= j <= i + x { v[j - i] } else { ram[j] })
}

/// Registers after copying addresses i..=i+x into registers 0..=x.
pub open spec fn load_regs(ram: Seq<u8>, v: Seq<u8>, i: int, x: int) -> Seq<u8> {
    Seq::new(v.len(), |j: int| if 0 <= j <= x { ram[i + j] } else { v[j] })
}

/// Memory after storing the decimal digits of `val` at i, i+1, i+2.
pub open spec fn store_bcd(ram: Seq<u8>, i: int, val: u8) -> Seq<u8> {
    ram.update(i, (val / 100) as u8)
        .update(i + 1, ((val / 10) % 10) as u8)
        .update(i + 2, (val % 10) as u8)
}

/// Registers V0..Vx copied into memory at the index register.
pub open spec fn store_state(s: EmuView, x: int) -> EmuView {
    EmuView { ram: store_regs(s.ram, s.v, s.i as int, x), ..s }
}

/// Memory at the index register copied into registers V0..Vx.
pub open spec fn load_state(s: EmuView, x: int) -> EmuView {
    EmuView { v: load_regs(s.ram, s.v, s.i as int, x), ..s }
}

/// The decimal digits of Vx stored at the index register.
pub open spec fn bcd_state(s: EmuView, x: int) -> EmuView {
    EmuView { ram: store_bcd(s.ram, s.i as int, s.v[x]), ..s }
}

// ---------------------------------------------------------------------------
// The keypress poll: the scan runs over keys 0..15 in order and the last
// pressed key wins, so the highest pressed index is stored.
// ---------------------------------------------------------------------------

/// The highest pressed key index below `n`, or -1 if none is pressed there.
pub open spec fn last_pressed(keys: Seq<bool>, n: int) -> int
    decreases n,
{
    if n <= 0 {
        -1
    } else if keys[n - 1] {
        n - 1
    } else {
        last_pressed(keys, n - 1)
    }
}

/// The keypress poll: store the highest pressed key in Vx, or rewind the
/// program counter so the same instruction re-executes on the next call.
pub open spec fn wait_key(s: EmuView, x: int) -> EmuView {
    let k = last_pressed(s.keys, crate::NUM_KEYS as int);
    if k >= 0 {
        set_v(s, x, k as u8)
    } else {
        with_pc(s, (s.pc - 2) as u16)
    }
}

// ---------------------------------------------------------------------------
// Sprite drawing: an n-row, 8-pixel-wide sprite is XOR-blitted at (x0, y0)
// with wraparound at both screen edges; rows are most-significant-bit first.
// A cell of the framebuffer is indexed row-major: index = y * 64 + x.
// ---------------------------------------------------------------------------

pub open spec fn bit_of(byte: u8, k: u8) -> bool {
    (byte >> k) & 1 == 1
}

/// Whether bit `b` of a sprite row drawn at column x0 lands on column px
/// and is set.
pub open spec fn col_hit(byte: u8, x0: int, px: int, b: int) -> bool {
    px == (x0 + b) % (crate::SCREEN_X as int) && bit_of(byte, (7 - b) as u8)
}

/// Whether a sprite row drawn at column x0 flips the pixel in column px.
pub open spec fn row_hit(byte: u8, x0: int, px: int) -> bool {
    exists|b: int| 0 <= b < 8 && #[trigger] col_hit(byte, x0, px, b)
}

/// Whether row `r` of the sprite drawn at (x0, y0) lands on row py and flips
/// the pixel in column px.
pub open spec fn row_flip(sprite: Seq<u8>, x0: int, y0: int, px: int, py: int, r: int) -> bool {
    py == (y0 + r) % (crate::SCREEN_Y as int) && row_hit(sprite[r], x0, px)
}

/// Whether the sprite drawn at (x0, y0) flips the pixel at (px, py).
pub open spec fn sprite_flips(sprite: Seq<u8>, x0: int, y0: int, px: int, py: int) -> bool {
    exists|r: int| 0 <= r < sprite.len() && #[trigger] row_flip(sprite, x0, y0, px, py, r)
}

/// The framebuffer after the XOR blit.
pub open spec fn draw_screen(screen: Seq<bool>, sprite: Seq<u8>, x0: int, y0: int) -> Seq<bool> {
    Seq::new(
        screen.len(),
        |idx: int|
            screen[idx] != sprite_flips(
                sprite,
                x0,
                y0,
                idx % (crate::SCREEN_X as int),
                idx / (crate::SCREEN_X as int),
            ),
    )
}

/// Whether the blit turns off the lit pixel at cell `idx`.
pub open spec fn collides_at(screen: Seq<bool>, sprite: Seq<u8>, x0: int, y0: int, idx: int) -> bool {
    screen[idx] && sprite_flips(
        sprite,
        x0,
        y0,
        idx % (crate::SCREEN_X as int),
        idx / (crate::SCREEN_X as int),
    )
}

/// Whether the blit turns off any pixel that was lit: the collision flag.
pub open spec fn draw_collision(screen: Seq<bool>, sprite: Seq<u8>, x0: int, y0: int) -> bool {
    exists|idx: int|
        0 <= idx < screen.len() && #[trigger] collides_at(screen, sprite, x0, y0, idx)
}

/// The sprite of `n` rows at the index register drawn at (Vx, Vy): the
/// framebuffer is XOR-blitted and the flag register records a collision.
pub open spec fn draw_state(s: EmuView, x: int, y: int, n: int) -> EmuView {
    let sprite = s.ram.subrange(s.i as int, s.i + n);
    let col = draw_collision(s.screen, sprite, s.v[x] as int, s.v[y] as int);
    EmuView {
        screen: draw_screen(s.screen, sprite, s.v[x] as int, s.v[y] as int),
        v: s.v.update(0xF, if col { 1u8 } else { 0u8 }),
        ..s
    }
}

// ---------------------------------------------------------------------------
// Fetch and execute.
// ---------------------------------------------------------------------------

/// A fetch faults when the second instruction byte lies outside memory.
pub open spec fn fetch_fault(s: EmuView) -> bool {
    s.pc + 1 >= crate::RAM_SIZE
}

/// The big-endian instruction word at the program counter.
pub open spec fn instr_word(s: EmuView) -> u16 {
    (s.ram[s.pc as int] * 0x100 + s.ram[s.pc as int + 1]) as u16
}

/// The state right after a fetch: the program counter has moved past the
/// instruction word.
pub open spec fn after_fetch(s: EmuView) -> EmuView {
    with_pc(s, (s.pc + 2) as u16)
}

/// The effect of one decoded instruction on the fetched state `s` (the
/// program counter already points past the word). `rand` stands for the byte
/// the random-byte opcode draws; every other opcode ignores it.
pub open spec fn exec_instr(s: EmuView, w: u16, rand: u8) -> StepRes {
    let d1 = nib1(w);
    let d4 = nib4(w);
    let x = nib2(w) as int;
    let y = nib3(w) as int;
    let kk = low_byte(w);
    let nnn = low12(w);
    if w == 0x00E0 {
        StepRes::Next(clear_screen(s))
    } else if w == 0x00EE {
        if s.stack.len() == 0 {
            StepRes::Fault(EmuError::StackUnderflow)
        } else {
            StepRes::Next(ret_state(s))
        }
    } else if d1 == 0x1 {
        StepRes::Next(with_pc(s, nnn))
    } else if d1 == 0x2 {
        if s.stack.len() >= crate::STACK_SIZE {
            StepRes::Fault(EmuError::StackOverflow)
        } else {
            StepRes::Next(call_state(s, nnn))
        }
    } else if d1 == 0x3 {
        StepRes::Next(skip_if(s, s.v[x] == kk))
    } else if d1 == 0x4 {
        StepRes::Next(skip_if(s, s.v[x] != kk))
    } else if d1 == 0x5 && d4 == 0x0 {
        StepRes::Next(skip_if(s, s.v[x] == s.v[y]))
    } else if d1 == 0x6 {
        StepRes::Next(set_v(s, x, kk))
    } else if d1 == 0x7 {
        StepRes::Next(set_v(s, x, ((s.v[x] + kk) % 256) as u8))
    } else if d1 == 0x8 && d4 == 0x0 {
        StepRes::Next(set_v(s, x, s.v[y]))
    } else if d1 == 0x8 && d4 == 0x1 {
        StepRes::Next(set_v(s, x, s.v[x] | s.v[y]))
    } else if d1 == 0x8 && d4 == 0x2 {
        StepRes::Next(set_v(s, x, s.v[x] & s.v[y]))
    } else if d1 == 0x8 && d4 == 0x3 {
        StepRes::Next(set_v(s, x, s.v[x] ^ s.v[y]))
    } else if d1 == 0x8 && d4 == 0x4 {
        StepRes::Next(alu_add(s, x, y))
    } else if d1 == 0x8 && d4 == 0x5 {
        StepRes::Next(alu_sub(s, x, y))
    } else if d1 == 0x8 && d4 == 0x6 {
        StepRes::Next(alu_shr(s, x))
    } else if d1 == 0x8 && d4 == 0x7 {
        StepRes::Next(alu_sub_rev(s, x, y))
    } else if d1 == 0x8 && d4 == 0xE {
        StepRes::Next(alu_shl(s, x))
    } else if d1 == 0x9 && d4 == 0x0 {
        StepRes::Next(skip_if(s, s.v[x] != s.v[y]))
    } else if d1 == 0xA {
        StepRes::Next(with_i(s, nnn))
    } else if d1 == 0xB {
        StepRes::Next(with_pc(s, (nnn + s.v[0]) as u16))
    } else if d1 == 0xC {
        StepRes::Next(set_v(s, x, rand & kk))
    } else if d1 == 0xD {
        if s.i + d4 > crate::RAM_SIZE {
            StepRes::Fault(EmuError::OutOfBounds)
        } else {
            StepRes::Next(draw_state(s, x, y, d4 as int))
        }
    } else if d1 == 0xE && kk == 0x9E {
        if s.v[x] >= crate::NUM_KEYS {
            StepRes::Fault(EmuError::OutOfBounds)
        } else {
            StepRes::Next(skip_if(s, s.keys[s.v[x] as int]))
        }
    } else if d1 == 0xE && kk == 0xA1 {
        if s.v[x] >= crate::NUM_KEYS {
            StepRes::Fault(EmuError::OutOfBounds)
        } else {
            StepRes::Next(skip_if(s, !s.keys[s.v[x] as int]))
        }
    } else if d1 == 0xF && kk == 0x07 {
        StepRes::Next(set_v(s, x, s.dt))
    } else if d1 == 0xF && kk == 0x0A {
        StepRes::Next(wait_key(s, x))
    } else if d1 == 0xF && kk == 0x15 {
        StepRes::Next(with_dt(s, s.v[x]))
    } else if d1 == 0xF && kk == 0x18 {
        StepRes::Next(with_st(s, s.v[x]))
    } else if d1 == 0xF && kk == 0x1E {
        StepRes::Next(index_add_state(s, x))
    } else if d1 == 0xF && kk == 0x29 {
        StepRes::Next(font_index_state(s, x))
    } else if d1 == 0xF && kk == 0x33 {
        if s.i + 2 >= crate::RAM_SIZE {
            StepRes::Fault(EmuError::OutOfBounds)
        } else {
            StepRes::Next(bcd_state(s, x))
        }
    } else if d1 == 0xF && kk == 0x55 {
        if s.i + x + 1 > crate::RAM_SIZE {
            StepRes::Fault(EmuError::OutOfBounds)
        } else {
            StepRes::Next(store_state(s, x))
        }
    } else if d1 == 0xF && kk == 0x65 {
        if s.i + x + 1 > crate::RAM_SIZE {
            StepRes::Fault(EmuError::OutOfBounds)
        } else {
            StepRes::Next(load_state(s, x))
        }
    } else {
        StepRes::Fault(EmuError::InvalidOpcode(w))
    }
}

/// One whole machine step: fetch the word at the program counter, advance it,
/// and execute. `rand` stands for the byte the random-byte opcode draws.
pub open spec fn step(pre: EmuView, rand: u8) -> StepRes {
    if fetch_fault(pre) {
        StepRes::Fault(EmuError::OutOfBounds)
    } else {
        exec_instr(after_fetch(pre), instr_word(pre), rand)
    }
}

// ---------------------------------------------------------------------------
// Timers. Advancing them is a separate operation from instruction execution;
// the beep is signalled exactly on the tick that takes the sound timer
// through 1, never while it stays at 0.
// ---------------------------------------------------------------------------

pub open spec fn timer_after(t: u8) -> u8 {
    if t > 0 {
        (t - 1) as u8
    } else {
        0u8
    }
}

pub open spec fn beep_now(st: u8) -> bool {
    st == 1
}

// ---------------------------------------------------------------------------
// Construction and program load.
// ---------------------------------------------------------------------------

/// The built-in font: 16 glyphs of 5 bytes each, one row per byte, most
/// significant bit first, 8x5 pixels per glyph.
pub open spec fn font_seq() -> Seq<u8> {
    seq![
        0xF0u8, 0x90, 0x90, 0x90, 0xF0, // 0
        0x20, 0x60, 0x20, 0x20, 0x70, // 1
        0xF0, 0x10, 0xF0, 0x80, 0xF0, // 2
        0xF0, 0x10, 0xF0, 0x10, 0xF0, // 3
        0x90, 0x90, 0xF0, 0x10, 0x10, // 4
        0xF0, 0x80, 0xF0, 0x10, 0xF0, // 5
        0xF0, 0x80, 0xF0, 0x90, 0xF0, // 6
        0xF0, 0x10, 0x20, 0x40, 0x40, // 7
        0xF0, 0x90, 0xF0, 0x90, 0xF0, // 8
        0xF0, 0x90, 0xF0, 0x10, 0xF0, // 9
        0xF0, 0x90, 0xF0, 0x90, 0x90, // A
        0xE0, 0x90, 0xE0, 0x90, 0xE0, // B
        0xF0, 0x80, 0x80, 0x80, 0xF0, // C
        0xE0, 0x90, 0x90, 0x90, 0xE0, // D
        0xF0, 0x80, 0xF0, 0x80, 0xF0, // E
        0xF0, 0x80, 0xF0, 0x80, 0x80, // F
    ]
}

/// Memory as construction leaves it: the font in the first 80 bytes, zero
/// everywhere else.
pub open spec fn initial_ram() -> Seq<u8> {
    Seq::new(crate::RAM_SIZE as nat, |j: int| if j < 80 { font_seq()[j] } else { 0u8 })
}

/// The freshly constructed machine: font loaded, program counter at the
/// start address, everything else zeroed.
pub open spec fn initial_view() -> EmuView {
    EmuView {
        pc: crate::START_ADDRESS,
        stack: Seq::empty(),
        ram: initial_ram(),
        v: Seq::new(crate::NUM_REGS as nat, |j: int| 0u8),
        i: 0,
        dt: 0,
        st: 0,
        keys: Seq::new(crate::NUM_KEYS as nat, |j: int| false),
        screen: Seq::new((crate::SCREEN_X * crate::SCREEN_Y) as nat, |j: int| false),
    }
}

/// Memory after a program image lands at the start address.
pub open spec fn load_ram(ram: Seq<u8>, data: Seq<u8>) -> Seq<u8> {
    Seq::new(
        ram.len(),
        |j: int|
            if crate::START_ADDRESS <= j < crate::START_ADDRESS + data.len() {
                data[j - crate::START_ADDRESS]
            } else {
                ram[j]
            },
    )
}

} // verus!

//! Laws the machine obeys, stated over the step specification in `model` and
//! proved once and for all. Each speaks of every state and every operand, not
//! of chosen values; the flag-register laws leave out the one selector on
//! which the flag is itself the destination and is overwritten by the result.

use vstd::prelude::*;

use crate::model::EmuError;
use crate::model::EmuView;
use crate::model::StepRes;
use crate::model::call_state;
use crate::model::exec_instr;
use crate::model::low12;
use crate::model::low_byte;
use crate::model::nib1;
use crate::model::nib2;
use crate::model::nib3;
use crate::model::nib4;
use crate::model::ret_state;
use crate::model::store_regs;
use crate::model::store_state;
use crate::model::lemma_nibbles;
use crate::model::timer_after;
use crate::model::beep_now;

verus! {

/// For all 8-bit values a, b: add-with-carry (8xy4) sets the result register
/// to (a + b) mod 256 and the flag register to 1 exactly when a + b >= 256.
/// The destination must not itself be the flag register, which the result
/// overwrites last.
pub proof fn lemma_add_carry(s: EmuView, w: u16, rand: u8)
    requires
        s.wf(),
        nib1(w) == 0x8,
        nib4(w) == 0x4,
        nib2(w) != 0xF,
    ensures
        exec_instr(s, w, rand) matches StepRes::Next(t) && {
            let a = s.v[nib2(w) as int];
            let b = s.v[nib3(w) as int];
            &&& t.v[nib2(w) as int] == (a + b) % 256
            &&& t.v[0xF] == (if a + b >= 256 { 1u8 } else { 0u8 })
        },
{
    lemma_nibbles(w);
}

/// For all 8-bit values a, b: subtract-with-borrow (8xy5) sets the result
/// register to (a - b) mod 256 and the flag register to 1 exactly when
/// a >= b (no borrow). The destination must not itself be the flag register.
pub proof fn lemma_sub_borrow(s: EmuView, w: u16, rand: u8)
    requires
        s.wf(),
        nib1(w) == 0x8,
        nib4(w) == 0x5,
        nib2(w) != 0xF,
    ensures
        exec_instr(s, w, rand) matches StepRes::Next(t) && {
            let a = s.v[nib2(w) as int];
            let b = s.v[nib3(w) as int];
            &&& t.v[nib2(w) as int] == (a - b) % 256
            &&& t.v[0xF] == (if a >= b { 1u8 } else { 0u8 })
        },
{
    lemma_nibbles(w);
    let a = s.v[nib2(w) as int] as int;
    let b = s.v[nib3(w) as int] as int;
    vstd::arithmetic::div_mod::lemma_mod_add_multiples_vanish(a - b, 256);
}

/// Shift-right (8xy6) sets the flag register to exactly the pre-shift least
/// significant bit and halves the register. The shifted register must not
/// itself be the flag register.
pub proof fn lemma_shift_right_flag(s: EmuView, w: u16, rand: u8)
    requires
        s.wf(),
        nib1(w) == 0x8,
        nib4(w) == 0x6,
        nib2(w) != 0xF,
    ensures
        exec_instr(s, w, rand) matches StepRes::Next(t) && {
            let a = s.v[nib2(w) as int];
            &&& t.v[0xF] == a % 2
            &&& t.v[nib2(w) as int] == a / 2
        },
{
    lemma_nibbles(w);
}

/// Shift-left (8xyE) sets the flag register to exactly the pre-shift most
/// significant bit and doubles the register mod 256. The shifted register
/// must not itself be the flag register.
pub proof fn lemma_shift_left_flag(s: EmuView, w: u16, rand: u8)
    requires
        s.wf(),
        nib1(w) == 0x8,
        nib4(w) == 0xE,
        nib2(w) != 0xF,
    ensures
        exec_instr(s, w, rand) matches StepRes::Next(t) && {
            let a = s.v[nib2(w) as int];
            &&& t.v[0xF] == a / 128
            &&& t.v[nib2(w) as int] == (a * 2) % 256
        },
{
    lemma_nibbles(w);
}

/// Round trip: storing V0..Vx at the index register (Fx55) and later loading
/// with the same index register and the same x (Fx65) restores V0..Vx to
/// their stored values, whatever happened in between to the registers and to
/// memory outside the written range.
pub proof fn lemma_store_load_round_trip(s: EmuView, u: EmuView, w1: u16, w2: u16, r1: u8, r2: u8)
    requires
        s.wf(),
        u.wf(),
        nib1(w1) == 0xF,
        low_byte(w1) == 0x55,
        nib1(w2) == 0xF,
        low_byte(w2) == 0x65,
        nib2(w2) == nib2(w1),
        s.i + nib2(w1) + 1 <= crate::RAM_SIZE,
        u.i == s.i,
        forall|j: int|
            s.i <= j <= s.i + nib2(w1) ==> u.ram[j] == store_regs(
                s.ram,
                s.v,
                s.i as int,
                nib2(w1) as int,
            )[j],
    ensures
        exec_instr(s, w1, r1) == StepRes::Next(store_state(s, nib2(w1) as int)),
        exec_instr(u, w2, r2) matches StepRes::Next(t) && forall|j: int|
            0 <= j <= nib2(w1) ==> t.v[j] == s.v[j],
{
    lemma_nibbles(w1);
    lemma_nibbles(w2);
}

/// Stack discipline, first half: a call (2nnn) with fewer than 16 return
/// addresses pending succeeds and leaves exactly one more pending, so 16
/// consecutive calls from an empty stack succeed; a call with 16 pending is
/// a stack-overflow fault.
pub proof fn lemma_call_depth(s: EmuView, w: u16, rand: u8)
    requires
        s.wf(),
        nib1(w) == 0x2,
    ensures
        s.stack.len() < crate::STACK_SIZE ==> exec_instr(s, w, rand) == StepRes::Next(
            call_state(s, low12(w)),
        ) && call_state(s, low12(w)).stack.len() == s.stack.len() + 1,
        s.stack.len() == crate::STACK_SIZE ==> exec_instr(s, w, rand) == StepRes::Fault(
            EmuError::StackOverflow,
        ),
{
    lemma_nibbles(w);
}

/// Stack discipline, second half: pairing a call with a return restores the
/// program counter to the address immediately after the call instruction
/// (the counter already fetched past it) and leaves the pending addresses as
/// they were, whatever else ran in between without touching the stack.
pub proof fn lemma_call_then_return(s: EmuView, u: EmuView, w: u16, r1: u8, r2: u8)
    requires
        s.wf(),
        nib1(w) == 0x2,
        s.stack.len() < crate::STACK_SIZE,
        u.wf(),
        u.stack == call_state(s, low12(w)).stack,
    ensures
        exec_instr(s, w, r1) == StepRes::Next(call_state(s, low12(w))),
        exec_instr(u, 0x00EE, r2) == StepRes::Next(ret_state(u)),
        ret_state(u).pc == s.pc,
        ret_state(u).stack == s.stack,
{
    lemma_nibbles(w);
    assert(u.stack.drop_last() =~= s.stack);
}

/// Timer idempotence at zero: advancing timers that already read 0 leaves
/// them at 0 and never signals a beep.
pub proof fn lemma_timers_idle_at_zero()
    ensures
        timer_after(0) == 0,
        !beep_now(0),
{
}

/// Beep signaling: the beep is owed exactly on the tick that takes the sound
/// timer from 1 to 0, and not on later ticks while it stays at 0.
pub proof fn lemma_beep_exactly_once()
    ensures
        beep_now(1),
        timer_after(1) == 0,
        !beep_now(timer_after(1)),
{
}

/// The flag-register caveat is real: with the flag register itself as the
/// destination of add-with-carry, the sum overwrites the carry.
pub proof fn lemma_add_flag_destination(s: EmuView, w: u16, rand: u8)
    requires
        s.wf(),
        nib1(w) == 0x8,
        nib4(w) == 0x4,
        nib2(w) == 0xF,
    ensures
        exec_instr(s, w, rand) matches StepRes::Next(t) && t.v[0xF] == (s.v[0xF] + s.v[nib3(
            w,
        ) as int]) % 256,
{
    lemma_nibbles(w);
}

/// Every successful step preserves the machine's structural invariants: the
/// sizes of memory, registers, keys and framebuffer, and the 16-entry bound
/// on the call stack.
pub proof fn lemma_step_preserves_wf(s: EmuView, rand: u8)
    requires
        s.wf(),
    ensures
        crate::model::step(s, rand) matches StepRes::Next(t) ==> t.wf(),
{
    if !crate::model::fetch_fault(s) {
        lemma_nibbles(crate::model::instr_word(s));
    }
}

} // verus!

//! What holds of the machine in general: facts about single steps and about
//! runs of any length, proved from the model in `machine`.

use vstd::prelude::*;

use crate::error::Chip8Error;
use crate::instruction::{decoded, with_fields, word_of, Instruction, Opcodes};
use crate::machine::{
    decayed, last_pressed, span_fault, Machine, FONT_SET, MEMORY_SIZE, PROGRAM_START,
};
use crate::screen::{lemma_blit, lemma_redraw_collides, lemma_redraw_restores, marks, CELLS};

verus! {

/// Decoding depends on the two bytes alone: the address only ever shows in
/// the error for an unknown word, and a decoded instruction's operand fields
/// are fixed slices of the word.
pub proof fn lemma_decoding_is_pure(hi: u8, lo: u8, here: usize, there: usize)
    ensures
        decoded(hi, lo, here) is Ok <==> decoded(hi, lo, there) is Ok,
        decoded(hi, lo, here) matches Ok(inst) ==> decoded(hi, lo, there) == Ok::<
            Instruction,
            Chip8Error,
        >(inst) && inst == with_fields(inst.op, word_of(hi, lo)) && inst.wf(),
        decoded(hi, lo, here) is Err ==> decoded(hi, lo, here) == Err::<Instruction, Chip8Error>(
            Chip8Error::UnknownOpcode { opcode: word_of(hi, lo), pc: here },
        ),
{
}

/// After loading, the font stands at the bottom of memory and the program,
/// byte for byte, from `PROGRAM_START` on.
pub proof fn lemma_loaded(m: Machine, rom: Seq<u8>)
    requires
        PROGRAM_START + rom.len() <= MEMORY_SIZE,
    ensures
        m.loaded(rom).mem.len() == MEMORY_SIZE,
        forall|a: int| 0 <= a < 80 ==> #[trigger] m.loaded(rom).mem[a] == FONT_SET@[a],
        forall|j: int|
            0 <= j < rom.len() ==> #[trigger] m.loaded(rom).mem[PROGRAM_START + j] == rom[j],
{
}

/// `last_pressed` finds the highest key that is down: the key it names is
/// down and no higher one is, and it names none only if none is down.
pub proof fn lemma_last_pressed(keys: Seq<bool>, n: nat)
    requires
        n <= keys.len(),
        n <= 256,
    ensures
        match last_pressed(keys, n) {
            Some(key) => key < n && keys[key as int] && forall|j: int| key < j < n ==> !keys[j],
            None => forall|j: int| 0 <= j < n ==> !keys[j],
        },
    decreases n,
{
    if n > 0 && !keys[n - 1] {
        lemma_last_pressed(keys, (n - 1) as nat);
    }
}

/// A step keeps a well-formed machine well-formed.
pub proof fn lemma_step_preserves_wf(m: Machine, entropy: u8)
    requires
        m.wf(),
    ensures
        m.step(entropy) matches Ok(next) ==> next.wf(),
{
    if let Ok(inst) = m.fetch() {
        lemma_decoding_is_pure(m.mem[m.pc as int], m.mem[m.pc + 1], m.pc, m.pc);
        if inst.op == Opcodes::DRW {
            lemma_blit(m.screen, m.vx(inst), m.vy(inst), m.sprite(inst));
        }
    }
}

/// So does a run of any length.
pub proof fn lemma_steps_preserve_wf(m: Machine, entropy: Seq<u8>)
    requires
        m.wf(),
    ensures
        m.steps(entropy) matches Ok(last) ==> last.wf(),
    decreases entropy.len(),
{
    if entropy.len() > 0 {
        lemma_steps_preserve_wf(m, entropy.drop_last());
        if let Ok(mid) = m.steps(entropy.drop_last()) {
            lemma_step_preserves_wf(mid, entropy.last());
        }
    }
}

/// Only the random operation looks at the random byte: any other step is
/// the same whatever the byte.
pub proof fn lemma_entropy_only_feeds_rnd(m: Machine, one: u8, other: u8)
    requires
        !m.draws_entropy(),
    ensures
        m.step(one) == m.step(other),
{
}

/// A step that clears the screen leaves every cell off.
pub proof fn lemma_cls_blanks(m: Machine, entropy: u8)
    requires
        m.at_op(Opcodes::CLS),
    ensures
        m.step(entropy) matches Ok(next) && forall|k: int|
            0 <= k < CELLS ==> #[trigger] next.screen[k] == 0,
{
}

/// The same draw executed twice in a row, at coordinates that the collision
/// flag does not overwrite, restores the screen, and the second draw sets
/// `VF` exactly when the first left a mark: so it always does when a sprite
/// with a set bit is drawn over a clear area.
pub proof fn lemma_drw_twice(m: Machine, first: u8, second: u8)
    requires
        m.wf(),
        m.at_op(Opcodes::DRW),
        m.fetch().unwrap().x != 0xF,
        m.fetch().unwrap().y != 0xF,
        m.advance(2).fetch() == m.fetch(),
        span_fault(m.i as int, m.fetch().unwrap().n as int) is None,
    ensures
        m.step(first) matches Ok(once) && (once.step(second) matches Ok(twice) && twice.screen
            == m.screen && (twice.regs[0xF] == 1 <==> marks(
            m.screen,
            m.vx(m.fetch().unwrap()),
            m.vy(m.fetch().unwrap()),
            m.sprite(m.fetch().unwrap()),
        ))),
{
    let draw = m.fetch().unwrap();
    lemma_decoding_is_pure(m.mem[m.pc as int], m.mem[m.pc + 1], m.pc, m.pc);
    lemma_blit(m.screen, m.vx(draw), m.vy(draw), m.sprite(draw));
    lemma_redraw_restores(m.screen, m.vx(draw), m.vy(draw), m.sprite(draw));
    lemma_redraw_collides(m.screen, m.vx(draw), m.vy(draw), m.sprite(draw));
}

/// Each step lets each timer decay by one, never below zero, counted from
/// the value that the instruction left: the old value, unless the
/// instruction itself set that timer.
pub proof fn lemma_step_timers(m: Machine, entropy: u8)
    ensures
        m.step(entropy) matches Ok(next) ==> {
            &&& next.dt == decayed(
                if m.at_op(Opcodes::LD_DTV) {
                    m.vx(m.fetch().unwrap())
                } else {
                    m.dt
                },
            )
            &&& next.st == decayed(
                if m.at_op(Opcodes::LD_STV) {
                    m.vx(m.fetch().unwrap())
                } else {
                    m.st
                },
            )
        },
{
}

/// Over a run in which no instruction sets the delay timer, the timer
/// falls by one per step until it reaches zero, and then stays there.
pub proof fn lemma_delay_timer_decays(m: Machine, entropy: Seq<u8>)
    requires
        m.steps(entropy) is Ok,
        forall|j: int|
            0 <= j < entropy.len() ==> !(#[trigger] m.steps(entropy.take(j))).unwrap().at_op(
                Opcodes::LD_DTV,
            ),
    ensures
        m.steps(entropy).unwrap().dt == if m.dt >= entropy.len() {
            m.dt - entropy.len()
        } else {
            0
        },
    decreases entropy.len(),
{
    if entropy.len() > 0 {
        let shorter = entropy.drop_last();
        assert forall|j: int| 0 <= j < shorter.len() implies !(#[trigger] m.steps(
            shorter.take(j),
        )).unwrap().at_op(Opcodes::LD_DTV) by {
            assert(shorter.take(j) =~= entropy.take(j));
        }
        lemma_delay_timer_decays(m, shorter);
        lemma_step_timers(m.steps(shorter).unwrap(), entropy.last());
    }
}

/// Over a run in which no instruction sets the sound timer, the timer
/// falls by one per step until it reaches zero, and then stays there.
pub proof fn lemma_sound_timer_decays(m: Machine, entropy: Seq<u8>)
    requires
        m.steps(entropy) is Ok,
        forall|j: int|
            0 <= j < entropy.len() ==> !(#[trigger] m.steps(entropy.take(j))).unwrap().at_op(
                Opcodes::LD_STV,
            ),
    ensures
        m.steps(entropy).unwrap().st == if m.st >= entropy.len() {
            m.st - entropy.len()
        } else {
            0
        },
    decreases entropy.len(),
{
    if entropy.len() > 0 {
        let shorter = entropy.drop_last();
        assert forall|j: int| 0 <= j < shorter.len() implies !(#[trigger] m.steps(
            shorter.take(j),
        )).unwrap().at_op(Opcodes::LD_STV) by {
            assert(shorter.take(j) =~= entropy.take(j));
        }
        lemma_sound_timer_decays(m, shorter);
        lemma_step_timers(m.steps(shorter).unwrap(), entropy.last());
    }
}

/// The machine stands at a wait for a key, and no key is down.
pub open spec fn awaits_key(m: Machine) -> bool {
    &&& m.keys.len() == 16
    &&& m.at_op(Opcodes::LD_VK)
    &&& forall|k: int| 0 <= k < 16 ==> !m.keys[k]
}

/// While no key is down, a machine that waits for a key goes nowhere:
/// however many steps it takes, it still stands at the same instruction,
/// still waiting, and only its timers have moved.
pub proof fn lemma_waits_for_key(m: Machine, entropy: Seq<u8>)
    requires
        awaits_key(m),
    ensures
        m.steps(entropy) matches Ok(last) && last.pc == m.pc && awaits_key(last) && last == (Machine {
            dt: if m.dt >= entropy.len() {
                (m.dt - entropy.len()) as u8
            } else {
                0
            },
            st: if m.st >= entropy.len() {
                (m.st - entropy.len()) as u8
            } else {
                0
            },
            ..m
        }),
    decreases entropy.len(),
{
    if entropy.len() > 0 {
        lemma_waits_for_key(m, entropy.drop_last());
        let mid = m.steps(entropy.drop_last()).unwrap();
        lemma_last_pressed(mid.keys, 16);
    }
}

/// Once a key is down, the wait ends with the next step: the register
/// receives the highest key that is down, and execution moves on.
pub proof fn lemma_key_ends_wait(m: Machine, entropy: u8, key: int)
    requires
        m.wf(),
        m.at_op(Opcodes::LD_VK),
        0 <= key < 16,
        m.keys[key],
    ensures
        m.step(entropy) matches Ok(next) && next.pc == m.pc + 2 && ({
            let held = next.regs[m.fetch().unwrap().x as int];
            held < 16 && m.keys[held as int] && forall|j: int| held < j < 16 ==> !m.keys[j]
        }),
{
    lemma_last_pressed(m.keys, 16);
    lemma_decoding_is_pure(m.mem[m.pc as int], m.mem[m.pc + 1], m.pc, m.pc);
}

/// A call followed by a return comes back to the instruction after the
/// call. The call puts its own address on top of the stack and jumps to its
/// target; the return takes that address off again and resumes two bytes
/// after it, so the stack is as it was before the call.
pub proof fn lemma_call_then_return(m: Machine, first: u8, second: u8)
    requires
        m.at_op(Opcodes::CALL),
        m.call(m.fetch().unwrap()).at_op(Opcodes::RET),
    ensures
        m.step(first) matches Ok(called) && called.pc == m.fetch().unwrap().nnn
            && called.stack == m.stack.push(m.pc as u16) && called.stack.last() == m.pc && (
        called.step(second) matches Ok(returned) && returned.pc == m.pc + 2 && returned.stack
            == m.stack),
{
}

/// A return with nothing on the stack is a fault, and the only way for a
/// return to fail.
pub proof fn lemma_return_needs_call(m: Machine, entropy: u8)
    requires
        m.at_op(Opcodes::RET),
    ensures
        m.stack.len() == 0 <==> m.step(entropy) == Err::<Machine, Chip8Error>(
            Chip8Error::StackUnderflow,
        ),
        m.stack.len() > 0 ==> (m.step(entropy) matches Ok(next) && next.pc == m.stack.last() + 2
            && next.stack == m.stack.drop_last()),
{
}

} // verus!

use vstd::prelude::*;

use crate::error::Error;
use crate::instruction::{dispatch_spec, lemma_dispatch_wf, lemma_fields_lossless, Fields, Instruction};
use crate::machine::{
    first_pressed_from, Effect, Machine, FLAG_REGISTER, REGISTER_COUNT, STACK_TOP,
};
use crate::memory::{word_in_bounds, MEMORY_SIZE};

verus! {

/// The instruction that a machine is about to carry out is well formed.
pub proof fn lemma_next_instruction_wf(machine: Machine)
    ensures
        machine.next_instruction() matches Ok(instruction) ==> instruction.wf()
            && word_in_bounds(machine.pc),
{
    if let Ok(opcode) = machine.fetch() {
        lemma_fields_lossless(opcode);
        lemma_dispatch_wf(Fields::of(opcode));
    }
}

/// Carrying out a well-formed instruction on a well-formed machine whose
/// program counter is inside memory gives a well-formed machine.
pub proof fn lemma_execute_preserves_wf(machine: Machine, instruction: Instruction, random: u8)
    requires
        machine.wf(),
        instruction.wf(),
        word_in_bounds(machine.pc),
    ensures
        machine.execute(instruction, random).machine.wf(),
{
}

/// A step of a well-formed machine gives a well-formed machine: in
/// particular the stack never grows beyond its capacity.
pub proof fn lemma_step_preserves_wf(machine: Machine, random: u8)
    requires
        machine.wf(),
    ensures
        machine.step(random).machine.wf(),
{
    lemma_next_instruction_wf(machine);
    if let Ok(instruction) = machine.next_instruction() {
        lemma_execute_preserves_wf(machine, instruction, random);
    }
}

/// A burst of steps of a well-formed machine gives a well-formed machine.
pub proof fn lemma_run_burst_preserves_wf(machine: Machine, entropy: Seq<u8>)
    requires
        machine.wf(),
    ensures
        machine.run_burst(entropy).machine.wf(),
    decreases entropy.len(),
{
    if entropy.len() > 0 {
        lemma_step_preserves_wf(machine, entropy[0]);
        lemma_run_burst_preserves_wf(machine.step(entropy[0]).machine, entropy.skip(1));
    }
}

/// A step that fails leaves the machine exactly as it was.
pub proof fn lemma_failed_step_changes_nothing(machine: Machine, random: u8)
    ensures
        machine.step(random).result is Err ==> machine.step(random).machine == machine,
{
}

/// Where the word at the program counter selects no operation, the step
/// fails with `InvalidOpcode` and leaves the machine exactly as it was:
/// memory, registers, stack and program counter.
pub proof fn lemma_unknown_word_is_refused(machine: Machine, random: u8)
    requires
        machine.fetch() matches Ok(opcode) && dispatch_spec(Fields::of(opcode)) is Err,
    ensures
        machine.step(random) == machine.fails(Error::InvalidOpcode),
        machine.step(random).machine == machine,
{
}

/// Where the program counter is so high that the instruction word would
/// reach past the end of memory, the step fails with `AddressOutOfBounds`
/// and leaves the machine exactly as it was.
pub proof fn lemma_fetch_past_memory_is_refused(machine: Machine, random: u8)
    requires
        !word_in_bounds(machine.pc),
    ensures
        machine.step(random) == machine.fails(Error::AddressOutOfBounds),
{
}

/// The data register that an instruction stores its result in, if it
/// stores one.
pub open spec fn target_register(instruction: Instruction) -> Option<u8> {
    match instruction {
        Instruction::LoadImm { x, .. }
        | Instruction::AddImm { x, .. }
        | Instruction::Move { x, .. }
        | Instruction::Or { x, .. }
        | Instruction::And { x, .. }
        | Instruction::Xor { x, .. }
        | Instruction::AddReg { x, .. }
        | Instruction::SubReg { x, .. }
        | Instruction::SubRegRev { x, .. }
        | Instruction::ShiftRight { x }
        | Instruction::ShiftLeft { x }
        | Instruction::RandAnd { x, .. }
        | Instruction::LoadDelay { x }
        | Instruction::WaitKey { x } => Some(x),
        _ => None,
    }
}

/// Whether an instruction leaves its carry, borrow or shifted-out bit in the
/// flag register.
pub open spec fn sets_flag(instruction: Instruction) -> bool {
    match instruction {
        Instruction::AddReg { .. }
        | Instruction::SubReg { .. }
        | Instruction::SubRegRev { .. }
        | Instruction::ShiftRight { .. }
        | Instruction::ShiftLeft { .. } => true,
        _ => false,
    }
}

/// A step changes no data register but the one that its instruction stores
/// its result in and, for arithmetic with a flag, the flag register: no
/// other register stands in for the flag, and no other operation touches it
/// unless the program names it.
pub proof fn lemma_step_keeps_other_registers(machine: Machine, random: u8, register: u8)
    requires
        machine.wf(),
        register < REGISTER_COUNT,
        machine.next_instruction() matches Ok(instruction) ==> target_register(instruction)
            != Some(register) && !(sets_flag(instruction) && register == FLAG_REGISTER),
    ensures
        machine.step(random).machine.reg(register) == machine.reg(register),
{
    lemma_next_instruction_wf(machine);
}

/// A step changes no byte of memory, but for a call, which changes the two
/// bytes of the stack entry that it fills.
pub proof fn lemma_step_keeps_memory(machine: Machine, random: u8, addr: int)
    requires
        machine.wf(),
        0 <= addr < MEMORY_SIZE,
        machine.next_instruction() matches Ok(Instruction::Call { .. }) ==> addr != machine.sp + 2
            && addr != machine.sp + 3,
    ensures
        machine.step(random).machine.memory[addr] == machine.memory[addr],
{
    lemma_next_instruction_wf(machine);
}

/// The random byte matters to the random operation alone: a step of any
/// other instruction is the same whatever the random source supplied.
pub proof fn lemma_only_rand_reads_random(machine: Machine, random: u8, other: u8)
    requires
        !(machine.next_instruction() matches Ok(Instruction::RandAnd { .. })),
    ensures
        machine.step(random) == machine.step(other),
{
}

/// A jump sets the program counter to its target, whatever the program
/// counter was before, and changes nothing else.
pub proof fn lemma_jump(machine: Machine, addr: u16, random: u8)
    requires
        machine.next_instruction() == Ok::<Instruction, Error>(Instruction::Jump { addr }),
    ensures
        machine.step(random) == (Machine { pc: addr as int, ..machine }).done(),
{
}

/// A skip-if-equal moves the program counter on by 4 where `Vx` equals the
/// immediate and by 2 where it does not, and changes nothing else.
pub proof fn lemma_skip_eq_imm(machine: Machine, x: u8, imm: u8, random: u8)
    requires
        machine.next_instruction() == Ok::<Instruction, Error>(
            Instruction::SkipEqImm { x, imm },
        ),
    ensures
        machine.reg(x) == imm ==> machine.step(random) == (Machine {
            pc: machine.pc + 4,
            ..machine
        }).done(),
        machine.reg(x) != imm ==> machine.step(random) == (Machine {
            pc: machine.pc + 2,
            ..machine
        }).done(),
{
}

/// An addition of registers leaves the sum, wrapped to a byte, in `Vx` and
/// 1 in the flag register where the sum did not fit a byte, 0 where it did.
pub proof fn lemma_add_reg(machine: Machine, x: u8, y: u8, random: u8)
    requires
        machine.wf(),
        machine.next_instruction() == Ok::<Instruction, Error>(Instruction::AddReg { x, y }),
        x != FLAG_REGISTER,
    ensures
        ({
            let after = machine.step(random).machine;
            let sum = machine.reg(x) + machine.reg(y);
            &&& after.reg(x) == if sum > u8::MAX { sum - 256 } else { sum }
            &&& after.reg(FLAG_REGISTER as u8) == if sum > u8::MAX { 1int } else { 0int }
            &&& after.pc == machine.pc + 2
        }),
{
    lemma_next_instruction_wf(machine);
}

/// A shift to the right leaves the lowest bit of `Vx` in the flag register
/// and `Vx`, shifted by one bit, in `Vx`.
pub proof fn lemma_shift_right(machine: Machine, x: u8, random: u8)
    requires
        machine.wf(),
        machine.next_instruction() == Ok::<Instruction, Error>(Instruction::ShiftRight { x }),
        x != FLAG_REGISTER,
    ensures
        ({
            let after = machine.step(random).machine;
            &&& after.reg(x) == machine.reg(x) >> 1
            &&& after.reg(FLAG_REGISTER as u8) == machine.reg(x) & 1
            &&& after.pc == machine.pc + 2
        }),
{
    lemma_next_instruction_wf(machine);
    let v = machine.reg(x);
    assert(v & 1 == if v & 1 != 0 { 1u8 } else { 0u8 }) by (bit_vector);
}

/// A call puts the address of the instruction after it on the stack and
/// continues at its target. If the machine finds a return there, the step
/// after leads back to the instruction after the call, with the stack as it
/// was before the call.
pub proof fn lemma_call_then_return(machine: Machine, addr: u16, random: u8)
    requires
        machine.wf(),
        machine.next_instruction() == Ok::<Instruction, Error>(Instruction::Call { addr }),
        machine.sp + 2 <= STACK_TOP,
    ensures
        ({
            let called = machine.step(random);
            &&& called.result == Ok::<Effect, Error>(Effect::Continue)
            &&& called.machine.pc == addr
            &&& called.machine.stack() == machine.stack().push((machine.pc + 2) as u16)
            &&& called.machine.next_instruction() == Ok::<Instruction, Error>(Instruction::Return)
                ==> {
                let returned = called.machine.step(random);
                &&& returned.result == Ok::<Effect, Error>(Effect::Continue)
                &&& returned.machine == Machine { pc: machine.pc + 2, ..called.machine.pop() }
                &&& returned.machine.sp == machine.sp
                &&& returned.machine.stack() == machine.stack()
            }
        }),
{
}

/// What `first_pressed_from` finds: a pressed key with no pressed key
/// between `from` and it, or nothing where no key from `from` on is pressed.
pub proof fn lemma_first_pressed_from(keys: Seq<bool>, from: int)
    requires
        0 <= from,
        keys.len() <= 256,
    ensures
        match first_pressed_from(keys, from) {
            Some(key) => from <= key < keys.len() && keys[key as int] && forall|k: int|
                from <= k < key ==> !keys[k],
            None => forall|k: int| from <= k < keys.len() ==> !keys[k],
        },
    decreases keys.len() - from,
{
    if from < keys.len() && !keys[from] {
        lemma_first_pressed_from(keys, from + 1);
    }
}

/// The machine after the driver has stepped it once for each byte of
/// `entropy`, whatever the steps returned.
pub open spec fn after_steps(machine: Machine, entropy: Seq<u8>) -> Machine
    decreases entropy.len(),
{
    if entropy.len() == 0 {
        machine
    } else {
        after_steps(machine.step(entropy[0]).machine, entropy.skip(1))
    }
}

/// While no key is pressed, a machine that stands at a wait-key instruction
/// stays exactly as it is, however often it is stepped: in particular its
/// program counter does not move. Every such step, and every burst of them,
/// tells the driver that the machine waits for a key.
pub proof fn lemma_wait_key_blocks(machine: Machine, x: u8, entropy: Seq<u8>)
    requires
        machine.wf(),
        machine.next_instruction() == Ok::<Instruction, Error>(Instruction::WaitKey { x }),
        forall|k: int| 0 <= k < machine.keys.len() ==> !machine.keys[k],
    ensures
        after_steps(machine, entropy) == machine,
        entropy.len() > 0 ==> machine.step(entropy[0]) == machine.yields(Effect::WaitKey),
        entropy.len() > 0 ==> machine.run_burst(entropy) == machine.yields(Effect::WaitKey),
    decreases entropy.len(),
{
    lemma_first_pressed_from(machine.keys, 0);
    if entropy.len() > 0 {
        lemma_wait_key_blocks(machine, x, entropy.skip(1));
    }
}

/// Once a key is pressed, the step of a machine that stands at a wait-key
/// instruction stores the lowest-numbered pressed key in `Vx` and moves the
/// program counter on to the next instruction.
pub proof fn lemma_wait_key_resumes(machine: Machine, x: u8, key: u8, random: u8)
    requires
        machine.wf(),
        machine.next_instruction() == Ok::<Instruction, Error>(Instruction::WaitKey { x }),
        key < machine.keys.len(),
        machine.keys[key as int],
        forall|k: int| 0 <= k < key ==> !machine.keys[k],
    ensures
        machine.step(random) == machine.with_reg(x, key).advance().done(),
        machine.step(random).machine.pc == machine.pc + 2,
        machine.step(random).machine.reg(x) == key,
{
    lemma_first_pressed_from(machine.keys, 0);
    lemma_next_instruction_wf(machine);
}

/// A burst can be run in two parts: as long as the first part ends without
/// anything for the driver, running the second part after it gives what
/// the whole burst gives; otherwise the whole burst ends where the first
/// part ends.
pub proof fn lemma_run_in_two_bursts(machine: Machine, first: Seq<u8>, second: Seq<u8>)
    ensures
        machine.run_burst(first + second) == if machine.run_burst(first).result == Ok::<Effect, Error>(
            Effect::Continue,
        ) {
            machine.run_burst(first).machine.run_burst(second)
        } else {
            machine.run_burst(first)
        },
    decreases first.len(),
{
    if first.len() > 0 {
        assert((first + second).skip(1) =~= first.skip(1) + second);
        lemma_run_in_two_bursts(machine.step(first[0]).machine, first.skip(1), second);
    }
}

} // verus!

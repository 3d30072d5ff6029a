use vstd::prelude::*;

use crate::error::Error;
use crate::instruction::{dispatch_spec, Fields, Instruction};
use crate::memory::{store_word, word_at, word_in_bounds, MEMORY_SIZE};

verus! {

/// Number of data registers `V0` to `VF`.
pub const REGISTER_COUNT: usize = 16;

/// Number of keys on the keypad.
pub const KEY_COUNT: usize = 16;

/// The data register that arithmetic, shifts and drawing use as their flag.
pub const FLAG_REGISTER: usize = 15;

/// Address at which programs are loaded and execution starts.
pub const PROGRAM_START: u16 = 0x200;

/// Number of return addresses the stack can hold.
pub const STACK_CAPACITY: u16 = 16;

/// Value of the stack pointer when the stack is full. The stack lives in
/// memory: its `k`-th entry, counted from 1, is the word at address `2 * k`,
/// and the stack pointer is the address of the newest entry (0 when empty).
pub const STACK_TOP: u16 = 2 * STACK_CAPACITY;

/// What the driver has to do for the collaborators after a step.
pub ghost enum Effect {
    /// Nothing: the instruction was completed inside the machine.
    Continue,
    /// The display is to be cleared.
    ClearDisplay,
    /// The sprite `rows` is to be drawn at `(x, y)`; whether that erased a
    /// pixel is to be reported back.
    Draw { x: u8, y: u8, rows: Seq<u8> },
    /// The machine is blocked until a key is pressed.
    WaitKey,
}

/// The state of the machine as mathematics.
pub ghost struct Machine {
    /// The bytes of memory.
    pub memory: Seq<u8>,
    /// The data registers `V0` to `VF`.
    pub registers: Seq<u8>,
    /// The address register `I`.
    pub index: int,
    /// The stack pointer.
    pub sp: int,
    /// The program counter.
    pub pc: int,
    /// The delay timer.
    pub delay: u8,
    /// The sound timer.
    pub sound: u8,
    /// For each key whether it is pressed.
    pub keys: Seq<bool>,
}

/// The machine after a step and what the step gave: an effect for the
/// driver, or the error that stopped it.
pub ghost struct Outcome {
    pub machine: Machine,
    pub result: Result<Effect, Error>,
}

/// The lowest-numbered pressed key that is numbered `from` or higher.
pub open spec fn first_pressed_from(keys: Seq<bool>, from: int) -> Option<u8>
    decreases keys.len() - from,
{
    if from < 0 || from >= keys.len() {
        None
    } else if keys[from] {
        Some(from as u8)
    } else {
        first_pressed_from(keys, from + 1)
    }
}

/// The lowest-numbered pressed key.
pub open spec fn first_pressed(keys: Seq<bool>) -> Option<u8> {
    first_pressed_from(keys, 0)
}

impl Machine {
    /// Memory, registers and keypad have their sizes, the address register
    /// holds an address, the stack pointer is even and within the stack, and
    /// the program counter fits 16 bits.
    pub open spec fn wf(self) -> bool {
        &&& self.memory.len() == MEMORY_SIZE
        &&& self.registers.len() == REGISTER_COUNT
        &&& self.keys.len() == KEY_COUNT
        &&& 0 <= self.index < MEMORY_SIZE
        &&& 0 <= self.sp <= STACK_TOP
        &&& self.sp % 2 == 0
        &&& 0 <= self.pc <= u16::MAX
    }

    /// The machine at startup: everything zero, no key pressed, the program
    /// counter at the load address.
    pub open spec fn initial() -> Machine {
        Machine {
            memory: Seq::new(MEMORY_SIZE as nat, |i: int| 0u8),
            registers: Seq::new(REGISTER_COUNT as nat, |i: int| 0u8),
            index: 0,
            sp: 0,
            pc: PROGRAM_START as int,
            delay: 0,
            sound: 0,
            keys: Seq::new(KEY_COUNT as nat, |i: int| false),
        }
    }

    /// The value of data register `x`.
    pub open spec fn reg(self, x: u8) -> u8 {
        self.registers[x as int]
    }

    /// This machine with `value` in data register `x`.
    pub open spec fn with_reg(self, x: u8, value: u8) -> Machine {
        Machine { registers: self.registers.update(x as int, value), ..self }
    }

    /// This machine with the flag register set to 1 if `on`, else to 0.
    pub open spec fn with_flag(self, on: bool) -> Machine {
        self.with_reg(FLAG_REGISTER as u8, if on { 1u8 } else { 0u8 })
    }

    /// This machine with the program counter moved past the current
    /// instruction.
    pub open spec fn advance(self) -> Machine {
        Machine { pc: self.pc + 2, ..self }
    }

    /// This machine with the program counter moved past the current
    /// instruction, and past the next one too if `skip`.
    pub open spec fn advance_skipping(self, skip: bool) -> Machine {
        Machine { pc: self.pc + if skip { 4int } else { 2int }, ..self }
    }

    /// Whether `key` is a key of the keypad and is pressed.
    pub open spec fn pressed(self, key: u8) -> bool {
        key < KEY_COUNT && self.keys[key as int]
    }

    /// The return addresses on the stack, oldest first.
    pub open spec fn stack(self) -> Seq<u16> {
        Seq::new((self.sp / 2) as nat, |k: int| word_at(self.memory, 2 * k + 2))
    }

    /// This machine with `value` pushed on the stack: the stack pointer moves
    /// up one entry, then the value is stored where it points.
    pub open spec fn push(self, value: u16) -> Machine {
        Machine {
            sp: self.sp + 2,
            memory: store_word(self.memory, self.sp + 2, value),
            ..self
        }
    }

    /// The newest entry of the stack.
    pub open spec fn top(self) -> u16 {
        word_at(self.memory, self.sp)
    }

    /// This machine with the newest entry dropped from the stack.
    pub open spec fn pop(self) -> Machine {
        Machine { sp: self.sp - 2, ..self }
    }

    /// The `rows` bytes of memory that start at the address register.
    pub open spec fn sprite(self, rows: u8) -> Seq<u8> {
        self.memory.subrange(self.index, self.index + rows)
    }

    /// A step that completed inside the machine and left it as `self`.
    pub open spec fn done(self) -> Outcome {
        Outcome { machine: self, result: Ok(Effect::Continue) }
    }

    /// A step that left the machine as `self` and hands `effect` to the driver.
    pub open spec fn yields(self, effect: Effect) -> Outcome {
        Outcome { machine: self, result: Ok(effect) }
    }

    /// A step that failed with `error` on the machine `self`, which it leaves
    /// untouched.
    pub open spec fn fails(self, error: Error) -> Outcome {
        Outcome { machine: self, result: Err(error) }
    }

    /// Continue at `target`.
    pub open spec fn jump(self, target: int) -> Outcome {
        Machine { pc: target, ..self }.done()
    }

    /// Call the subroutine at `addr`: the address of the instruction after
    /// this one goes on the stack, if the stack has room for it.
    pub open spec fn call(self, addr: u16) -> Outcome {
        if self.sp + 2 > STACK_TOP {
            self.fails(Error::AddressOutOfBounds)
        } else {
            self.push((self.pc + 2) as u16).jump(addr as int)
        }
    }

    /// Return from a subroutine: continue at the address that is taken off
    /// the stack, if the stack holds one.
    pub open spec fn ret(self) -> Outcome {
        if self.sp < 2 {
            self.fails(Error::AddressOutOfBounds)
        } else {
            self.pop().jump(self.top() as int)
        }
    }

    /// Move on to the next instruction, or to the one after it if `skip`.
    pub open spec fn skip_if(self, skip: bool) -> Outcome {
        self.advance_skipping(skip).done()
    }

    /// Store `value` in `Vx` and move on.
    pub open spec fn store(self, x: u8, value: u8) -> Outcome {
        self.with_reg(x, value).advance().done()
    }

    /// Store `value` in `Vx`, then set the flag, and move on. The flag is
    /// written last: it wins where `x` is the flag register itself.
    pub open spec fn store_then_flag(self, x: u8, value: u8, flag: bool) -> Outcome {
        self.with_reg(x, value).with_flag(flag).advance().done()
    }

    /// The flag takes the lowest bit of `Vx`, then `Vx` is shifted one bit
    /// to the right. The flag is written first: where `x` is the flag
    /// register itself, it is the flag just written that is shifted.
    pub open spec fn shift_right(self, x: u8) -> Outcome {
        let flagged = self.with_flag(self.reg(x) & 1 != 0);
        flagged.store(x, flagged.reg(x) >> 1)
    }

    /// The flag takes the highest bit of `Vx`, then `Vx` is shifted one bit
    /// to the left, which drops that bit. The flag is written first, as in
    /// `shift_right`.
    pub open spec fn shift_left(self, x: u8) -> Outcome {
        let flagged = self.with_flag(self.reg(x) & 0x80 != 0);
        flagged.store(x, flagged.reg(x) << 1)
    }

    /// Hand the `n`-row sprite at the address register to the driver, to be
    /// drawn at `(Vx, Vy)`, if the sprite lies inside memory. The flag is
    /// set when the driver reports back.
    pub open spec fn draw(self, x: u8, y: u8, n: u8) -> Outcome {
        if self.index + n > MEMORY_SIZE {
            self.fails(Error::AddressOutOfBounds)
        } else {
            self.advance().yields(
                Effect::Draw { x: self.reg(x), y: self.reg(y), rows: self.sprite(n) },
            )
        }
    }

    /// Store the lowest-numbered pressed key in `Vx` and move on, or, while
    /// no key is pressed, stay as it is and tell the driver.
    pub open spec fn wait_key(self, x: u8) -> Outcome {
        match first_pressed(self.keys) {
            Some(key) => self.store(x, key),
            None => self.yields(Effect::WaitKey),
        }
    }

    /// The effect of `instruction` on this machine. `random` is the byte of
    /// the random source, which only `RandAnd` looks at.
    ///
    /// Every operation moves the program counter past the instruction unless
    /// it sets the program counter itself or blocks.
    pub open spec fn execute(self, instruction: Instruction, random: u8) -> Outcome {
        match instruction {
            Instruction::ClearDisplay => self.advance().yields(Effect::ClearDisplay),
            Instruction::Return => self.ret(),
            Instruction::Jump { addr } => self.jump(addr as int),
            Instruction::Call { addr } => self.call(addr),
            Instruction::SkipEqImm { x, imm } => self.skip_if(self.reg(x) == imm),
            Instruction::SkipNeImm { x, imm } => self.skip_if(self.reg(x) != imm),
            Instruction::SkipEqReg { x, y } => self.skip_if(self.reg(x) == self.reg(y)),
            Instruction::SkipNeReg { x, y } => self.skip_if(self.reg(x) != self.reg(y)),
            Instruction::LoadImm { x, imm } => self.store(x, imm),
            Instruction::AddImm { x, imm } => self.store(x, ((self.reg(x) + imm) % 256) as u8),
            Instruction::Move { x, y } => self.store(x, self.reg(y)),
            Instruction::Or { x, y } => self.store(x, self.reg(x) | self.reg(y)),
            Instruction::And { x, y } => self.store(x, self.reg(x) & self.reg(y)),
            Instruction::Xor { x, y } => self.store(x, self.reg(x) ^ self.reg(y)),
            Instruction::AddReg { x, y } => {
                let sum = self.reg(x) + self.reg(y);
                self.store_then_flag(x, (sum % 256) as u8, sum > u8::MAX)
            },
            Instruction::SubReg { x, y } => {
                let difference = self.reg(x) - self.reg(y);
                self.store_then_flag(x, (difference % 256) as u8, difference >= 0)
            },
            Instruction::SubRegRev { x, y } => {
                let difference = self.reg(y) - self.reg(x);
                self.store_then_flag(x, (difference % 256) as u8, difference >= 0)
            },
            Instruction::ShiftRight { x } => self.shift_right(x),
            Instruction::ShiftLeft { x } => self.shift_left(x),
            Instruction::LoadAddr { addr } => Machine { index: addr as int, ..self }.advance().done(),
            Instruction::JumpOffset { addr } => self.jump(self.reg(0) + addr),
            Instruction::RandAnd { x, imm } => self.store(x, random & imm),
            Instruction::Draw { x, y, n } => self.draw(x, y, n),
            Instruction::SkipKeyPressed { x } => self.skip_if(self.pressed(self.reg(x))),
            Instruction::SkipKeyNotPressed { x } => self.skip_if(!self.pressed(self.reg(x))),
            Instruction::LoadDelay { x } => self.store(x, self.delay),
            Instruction::WaitKey { x } => self.wait_key(x),
        }
    }

    /// The instruction word at the program counter, or `AddressOutOfBounds`
    /// where its two bytes do not both lie inside memory.
    pub open spec fn fetch(self) -> Result<u16, Error> {
        if word_in_bounds(self.pc) {
            Ok(word_at(self.memory, self.pc))
        } else {
            Err(Error::AddressOutOfBounds)
        }
    }

    /// The instruction that the machine is about to carry out: the word at
    /// the program counter, split into fields and looked up in the dispatch
    /// table.
    pub open spec fn next_instruction(self) -> Result<Instruction, Error> {
        match self.fetch() {
            Ok(opcode) => dispatch_spec(Fields::of(opcode)),
            Err(error) => Err(error),
        }
    }

    /// One step: fetch the word at the program counter, decode it, select
    /// the operation and carry it out. A step that fails leaves the machine
    /// as it was.
    pub open spec fn step(self, random: u8) -> Outcome {
        match self.next_instruction() {
            Ok(instruction) => self.execute(instruction, random),
            Err(error) => self.fails(error),
        }
    }

    /// A burst of steps, one for each byte of `entropy`, which the step takes
    /// as its random byte. The burst ends early with the first step that
    /// fails or has an effect for the driver, and gives what that step gave.
    pub open spec fn run_burst(self, entropy: Seq<u8>) -> Outcome
        decreases entropy.len(),
    {
        if entropy.len() == 0 {
            self.done()
        } else {
            let first = self.step(entropy[0]);
            if first.result == Ok::<Effect, Error>(Effect::Continue) {
                first.machine.run_burst(entropy.skip(1))
            } else {
                first
            }
        }
    }
}

} // verus!

use vstd::prelude::*;

use crate::action::{result_view, Action};
use crate::error::Error;
use crate::instruction::{decode, dispatch, lemma_dispatch_wf, lemma_fields_lossless, Instruction};
use crate::machine::{
    first_pressed, first_pressed_from, Effect, Machine, FLAG_REGISTER, KEY_COUNT, PROGRAM_START,
    REGISTER_COUNT, STACK_TOP,
};
use crate::memory::{store_bytes, store_word, word_at, word_in_bounds, MEMORY_SIZE};

verus! {

/// The machine: memory, registers, stack pointer, program counter, timers
/// and the snapshot of the keypad.
///
/// The stack of return addresses lives at the bottom of memory, below the
/// load address: the stack pointer starts at 0, a call moves it up by 2 and
/// stores the return address where it then points, a return reads that
/// address and moves the pointer down again. The address register always
/// holds an address inside memory, and the stack never holds more than
/// `STACK_CAPACITY` entries.
#[derive(Debug, PartialEq, Eq)]
pub struct Emulator {
    memory: [u8; MEMORY_SIZE],
    data_registers: [u8; REGISTER_COUNT],
    address_register: u16,
    stack_pointer: u16,
    program_counter: u16,
    delay_timer: u8,
    sound_timer: u8,
    keys: [bool; KEY_COUNT],
}

impl View for Emulator {
    type V = Machine;

    closed spec fn view(&self) -> Machine {
        Machine {
            memory: self.memory@,
            registers: self.data_registers@,
            index: self.address_register as int,
            sp: self.stack_pointer as int,
            pc: self.program_counter as int,
            delay: self.delay_timer,
            sound: self.sound_timer,
            keys: self.keys@,
        }
    }
}

impl Clone for Emulator {
    /// A second machine in the same state.
    fn clone(&self) -> (copy: Self)
        ensures
            copy@ == self@,
            self@.wf(),
    {
        proof {
            use_type_invariant(self);
        }
        Emulator {
            memory: self.memory,
            data_registers: self.data_registers,
            address_register: self.address_register,
            stack_pointer: self.stack_pointer,
            program_counter: self.program_counter,
            delay_timer: self.delay_timer,
            sound_timer: self.sound_timer,
            keys: self.keys,
        }
    }
}

impl Emulator {
    #[verifier::type_invariant]
    spec fn inv(&self) -> bool {
        &&& self.address_register < MEMORY_SIZE
        &&& self.stack_pointer <= STACK_TOP
        &&& self.stack_pointer % 2 == 0
    }

    /// Creates the machine in its startup state. This never fails.
    pub fn new() -> (result: Result<Emulator, Error>)
        ensures
            result matches Ok(emulator) && emulator@ == Machine::initial() && emulator@.wf(),
    {
        let emulator = Emulator {
            memory: [0; MEMORY_SIZE],
            data_registers: [0; REGISTER_COUNT],
            address_register: 0,
            stack_pointer: 0,
            program_counter: PROGRAM_START,
            delay_timer: 0,
            sound_timer: 0,
            keys: [false; KEY_COUNT],
        };
        proof {
            let initial = Machine::initial();
            assert(emulator@.memory =~= initial.memory);
            assert(emulator@.registers =~= initial.registers);
            assert(emulator@.keys =~= initial.keys);
        }
        Ok(emulator)
    }

    /// Copies `program` into memory from the load address on. A program that
    /// does not fit is refused and nothing is written.
    pub fn load(&mut self, program: &[u8]) -> (result: Result<(), Error>)
        ensures
            old(self)@.wf(),
            final(self)@.wf(),
            PROGRAM_START + program@.len() <= MEMORY_SIZE ==> result == Ok::<(), Error>(())
                && final(self)@ == (Machine {
                memory: store_bytes(old(self)@.memory, PROGRAM_START as int, program@),
                ..old(self)@
            }),
            PROGRAM_START + program@.len() > MEMORY_SIZE ==> result == Err::<(), Error>(
                Error::AddressOutOfBounds,
            ) && final(self)@ == old(self)@,
    {
        proof {
            use_type_invariant(&*self);
        }
        let start: usize = PROGRAM_START as usize;
        if program.len() > MEMORY_SIZE - start {
            return Err(Error::AddressOutOfBounds);
        }
        let mut i: usize = 0;
        assert(self@.memory =~= store_bytes(
            self@.memory,
            start as int,
            program@.subrange(0, 0),
        ));
        while i < program.len()
            invariant
                i <= program.len(),
                start == PROGRAM_START,
                start + program.len() <= MEMORY_SIZE,
                self@.wf(),
                self@ == (Machine {
                    memory: store_bytes(
                        old(self)@.memory,
                        start as int,
                        program@.subrange(0, i as int),
                    ),
                    ..old(self)@
                }),
            decreases program.len() - i,
        {
            proof {
                use_type_invariant(&*self);
            }
            self.memory[start + i] = program[i];
            i = i + 1;
            assert(self@.memory =~= store_bytes(
                old(self)@.memory,
                start as int,
                program@.subrange(0, i as int),
            ));
        }
        assert(program@.subrange(0, i as int) =~= program@);
        Ok(())
    }

    /// Reads the big-endian word at `addr`.
    pub fn read16(&self, addr: usize) -> (result: Result<u16, Error>)
        ensures
            self@.wf(),
            word_in_bounds(addr as int) ==> result == Ok::<u16, Error>(
                word_at(self@.memory, addr as int),
            ),
            !word_in_bounds(addr as int) ==> result == Err::<u16, Error>(
                Error::AddressOutOfBounds,
            ),
    {
        proof {
            use_type_invariant(self);
        }
        if addr <= MEMORY_SIZE - 2 {
            let high: u16 = self.memory[addr] as u16;
            let low: u16 = self.memory[addr + 1] as u16;
            Ok(high * 256 + low)
        } else {
            Err(Error::AddressOutOfBounds)
        }
    }

    /// Stores `value` as a big-endian word at `addr`. Where the word does not
    /// fit inside memory nothing is written.
    pub fn write16(&mut self, addr: usize, value: u16) -> (result: Result<(), Error>)
        ensures
            old(self)@.wf(),
            final(self)@.wf(),
            word_in_bounds(addr as int) ==> result == Ok::<(), Error>(())
                && final(self)@ == (Machine {
                memory: store_word(old(self)@.memory, addr as int, value),
                ..old(self)@
            }) && word_at(final(self)@.memory, addr as int) == value,
            !word_in_bounds(addr as int) ==> result == Err::<(), Error>(Error::AddressOutOfBounds)
                && final(self)@ == old(self)@,
    {
        proof {
            use_type_invariant(&*self);
        }
        if addr <= MEMORY_SIZE - 2 {
            self.memory[addr] = (value / 256) as u8;
            self.memory[addr + 1] = (value % 256) as u8;
            Ok(())
        } else {
            Err(Error::AddressOutOfBounds)
        }
    }

    /// Fetches the instruction word at the program counter.
    pub fn fetch(&self) -> (result: Result<u16, Error>)
        ensures
            self@.wf(),
            result == self@.fetch(),
    {
        self.read16(self.program_counter as usize)
    }

    /// Runs one instruction: fetch, decode, dispatch, execute. `random` is a
    /// fresh byte from the random source; only the random operation looks at
    /// it. Returns what the driver has to do before the next step. A step
    /// that fails has changed nothing.
    pub fn step(&mut self, random: u8) -> (result: Result<Action, Error>)
        ensures
            old(self)@.wf(),
            final(self)@.wf(),
            final(self)@ == old(self)@.step(random).machine,
            result_view(result) == old(self)@.step(random).result,
            result is Err ==> final(self)@ == old(self)@,
    {
        let opcode = self.fetch()?;
        let fields = decode(opcode);
        proof {
            lemma_fields_lossless(opcode);
            lemma_dispatch_wf(fields);
        }
        let instruction = dispatch(fields)?;
        let result = self.execute(instruction, random);
        proof {
            use_type_invariant(&*self);
        }
        result
    }

    /// Starts the machine. Running is the driver's work: it steps the
    /// machine, or runs it in bursts, and serves display, keypad, timers and
    /// random source between the steps. Starting it changes nothing and
    /// never fails.
    pub fn run(&mut self) -> (result: Result<(), Error>)
        ensures
            result == Ok::<(), Error>(()),
            final(self)@ == old(self)@,
            old(self)@.wf(),
    {
        proof {
            use_type_invariant(&*self);
        }
        Ok(())
    }

    /// Runs a burst of instructions, one for each byte of `entropy`, which
    /// that instruction's step takes as its random byte. The burst ends early
    /// with the first step that fails or that returns anything but
    /// `Action::Continue`, and returns what that step returned.
    pub fn run_burst(&mut self, entropy: &[u8]) -> (result: Result<Action, Error>)
        ensures
            old(self)@.wf(),
            final(self)@.wf(),
            final(self)@ == old(self)@.run_burst(entropy@).machine,
            result_view(result) == old(self)@.run_burst(entropy@).result,
    {
        proof {
            use_type_invariant(&*self);
        }
        let mut i: usize = 0;
        assert(entropy@.skip(0) =~= entropy@);
        while i < entropy.len()
            invariant
                i <= entropy.len(),
                old(self)@.wf(),
                self@.wf(),
                old(self)@.run_burst(entropy@) == self@.run_burst(entropy@.skip(i as int)),
            decreases entropy.len() - i,
        {
            let result = self.step(entropy[i]);
            assert(entropy@.skip(i as int).skip(1) =~= entropy@.skip(i + 1));
            match result {
                Ok(Action::Continue) => {},
                _ => {
                    return result;
                },
            }
            i = i + 1;
        }
        Ok(Action::Continue)
    }

    /// Takes the display's answer to the last `Action::Draw`: the flag
    /// register becomes 1 if the drawing erased a pixel, else 0.
    pub fn report_collision(&mut self, collided: bool)
        ensures
            old(self)@.wf(),
            final(self)@.wf(),
            final(self)@ == old(self)@.with_flag(collided),
    {
        self.set_flag(collided);
        proof {
            use_type_invariant(&*self);
        }
    }

    /// Replaces the snapshot of the keypad: `keys[k]` tells whether key `k`
    /// is pressed.
    pub fn set_keys(&mut self, keys: [bool; KEY_COUNT])
        ensures
            old(self)@.wf(),
            final(self)@.wf(),
            final(self)@ == (Machine { keys: keys@, ..old(self)@ }),
    {
        proof {
            use_type_invariant(&*self);
        }
        self.keys = keys;
    }

    /// The snapshot of the keypad.
    pub fn keys(&self) -> (keys: [bool; KEY_COUNT])
        ensures
            self@.wf(),
            keys@ == self@.keys,
    {
        proof {
            use_type_invariant(self);
        }
        self.keys
    }

    /// Sets the delay timer.
    pub fn set_delay_timer(&mut self, value: u8)
        ensures
            old(self)@.wf(),
            final(self)@.wf(),
            final(self)@ == (Machine { delay: value, ..old(self)@ }),
    {
        proof {
            use_type_invariant(&*self);
        }
        self.delay_timer = value;
    }

    /// The delay timer.
    pub fn delay_timer(&self) -> (value: u8)
        ensures
            self@.wf(),
            value == self@.delay,
    {
        proof {
            use_type_invariant(self);
        }
        self.delay_timer
    }

    /// Sets the sound timer.
    pub fn set_sound_timer(&mut self, value: u8)
        ensures
            old(self)@.wf(),
            final(self)@.wf(),
            final(self)@ == (Machine { sound: value, ..old(self)@ }),
    {
        proof {
            use_type_invariant(&*self);
        }
        self.sound_timer = value;
    }

    /// The sound timer.
    pub fn sound_timer(&self) -> (value: u8)
        ensures
            self@.wf(),
            value == self@.sound,
    {
        proof {
            use_type_invariant(self);
        }
        self.sound_timer
    }

    /// The program counter.
    pub fn program_counter(&self) -> (value: u16)
        ensures
            self@.wf(),
            value == self@.pc,
    {
        proof {
            use_type_invariant(self);
        }
        self.program_counter
    }

    /// The stack pointer.
    pub fn stack_pointer(&self) -> (value: u16)
        ensures
            self@.wf(),
            value == self@.sp,
    {
        proof {
            use_type_invariant(self);
        }
        self.stack_pointer
    }

    /// The address register.
    pub fn address_register(&self) -> (value: u16)
        ensures
            self@.wf(),
            value == self@.index,
    {
        proof {
            use_type_invariant(self);
        }
        self.address_register
    }

    /// The data registers `V0` to `VF`.
    pub fn registers(&self) -> (values: [u8; REGISTER_COUNT])
        ensures
            self@.wf(),
            values@ == self@.registers,
    {
        proof {
            use_type_invariant(self);
        }
        self.data_registers
    }

    /// Carries out `instruction`. `random` is the byte that the random
    /// source supplied for this step.
    fn execute(&mut self, instruction: Instruction, random: u8) -> (result: Result<Action, Error>)
        requires
            instruction.wf(),
            word_in_bounds(old(self)@.pc),
        ensures
            final(self)@ == old(self)@.execute(instruction, random).machine,
            result_view(result) == old(self)@.execute(instruction, random).result,
    {
        match instruction {
            Instruction::ClearDisplay => {
                self.advance(false);
                Ok(Action::ClearDisplay)
            },
            Instruction::Return => self.ret(),
            Instruction::Jump { addr } => self.jump(addr),
            Instruction::Call { addr } => self.call(addr),
            Instruction::SkipEqImm { x, imm } => self.skip_if(self.data_registers[x as usize] == imm),
            Instruction::SkipNeImm { x, imm } => self.skip_if(self.data_registers[x as usize] != imm),
            Instruction::SkipEqReg { x, y } => self.skip_if(
                self.data_registers[x as usize] == self.data_registers[y as usize],
            ),
            Instruction::SkipNeReg { x, y } => self.skip_if(
                self.data_registers[x as usize] != self.data_registers[y as usize],
            ),
            Instruction::LoadImm { x, imm } => self.store(x, imm),
            Instruction::AddImm { x, imm } => {
                let (sum, _) = add_with_carry(self.data_registers[x as usize], imm);
                self.store(x, sum)
            },
            Instruction::Move { x, y } => self.store(x, self.data_registers[y as usize]),
            Instruction::Or { x, y } => self.store(
                x,
                self.data_registers[x as usize] | self.data_registers[y as usize],
            ),
            Instruction::And { x, y } => self.store(
                x,
                self.data_registers[x as usize] & self.data_registers[y as usize],
            ),
            Instruction::Xor { x, y } => self.store(
                x,
                self.data_registers[x as usize] ^ self.data_registers[y as usize],
            ),
            Instruction::AddReg { x, y } => {
                let (sum, carry) = add_with_carry(
                    self.data_registers[x as usize],
                    self.data_registers[y as usize],
                );
                self.store_then_flag(x, sum, carry)
            },
            Instruction::SubReg { x, y } => {
                let (difference, no_borrow) = sub_with_borrow(
                    self.data_registers[x as usize],
                    self.data_registers[y as usize],
                );
                self.store_then_flag(x, difference, no_borrow)
            },
            Instruction::SubRegRev { x, y } => {
                let (difference, no_borrow) = sub_with_borrow(
                    self.data_registers[y as usize],
                    self.data_registers[x as usize],
                );
                self.store_then_flag(x, difference, no_borrow)
            },
            Instruction::ShiftRight { x } => self.shift_right(x),
            Instruction::ShiftLeft { x } => self.shift_left(x),
            Instruction::LoadAddr { addr } => {
                proof {
                    use_type_invariant(&*self);
                }
                self.address_register = addr;
                self.advance(false);
                Ok(Action::Continue)
            },
            Instruction::JumpOffset { addr } => self.jump(self.data_registers[0] as u16 + addr),
            Instruction::RandAnd { x, imm } => self.store(x, random & imm),
            Instruction::Draw { x, y, n } => self.draw(x, y, n),
            Instruction::SkipKeyPressed { x } => self.skip_if(
                self.is_pressed(self.data_registers[x as usize]),
            ),
            Instruction::SkipKeyNotPressed { x } => self.skip_if(
                !self.is_pressed(self.data_registers[x as usize]),
            ),
            Instruction::LoadDelay { x } => self.store(x, self.delay_timer),
            Instruction::WaitKey { x } => self.wait_key(x),
        }
    }

    /// Continues at `target`.
    fn jump(&mut self, target: u16) -> (result: Result<Action, Error>)
        ensures
            final(self)@ == old(self)@.jump(target as int).machine,
            result_view(result) == old(self)@.jump(target as int).result,
    {
        proof {
            use_type_invariant(&*self);
        }
        self.program_counter = target;
        Ok(Action::Continue)
    }

    /// Calls the subroutine at `addr`: the address of the next instruction
    /// goes on the stack.
    fn call(&mut self, addr: u16) -> (result: Result<Action, Error>)
        requires
            word_in_bounds(old(self)@.pc),
        ensures
            final(self)@ == old(self)@.call(addr).machine,
            result_view(result) == old(self)@.call(addr).result,
    {
        self.push(self.program_counter + 2)?;
        self.jump(addr)
    }

    /// Returns from a subroutine to the address on top of the stack.
    fn ret(&mut self) -> (result: Result<Action, Error>)
        ensures
            final(self)@ == old(self)@.ret().machine,
            result_view(result) == old(self)@.ret().result,
    {
        let target = self.pop()?;
        self.jump(target)
    }

    /// Moves on to the next instruction, or to the one after it if `skip`.
    fn skip_if(&mut self, skip: bool) -> (result: Result<Action, Error>)
        requires
            word_in_bounds(old(self)@.pc),
        ensures
            final(self)@ == old(self)@.skip_if(skip).machine,
            result_view(result) == old(self)@.skip_if(skip).result,
    {
        self.advance(skip);
        Ok(Action::Continue)
    }

    /// Stores `value` in data register `x` and moves on to the next
    /// instruction.
    fn store(&mut self, x: u8, value: u8) -> (result: Result<Action, Error>)
        requires
            x < REGISTER_COUNT,
            word_in_bounds(old(self)@.pc),
        ensures
            final(self)@ == old(self)@.store(x, value).machine,
            result_view(result) == old(self)@.store(x, value).result,
    {
        self.set_register(x, value);
        self.advance(false);
        Ok(Action::Continue)
    }

    /// Stores `value` in data register `x`, then sets the flag, and moves on
    /// to the next instruction.
    fn store_then_flag(&mut self, x: u8, value: u8, flag: bool) -> (result: Result<Action, Error>)
        requires
            x < REGISTER_COUNT,
            word_in_bounds(old(self)@.pc),
        ensures
            final(self)@ == old(self)@.store_then_flag(x, value, flag).machine,
            result_view(result) == old(self)@.store_then_flag(x, value, flag).result,
    {
        self.set_register(x, value);
        self.set_flag(flag);
        self.advance(false);
        Ok(Action::Continue)
    }

    /// Shifts data register `x` one bit to the right, after the flag has
    /// taken the bit that falls out.
    fn shift_right(&mut self, x: u8) -> (result: Result<Action, Error>)
        requires
            x < REGISTER_COUNT,
            word_in_bounds(old(self)@.pc),
        ensures
            final(self)@ == old(self)@.shift_right(x).machine,
            result_view(result) == old(self)@.shift_right(x).result,
    {
        self.set_flag(self.data_registers[x as usize] & 1 != 0);
        self.store(x, self.data_registers[x as usize] >> 1)
    }

    /// Shifts data register `x` one bit to the left, after the flag has
    /// taken the bit that falls out.
    fn shift_left(&mut self, x: u8) -> (result: Result<Action, Error>)
        requires
            x < REGISTER_COUNT,
            word_in_bounds(old(self)@.pc),
        ensures
            final(self)@ == old(self)@.shift_left(x).machine,
            result_view(result) == old(self)@.shift_left(x).result,
    {
        self.set_flag(self.data_registers[x as usize] & 0x80 != 0);
        self.store(x, self.data_registers[x as usize] << 1)
    }

    /// Hands the sprite at the address register to the driver for drawing
    /// at the place that data registers `x` and `y` give.
    fn draw(&mut self, x: u8, y: u8, n: u8) -> (result: Result<Action, Error>)
        requires
            x < REGISTER_COUNT,
            y < REGISTER_COUNT,
            word_in_bounds(old(self)@.pc),
        ensures
            final(self)@ == old(self)@.draw(x, y, n).machine,
            result_view(result) == old(self)@.draw(x, y, n).result,
    {
        proof {
            use_type_invariant(&*self);
        }
        if self.address_register as usize + n as usize > MEMORY_SIZE {
            return Err(Error::AddressOutOfBounds);
        }
        let action = Action::Draw {
            x: self.data_registers[x as usize],
            y: self.data_registers[y as usize],
            rows: self.read_sprite(n),
        };
        self.advance(false);
        Ok(action)
    }

    /// Stores the lowest-numbered pressed key in data register `x` and moves
    /// on, or stays at this instruction while no key is pressed.
    fn wait_key(&mut self, x: u8) -> (result: Result<Action, Error>)
        requires
            x < REGISTER_COUNT,
            word_in_bounds(old(self)@.pc),
        ensures
            final(self)@ == old(self)@.wait_key(x).machine,
            result_view(result) == old(self)@.wait_key(x).result,
    {
        match self.first_pressed_key() {
            Some(key) => self.store(x, key),
            None => Ok(Action::WaitKey),
        }
    }

    /// Pushes `value` on the stack, or fails, changing nothing, where the
    /// stack is full.
    fn push(&mut self, value: u16) -> (result: Result<(), Error>)
        ensures
            final(self)@.wf(),
            old(self)@.sp + 2 <= STACK_TOP ==> result == Ok::<(), Error>(())
                && final(self)@ == old(self)@.push(value),
            old(self)@.sp + 2 > STACK_TOP ==> result == Err::<(), Error>(
                Error::AddressOutOfBounds,
            ) && final(self)@ == old(self)@,
    {
        proof {
            use_type_invariant(&*self);
        }
        if self.stack_pointer >= STACK_TOP {
            return Err(Error::AddressOutOfBounds);
        }
        self.stack_pointer = self.stack_pointer + 2;
        self.write16(self.stack_pointer as usize, value)
    }

    /// Pops the newest entry off the stack, or fails, changing nothing, where
    /// the stack is empty.
    fn pop(&mut self) -> (result: Result<u16, Error>)
        ensures
            final(self)@.wf(),
            old(self)@.sp >= 2 ==> result == Ok::<u16, Error>(old(self)@.top()) && final(self)@
                == old(self)@.pop(),
            old(self)@.sp < 2 ==> result == Err::<u16, Error>(Error::AddressOutOfBounds)
                && final(self)@ == old(self)@,
    {
        proof {
            use_type_invariant(&*self);
        }
        if self.stack_pointer < 2 {
            return Err(Error::AddressOutOfBounds);
        }
        let value = self.read16(self.stack_pointer as usize)?;
        self.stack_pointer = self.stack_pointer - 2;
        Ok(value)
    }

    /// Moves the program counter past the current instruction, and past the
    /// next one too if `skip`.
    fn advance(&mut self, skip: bool)
        requires
            word_in_bounds(old(self)@.pc),
        ensures
            final(self)@ == old(self)@.advance_skipping(skip),
            !skip ==> final(self)@ == old(self)@.advance(),
    {
        proof {
            use_type_invariant(&*self);
        }
        self.program_counter = self.program_counter + if skip { 4 } else { 2 };
    }

    /// Stores `value` in data register `x`.
    fn set_register(&mut self, x: u8, value: u8)
        requires
            x < REGISTER_COUNT,
        ensures
            final(self)@ == old(self)@.with_reg(x, value),
    {
        proof {
            use_type_invariant(&*self);
        }
        self.data_registers[x as usize] = value;
    }

    /// Sets the flag register to 1 if `on`, else to 0.
    fn set_flag(&mut self, on: bool)
        ensures
            final(self)@ == old(self)@.with_flag(on),
    {
        self.set_register(FLAG_REGISTER as u8, if on { 1 } else { 0 });
    }

    /// Whether `key` is a key of the keypad and is pressed.
    fn is_pressed(&self, key: u8) -> (pressed: bool)
        ensures
            pressed == self@.pressed(key),
    {
        (key as usize) < KEY_COUNT && self.keys[key as usize]
    }

    /// The lowest-numbered pressed key.
    fn first_pressed_key(&self) -> (key: Option<u8>)
        ensures
            key == first_pressed(self@.keys),
    {
        let mut k: u8 = 0;
        while (k as usize) < KEY_COUNT
            invariant
                k <= KEY_COUNT,
                first_pressed(self@.keys) == first_pressed_from(self@.keys, k as int),
            decreases KEY_COUNT - k,
        {
            if self.keys[k as usize] {
                return Some(k);
            }
            k = k + 1;
        }
        None
    }

    /// Copies the `rows` bytes that start at the address register.
    fn read_sprite(&self, rows: u8) -> (sprite: Vec<u8>)
        requires
            self@.index + rows <= MEMORY_SIZE,
        ensures
            sprite@ == self@.sprite(rows),
    {
        let start: usize = self.address_register as usize;
        let mut sprite: Vec<u8> = Vec::new();
        let mut i: usize = 0;
        while i < rows as usize
            invariant
                i <= rows,
                start == self@.index,
                start + rows <= MEMORY_SIZE,
                sprite@ == self@.memory.subrange(start as int, start + i),
            decreases rows - i,
        {
            sprite.push(self.memory[start + i]);
            i = i + 1;
        }
        sprite
    }
}

/// The sum of two bytes, wrapped to a byte, and whether it overflowed.
fn add_with_carry(a: u8, b: u8) -> (result: (u8, bool))
    ensures
        result.0 == ((a + b) % 256) as u8,
        result.1 == (a + b > u8::MAX),
{
    (a.wrapping_add(b), b > u8::MAX - a)
}

/// The difference of two bytes, wrapped to a byte, and whether nothing had
/// to be borrowed.
fn sub_with_borrow(a: u8, b: u8) -> (result: (u8, bool))
    ensures
        result.0 == ((a - b) % 256) as u8,
        result.1 == (a - b >= 0),
{
    (a.wrapping_sub(b), a >= b)
}

} // verus!

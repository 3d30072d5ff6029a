use vstd::prelude::*;

use crate::error::Error;

verus! {

/// The parts of a 16-bit instruction word: four 4-bit fields, from the most
/// significant down, and the two immediates made of the lower ones.
#[derive(Debug, Clone, Copy, PartialEq, Eq, Structural)]
pub struct Fields {
    /// Bits 15..12.
    pub group: u8,
    /// Bits 11..8.
    pub x: u8,
    /// Bits 7..4.
    pub y: u8,
    /// Bits 3..0.
    pub n: u8,
    /// The low byte.
    pub imm: u8,
    /// The low 12 bits.
    pub addr: u16,
}

impl Fields {
    /// The fields of `opcode`.
    pub open spec fn of(opcode: u16) -> Fields {
        Fields {
            group: (opcode / 0x1000) as u8,
            x: ((opcode / 0x100) % 0x10) as u8,
            y: ((opcode / 0x10) % 0x10) as u8,
            n: (opcode % 0x10) as u8,
            imm: (opcode % 0x100) as u8,
            addr: opcode % 0x1000,
        }
    }

    /// Each field fits its width and the immediates agree with the fields
    /// they are made of.
    pub open spec fn wf(self) -> bool {
        &&& self.group < 16
        &&& self.x < 16
        &&& self.y < 16
        &&& self.n < 16
        &&& self.imm == self.y * 16 + self.n
        &&& self.addr == self.x * 256 + self.imm
    }

    /// The instruction word that has these fields.
    pub open spec fn word(self) -> int {
        self.group * 0x1000 + self.x * 0x100 + self.y * 0x10 + self.n
    }
}

/// Splitting a word loses nothing: the fields are well formed and put
/// together they give the word back.
pub proof fn lemma_fields_lossless(opcode: u16)
    ensures
        Fields::of(opcode).wf(),
        Fields::of(opcode).word() == opcode,
{
    let f = Fields::of(opcode);
    assert(f.imm == f.y * 16 + f.n && f.addr == f.x * 256 + f.imm && f.word() == opcode) by {
        assert((opcode % 0x100) == ((opcode / 0x10) % 0x10) * 0x10 + opcode % 0x10)
            by (bit_vector);
        assert((opcode % 0x1000) == ((opcode / 0x100) % 0x10) * 0x100 + opcode % 0x100)
            by (bit_vector);
        assert(opcode == (opcode / 0x1000) * 0x1000 + opcode % 0x1000) by (bit_vector);
    }
}

/// Splits an instruction word into its fields.
pub fn decode(opcode: u16) -> (fields: Fields)
    ensures
        fields == Fields::of(opcode),
{
    Fields {
        group: (opcode / 0x1000) as u8,
        x: ((opcode / 0x100) % 0x10) as u8,
        y: ((opcode / 0x10) % 0x10) as u8,
        n: (opcode % 0x10) as u8,
        imm: (opcode % 0x100) as u8,
        addr: opcode % 0x1000,
    }
}

/// One operation of the instruction set with its operands. `x` and `y` number
/// data registers, `imm` is a byte, `addr` a 12-bit address.
#[derive(Debug, Clone, Copy, PartialEq, Eq, Structural)]
pub enum Instruction {
    /// `00E0`: clear the display.
    ClearDisplay,
    /// `00EE`: return from a subroutine.
    Return,
    /// `1nnn`: jump to `addr`.
    Jump { addr: u16 },
    /// `2nnn`: call the subroutine at `addr`.
    Call { addr: u16 },
    /// `3xnn`: skip the next instruction if `Vx == imm`.
    SkipEqImm { x: u8, imm: u8 },
    /// `4xnn`: skip the next instruction if `Vx != imm`.
    SkipNeImm { x: u8, imm: u8 },
    /// `5xy0`: skip the next instruction if `Vx == Vy`.
    SkipEqReg { x: u8, y: u8 },
    /// `6xnn`: `Vx := imm`.
    LoadImm { x: u8, imm: u8 },
    /// `7xnn`: `Vx := Vx + imm`, wrapping, flag untouched.
    AddImm { x: u8, imm: u8 },
    /// `8xy0`: `Vx := Vy`.
    Move { x: u8, y: u8 },
    /// `8xy1`: `Vx := Vx | Vy`.
    Or { x: u8, y: u8 },
    /// `8xy2`: `Vx := Vx & Vy`.
    And { x: u8, y: u8 },
    /// `8xy3`: `Vx := Vx ^ Vy`.
    Xor { x: u8, y: u8 },
    /// `8xy4`: `Vx := Vx + Vy`, wrapping; the flag tells whether it overflowed.
    AddReg { x: u8, y: u8 },
    /// `8xy5`: `Vx := Vx - Vy`, wrapping; the flag tells whether nothing was borrowed.
    SubReg { x: u8, y: u8 },
    /// `8x_6`: the flag takes the lowest bit of `Vx`, then `Vx := Vx >> 1`.
    ShiftRight { x: u8 },
    /// `8xy7`: `Vx := Vy - Vx`, wrapping; the flag tells whether nothing was borrowed.
    SubRegRev { x: u8, y: u8 },
    /// `8x_E`: the flag takes the highest bit of `Vx`, then `Vx := Vx << 1`.
    ShiftLeft { x: u8 },
    /// `9xy0`: skip the next instruction if `Vx != Vy`.
    SkipNeReg { x: u8, y: u8 },
    /// `Annn`: `I := addr`.
    LoadAddr { addr: u16 },
    /// `Bnnn`: jump to `V0 + addr`.
    JumpOffset { addr: u16 },
    /// `Cxnn`: `Vx := random & imm`.
    RandAnd { x: u8, imm: u8 },
    /// `Dxyn`: draw the `n`-row sprite at `I` at `(Vx, Vy)`.
    Draw { x: u8, y: u8, n: u8 },
    /// `Ex9E`: skip the next instruction if key `Vx` is pressed.
    SkipKeyPressed { x: u8 },
    /// `ExA1`: skip the next instruction if key `Vx` is not pressed.
    SkipKeyNotPressed { x: u8 },
    /// `Fx07`: `Vx := delay timer`.
    LoadDelay { x: u8 },
    /// `Fx0A`: wait for a key press and store the key in `Vx`.
    WaitKey { x: u8 },
}

impl Instruction {
    /// Register numbers are below 16, addresses below 4096 and a sprite has
    /// fewer than 16 rows.
    pub open spec fn wf(self) -> bool {
        match self {
            Instruction::ClearDisplay | Instruction::Return => true,
            Instruction::Jump { addr }
            | Instruction::Call { addr }
            | Instruction::LoadAddr { addr }
            | Instruction::JumpOffset { addr } => addr < 0x1000,
            Instruction::SkipEqImm { x, .. }
            | Instruction::SkipNeImm { x, .. }
            | Instruction::LoadImm { x, .. }
            | Instruction::AddImm { x, .. }
            | Instruction::RandAnd { x, .. }
            | Instruction::ShiftRight { x }
            | Instruction::ShiftLeft { x }
            | Instruction::SkipKeyPressed { x }
            | Instruction::SkipKeyNotPressed { x }
            | Instruction::LoadDelay { x }
            | Instruction::WaitKey { x } => x < 16,
            Instruction::SkipEqReg { x, y }
            | Instruction::Move { x, y }
            | Instruction::Or { x, y }
            | Instruction::And { x, y }
            | Instruction::Xor { x, y }
            | Instruction::AddReg { x, y }
            | Instruction::SubReg { x, y }
            | Instruction::SubRegRev { x, y }
            | Instruction::SkipNeReg { x, y } => x < 16 && y < 16,
            Instruction::Draw { x, y, n } => x < 16 && y < 16 && n < 16,
        }
    }
}

impl Instruction {
    /// The instruction word that stands for this instruction, with zero in
    /// the fields that the operation does not look at.
    pub open spec fn word(self) -> int {
        match self {
            Instruction::ClearDisplay => 0x00E0,
            Instruction::Return => 0x00EE,
            Instruction::Jump { addr } => 0x1000 + addr,
            Instruction::Call { addr } => 0x2000 + addr,
            Instruction::SkipEqImm { x, imm } => 0x3000 + x * 0x100 + imm,
            Instruction::SkipNeImm { x, imm } => 0x4000 + x * 0x100 + imm,
            Instruction::SkipEqReg { x, y } => 0x5000 + x * 0x100 + y * 0x10,
            Instruction::LoadImm { x, imm } => 0x6000 + x * 0x100 + imm,
            Instruction::AddImm { x, imm } => 0x7000 + x * 0x100 + imm,
            Instruction::Move { x, y } => 0x8000 + x * 0x100 + y * 0x10,
            Instruction::Or { x, y } => 0x8001 + x * 0x100 + y * 0x10,
            Instruction::And { x, y } => 0x8002 + x * 0x100 + y * 0x10,
            Instruction::Xor { x, y } => 0x8003 + x * 0x100 + y * 0x10,
            Instruction::AddReg { x, y } => 0x8004 + x * 0x100 + y * 0x10,
            Instruction::SubReg { x, y } => 0x8005 + x * 0x100 + y * 0x10,
            Instruction::ShiftRight { x } => 0x8006 + x * 0x100,
            Instruction::SubRegRev { x, y } => 0x8007 + x * 0x100 + y * 0x10,
            Instruction::ShiftLeft { x } => 0x800E + x * 0x100,
            Instruction::SkipNeReg { x, y } => 0x9000 + x * 0x100 + y * 0x10,
            Instruction::LoadAddr { addr } => 0xA000 + addr,
            Instruction::JumpOffset { addr } => 0xB000 + addr,
            Instruction::RandAnd { x, imm } => 0xC000 + x * 0x100 + imm,
            Instruction::Draw { x, y, n } => 0xD000 + x * 0x100 + y * 0x10 + n,
            Instruction::SkipKeyPressed { x } => 0xE09E + x * 0x100,
            Instruction::SkipKeyNotPressed { x } => 0xE0A1 + x * 0x100,
            Instruction::LoadDelay { x } => 0xF007 + x * 0x100,
            Instruction::WaitKey { x } => 0xF00A + x * 0x100,
        }
    }
}

/// The operations selected by the arithmetic group `8`, by the last field.
pub open spec fn dispatch_arithmetic(f: Fields) -> Result<Instruction, Error> {
    if f.n == 0x0 {
        Ok(Instruction::Move { x: f.x, y: f.y })
    } else if f.n == 0x1 {
        Ok(Instruction::Or { x: f.x, y: f.y })
    } else if f.n == 0x2 {
        Ok(Instruction::And { x: f.x, y: f.y })
    } else if f.n == 0x3 {
        Ok(Instruction::Xor { x: f.x, y: f.y })
    } else if f.n == 0x4 {
        Ok(Instruction::AddReg { x: f.x, y: f.y })
    } else if f.n == 0x5 {
        Ok(Instruction::SubReg { x: f.x, y: f.y })
    } else if f.n == 0x6 {
        Ok(Instruction::ShiftRight { x: f.x })
    } else if f.n == 0x7 {
        Ok(Instruction::SubRegRev { x: f.x, y: f.y })
    } else if f.n == 0xE {
        Ok(Instruction::ShiftLeft { x: f.x })
    } else {
        Err(Error::InvalidOpcode)
    }
}

/// The dispatch table: the operation that the fields select, or
/// `InvalidOpcode` where they select none. The first field decides which of
/// the others are operands and which must hold a fixed value.
pub open spec fn dispatch_spec(f: Fields) -> Result<Instruction, Error> {
    if f.group == 0x0 {
        if f.x == 0 && f.y == 0xE && f.n == 0x0 {
            Ok(Instruction::ClearDisplay)
        } else if f.x == 0 && f.y == 0xE && f.n == 0xE {
            Ok(Instruction::Return)
        } else {
            Err(Error::InvalidOpcode)
        }
    } else if f.group == 0x1 {
        Ok(Instruction::Jump { addr: f.addr })
    } else if f.group == 0x2 {
        Ok(Instruction::Call { addr: f.addr })
    } else if f.group == 0x3 {
        Ok(Instruction::SkipEqImm { x: f.x, imm: f.imm })
    } else if f.group == 0x4 {
        Ok(Instruction::SkipNeImm { x: f.x, imm: f.imm })
    } else if f.group == 0x5 {
        if f.n == 0 {
            Ok(Instruction::SkipEqReg { x: f.x, y: f.y })
        } else {
            Err(Error::InvalidOpcode)
        }
    } else if f.group == 0x6 {
        Ok(Instruction::LoadImm { x: f.x, imm: f.imm })
    } else if f.group == 0x7 {
        Ok(Instruction::AddImm { x: f.x, imm: f.imm })
    } else if f.group == 0x8 {
        dispatch_arithmetic(f)
    } else if f.group == 0x9 {
        if f.n == 0 {
            Ok(Instruction::SkipNeReg { x: f.x, y: f.y })
        } else {
            Err(Error::InvalidOpcode)
        }
    } else if f.group == 0xA {
        Ok(Instruction::LoadAddr { addr: f.addr })
    } else if f.group == 0xB {
        Ok(Instruction::JumpOffset { addr: f.addr })
    } else if f.group == 0xC {
        Ok(Instruction::RandAnd { x: f.x, imm: f.imm })
    } else if f.group == 0xD {
        Ok(Instruction::Draw { x: f.x, y: f.y, n: f.n })
    } else if f.group == 0xE {
        if f.y == 0x9 && f.n == 0xE {
            Ok(Instruction::SkipKeyPressed { x: f.x })
        } else if f.y == 0xA && f.n == 0x1 {
            Ok(Instruction::SkipKeyNotPressed { x: f.x })
        } else {
            Err(Error::InvalidOpcode)
        }
    } else if f.group == 0xF {
        if f.y == 0x0 && f.n == 0x7 {
            Ok(Instruction::LoadDelay { x: f.x })
        } else if f.y == 0x0 && f.n == 0xA {
            Ok(Instruction::WaitKey { x: f.x })
        } else {
            Err(Error::InvalidOpcode)
        }
    } else {
        Err(Error::InvalidOpcode)
    }
}

/// Well-formed fields select only well-formed instructions.
pub proof fn lemma_dispatch_wf(f: Fields)
    requires
        f.wf(),
    ensures
        dispatch_spec(f) matches Ok(instruction) ==> instruction.wf(),
{
}

/// The fields of a word put together from a group and the 12 bits below it.
proof fn lemma_fields_of_group_and_addr(group: u8, addr: u16)
    requires
        group < 16,
        addr < 0x1000,
    ensures
        ({
            let f = Fields::of((group * 0x1000 + addr) as u16);
            &&& f.group == group
            &&& f.addr == addr
            &&& f.x == addr / 0x100
            &&& f.imm == addr % 0x100
            &&& f.y == (addr / 0x10) % 0x10
            &&& f.n == addr % 0x10
        }),
{
    let group = group as u16;
    let w = (group * 0x1000 + addr) as u16;
    assert(w / 0x1000 == group && w % 0x1000 == addr && (w / 0x100) % 0x10 == addr / 0x100 && w
        % 0x100 == addr % 0x100 && (w / 0x10) % 0x10 == (addr / 0x10) % 0x10 && w % 0x10 == addr
        % 0x10) by (bit_vector)
        requires
            group < 16,
            addr < 0x1000,
            w == group * 0x1000 + addr,
    ;
}

/// The 12 bits put together from a register number and a byte.
proof fn lemma_parts_of_x_and_imm(x: u8, imm: u8)
    requires
        x < 16,
    ensures
        ({
            let addr = (x * 0x100 + imm) as u16;
            &&& addr < 0x1000
            &&& addr / 0x100 == x
            &&& addr % 0x100 == imm
        }),
{
}

/// The 12 bits put together from three 4-bit fields.
proof fn lemma_parts_of_x_y_n(x: u8, y: u8, n: u8)
    requires
        x < 16,
        y < 16,
        n < 16,
    ensures
        ({
            let addr = (x * 0x100 + y * 0x10 + n) as u16;
            &&& addr < 0x1000
            &&& addr / 0x100 == x
            &&& (addr / 0x10) % 0x10 == y
            &&& addr % 0x10 == n
        }),
{
}

/// The dispatch table reaches every instruction: the word that stands for a
/// well-formed instruction is a 16-bit word, and decoding it gives the
/// instruction back.
pub proof fn lemma_dispatch_recovers(instruction: Instruction)
    requires
        instruction.wf(),
    ensures
        0 <= instruction.word() <= u16::MAX,
        dispatch_spec(Fields::of(instruction.word() as u16)) == Ok::<Instruction, Error>(
            instruction,
        ),
{
    match instruction {
        Instruction::ClearDisplay | Instruction::Return => {},
        Instruction::Jump { addr } => lemma_fields_of_group_and_addr(0x1, addr),
        Instruction::Call { addr } => lemma_fields_of_group_and_addr(0x2, addr),
        Instruction::LoadAddr { addr } => lemma_fields_of_group_and_addr(0xA, addr),
        Instruction::JumpOffset { addr } => lemma_fields_of_group_and_addr(0xB, addr),
        Instruction::SkipEqImm { x, imm } => {
            lemma_parts_of_x_and_imm(x, imm);
            lemma_fields_of_group_and_addr(0x3, (x * 0x100 + imm) as u16);
        },
        Instruction::SkipNeImm { x, imm } => {
            lemma_parts_of_x_and_imm(x, imm);
            lemma_fields_of_group_and_addr(0x4, (x * 0x100 + imm) as u16);
        },
        Instruction::LoadImm { x, imm } => {
            lemma_parts_of_x_and_imm(x, imm);
            lemma_fields_of_group_and_addr(0x6, (x * 0x100 + imm) as u16);
        },
        Instruction::AddImm { x, imm } => {
            lemma_parts_of_x_and_imm(x, imm);
            lemma_fields_of_group_and_addr(0x7, (x * 0x100 + imm) as u16);
        },
        Instruction::RandAnd { x, imm } => {
            lemma_parts_of_x_and_imm(x, imm);
            lemma_fields_of_group_and_addr(0xC, (x * 0x100 + imm) as u16);
        },
        Instruction::SkipEqReg { x, y } => {
            lemma_parts_of_x_y_n(x, y, 0);
            lemma_fields_of_group_and_addr(0x5, (x * 0x100 + y * 0x10) as u16);
        },
        Instruction::SkipNeReg { x, y } => {
            lemma_parts_of_x_y_n(x, y, 0);
            lemma_fields_of_group_and_addr(0x9, (x * 0x100 + y * 0x10) as u16);
        },
        Instruction::Move { x, y } => {
            lemma_parts_of_x_y_n(x, y, 0x0);
            lemma_fields_of_group_and_addr(0x8, (x * 0x100 + y * 0x10 + 0x0) as u16);
        },
        Instruction::Or { x, y } => {
            lemma_parts_of_x_y_n(x, y, 0x1);
            lemma_fields_of_group_and_addr(0x8, (x * 0x100 + y * 0x10 + 0x1) as u16);
        },
        Instruction::And { x, y } => {
            lemma_parts_of_x_y_n(x, y, 0x2);
            lemma_fields_of_group_and_addr(0x8, (x * 0x100 + y * 0x10 + 0x2) as u16);
        },
        Instruction::Xor { x, y } => {
            lemma_parts_of_x_y_n(x, y, 0x3);
            lemma_fields_of_group_and_addr(0x8, (x * 0x100 + y * 0x10 + 0x3) as u16);
        },
        Instruction::AddReg { x, y } => {
            lemma_parts_of_x_y_n(x, y, 0x4);
            lemma_fields_of_group_and_addr(0x8, (x * 0x100 + y * 0x10 + 0x4) as u16);
        },
        Instruction::SubReg { x, y } => {
            lemma_parts_of_x_y_n(x, y, 0x5);
            lemma_fields_of_group_and_addr(0x8, (x * 0x100 + y * 0x10 + 0x5) as u16);
        },
        Instruction::ShiftRight { x } => {
            lemma_parts_of_x_y_n(x, 0, 0x6);
            lemma_fields_of_group_and_addr(0x8, (x * 0x100 + 0x6) as u16);
        },
        Instruction::SubRegRev { x, y } => {
            lemma_parts_of_x_y_n(x, y, 0x7);
            lemma_fields_of_group_and_addr(0x8, (x * 0x100 + y * 0x10 + 0x7) as u16);
        },
        Instruction::ShiftLeft { x } => {
            lemma_parts_of_x_y_n(x, 0, 0xE);
            lemma_fields_of_group_and_addr(0x8, (x * 0x100 + 0xE) as u16);
        },
        Instruction::Draw { x, y, n } => {
            lemma_parts_of_x_y_n(x, y, n);
            lemma_fields_of_group_and_addr(0xD, (x * 0x100 + y * 0x10 + n) as u16);
        },
        Instruction::SkipKeyPressed { x } => {
            lemma_parts_of_x_y_n(x, 0x9, 0xE);
            lemma_fields_of_group_and_addr(0xE, (x * 0x100 + 0x9E) as u16);
        },
        Instruction::SkipKeyNotPressed { x } => {
            lemma_parts_of_x_y_n(x, 0xA, 0x1);
            lemma_fields_of_group_and_addr(0xE, (x * 0x100 + 0xA1) as u16);
        },
        Instruction::LoadDelay { x } => {
            lemma_parts_of_x_y_n(x, 0x0, 0x7);
            lemma_fields_of_group_and_addr(0xF, (x * 0x100 + 0x07) as u16);
        },
        Instruction::WaitKey { x } => {
            lemma_parts_of_x_y_n(x, 0x0, 0xA);
            lemma_fields_of_group_and_addr(0xF, (x * 0x100 + 0x0A) as u16);
        },
    }
}

/// Selects the operation for decoded fields.
pub fn dispatch(fields: Fields) -> (result: Result<Instruction, Error>)
    ensures
        result == dispatch_spec(fields),
{
    let Fields { group, x, y, n, imm, addr } = fields;
    match (group, x, y, n) {
        (0x0, 0x0, 0xE, 0x0) => Ok(Instruction::ClearDisplay),
        (0x0, 0x0, 0xE, 0xE) => Ok(Instruction::Return),
        (0x1, _, _, _) => Ok(Instruction::Jump { addr }),
        (0x2, _, _, _) => Ok(Instruction::Call { addr }),
        (0x3, _, _, _) => Ok(Instruction::SkipEqImm { x, imm }),
        (0x4, _, _, _) => Ok(Instruction::SkipNeImm { x, imm }),
        (0x5, _, _, 0x0) => Ok(Instruction::SkipEqReg { x, y }),
        (0x6, _, _, _) => Ok(Instruction::LoadImm { x, imm }),
        (0x7, _, _, _) => Ok(Instruction::AddImm { x, imm }),
        (0x8, _, _, 0x0) => Ok(Instruction::Move { x, y }),
        (0x8, _, _, 0x1) => Ok(Instruction::Or { x, y }),
        (0x8, _, _, 0x2) => Ok(Instruction::And { x, y }),
        (0x8, _, _, 0x3) => Ok(Instruction::Xor { x, y }),
        (0x8, _, _, 0x4) => Ok(Instruction::AddReg { x, y }),
        (0x8, _, _, 0x5) => Ok(Instruction::SubReg { x, y }),
        (0x8, _, _, 0x6) => Ok(Instruction::ShiftRight { x }),
        (0x8, _, _, 0x7) => Ok(Instruction::SubRegRev { x, y }),
        (0x8, _, _, 0xE) => Ok(Instruction::ShiftLeft { x }),
        (0x9, _, _, 0x0) => Ok(Instruction::SkipNeReg { x, y }),
        (0xA, _, _, _) => Ok(Instruction::LoadAddr { addr }),
        (0xB, _, _, _) => Ok(Instruction::JumpOffset { addr }),
        (0xC, _, _, _) => Ok(Instruction::RandAnd { x, imm }),
        (0xD, _, _, _) => Ok(Instruction::Draw { x, y, n }),
        (0xE, _, 0x9, 0xE) => Ok(Instruction::SkipKeyPressed { x }),
        (0xE, _, 0xA, 0x1) => Ok(Instruction::SkipKeyNotPressed { x }),
        (0xF, _, 0x0, 0x7) => Ok(Instruction::LoadDelay { x }),
        (0xF, _, 0x0, 0xA) => Ok(Instruction::WaitKey { x }),
        _ => Err(Error::InvalidOpcode),
    }
}

} // verus!

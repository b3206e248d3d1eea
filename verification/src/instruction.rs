use vstd::prelude::*;

verus! {

/// The fields of a 16-bit instruction: its four nibbles, most significant
/// first, and the values that operations read out of them.
#[derive(Clone, Copy, Debug, PartialEq, Eq)]
pub struct Fields {
    /// The four nibbles, most significant first.
    pub nibbles: (u8, u8, u8, u8),
    /// The low twelve bits: an address.
    pub nnn: u16,
    /// The low byte: an immediate value.
    pub nn: u8,
    /// The second nibble: a register selector.
    pub x: u8,
    /// The third nibble: a register selector.
    pub y: u8,
    /// The fourth nibble: a small immediate value.
    pub n: u8,
}

impl Fields {
    /// The fields of `instruction`, by division and remainder.
    pub open spec fn of(instruction: u16) -> Fields {
        Fields {
            nibbles: (
                (instruction / 4096) as u8,
                (instruction / 256 % 16) as u8,
                (instruction / 16 % 16) as u8,
                (instruction % 16) as u8,
            ),
            nnn: instruction % 4096,
            nn: (instruction % 256) as u8,
            x: (instruction / 256 % 16) as u8,
            y: (instruction / 16 % 16) as u8,
            n: (instruction % 16) as u8,
        }
    }

    /// Splits an instruction into its fields.
    pub fn split(instruction: u16) -> (fields: Fields)
        ensures
            fields == Fields::of(instruction),
            fields.x < 16,
            fields.y < 16,
            fields.n < 16,
            fields.nnn < 4096,
    {
        let first: u16 = (instruction & 0xF000) >> 12;
        let second: u16 = (instruction & 0x0F00) >> 8;
        let third: u16 = (instruction & 0x00F0) >> 4;
        let fourth: u16 = instruction & 0x000F;
        let nnn: u16 = instruction & 0x0FFF;
        let low: u16 = instruction & 0x00FF;
        assert(first == instruction / 4096 && first < 16) by (bit_vector)
            requires
                first == (instruction & 0xF000) >> 12,
        ;
        assert(second == instruction / 256 % 16 && second < 16) by (bit_vector)
            requires
                second == (instruction & 0x0F00) >> 8,
        ;
        assert(third == instruction / 16 % 16 && third < 16) by (bit_vector)
            requires
                third == (instruction & 0x00F0) >> 4,
        ;
        assert(fourth == instruction % 16 && fourth < 16) by (bit_vector)
            requires
                fourth == instruction & 0x000F,
        ;
        assert(nnn == instruction % 4096 && nnn < 4096) by (bit_vector)
            requires
                nnn == instruction & 0x0FFF,
        ;
        assert(low == instruction % 256 && low < 256) by (bit_vector)
            requires
                low == instruction & 0x00FF,
        ;
        Fields {
            nibbles: (first as u8, second as u8, third as u8, fourth as u8),
            nnn,
            nn: low as u8,
            x: second as u8,
            y: third as u8,
            n: fourth as u8,
        }
    }
}

/// One operation of the machine, with the operands that it reads out of the
/// instruction.
#[derive(Clone, Copy, Debug, PartialEq, Eq, Structural)]
pub enum Opcode {
    /// `00E0`: clear the framebuffer.
    ClearScreen,
    /// `00EE`: return from a subroutine.
    Return,
    /// `1nnn`: jump to `address`.
    Jump { address: u16 },
    /// `2nnn`: call the subroutine at `address`.
    Call { address: u16 },
    /// `3xnn`: skip the next instruction if `Vx == value`.
    SkipEqual { x: u8, value: u8 },
    /// `4xnn`: skip the next instruction if `Vx != value`.
    SkipNotEqual { x: u8, value: u8 },
    /// `5xy0`: skip the next instruction if `Vx == Vy`.
    SkipRegisterEqual { x: u8, y: u8 },
    /// `9xy0`: skip the next instruction if `Vx != Vy`.
    SkipRegisterNotEqual { x: u8, y: u8 },
    /// `6xnn`: `Vx := value`.
    SetRegister { x: u8, value: u8 },
    /// `7xnn`: `Vx := Vx + value`, wrapping, flag untouched.
    AddImmediate { x: u8, value: u8 },
    /// `8xy0`: `Vx := Vy`.
    AluSet { x: u8, y: u8 },
    /// `8xy1`: `Vx := Vx | Vy`.
    AluOr { x: u8, y: u8 },
    /// `8xy2`: `Vx := Vx & Vy`.
    AluAnd { x: u8, y: u8 },
    /// `8xy3`: `Vx := Vx ^ Vy`.
    AluXor { x: u8, y: u8 },
    /// `8xy4`: `Vx := Vx + Vy`, with carry in VF.
    AluAdd { x: u8, y: u8 },
    /// `8xy5`: `Vx := Vx - Vy`, with "no borrow" in VF.
    AluSubtract { x: u8, y: u8 },
    /// `8xy7`: `Vx := Vy - Vx`, with "no borrow" in VF.
    AluSubtractReverse { x: u8, y: u8 },
    /// `8xy6` (right) and `8xyE` (left): `Vx := Vy` shifted by one bit, with
    /// the bit shifted out in VF.
    AluShift { x: u8, y: u8, left: bool },
    /// `Annn`: index register := `address`.
    SetIndex { address: u16 },
    /// `Bnnn`: jump to `address + V0`.
    JumpWithOffset { address: u16 },
    /// `Cxnn`: `Vx := random byte & mask`.
    Random { x: u8, mask: u8 },
    /// `Dxyn`: draw a sprite of `height` rows at column `Vx`, row `Vy`.
    Draw { x: u8, y: u8, height: u8 },
    /// `Ex9E`: skip the next instruction if the pressed key equals `Vx`.
    SkipKey { x: u8 },
    /// `ExA1`: skip the next instruction if the pressed key differs from `Vx`.
    SkipNotKey { x: u8 },
    /// Any other instruction.
    Unsupported { instruction: u16 },
}

impl Opcode {
    /// The operation that `instruction` encodes: the table of the
    /// instruction set, by exact match on the nibbles.
    pub open spec fn of(instruction: u16) -> Opcode {
        let f = Fields::of(instruction);
        match f.nibbles {
            (0x0, 0x0, 0xE, 0x0) => Opcode::ClearScreen,
            (0x0, 0x0, 0xE, 0xE) => Opcode::Return,
            (0x1, _, _, _) => Opcode::Jump { address: f.nnn },
            (0x2, _, _, _) => Opcode::Call { address: f.nnn },
            (0x3, _, _, _) => Opcode::SkipEqual { x: f.x, value: f.nn },
            (0x4, _, _, _) => Opcode::SkipNotEqual { x: f.x, value: f.nn },
            (0x5, _, _, 0x0) => Opcode::SkipRegisterEqual { x: f.x, y: f.y },
            (0x6, _, _, _) => Opcode::SetRegister { x: f.x, value: f.nn },
            (0x7, _, _, _) => Opcode::AddImmediate { x: f.x, value: f.nn },
            (0x8, _, _, 0x0) => Opcode::AluSet { x: f.x, y: f.y },
            (0x8, _, _, 0x1) => Opcode::AluOr { x: f.x, y: f.y },
            (0x8, _, _, 0x2) => Opcode::AluAnd { x: f.x, y: f.y },
            (0x8, _, _, 0x3) => Opcode::AluXor { x: f.x, y: f.y },
            (0x8, _, _, 0x4) => Opcode::AluAdd { x: f.x, y: f.y },
            (0x8, _, _, 0x5) => Opcode::AluSubtract { x: f.x, y: f.y },
            (0x8, _, _, 0x6) => Opcode::AluShift { x: f.x, y: f.y, left: false },
            (0x8, _, _, 0x7) => Opcode::AluSubtractReverse { x: f.x, y: f.y },
            (0x8, _, _, 0xE) => Opcode::AluShift { x: f.x, y: f.y, left: true },
            (0x9, _, _, 0x0) => Opcode::SkipRegisterNotEqual { x: f.x, y: f.y },
            (0xA, _, _, _) => Opcode::SetIndex { address: f.nnn },
            (0xB, _, _, _) => Opcode::JumpWithOffset { address: f.nnn },
            (0xC, _, _, _) => Opcode::Random { x: f.x, mask: f.nn },
            (0xD, _, _, _) => Opcode::Draw { x: f.x, y: f.y, height: f.n },
            (0xE, _, 0x9, 0xE) => Opcode::SkipKey { x: f.x },
            (0xE, _, 0xA, 0x1) => Opcode::SkipNotKey { x: f.x },
            _ => Opcode::Unsupported { instruction },
        }
    }

    /// The operation is one of the six that may skip the next instruction.
    pub open spec fn is_skip(self) -> bool {
        self is SkipEqual || self is SkipNotEqual || self is SkipRegisterEqual
            || self is SkipRegisterNotEqual || self is SkipKey || self is SkipNotKey
    }

    /// Every register selector of the operation is below 16, every address
    /// below 4096 and a sprite's height below 16.
    pub open spec fn operands_in_range(self) -> bool {
        match self {
            Opcode::ClearScreen | Opcode::Return | Opcode::Unsupported { .. } => true,
            Opcode::Jump { address }
            | Opcode::Call { address }
            | Opcode::SetIndex { address }
            | Opcode::JumpWithOffset { address } => address < 4096,
            Opcode::SkipEqual { x, .. }
            | Opcode::SkipNotEqual { x, .. }
            | Opcode::SetRegister { x, .. }
            | Opcode::AddImmediate { x, .. }
            | Opcode::Random { x, .. }
            | Opcode::SkipKey { x }
            | Opcode::SkipNotKey { x } => x < 16,
            Opcode::SkipRegisterEqual { x, y }
            | Opcode::SkipRegisterNotEqual { x, y }
            | Opcode::AluSet { x, y }
            | Opcode::AluOr { x, y }
            | Opcode::AluAnd { x, y }
            | Opcode::AluXor { x, y }
            | Opcode::AluAdd { x, y }
            | Opcode::AluSubtract { x, y }
            | Opcode::AluSubtractReverse { x, y }
            | Opcode::AluShift { x, y, .. } => x < 16 && y < 16,
            Opcode::Draw { x, y, height } => x < 16 && y < 16 && height < 16,
        }
    }

    /// Decodes an instruction.
    pub fn decode(instruction: u16) -> (op: Opcode)
        ensures
            op == Opcode::of(instruction),
            op.operands_in_range(),
    {
        let f = Fields::split(instruction);
        let x = f.x;
        let y = f.y;
        match f.nibbles {
            (0x0, 0x0, 0xE, 0x0) => Opcode::ClearScreen,
            (0x0, 0x0, 0xE, 0xE) => Opcode::Return,
            (0x1, _, _, _) => Opcode::Jump { address: f.nnn },
            (0x2, _, _, _) => Opcode::Call { address: f.nnn },
            (0x3, _, _, _) => Opcode::SkipEqual { x, value: f.nn },
            (0x4, _, _, _) => Opcode::SkipNotEqual { x, value: f.nn },
            (0x5, _, _, 0x0) => Opcode::SkipRegisterEqual { x, y },
            (0x6, _, _, _) => Opcode::SetRegister { x, value: f.nn },
            (0x7, _, _, _) => Opcode::AddImmediate { x, value: f.nn },
            (0x8, _, _, 0x0) => Opcode::AluSet { x, y },
            (0x8, _, _, 0x1) => Opcode::AluOr { x, y },
            (0x8, _, _, 0x2) => Opcode::AluAnd { x, y },
            (0x8, _, _, 0x3) => Opcode::AluXor { x, y },
            (0x8, _, _, 0x4) => Opcode::AluAdd { x, y },
            (0x8, _, _, 0x5) => Opcode::AluSubtract { x, y },
            (0x8, _, _, 0x6) => Opcode::AluShift { x, y, left: false },
            (0x8, _, _, 0x7) => Opcode::AluSubtractReverse { x, y },
            (0x8, _, _, 0xE) => Opcode::AluShift { x, y, left: true },
            (0x9, _, _, 0x0) => Opcode::SkipRegisterNotEqual { x, y },
            (0xA, _, _, _) => Opcode::SetIndex { address: f.nnn },
            (0xB, _, _, _) => Opcode::JumpWithOffset { address: f.nnn },
            (0xC, _, _, _) => Opcode::Random { x, mask: f.nn },
            (0xD, _, _, _) => Opcode::Draw { x, y, height: f.n },
            (0xE, _, 0x9, 0xE) => Opcode::SkipKey { x },
            (0xE, _, 0xA, 0x1) => Opcode::SkipNotKey { x },
            _ => Opcode::Unsupported { instruction },
        }
    }
}

} // verus!

use crate::font::FONT_SET;
use crate::instruction::Opcode;
use vstd::prelude::*;

verus! {

/// Number of addressable bytes of memory.
pub const CHIP8_MEMORY: usize = 4096;

/// Address of the first program byte; everything below is reserved for the
/// font.
pub const CHIP8_PROGRAM_MEMORY_START: usize = 0x200;

/// Largest program that fits between the program start and the end of
/// memory.
pub const CHIP8_MAX_ROM_SIZE: usize = 3584;

/// Width of the display in pixels.
pub const CHIP8_DISPLAY_WIDTH: usize = 64;

/// Height of the display in pixels.
pub const CHIP8_DISPLAY_HEIGHT: usize = 32;

/// Number of return addresses that the call stack holds.
pub const CHIP8_STACK_SIZE: usize = 16;

/// Number of general purpose registers.
pub const CHIP8_REGISTER_COUNT: usize = 16;

/// Index of VF, the register that doubles as the flag.
pub const CHIP8_VF_INDEX: usize = 0x0F;

/// What the host has to do after an instruction that ran to its end.
#[derive(Clone, Copy, Debug, PartialEq, Eq, Structural)]
pub enum Effect {
    /// Nothing: go on with the next cycle.
    Continue,
    /// A sprite was drawn: hand the framebuffer to the display.
    Redraw,
    /// The instruction is not part of the instruction set. The machine
    /// skipped it; the host may log it.
    Unsupported { instruction: u16 },
}

/// A condition after which the machine cannot go on. The operation that
/// meets one changes nothing and reports it; the host has to end the run.
#[derive(Clone, Copy, Debug, PartialEq, Eq, Structural)]
pub enum Fault {
    /// The program does not fit between the program start and the end of
    /// memory.
    ProgramTooLarge,
    /// A call with sixteen return addresses already on the stack.
    StackOverflow,
    /// A return with no return address on the stack.
    StackUnderflow,
    /// A read of memory at or beyond address 4096.
    AddressOutOfRange,
}

/// The state of the machine as mathematics.
#[verifier::ext_equal]
pub struct Machine {
    /// The 4096 bytes of memory.
    pub memory: Seq<u8>,
    /// The sixteen registers V0 to VF.
    pub registers: Seq<u8>,
    /// The index register.
    pub index: int,
    /// The program counter.
    pub pc: int,
    /// The return addresses of the calls that have not returned, oldest
    /// first.
    pub stack: Seq<int>,
    /// The framebuffer: 32 rows of 64 pixels, each 0 or 1.
    pub display: Seq<Seq<u8>>,
    /// The delay timer.
    pub delay_timer: u8,
    /// The sound timer.
    pub sound_timer: u8,
}

/// Bit `position` of `byte`, counted from the least significant.
pub open spec fn bit(byte: u8, position: u8) -> u8 {
    (byte >> position) & 1
}

/// A bit is 0 or 1.
pub proof fn lemma_bit_is_binary(byte: u8, position: u8)
    requires
        position < 8,
    ensures
        bit(byte, position) <= 1,
{
    assert((byte >> position) & 1 <= 1) by (bit_vector)
        requires
            position < 8,
    ;
}

/// The byte 0 has no set bit.
pub proof fn lemma_bit_of_zero(position: u8)
    requires
        position < 8,
    ensures
        bit(0, position) == 0,
{
    assert((0u8 >> position) & 1 == 0) by (bit_vector)
        requires
            position < 8,
    ;
}

/// A byte other than 0 has a set bit; the result is the position of one.
pub proof fn lemma_set_bit_of_nonzero(byte: u8) -> (position: u8)
    requires
        byte != 0,
    ensures
        position < 8,
        bit(byte, position) == 1,
{
    assert(bit(byte, 0) == 1 || bit(byte, 1) == 1 || bit(byte, 2) == 1 || bit(byte, 3) == 1 || bit(
        byte,
        4,
    ) == 1 || bit(byte, 5) == 1 || bit(byte, 6) == 1 || bit(byte, 7) == 1) by (bit_vector)
        requires
            byte != 0,
    ;
    if bit(byte, 0) == 1 {
        0
    } else if bit(byte, 1) == 1 {
        1
    } else if bit(byte, 2) == 1 {
        2
    } else if bit(byte, 3) == 1 {
        3
    } else if bit(byte, 4) == 1 {
        4
    } else if bit(byte, 5) == 1 {
        5
    } else if bit(byte, 6) == 1 {
        6
    } else {
        7
    }
}

/// Exclusive or with 0 changes nothing, and of two values that are 0 or 1
/// it is 0 or 1; twice with the same value, it gives back the first.
pub proof fn lemma_pixel_xor(pixel: u8, sprite: u8)
    ensures
        pixel ^ 0 == pixel,
        0 ^ sprite == sprite,
        (pixel ^ sprite) ^ sprite == pixel,
        pixel <= 1 && sprite <= 1 ==> pixel ^ sprite <= 1,
{
    assert(pixel ^ 0 == pixel) by (bit_vector);
    assert(0 ^ sprite == sprite) by (bit_vector);
    assert((pixel ^ sprite) ^ sprite == pixel) by (bit_vector);
    assert(pixel <= 1 && sprite <= 1 ==> pixel ^ sprite <= 1) by (bit_vector);
}

impl Machine {
    /// The shape that every state has: the sizes of memory, register file
    /// and framebuffer, the capacity of the stack, and pixels that are 0 or 1.
    pub open spec fn wf(self) -> bool {
        &&& self.memory.len() == CHIP8_MEMORY
        &&& self.registers.len() == CHIP8_REGISTER_COUNT
        &&& self.stack.len() <= CHIP8_STACK_SIZE
        &&& self.display.len() == CHIP8_DISPLAY_HEIGHT
        &&& forall|r: int|
            0 <= r < CHIP8_DISPLAY_HEIGHT ==> (#[trigger] self.display[r]).len()
                == CHIP8_DISPLAY_WIDTH
        &&& forall|r: int, c: int|
            0 <= r < CHIP8_DISPLAY_HEIGHT && 0 <= c < CHIP8_DISPLAY_WIDTH
                ==> #[trigger] self.display[r][c] <= 1
    }

    /// The state at power-on: the font at the bottom of memory, the program
    /// counter at the program start, everything else zero.
    pub open spec fn initial() -> Machine {
        Machine {
            memory: Seq::new(
                CHIP8_MEMORY as nat,
                |a: int| if 0 <= a < FONT_SET@.len() { FONT_SET@[a] } else { 0u8 },
            ),
            registers: Seq::new(CHIP8_REGISTER_COUNT as nat, |i: int| 0u8),
            index: 0,
            pc: CHIP8_PROGRAM_MEMORY_START as int,
            stack: Seq::empty(),
            display: Machine::blank_display(),
            delay_timer: 0,
            sound_timer: 0,
        }
    }

    /// A framebuffer with every pixel off.
    pub open spec fn blank_display() -> Seq<Seq<u8>> {
        Seq::new(
            CHIP8_DISPLAY_HEIGHT as nat,
            |r: int| Seq::new(CHIP8_DISPLAY_WIDTH as nat, |c: int| 0u8),
        )
    }

    /// The value of register `x`.
    pub open spec fn v(self, x: u8) -> u8 {
        self.registers[x as int]
    }

    /// The flag register VF.
    pub open spec fn vf(self) -> u8 {
        self.registers[CHIP8_VF_INDEX as int]
    }

    /// The pixel in row `r`, column `c`.
    pub open spec fn pixel(self, r: int, c: int) -> u8 {
        self.display[r][c]
    }

    /// The state with `program` copied into memory from the program start.
    pub open spec fn load(self, program: Seq<u8>) -> Machine {
        Machine {
            memory: Seq::new(
                CHIP8_MEMORY as nat,
                |a: int|
                    if CHIP8_PROGRAM_MEMORY_START <= a < CHIP8_PROGRAM_MEMORY_START
                        + program.len() {
                        program[a - CHIP8_PROGRAM_MEMORY_START]
                    } else {
                        self.memory[a]
                    },
            ),
            ..self
        }
    }

    /// Both bytes of the instruction at the program counter lie in memory.
    pub open spec fn can_fetch(self) -> bool {
        0 <= self.pc && self.pc + 1 < CHIP8_MEMORY
    }

    /// The instruction at the program counter: two bytes, the high one
    /// first.
    pub open spec fn instruction_at_pc(self) -> u16 {
        (self.memory[self.pc] * 256 + self.memory[self.pc + 1]) as u16
    }

    /// The state after the program counter moved past one instruction.
    pub open spec fn advance(self) -> Machine {
        Machine { pc: self.pc + 2, ..self }
    }

    /// The state with `value` in register `x`.
    pub open spec fn with_register(self, x: u8, value: u8) -> Machine {
        Machine { registers: self.registers.update(x as int, value), ..self }
    }

    /// `00E0`: every pixel off.
    pub open spec fn clear_screen(self) -> Machine {
        Machine { display: Machine::blank_display(), ..self }
    }

    /// `1nnn`: the program counter at `address`.
    pub open spec fn jump(self, address: int) -> Machine {
        Machine { pc: address, ..self }
    }

    /// `Bnnn`: the program counter at `address` plus V0.
    pub open spec fn jump_with_offset(self, address: int) -> Machine {
        self.jump(address + self.v(0))
    }

    /// `2nnn`: the program counter pushed, then set to `address`.
    pub open spec fn call_subroutine(self, address: int) -> Machine {
        Machine { stack: self.stack.push(self.pc), pc: address, ..self }
    }

    /// `00EE`: the youngest return address popped into the program counter.
    pub open spec fn return_from_subroutine(self) -> Machine {
        Machine { stack: self.stack.drop_last(), pc: self.stack.last(), ..self }
    }

    /// The skip instructions: the program counter moves past one more
    /// instruction if `condition` holds.
    pub open spec fn skip_if(self, condition: bool) -> Machine {
        if condition {
            self.advance()
        } else {
            self
        }
    }

    /// `7xnn`: `value` added to Vx modulo 256; VF keeps its value.
    pub open spec fn add_immediate(self, x: u8, value: u8) -> Machine {
        self.with_register(x, ((self.v(x) + value) % 256) as u8)
    }

    /// `8xy4`: Vx receives the sum of Vx and Vy modulo 256, then VF the
    /// carry. With VF as Vx, the carry is what stays.
    pub open spec fn alu_add(self, x: u8, y: u8) -> Machine {
        let sum = self.v(x) + self.v(y);
        self.with_register(x, (sum % 256) as u8).with_register(
            CHIP8_VF_INDEX as u8,
            if sum >= 256 {
                1u8
            } else {
                0u8
            },
        )
    }

    /// `8xy5`, `8xy7`: register `target` receives the value of register
    /// `minuend` minus that of register `subtrahend`, modulo 256, and VF is
    /// 1 if there was no borrow, 0 if there was. `8xy5` takes Vy from Vx,
    /// `8xy7` takes Vx from Vy; both store in Vx. Without a borrow VF is set
    /// before the difference is stored, with a borrow after: with VF as the
    /// target, the later write stays.
    pub open spec fn alu_subtract(self, target: u8, minuend: u8, subtrahend: u8) -> Machine {
        let a = self.v(minuend);
        let b = self.v(subtrahend);
        let difference = ((a - b) % 256) as u8;
        if a >= b {
            self.with_register(CHIP8_VF_INDEX as u8, 1).with_register(target, difference)
        } else {
            self.with_register(target, difference).with_register(CHIP8_VF_INDEX as u8, 0)
        }
    }

    /// `8xy6`, `8xyE`: VF receives the bit that the shift pushes out of Vy,
    /// then Vx receives Vy shifted by one bit. With VF as Vx, the shifted
    /// value is what stays.
    pub open spec fn alu_shift(self, x: u8, y: u8, left: bool) -> Machine {
        let value = self.v(y);
        if left {
            self.with_register(CHIP8_VF_INDEX as u8, value / 128).with_register(
                x,
                (value * 2 % 256) as u8,
            )
        } else {
            self.with_register(CHIP8_VF_INDEX as u8, value % 2).with_register(x, value / 2)
        }
    }

    /// `Annn`: the index register at `address`.
    pub open spec fn set_index(self, address: int) -> Machine {
        Machine { index: address, ..self }
    }

    /// `Cxnn`: Vx receives the bits of `random` that `mask` lets through.
    pub open spec fn random(self, x: u8, mask: u8, random: u8) -> Machine {
        self.with_register(x, random & mask)
    }

    /// `Ex9E`, `ExA1`: with a key pressed, a skip if it equals Vx (`Ex9E`,
    /// `when_equal`) or differs from it (`ExA1`); with none, nothing.
    pub open spec fn skip_on_key(self, x: u8, key: Option<u8>, when_equal: bool) -> Machine {
        match key {
            Some(code) => self.skip_if((code == self.v(x)) == when_equal),
            None => self,
        }
    }

    /// Row `i` of the sprite at the index register: the byte of memory `i`
    /// places behind it.
    pub open spec fn sprite_row(self, i: int) -> u8 {
        self.memory[self.index + i]
    }

    /// What a sprite of `height` rows, read from memory at the index
    /// register and placed with its top left corner at (`row`, `col`), puts
    /// on the pixel in row `r`, column `c`: the sprite's bit there, 0 where
    /// the sprite does not reach. Rows and columns wrap around the display
    /// pixel by pixel; the leftmost pixel of a row is the byte's highest
    /// bit.
    pub open spec fn sprite_pixel(self, row: int, col: int, height: int, r: int, c: int) -> u8 {
        let i = (r - row) % (CHIP8_DISPLAY_HEIGHT as int);
        let k = (c - col) % (CHIP8_DISPLAY_WIDTH as int);
        if i < height && k < 8 {
            bit(self.sprite_row(i), (7 - k) as u8)
        } else {
            0
        }
    }

    /// The sprite has a set bit on a pixel that is already on.
    pub open spec fn sprite_collides(self, row: int, col: int, height: int) -> bool {
        exists|r: int, c: int|
            0 <= r < CHIP8_DISPLAY_HEIGHT && 0 <= c < CHIP8_DISPLAY_WIDTH && self.display[r][c]
                == 1 && #[trigger] self.sprite_pixel(row, col, height, r, c) == 1
    }

    /// `Dxyn`: the sprite at the index register is combined into the
    /// framebuffer by exclusive or, at column Vx and row Vy as they were
    /// before the instruction; VF is 1 if that turned a pixel off, else 0.
    pub open spec fn draw(self, x: u8, y: u8, height: u8) -> Machine {
        let row = self.v(y) as int;
        let col = self.v(x) as int;
        Machine {
            display: Seq::new(
                CHIP8_DISPLAY_HEIGHT as nat,
                |r: int|
                    Seq::new(
                        CHIP8_DISPLAY_WIDTH as nat,
                        |c: int|
                            self.display[r][c] ^ self.sprite_pixel(row, col, height as int, r, c),
                    ),
            ),
            registers: self.registers.update(
                CHIP8_VF_INDEX as int,
                if self.sprite_collides(row, col, height as int) {
                    1u8
                } else {
                    0u8
                },
            ),
            ..self
        }
    }

    /// Both timers one tick later: each one that is not zero goes down by
    /// one.
    pub open spec fn tick_timers(self) -> Machine {
        Machine {
            delay_timer: if self.delay_timer > 0 {
                (self.delay_timer - 1) as u8
            } else {
                0
            },
            sound_timer: if self.sound_timer > 0 {
                (self.sound_timer - 1) as u8
            } else {
                0
            },
            ..self
        }
    }

    /// The fault that stops `op` in this state, if there is one: a call on
    /// a full stack, a return on an empty one, a sprite that reaches beyond
    /// the end of memory.
    pub open spec fn fault(self, op: Opcode) -> Option<Fault> {
        match op {
            Opcode::Call { .. } => if self.stack.len() >= CHIP8_STACK_SIZE {
                Some(Fault::StackOverflow)
            } else {
                None
            },
            Opcode::Return => if self.stack.len() == 0 {
                Some(Fault::StackUnderflow)
            } else {
                None
            },
            Opcode::Draw { height, .. } => if height > 0 && !(0 <= self.index && self.index
                + height <= CHIP8_MEMORY) {
                Some(Fault::AddressOutOfRange)
            } else {
                None
            },
            _ => None,
        }
    }

    /// The state after `op`, where no fault stops it. `key` is the key that
    /// is pressed, `random` the byte that the random source gave.
    pub open spec fn apply(self, op: Opcode, key: Option<u8>, random: u8) -> Machine {
        match op {
            Opcode::ClearScreen => self.clear_screen(),
            Opcode::Return => self.return_from_subroutine(),
            Opcode::Jump { address } => self.jump(address as int),
            Opcode::Call { address } => self.call_subroutine(address as int),
            Opcode::SkipEqual { x, value } => self.skip_if(self.v(x) == value),
            Opcode::SkipNotEqual { x, value } => self.skip_if(self.v(x) != value),
            Opcode::SkipRegisterEqual { x, y } => self.skip_if(self.v(x) == self.v(y)),
            Opcode::SkipRegisterNotEqual { x, y } => self.skip_if(self.v(x) != self.v(y)),
            Opcode::SetRegister { x, value } => self.with_register(x, value),
            Opcode::AddImmediate { x, value } => self.add_immediate(x, value),
            Opcode::AluSet { x, y } => self.with_register(x, self.v(y)),
            Opcode::AluOr { x, y } => self.with_register(x, self.v(x) | self.v(y)),
            Opcode::AluAnd { x, y } => self.with_register(x, self.v(x) & self.v(y)),
            Opcode::AluXor { x, y } => self.with_register(x, self.v(x) ^ self.v(y)),
            Opcode::AluAdd { x, y } => self.alu_add(x, y),
            Opcode::AluSubtract { x, y } => self.alu_subtract(x, x, y),
            Opcode::AluSubtractReverse { x, y } => self.alu_subtract(x, y, x),
            Opcode::AluShift { x, y, left } => self.alu_shift(x, y, left),
            Opcode::SetIndex { address } => self.set_index(address as int),
            Opcode::JumpWithOffset { address } => self.jump_with_offset(address as int),
            Opcode::Random { x, mask } => self.random(x, mask, random),
            Opcode::Draw { x, y, height } => self.draw(x, y, height),
            Opcode::SkipKey { x } => self.skip_on_key(x, key, true),
            Opcode::SkipNotKey { x } => self.skip_on_key(x, key, false),
            Opcode::Unsupported { .. } => self,
        }
    }

    /// What the host has to do after `op`.
    pub open spec fn effect(op: Opcode) -> Effect {
        match op {
            Opcode::Draw { .. } => Effect::Redraw,
            Opcode::Unsupported { instruction } => Effect::Unsupported { instruction },
            _ => Effect::Continue,
        }
    }

    /// The state after `op` was tried: unchanged where a fault stops it.
    pub open spec fn execute(self, op: Opcode, key: Option<u8>, random: u8) -> Machine {
        if self.fault(op) is Some {
            self
        } else {
            self.apply(op, key, random)
        }
    }

    /// What the attempt to run `op` reports.
    pub open spec fn outcome(self, op: Opcode) -> Result<Effect, Fault> {
        match self.fault(op) {
            Some(fault) => Err(fault),
            None => Ok(Machine::effect(op)),
        }
    }

    /// The state after one cycle: unchanged where the instruction cannot be
    /// fetched; else the program counter moves past the instruction, and
    /// the instruction is tried.
    pub open spec fn cycle(self, key: Option<u8>, random: u8) -> Machine {
        if self.can_fetch() {
            self.advance().execute(Opcode::of(self.instruction_at_pc()), key, random)
        } else {
            self
        }
    }

    /// What one cycle reports.
    pub open spec fn cycle_outcome(self) -> Result<Effect, Fault> {
        if self.can_fetch() {
            self.advance().outcome(Opcode::of(self.instruction_at_pc()))
        } else {
            Err(Fault::AddressOutOfRange)
        }
    }
}

} // verus!

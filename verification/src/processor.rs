mod alu;
mod control;
mod screen;

use crate::font::{FONT_SET, FONT_SIZE};
use crate::instruction::Opcode;
use crate::machine::{
    Effect, Fault, Machine, CHIP8_DISPLAY_HEIGHT, CHIP8_DISPLAY_WIDTH, CHIP8_MAX_ROM_SIZE,
    CHIP8_MEMORY, CHIP8_PROGRAM_MEMORY_START, CHIP8_REGISTER_COUNT, CHIP8_STACK_SIZE,
};
use vstd::prelude::*;

verus! {

/// The machine: memory, registers, call stack, timers and framebuffer.
///
/// Its view is the [`Machine`] that the contracts speak of. The fields are
/// private, and every value of the type keeps the stack pointer within the
/// stack and every pixel at 0 or 1.
pub struct Processor {
    ram: [u8; CHIP8_MEMORY],
    display: [[u8; CHIP8_DISPLAY_WIDTH]; CHIP8_DISPLAY_HEIGHT],
    stack: [u16; CHIP8_STACK_SIZE],
    var_registers: [u8; CHIP8_REGISTER_COUNT],
    pc: u16,
    index_register: u16,
    sp: usize,
    sound_timer: u8,
    delay_timer: u8,
}

impl View for Processor {
    type V = Machine;

    closed spec fn view(&self) -> Machine {
        Machine {
            memory: self.ram@,
            registers: self.var_registers@,
            index: self.index_register as int,
            pc: self.pc as int,
            stack: Seq::new(self.sp as nat, |i: int| self.stack[i] as int),
            display: Seq::new(CHIP8_DISPLAY_HEIGHT as nat, |r: int| self.display[r]@),
            delay_timer: self.delay_timer,
            sound_timer: self.sound_timer,
        }
    }
}

impl Processor {
    /// What every value of the type keeps: the stack pointer within the
    /// stack, every pixel at 0 or 1.
    #[verifier::type_invariant]
    spec fn inv(self) -> bool {
        &&& self.sp <= CHIP8_STACK_SIZE
        &&& forall|r: int, c: int|
            0 <= r < CHIP8_DISPLAY_HEIGHT && 0 <= c < CHIP8_DISPLAY_WIDTH
                ==> #[trigger] self.display[r][c] <= 1
    }

    /// The view of a value that keeps the invariant is well-formed, with
    /// program counter and index register in the range of their type.
    proof fn lemma_view_wf(self)
        requires
            self.inv(),
        ensures
            self@.wf(),
            0 <= self@.pc <= u16::MAX,
            0 <= self@.index <= u16::MAX,
    {
    }

    /// A machine at power-on.
    pub fn new() -> (processor: Processor)
        ensures
            processor@ == Machine::initial(),
            processor@.wf(),
    {
        let mut ram = [0u8; CHIP8_MEMORY];
        let mut i: usize = 0;
        while i < FONT_SIZE
            invariant
                i <= FONT_SIZE,
                forall|a: int| 0 <= a < i ==> ram[a] == FONT_SET[a],
                forall|a: int| i <= a < CHIP8_MEMORY ==> ram[a] == 0,
            decreases FONT_SIZE - i,
        {
            ram[i] = FONT_SET[i];
            i += 1;
        }
        let processor = Processor {
            ram,
            display: [[0u8; CHIP8_DISPLAY_WIDTH]; CHIP8_DISPLAY_HEIGHT],
            stack: [0u16; CHIP8_STACK_SIZE],
            var_registers: [0u8; CHIP8_REGISTER_COUNT],
            pc: CHIP8_PROGRAM_MEMORY_START as u16,
            index_register: 0,
            sp: 0,
            sound_timer: 0,
            delay_timer: 0,
        };
        proof {
            processor.lemma_view_wf();
            assert(processor@ =~~= Machine::initial());
        }
        processor
    }

    /// The program counter.
    pub fn pc(&self) -> (pc: u16)
        ensures
            pc == self@.pc,
    {
        self.pc
    }

    /// The index register.
    pub fn index_register(&self) -> (index: u16)
        ensures
            index == self@.index,
    {
        self.index_register
    }

    /// The value of register `x`.
    pub fn register(&self, x: u8) -> (value: u8)
        requires
            x < CHIP8_REGISTER_COUNT,
        ensures
            value == self@.v(x),
    {
        self.var_registers[x as usize]
    }

    /// The byte of memory at `address`.
    pub fn memory(&self, address: usize) -> (byte: u8)
        requires
            address < CHIP8_MEMORY,
        ensures
            byte == self@.memory[address as int],
    {
        self.ram[address]
    }

    /// The number of calls that have not returned.
    pub fn stack_depth(&self) -> (depth: usize)
        ensures
            depth == self@.stack.len(),
            depth <= CHIP8_STACK_SIZE,
    {
        proof {
            use_type_invariant(self);
        }
        self.sp
    }

    /// The pixel in row `row`, column `col`: 0 or 1.
    pub fn pixel(&self, row: usize, col: usize) -> (pixel: u8)
        requires
            row < CHIP8_DISPLAY_HEIGHT,
            col < CHIP8_DISPLAY_WIDTH,
        ensures
            pixel == self@.pixel(row as int, col as int),
            pixel <= 1,
    {
        proof {
            use_type_invariant(self);
        }
        self.display[row][col]
    }

    /// The framebuffer as a whole, for the display.
    pub fn display(&self) -> (frame: &[[u8; CHIP8_DISPLAY_WIDTH]; CHIP8_DISPLAY_HEIGHT])
        ensures
            forall|r: int, c: int|
                0 <= r < CHIP8_DISPLAY_HEIGHT && 0 <= c < CHIP8_DISPLAY_WIDTH
                    ==> #[trigger] frame[r][c] == self@.pixel(r, c),
            forall|r: int, c: int|
                0 <= r < CHIP8_DISPLAY_HEIGHT && 0 <= c < CHIP8_DISPLAY_WIDTH
                    ==> #[trigger] frame[r][c] <= 1,
    {
        proof {
            use_type_invariant(self);
        }
        &self.display
    }

    /// The delay timer.
    pub fn delay_timer(&self) -> (value: u8)
        ensures
            value == self@.delay_timer,
    {
        self.delay_timer
    }

    /// The sound timer.
    pub fn sound_timer(&self) -> (value: u8)
        ensures
            value == self@.sound_timer,
    {
        self.sound_timer
    }

    /// Copies a program into memory from the program start. A program that
    /// would reach beyond the end of memory is refused, and nothing is
    /// written.
    pub fn load_program(&mut self, prog_data: &[u8]) -> (result: Result<(), Fault>)
        ensures
            result is Ok <==> prog_data@.len() <= CHIP8_MAX_ROM_SIZE,
            result is Err ==> result == Err::<(), Fault>(Fault::ProgramTooLarge),
            result is Ok ==> final(self)@ == old(self)@.load(prog_data@),
            result is Err ==> final(self)@ == old(self)@,
            final(self)@.wf(),
    {
        proof {
            use_type_invariant(&*self);
            self.lemma_view_wf();
        }
        if prog_data.len() > CHIP8_MAX_ROM_SIZE {
            return Err(Fault::ProgramTooLarge);
        }
        let ghost before = *self;
        let mut i: usize = 0;
        while i < prog_data.len()
            invariant
                i <= prog_data@.len() <= CHIP8_MAX_ROM_SIZE,
                self.inv(),
                *self == (Processor { ram: self.ram, ..before }),
                forall|a: int|
                    0 <= a < CHIP8_MEMORY ==> self.ram[a] == if CHIP8_PROGRAM_MEMORY_START <= a
                        < CHIP8_PROGRAM_MEMORY_START + i {
                        prog_data@[a - CHIP8_PROGRAM_MEMORY_START]
                    } else {
                        before.ram[a]
                    },
            decreases prog_data@.len() - i,
        {
            self.ram[CHIP8_PROGRAM_MEMORY_START + i] = prog_data[i];
            i += 1;
        }
        proof {
            self.lemma_view_wf();
            assert(self@ =~~= before@.load(prog_data@));
        }
        Ok(())
    }

    /// Fetches the instruction at the program counter, two bytes with the
    /// high one first, and moves the program counter past it.
    pub fn get_instruction(&mut self) -> (result: Result<u16, Fault>)
        ensures
            result is Ok <==> old(self)@.can_fetch(),
            result matches Ok(instruction) ==> instruction == old(self)@.instruction_at_pc()
                && final(self)@ == old(self)@.advance(),
            result matches Err(fault) ==> fault == Fault::AddressOutOfRange && final(self)@ == old(
                self,
            )@,
            final(self)@.wf(),
    {
        proof {
            use_type_invariant(&*self);
            self.lemma_view_wf();
        }
        let pc = self.pc as usize;
        if pc >= CHIP8_MEMORY - 1 {
            return Err(Fault::AddressOutOfRange);
        }
        let high = self.ram[pc];
        let low = self.ram[pc + 1];
        let instruction: u16 = (high as u16) << 8 | low as u16;
        assert(instruction == high * 256 + low) by (bit_vector)
            requires
                instruction == (high as u16) << 8 | low as u16,
        ;
        let ghost before = *self;
        self.pc = self.pc + 2;
        proof {
            self.lemma_view_wf();
            assert(self@ =~~= before@.advance());
        }
        Ok(instruction)
    }

    /// One tick of the 60 Hz clock: each timer that is not zero goes down
    /// by one.
    pub fn tick_timers(&mut self)
        ensures
            final(self)@ == old(self)@.tick_timers(),
            final(self)@.wf(),
    {
        proof {
            use_type_invariant(&*self);
        }
        let ghost before = *self;
        if self.delay_timer > 0 {
            self.delay_timer -= 1;
        }
        if self.sound_timer > 0 {
            self.sound_timer -= 1;
        }
        proof {
            self.lemma_view_wf();
            assert(self@ =~~= before@.tick_timers());
        }
    }

    /// Decodes `instruction` and runs it. `keycode` is the key that is
    /// pressed, if any; without one the two key instructions do nothing.
    /// An instruction outside the instruction set changes nothing and is
    /// reported; a fault changes nothing either. A skip needs room for the
    /// program counter to move, which it has after every fetch.
    pub fn decode_and_execute_instruction(
        &mut self,
        instruction: u16,
        keycode: Option<u8>,
    ) -> (result: Result<Effect, Fault>)
        requires
            Opcode::of(instruction).is_skip() ==> old(self)@.pc + 2 <= u16::MAX,
        ensures
            result == old(self)@.outcome(Opcode::of(instruction)),
            exists|random: u8|
                final(self)@ == #[trigger] old(self)@.execute(
                    Opcode::of(instruction),
                    keycode,
                    random,
                ),
            !(Opcode::of(instruction) is Random) ==> forall|random: u8|
                final(self)@ == #[trigger] old(self)@.execute(
                    Opcode::of(instruction),
                    keycode,
                    random,
                ),
            final(self)@.wf(),
    {
        proof {
            use_type_invariant(&*self);
            self.lemma_view_wf();
        }
        let ghost before = self@;
        let ghost mut witness: u8 = 0;
        let op = Opcode::decode(instruction);
        let result = match op {
            Opcode::ClearScreen => {
                self.instruction_clear_screen();
                Ok(Effect::Continue)
            },
            Opcode::Return => match self.instruction_return() {
                Ok(()) => Ok(Effect::Continue),
                Err(fault) => Err(fault),
            },
            Opcode::SetRegister { x, value } => {
                self.instruction_set(x, value);
                Ok(Effect::Continue)
            },
            Opcode::AddImmediate { x, value } => {
                self.instruction_add(x, value);
                Ok(Effect::Continue)
            },
            Opcode::Jump { address } => {
                self.instruction_jmp(address);
                Ok(Effect::Continue)
            },
            Opcode::Call { address } => match self.instruction_call_subroutine(address) {
                Ok(()) => Ok(Effect::Continue),
                Err(fault) => Err(fault),
            },
            Opcode::SetIndex { address } => {
                self.instruction_set_index(address);
                Ok(Effect::Continue)
            },
            Opcode::JumpWithOffset { address } => {
                self.instruction_jump_with_offset(address);
                Ok(Effect::Continue)
            },
            Opcode::Random { x, mask } => {
                self.instruction_random(x, mask);
                proof {
                    witness = choose|random: u8| self@ == before.random(x, mask, random);
                }
                Ok(Effect::Continue)
            },
            Opcode::Draw { x, y, height } => match self.instruction_draw_display(x, y, height) {
                Ok(()) => Ok(Effect::Redraw),
                Err(fault) => Err(fault),
            },
            Opcode::SkipEqual { x, value } => {
                self.instruction_skip_equal(x, value);
                Ok(Effect::Continue)
            },
            Opcode::SkipKey { x } => {
                if let Some(code) = keycode {
                    self.instruction_skip_key(x, code);
                }
                Ok(Effect::Continue)
            },
            Opcode::SkipNotKey { x } => {
                if let Some(code) = keycode {
                    self.instruction_skip_not_key(x, code);
                }
                Ok(Effect::Continue)
            },
            Opcode::SkipNotEqual { x, value } => {
                self.instruction_skip_not_equal(x, value);
                Ok(Effect::Continue)
            },
            Opcode::SkipRegisterEqual { x, y } => {
                self.instruction_skip_register_equal(x, y);
                Ok(Effect::Continue)
            },
            Opcode::SkipRegisterNotEqual { x, y } => {
                self.instruction_skip_register_not_equal(x, y);
                Ok(Effect::Continue)
            },
            Opcode::AluSet { x, y } => {
                self.instruction_alu_set(x, y);
                Ok(Effect::Continue)
            },
            Opcode::AluOr { x, y } => {
                self.instruction_alu_or(x, y);
                Ok(Effect::Continue)
            },
            Opcode::AluAnd { x, y } => {
                self.instruction_alu_and(x, y);
                Ok(Effect::Continue)
            },
            Opcode::AluXor { x, y } => {
                self.instruction_alu_xor(x, y);
                Ok(Effect::Continue)
            },
            Opcode::AluAdd { x, y } => {
                self.instruction_alu_add(x, y);
                Ok(Effect::Continue)
            },
            Opcode::AluSubtract { x, y } => {
                self.instruction_alu_subtract(x, y);
                Ok(Effect::Continue)
            },
            Opcode::AluSubtractReverse { x, y } => {
                self.instruction_alu_subtract_reverse(x, y);
                Ok(Effect::Continue)
            },
            Opcode::AluShift { x, y, left } => {
                self.instruction_alu_shift(x, y, left);
                Ok(Effect::Continue)
            },
            Opcode::Unsupported { instruction } => Ok(Effect::Unsupported { instruction }),
        };
        proof {
            use_type_invariant(&*self);
            self.lemma_view_wf();
            assert(self@ == before.execute(op, keycode, witness));
        }
        result
    }

    /// One cycle: fetches the instruction at the program counter and runs
    /// it. Where the instruction cannot be fetched nothing changes; a
    /// fault of the instruction leaves the program counter behind it.
    pub fn cycle(&mut self, keycode: Option<u8>) -> (result: Result<Effect, Fault>)
        ensures
            result == old(self)@.cycle_outcome(),
            exists|random: u8| final(self)@ == #[trigger] old(self)@.cycle(keycode, random),
            !(Opcode::of(old(self)@.instruction_at_pc()) is Random) ==> forall|random: u8|
                final(self)@ == #[trigger] old(self)@.cycle(keycode, random),
            final(self)@.wf(),
    {
        let ghost before = self@;
        match self.get_instruction() {
            Ok(instruction) => {
                let ghost fetched = self@;
                let result = self.decode_and_execute_instruction(instruction, keycode);
                proof {
                    let random = choose|random: u8|
                        self@ == #[trigger] fetched.execute(
                            Opcode::of(instruction),
                            keycode,
                            random,
                        );
                    assert(self@ == before.cycle(keycode, random));
                }
                result
            },
            Err(fault) => {
                proof {
                    assert(self@ == before.cycle(keycode, 0));
                }
                Err(fault)
            },
        }
    }
}

} // verus!

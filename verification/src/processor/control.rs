use super::Processor;
use crate::machine::{Fault, Machine, CHIP8_REGISTER_COUNT, CHIP8_STACK_SIZE};
use vstd::prelude::*;

verus! {

impl Processor {
    fn push_addr(&mut self, address: u16)
        requires
            old(self)@.stack.len() < CHIP8_STACK_SIZE,
        ensures
            final(self)@ == (Machine {
                stack: old(self)@.stack.push(address as int),
                ..old(self)@
            }),
    {
        proof {
            use_type_invariant(&*self);
        }
        let ghost before = *self;
        self.stack[self.sp] = address;
        self.sp += 1;
        proof {
            assert(self@ =~~= (Machine { stack: before@.stack.push(address as int), ..before@ }));
        }
    }

    fn pop_addr(&mut self) -> (address: u16)
        requires
            old(self)@.stack.len() > 0,
        ensures
            address == old(self)@.stack.last(),
            final(self)@ == (Machine { stack: old(self)@.stack.drop_last(), ..old(self)@ }),
    {
        proof {
            use_type_invariant(&*self);
        }
        let ghost before = *self;
        self.sp -= 1;
        proof {
            assert(self@ =~~= (Machine { stack: before@.stack.drop_last(), ..before@ }));
        }
        self.stack[self.sp]
    }

    fn skip_next(&mut self)
        requires
            old(self)@.pc + 2 <= u16::MAX,
        ensures
            final(self)@ == old(self)@.advance(),
    {
        proof {
            use_type_invariant(&*self);
        }
        let ghost before = *self;
        self.pc += 2;
        proof {
            assert(self@ =~~= before@.advance());
        }
    }

    /// `1nnn`: jumps to `address`.
    pub fn instruction_jmp(&mut self, address: u16)
        ensures
            final(self)@ == old(self)@.jump(address as int),
            final(self)@.wf(),
    {
        proof {
            use_type_invariant(&*self);
        }
        let ghost before = *self;
        self.pc = address;
        proof {
            self.lemma_view_wf();
            assert(self@ =~~= before@.jump(address as int));
        }
    }

    /// `Bnnn`: jumps to `address` plus V0.
    pub fn instruction_jump_with_offset(&mut self, address: u16)
        requires
            address + old(self)@.v(0) <= u16::MAX,
        ensures
            final(self)@ == old(self)@.jump_with_offset(address as int),
            final(self)@.wf(),
    {
        let offset = self.var_registers[0x00] as u16;
        self.instruction_jmp(address + offset);
    }

    /// `2nnn`: pushes the program counter and jumps to `address`. On a full
    /// stack nothing changes.
    pub fn instruction_call_subroutine(&mut self, address: u16) -> (result: Result<(), Fault>)
        ensures
            result is Ok <==> old(self)@.stack.len() < CHIP8_STACK_SIZE,
            result is Ok ==> final(self)@ == old(self)@.call_subroutine(address as int),
            result is Err ==> result == Err::<(), Fault>(Fault::StackOverflow) && final(self)@
                == old(self)@,
            final(self)@.wf(),
    {
        proof {
            use_type_invariant(&*self);
            self.lemma_view_wf();
        }
        if self.sp >= CHIP8_STACK_SIZE {
            return Err(Fault::StackOverflow);
        }
        let ghost before = *self;
        self.push_addr(self.pc);
        proof {
            use_type_invariant(&*self);
        }
        self.pc = address;
        proof {
            use_type_invariant(&*self);
            self.lemma_view_wf();
            assert(self@ =~~= before@.call_subroutine(address as int));
        }
        Ok(())
    }

    /// `00EE`: pops the youngest return address into the program counter.
    /// On an empty stack nothing changes.
    pub fn instruction_return(&mut self) -> (result: Result<(), Fault>)
        ensures
            result is Ok <==> old(self)@.stack.len() > 0,
            result is Ok ==> final(self)@ == old(self)@.return_from_subroutine(),
            result is Err ==> result == Err::<(), Fault>(Fault::StackUnderflow) && final(self)@
                == old(self)@,
            final(self)@.wf(),
    {
        proof {
            use_type_invariant(&*self);
            self.lemma_view_wf();
        }
        if self.sp == 0 {
            return Err(Fault::StackUnderflow);
        }
        let ghost before = *self;
        let ret_address = self.pop_addr();
        proof {
            use_type_invariant(&*self);
        }
        self.pc = ret_address;
        proof {
            use_type_invariant(&*self);
            self.lemma_view_wf();
            assert(self@ =~~= before@.return_from_subroutine());
        }
        Ok(())
    }

    /// `3xnn`: skips the next instruction if the register holds `value`.
    pub fn instruction_skip_equal(&mut self, register: u8, value: u8)
        requires
            register < CHIP8_REGISTER_COUNT,
            old(self)@.pc + 2 <= u16::MAX,
        ensures
            final(self)@ == old(self)@.skip_if(old(self)@.v(register) == value),
            final(self)@.wf(),
    {
        if self.var_registers[register as usize] == value {
            self.skip_next();
        }
        proof {
            use_type_invariant(&*self);
            self.lemma_view_wf();
        }
    }

    /// `4xnn`: skips the next instruction if the register does not hold
    /// `value`.
    pub fn instruction_skip_not_equal(&mut self, register: u8, value: u8)
        requires
            register < CHIP8_REGISTER_COUNT,
            old(self)@.pc + 2 <= u16::MAX,
        ensures
            final(self)@ == old(self)@.skip_if(old(self)@.v(register) != value),
            final(self)@.wf(),
    {
        if self.var_registers[register as usize] != value {
            self.skip_next();
        }
        proof {
            use_type_invariant(&*self);
            self.lemma_view_wf();
        }
    }

    /// `Ex9E`: skips the next instruction if the pressed key is the one that
    /// the register names.
    pub fn instruction_skip_key(&mut self, register: u8, keycode: u8)
        requires
            register < CHIP8_REGISTER_COUNT,
            old(self)@.pc + 2 <= u16::MAX,
        ensures
            final(self)@ == old(self)@.skip_on_key(register, Some(keycode), true),
            final(self)@.wf(),
    {
        if self.var_registers[register as usize] == keycode {
            self.skip_next();
        }
        proof {
            use_type_invariant(&*self);
            self.lemma_view_wf();
        }
    }

    /// `ExA1`: skips the next instruction if the pressed key is not the one
    /// that the register names.
    pub fn instruction_skip_not_key(&mut self, register: u8, keycode: u8)
        requires
            register < CHIP8_REGISTER_COUNT,
            old(self)@.pc + 2 <= u16::MAX,
        ensures
            final(self)@ == old(self)@.skip_on_key(register, Some(keycode), false),
            final(self)@.wf(),
    {
        if self.var_registers[register as usize] != keycode {
            self.skip_next();
        }
        proof {
            use_type_invariant(&*self);
            self.lemma_view_wf();
        }
    }

    /// `5xy0`: skips the next instruction if the two registers are equal.
    pub fn instruction_skip_register_equal(&mut self, vx_register: u8, vy_register: u8)
        requires
            vx_register < CHIP8_REGISTER_COUNT,
            vy_register < CHIP8_REGISTER_COUNT,
            old(self)@.pc + 2 <= u16::MAX,
        ensures
            final(self)@ == old(self)@.skip_if(
                old(self)@.v(vx_register) == old(self)@.v(vy_register),
            ),
            final(self)@.wf(),
    {
        if self.var_registers[vx_register as usize] == self.var_registers[vy_register as usize] {
            self.skip_next();
        }
        proof {
            use_type_invariant(&*self);
            self.lemma_view_wf();
        }
    }

    /// `9xy0`: skips the next instruction if the two registers differ.
    pub fn instruction_skip_register_not_equal(&mut self, vx_register: u8, vy_register: u8)
        requires
            vx_register < CHIP8_REGISTER_COUNT,
            vy_register < CHIP8_REGISTER_COUNT,
            old(self)@.pc + 2 <= u16::MAX,
        ensures
            final(self)@ == old(self)@.skip_if(
                old(self)@.v(vx_register) != old(self)@.v(vy_register),
            ),
            final(self)@.wf(),
    {
        if self.var_registers[vx_register as usize] != self.var_registers[vy_register as usize] {
            self.skip_next();
        }
        proof {
            use_type_invariant(&*self);
            self.lemma_view_wf();
        }
    }
}

} // verus!

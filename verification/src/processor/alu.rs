use super::Processor;
use crate::machine::{CHIP8_REGISTER_COUNT, CHIP8_VF_INDEX};
use crate::rng::random_byte;
use vstd::prelude::*;

verus! {

impl Processor {
    /// `6xnn`: stores `value` in the register.
    pub fn instruction_set(&mut self, register: u8, value: u8)
        requires
            register < CHIP8_REGISTER_COUNT,
        ensures
            final(self)@ == old(self)@.with_register(register, value),
            final(self)@.wf(),
    {
        proof {
            use_type_invariant(&*self);
        }
        let ghost before = *self;
        self.var_registers[register as usize] = value;
        proof {
            self.lemma_view_wf();
            assert(self@ =~~= before@.with_register(register, value));
        }
    }

    /// `7xnn`: adds `value` to the register modulo 256 and leaves VF alone.
    pub fn instruction_add(&mut self, register: u8, value: u8)
        requires
            register < CHIP8_REGISTER_COUNT,
        ensures
            final(self)@ == old(self)@.add_immediate(register, value),
            final(self)@.wf(),
    {
        let value = self.var_registers[register as usize].wrapping_add(value);
        self.instruction_set(register, value);
    }

    /// `Annn`: points the index register at `value`.
    pub fn instruction_set_index(&mut self, value: u16)
        ensures
            final(self)@ == old(self)@.set_index(value as int),
            final(self)@.wf(),
    {
        proof {
            use_type_invariant(&*self);
        }
        let ghost before = *self;
        self.index_register = value;
        proof {
            self.lemma_view_wf();
            assert(self@ =~~= before@.set_index(value as int));
        }
    }

    /// `Cxnn`: draws a random byte and stores its bits under the mask
    /// `value` in the register. The byte is whatever the generator gives.
    pub fn instruction_random(&mut self, vx_register: u8, value: u8)
        requires
            vx_register < CHIP8_REGISTER_COUNT,
        ensures
            exists|random: u8| final(self)@ == old(self)@.random(vx_register, value, random),
            final(self)@.wf(),
    {
        let random_value = random_byte();
        self.instruction_random_with(vx_register, value, random_value);
    }

    /// The second half of `Cxnn`: stores the bits of `random_value` under
    /// the mask `value` in the register.
    pub fn instruction_random_with(&mut self, vx_register: u8, value: u8, random_value: u8)
        requires
            vx_register < CHIP8_REGISTER_COUNT,
        ensures
            final(self)@ == old(self)@.random(vx_register, value, random_value),
            final(self)@.wf(),
    {
        self.instruction_set(vx_register, random_value & value);
    }

    /// `8xy0`: copies the second register into the first.
    pub fn instruction_alu_set(&mut self, vx_register: u8, vy_register: u8)
        requires
            vx_register < CHIP8_REGISTER_COUNT,
            vy_register < CHIP8_REGISTER_COUNT,
        ensures
            final(self)@ == old(self)@.with_register(vx_register, old(self)@.v(vy_register)),
            final(self)@.wf(),
    {
        let value = self.var_registers[vy_register as usize];
        self.instruction_set(vx_register, value);
    }

    /// `8xy1`: bitwise or of the two registers into the first; VF keeps its
    /// value.
    pub fn instruction_alu_or(&mut self, vx_register: u8, vy_register: u8)
        requires
            vx_register < CHIP8_REGISTER_COUNT,
            vy_register < CHIP8_REGISTER_COUNT,
        ensures
            final(self)@ == old(self)@.with_register(
                vx_register,
                old(self)@.v(vx_register) | old(self)@.v(vy_register),
            ),
            final(self)@.wf(),
    {
        let value = self.var_registers[vx_register as usize]
            | self.var_registers[vy_register as usize];
        self.instruction_set(vx_register, value);
    }

    /// `8xy2`: bitwise and of the two registers into the first; VF keeps
    /// its value.
    pub fn instruction_alu_and(&mut self, vx_register: u8, vy_register: u8)
        requires
            vx_register < CHIP8_REGISTER_COUNT,
            vy_register < CHIP8_REGISTER_COUNT,
        ensures
            final(self)@ == old(self)@.with_register(
                vx_register,
                old(self)@.v(vx_register) & old(self)@.v(vy_register),
            ),
            final(self)@.wf(),
    {
        let value = self.var_registers[vx_register as usize]
            & self.var_registers[vy_register as usize];
        self.instruction_set(vx_register, value);
    }

    /// `8xy3`: bitwise exclusive or of the two registers into the first; VF
    /// keeps its value.
    pub fn instruction_alu_xor(&mut self, vx_register: u8, vy_register: u8)
        requires
            vx_register < CHIP8_REGISTER_COUNT,
            vy_register < CHIP8_REGISTER_COUNT,
        ensures
            final(self)@ == old(self)@.with_register(
                vx_register,
                old(self)@.v(vx_register) ^ old(self)@.v(vy_register),
            ),
            final(self)@.wf(),
    {
        let value = self.var_registers[vx_register as usize]
            ^ self.var_registers[vy_register as usize];
        self.instruction_set(vx_register, value);
    }

    /// `8xy4`: adds the second register to the first modulo 256, then sets
    /// VF to 1 if the sum did not fit in a byte and to 0 if it did.
    pub fn instruction_alu_add(&mut self, vx_register: u8, vy_register: u8)
        requires
            vx_register < CHIP8_REGISTER_COUNT,
            vy_register < CHIP8_REGISTER_COUNT,
        ensures
            final(self)@ == old(self)@.alu_add(vx_register, vy_register),
            final(self)@.vf() == (if old(self)@.v(vx_register) + old(self)@.v(vy_register)
                >= 256 {
                1u8
            } else {
                0u8
            }),
            vx_register != CHIP8_VF_INDEX ==> final(self)@.v(vx_register) == (old(self)@.v(
                vx_register,
            ) + old(self)@.v(vy_register)) % 256,
            final(self)@.wf(),
    {
        let sum: u16 = self.var_registers[vx_register as usize] as u16
            + self.var_registers[vy_register as usize] as u16;
        let overflow = sum > 0xFF;
        self.instruction_set(vx_register, (sum % 256) as u8);
        if overflow {
            self.instruction_set(CHIP8_VF_INDEX as u8, 1);
        } else {
            self.instruction_set(CHIP8_VF_INDEX as u8, 0);
        }
    }

    /// `8xy5`: subtracts the second register from the first modulo 256 and
    /// stores the difference in the first. VF becomes 1 if the first was at
    /// least the second, set before the difference is stored, and 0 if it
    /// was less, set after.
    pub fn instruction_alu_subtract(&mut self, vx_register: u8, vy_register: u8)
        requires
            vx_register < CHIP8_REGISTER_COUNT,
            vy_register < CHIP8_REGISTER_COUNT,
        ensures
            final(self)@ == old(self)@.alu_subtract(vx_register, vx_register, vy_register),
            vx_register != CHIP8_VF_INDEX ==> {
                &&& final(self)@.v(vx_register) == (old(self)@.v(vx_register) - old(self)@.v(
                    vy_register,
                )) % 256
                &&& final(self)@.vf() == 1 <==> old(self)@.v(vx_register) >= old(self)@.v(
                    vy_register,
                )
                &&& final(self)@.vf() <= 1
            },
            final(self)@.wf(),
    {
        let (vx_value, vy_value) = (
            self.var_registers[vx_register as usize],
            self.var_registers[vy_register as usize],
        );
        self.store_difference(vx_register, vx_value, vy_value);
    }

    /// `8xy7`: subtracts the first register from the second modulo 256 and
    /// stores the difference in the first; the second keeps its value. VF
    /// becomes 1 if the second was at least the first, set before the
    /// difference is stored, and 0 if it was less, set after.
    pub fn instruction_alu_subtract_reverse(&mut self, vx_register: u8, vy_register: u8)
        requires
            vx_register < CHIP8_REGISTER_COUNT,
            vy_register < CHIP8_REGISTER_COUNT,
        ensures
            final(self)@ == old(self)@.alu_subtract(vx_register, vy_register, vx_register),
            vx_register != CHIP8_VF_INDEX ==> {
                &&& final(self)@.v(vx_register) == (old(self)@.v(vy_register) - old(self)@.v(
                    vx_register,
                )) % 256
                &&& final(self)@.vf() == 1 <==> old(self)@.v(vy_register) >= old(self)@.v(
                    vx_register,
                )
                &&& final(self)@.vf() <= 1
                &&& vy_register != vx_register && vy_register != CHIP8_VF_INDEX
                    ==> final(self)@.v(vy_register) == old(self)@.v(vy_register)
            },
            final(self)@.wf(),
    {
        let (vx_value, vy_value) = (
            self.var_registers[vx_register as usize],
            self.var_registers[vy_register as usize],
        );
        self.store_difference(vx_register, vy_value, vx_value);
    }

    /// Stores `minuend - subtrahend` modulo 256 in the register, with VF
    /// set to 1 before the store if nothing is borrowed and to 0 after it
    /// if something is.
    fn store_difference(&mut self, register: u8, minuend: u8, subtrahend: u8)
        requires
            register < CHIP8_REGISTER_COUNT,
        ensures
            final(self)@ == (if minuend >= subtrahend {
                old(self)@.with_register(CHIP8_VF_INDEX as u8, 1).with_register(
                    register,
                    ((minuend - subtrahend) % 256) as u8,
                )
            } else {
                old(self)@.with_register(register, ((minuend - subtrahend) % 256) as u8)
                    .with_register(CHIP8_VF_INDEX as u8, 0)
            }),
            final(self)@.wf(),
    {
        let underflow = minuend < subtrahend;
        if !underflow {
            self.instruction_set(CHIP8_VF_INDEX as u8, 1);
        }
        let value = minuend.wrapping_sub(subtrahend);
        self.instruction_set(register, value);
        if underflow {
            self.instruction_set(CHIP8_VF_INDEX as u8, 0);
        }
    }

    /// `8xy6`, `8xyE`: copies the second register into the first, sets VF
    /// to the bit that the shift pushes out (the lowest for a right shift,
    /// the highest for a left shift), then shifts the first by one bit.
    pub fn instruction_alu_shift(&mut self, vx_register: u8, vy_register: u8, left_shift: bool)
        requires
            vx_register < CHIP8_REGISTER_COUNT,
            vy_register < CHIP8_REGISTER_COUNT,
        ensures
            final(self)@ == old(self)@.alu_shift(vx_register, vy_register, left_shift),
            final(self)@.wf(),
    {
        let ghost before = self@;
        let value = self.var_registers[vy_register as usize];
        self.instruction_set(vx_register, value);

        let vf_value: u8;
        let vx_value: u8;
        if left_shift {
            vf_value = (value & 0x80) >> 7;
            vx_value = value << 1;
            assert(vf_value == value / 128 && vx_value == value * 2 % 256) by (bit_vector)
                requires
                    vf_value == (value & 0x80) >> 7,
                    vx_value == value << 1,
            ;
        } else {
            vf_value = value & 0x01;
            vx_value = value >> 1;
            assert(vf_value == value % 2 && vx_value == value / 2) by (bit_vector)
                requires
                    vf_value == value & 0x01,
                    vx_value == value >> 1,
            ;
        }

        self.instruction_set(CHIP8_VF_INDEX as u8, vf_value);
        self.instruction_set(vx_register, vx_value);
        proof {
            assert(self@ =~~= before.alu_shift(vx_register, vy_register, left_shift));
        }
    }
}

} // verus!

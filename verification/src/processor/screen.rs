use super::Processor;
use crate::machine::{
    bit, lemma_bit_is_binary, lemma_pixel_xor, Fault, Machine, CHIP8_DISPLAY_HEIGHT,
    CHIP8_DISPLAY_WIDTH, CHIP8_MEMORY, CHIP8_REGISTER_COUNT, CHIP8_VF_INDEX,
};
use vstd::prelude::*;

verus! {

/// What the part of a sprite that is already drawn puts on the pixel in row
/// `r`, column `c`: the sprite's rows above row `rows` count in full, and of
/// row `rows` the bits below bit `bits`.
spec fn drawn_pixel(m: Machine, row: int, col: int, rows: int, bits: int, r: int, c: int) -> u8 {
    let i = (r - row) % (CHIP8_DISPLAY_HEIGHT as int);
    let k = (c - col) % (CHIP8_DISPLAY_WIDTH as int);
    if k < 8 && (i < rows || (i == rows && 7 - k < bits)) {
        bit(m.sprite_row(i), (7 - k) as u8)
    } else {
        0
    }
}

/// The part of a sprite that is already drawn has a set bit on a pixel that
/// was on before the draw.
spec fn drawn_collides(m: Machine, row: int, col: int, rows: int, bits: int) -> bool {
    exists|r: int, c: int|
        0 <= r < CHIP8_DISPLAY_HEIGHT && 0 <= c < CHIP8_DISPLAY_WIDTH && m.display[r][c] == 1
            && #[trigger] drawn_pixel(m, row, col, rows, bits, r, c) == 1
}

/// Before the first bit nothing is drawn.
proof fn lemma_drawn_nothing(m: Machine, row: int, col: int)
    ensures
        forall|r: int, c: int| #[trigger] drawn_pixel(m, row, col, 0, 0, r, c) == 0,
        !drawn_collides(m, row, col, 0, 0),
{
}

/// All eight bits of a row drawn is the next row not yet begun.
proof fn lemma_drawn_next_row(m: Machine, row: int, col: int, rows: int)
    ensures
        forall|r: int, c: int| #[trigger]
            drawn_pixel(m, row, col, rows + 1, 0, r, c) == drawn_pixel(m, row, col, rows, 8, r, c),
        drawn_collides(m, row, col, rows + 1, 0) == drawn_collides(m, row, col, rows, 8),
{
    assert forall|r: int, c: int| #[trigger]
        drawn_pixel(m, row, col, rows + 1, 0, r, c) == drawn_pixel(
            m,
            row,
            col,
            rows,
            8,
            r,
            c,
        ) by {}
    if drawn_collides(m, row, col, rows + 1, 0) {
        let (r, c) = choose|r: int, c: int|
            0 <= r < CHIP8_DISPLAY_HEIGHT && 0 <= c < CHIP8_DISPLAY_WIDTH && m.display[r][c] == 1
                && #[trigger] drawn_pixel(m, row, col, rows + 1, 0, r, c) == 1;
        assert(drawn_pixel(m, row, col, rows, 8, r, c) == 1);
    }
    if drawn_collides(m, row, col, rows, 8) {
        let (r, c) = choose|r: int, c: int|
            0 <= r < CHIP8_DISPLAY_HEIGHT && 0 <= c < CHIP8_DISPLAY_WIDTH && m.display[r][c] == 1
                && #[trigger] drawn_pixel(m, row, col, rows, 8, r, c) == 1;
        assert(drawn_pixel(m, row, col, rows + 1, 0, r, c) == 1);
    }
}

/// All rows drawn is the sprite.
proof fn lemma_drawn_all(m: Machine, row: int, col: int, height: int)
    ensures
        forall|r: int, c: int| #[trigger]
            drawn_pixel(m, row, col, height, 0, r, c) == m.sprite_pixel(row, col, height, r, c),
        drawn_collides(m, row, col, height, 0) == m.sprite_collides(row, col, height),
{
    if drawn_collides(m, row, col, height, 0) {
        let (r, c) = choose|r: int, c: int|
            0 <= r < CHIP8_DISPLAY_HEIGHT && 0 <= c < CHIP8_DISPLAY_WIDTH && m.display[r][c] == 1
                && #[trigger] drawn_pixel(m, row, col, height, 0, r, c) == 1;
        assert(m.sprite_pixel(row, col, height, r, c) == 1);
    }
    if m.sprite_collides(row, col, height) {
        let (r, c) = choose|r: int, c: int|
            0 <= r < CHIP8_DISPLAY_HEIGHT && 0 <= c < CHIP8_DISPLAY_WIDTH && m.display[r][c] == 1
                && #[trigger] m.sprite_pixel(row, col, height, r, c) == 1;
        assert(drawn_pixel(m, row, col, height, 0, r, c) == 1);
    }
}

/// Drawing bit `j` of sprite row `i` changes what is drawn on one pixel and
/// on no other.
proof fn lemma_drawn_next_bit(m: Machine, row: int, col: int, i: int, j: int)
    requires
        0 <= row,
        0 <= col,
        0 <= i < CHIP8_DISPLAY_HEIGHT,
        0 <= j < 8,
    ensures
        ({
            let r0 = (row + i) % (CHIP8_DISPLAY_HEIGHT as int);
            let c0 = (col + 7 - j) % (CHIP8_DISPLAY_WIDTH as int);
            &&& drawn_pixel(m, row, col, i, j, r0, c0) == 0
            &&& drawn_pixel(m, row, col, i, j + 1, r0, c0) == bit(m.sprite_row(i), j as u8)
            &&& forall|r: int, c: int|
                0 <= r < CHIP8_DISPLAY_HEIGHT && 0 <= c < CHIP8_DISPLAY_WIDTH && !(r == r0 && c
                    == c0) ==> #[trigger] drawn_pixel(m, row, col, i, j + 1, r, c) == drawn_pixel(
                    m,
                    row,
                    col,
                    i,
                    j,
                    r,
                    c,
                )
            &&& drawn_collides(m, row, col, i, j + 1) == (drawn_collides(m, row, col, i, j) || (
            m.display[r0][c0] == 1 && bit(m.sprite_row(i), j as u8) == 1))
        }),
{
    let r0 = (row + i) % (CHIP8_DISPLAY_HEIGHT as int);
    let c0 = (col + 7 - j) % (CHIP8_DISPLAY_WIDTH as int);
    assert((r0 - row) % (CHIP8_DISPLAY_HEIGHT as int) == i);
    assert((c0 - col) % (CHIP8_DISPLAY_WIDTH as int) == 7 - j);
    assert forall|r: int, c: int|
        0 <= r < CHIP8_DISPLAY_HEIGHT && 0 <= c < CHIP8_DISPLAY_WIDTH && !(r == r0 && c
            == c0) implies #[trigger] drawn_pixel(m, row, col, i, j + 1, r, c) == drawn_pixel(
        m,
        row,
        col,
        i,
        j,
        r,
        c,
    ) by {
        let ri = (r - row) % (CHIP8_DISPLAY_HEIGHT as int);
        let ck = (c - col) % (CHIP8_DISPLAY_WIDTH as int);
        if ri == i && 7 - ck == j {
            assert(r == r0);
            assert(c == c0);
        }
    }
    let hit = m.display[r0][c0] == 1 && bit(m.sprite_row(i), j as u8) == 1;
    if drawn_collides(m, row, col, i, j + 1) {
        let (r, c) = choose|r: int, c: int|
            0 <= r < CHIP8_DISPLAY_HEIGHT && 0 <= c < CHIP8_DISPLAY_WIDTH && m.display[r][c] == 1
                && #[trigger] drawn_pixel(m, row, col, i, j + 1, r, c) == 1;
        if !(r == r0 && c == c0) {
            assert(drawn_pixel(m, row, col, i, j, r, c) == 1);
        }
    }
    if drawn_collides(m, row, col, i, j) {
        let (r, c) = choose|r: int, c: int|
            0 <= r < CHIP8_DISPLAY_HEIGHT && 0 <= c < CHIP8_DISPLAY_WIDTH && m.display[r][c] == 1
                && #[trigger] drawn_pixel(m, row, col, i, j, r, c) == 1;
        assert(!(r == r0 && c == c0));
        assert(drawn_pixel(m, row, col, i, j + 1, r, c) == 1);
    }
    if hit {
        assert(drawn_pixel(m, row, col, i, j + 1, r0, c0) == 1);
    }
}

impl Processor {
    /// `00E0`: turns every pixel off.
    pub fn instruction_clear_screen(&mut self)
        ensures
            final(self)@ == old(self)@.clear_screen(),
            final(self)@.wf(),
    {
        proof {
            use_type_invariant(&*self);
        }
        let ghost before = *self;
        let mut i: usize = 0;
        while i < CHIP8_DISPLAY_HEIGHT
            invariant
                i <= CHIP8_DISPLAY_HEIGHT,
                self.inv(),
                *self == (Processor { display: self.display, ..before }),
                forall|r: int, c: int|
                    0 <= r < i && 0 <= c < CHIP8_DISPLAY_WIDTH ==> #[trigger] self.display[r][c]
                        == 0,
            decreases CHIP8_DISPLAY_HEIGHT - i,
        {
            let mut j: usize = 0;
            while j < CHIP8_DISPLAY_WIDTH
                invariant
                    i < CHIP8_DISPLAY_HEIGHT,
                    j <= CHIP8_DISPLAY_WIDTH,
                    self.inv(),
                    *self == (Processor { display: self.display, ..before }),
                    forall|r: int, c: int|
                        0 <= r < i && 0 <= c < CHIP8_DISPLAY_WIDTH
                            ==> #[trigger] self.display[r][c] == 0,
                    forall|c: int| 0 <= c < j ==> #[trigger] self.display[i as int][c] == 0,
                decreases CHIP8_DISPLAY_WIDTH - j,
            {
                self.display[i][j] = 0;
                j += 1;
            }
            i += 1;
        }
        proof {
            self.lemma_view_wf();
            assert(self@ =~~= before@.clear_screen());
        }
    }

    /// `Dxyn`: draws the sprite of `height` rows that memory holds at the
    /// index register, at the column in register `vx` and the row in
    /// register `vy`. Set bits flip pixels; VF tells whether one went off.
    /// A sprite that reaches beyond the end of memory is a fault, and
    /// nothing changes.
    pub fn instruction_draw_display(&mut self, vx: u8, vy: u8, height: u8) -> (result: Result<
        (),
        Fault,
    >)
        requires
            vx < CHIP8_REGISTER_COUNT,
            vy < CHIP8_REGISTER_COUNT,
            height < 16,
        ensures
            result is Ok <==> (height == 0 || old(self)@.index + height <= CHIP8_MEMORY),
            result is Ok ==> final(self)@ == old(self)@.draw(vx, vy, height),
            result is Err ==> result == Err::<(), Fault>(Fault::AddressOutOfRange) && final(self)@
                == old(self)@,
            final(self)@.wf(),
    {
        proof {
            use_type_invariant(&*self);
            self.lemma_view_wf();
        }
        let index = self.index_register as usize;
        if height > 0 && index + height as usize > CHIP8_MEMORY {
            return Err(Fault::AddressOutOfRange);
        }
        let row = self.var_registers[vy as usize] as usize;
        let col = self.var_registers[vx as usize] as usize;
        let ghost before = *self;
        let ghost m = before@;

        self.var_registers[CHIP8_VF_INDEX] = 0;
        proof {
            lemma_drawn_nothing(m, row as int, col as int);
            assert forall|r: int, c: int|
                0 <= r < CHIP8_DISPLAY_HEIGHT && 0 <= c < CHIP8_DISPLAY_WIDTH
                implies #[trigger] self.display[r][c] == before.display[r][c] ^ drawn_pixel(
                m,
                row as int,
                col as int,
                0,
                0,
                r,
                c,
            ) by {
                lemma_pixel_xor(before.display[r][c], 0);
            }
        }

        let mut i: usize = 0;
        while i < height as usize
            invariant
                i <= height < 16,
                row < 256,
                col < 256,
                height == 0 || index + height <= CHIP8_MEMORY,
                index == m.index,
                m == before@,
                before.inv(),
                self.inv(),
                *self == (Processor {
                    display: self.display,
                    var_registers: self.var_registers,
                    ..before
                }),
                self.var_registers@ == before.var_registers@.update(
                    CHIP8_VF_INDEX as int,
                    if drawn_collides(m, row as int, col as int, i as int, 0) {
                        1u8
                    } else {
                        0u8
                    },
                ),
                forall|r: int, c: int|
                    0 <= r < CHIP8_DISPLAY_HEIGHT && 0 <= c < CHIP8_DISPLAY_WIDTH
                        ==> #[trigger] self.display[r][c] == before.display[r][c] ^ drawn_pixel(
                        m,
                        row as int,
                        col as int,
                        i as int,
                        0,
                        r,
                        c,
                    ),
            decreases height - i,
        {
            let sprite_row = self.ram[index + i];

            let mut j: u8 = 0;
            while j < 8
                invariant
                    i < height < 16,
                    j <= 8,
                    row < 256,
                    col < 256,
                    index + height <= CHIP8_MEMORY,
                    index == m.index,
                    m == before@,
                    before.inv(),
                    self.inv(),
                    sprite_row == m.sprite_row(i as int),
                    *self == (Processor {
                        display: self.display,
                        var_registers: self.var_registers,
                        ..before
                    }),
                    self.var_registers@ == before.var_registers@.update(
                        CHIP8_VF_INDEX as int,
                        if drawn_collides(m, row as int, col as int, i as int, j as int) {
                            1u8
                        } else {
                            0u8
                        },
                    ),
                    forall|r: int, c: int|
                        0 <= r < CHIP8_DISPLAY_HEIGHT && 0 <= c < CHIP8_DISPLAY_WIDTH
                            ==> #[trigger] self.display[r][c] == before.display[r][c]
                            ^ drawn_pixel(m, row as int, col as int, i as int, j as int, r, c),
                decreases 8 - j,
            {
                let sprite_bit = (sprite_row >> j) & 1;
                let r0 = (row + i) % CHIP8_DISPLAY_HEIGHT;
                let c0 = (col + 7 - j as usize) % CHIP8_DISPLAY_WIDTH;
                let pixel_screen = self.display[r0][c0];
                proof {
                    lemma_drawn_next_bit(m, row as int, col as int, i as int, j as int);
                    lemma_bit_is_binary(sprite_row, j);
                    lemma_pixel_xor(before.display[r0 as int][c0 as int], sprite_bit);
                    assert(pixel_screen == before.display[r0 as int][c0 as int]);
                }
                if sprite_bit == 1 && pixel_screen == 1 {
                    self.var_registers[CHIP8_VF_INDEX] = 1;
                }
                self.display[r0][c0] = pixel_screen ^ sprite_bit;
                j += 1;
                proof {
                    assert(self.var_registers@ =~= before.var_registers@.update(
                        CHIP8_VF_INDEX as int,
                        if drawn_collides(m, row as int, col as int, i as int, j as int) {
                            1u8
                        } else {
                            0u8
                        },
                    ));
                }
            }
            proof {
                lemma_drawn_next_row(m, row as int, col as int, i as int);
            }
            i += 1;
        }
        proof {
            lemma_drawn_all(m, row as int, col as int, height as int);
            self.lemma_view_wf();
            assert(self@ =~~= m.draw(vx, vy, height));
        }
        Ok(())
    }
}

} // verus!

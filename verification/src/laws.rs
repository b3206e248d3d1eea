use crate::instruction::Opcode;
use crate::machine::{
    bit, lemma_bit_is_binary, lemma_bit_of_zero, lemma_pixel_xor, lemma_set_bit_of_nonzero, Machine,
    CHIP8_DISPLAY_HEIGHT, CHIP8_DISPLAY_WIDTH, CHIP8_MEMORY, CHIP8_STACK_SIZE, CHIP8_VF_INDEX,
};
use vstd::prelude::*;

verus! {

/// Adding Vy to Vx leaves 1 in VF if the sum of the two does not fit in a
/// byte and 0 if it does; and Vx, unless it is VF itself, holds the sum
/// modulo 256.
pub proof fn law_add_sets_carry(s: Machine, x: u8, y: u8)
    requires
        s.wf(),
        x < 16,
        y < 16,
    ensures
        s.alu_add(x, y).vf() == 1 <==> s.v(x) + s.v(y) >= 256,
        s.alu_add(x, y).vf() == 0 <==> s.v(x) + s.v(y) < 256,
        x != CHIP8_VF_INDEX ==> s.alu_add(x, y).v(x) == (s.v(x) + s.v(y)) % 256,
{
}

/// Subtracting one register from another leaves the difference modulo 256
/// in the target register, and in VF 1 if the minuend was at least the
/// subtrahend and 0 if it was less, provided that the target is not VF
/// itself. Equal operands give the difference 0 and VF 1.
pub proof fn law_subtract_sets_no_borrow(s: Machine, target: u8, minuend: u8, subtrahend: u8)
    requires
        s.wf(),
        target < 16,
        minuend < 16,
        subtrahend < 16,
        target != CHIP8_VF_INDEX,
    ensures
        s.alu_subtract(target, minuend, subtrahend).v(target) == (s.v(minuend) - s.v(subtrahend))
            % 256,
        s.alu_subtract(target, minuend, subtrahend).vf() == 1 <==> s.v(minuend) >= s.v(
            subtrahend,
        ),
        s.alu_subtract(target, minuend, subtrahend).vf() == 0 <==> s.v(minuend) < s.v(subtrahend),
        s.v(minuend) == s.v(subtrahend) ==> s.alu_subtract(target, minuend, subtrahend).v(target)
            == 0 && s.alu_subtract(target, minuend, subtrahend).vf() == 1,
{
}

/// Both subtractions store in Vx: `8xy5` leaves Vx - Vy there and `8xy7`
/// Vy - Vx, modulo 256, and neither changes another register than Vx and
/// VF.
pub proof fn law_subtractions_store_in_vx(
    s: Machine,
    x: u8,
    y: u8,
    key: Option<u8>,
    random: u8,
)
    requires
        s.wf(),
        x < 16,
        y < 16,
        x != CHIP8_VF_INDEX,
    ensures
        s.execute(Opcode::AluSubtract { x, y }, key, random).v(x) == (s.v(x) - s.v(y)) % 256,
        s.execute(Opcode::AluSubtractReverse { x, y }, key, random).v(x) == (s.v(y) - s.v(x))
            % 256,
        s.execute(Opcode::AluSubtract { x, y }, key, random).vf() == 1 <==> s.v(x) >= s.v(y),
        s.execute(Opcode::AluSubtractReverse { x, y }, key, random).vf() == 1 <==> s.v(y) >= s.v(
            x,
        ),
        forall|other: u8|
            other < 16 && other != x && other != CHIP8_VF_INDEX ==> #[trigger] s.execute(
                Opcode::AluSubtract { x, y },
                key,
                random,
            ).v(other) == s.v(other) && #[trigger] s.execute(
                Opcode::AluSubtractReverse { x, y },
                key,
                random,
            ).v(other) == s.v(other),
{
}

/// A sprite whose bytes are all zero, drawn on a cleared screen, leaves
/// every pixel off and VF at 0.
pub proof fn law_blank_sprite_on_cleared_screen(s: Machine, x: u8, y: u8, height: u8)
    requires
        s.wf(),
        x < 16,
        y < 16,
        height < 16,
        0 <= s.index,
        s.index + height <= CHIP8_MEMORY,
        forall|i: int| 0 <= i < height ==> #[trigger] s.sprite_row(i) == 0,
    ensures
        s.clear_screen().draw(x, y, height).display == Machine::blank_display(),
        s.clear_screen().draw(x, y, height).vf() == 0,
        s.clear_screen().fault(Opcode::Draw { x, y, height }) is None,
{
    let cleared = s.clear_screen();
    let row = cleared.v(y) as int;
    let col = cleared.v(x) as int;
    assert forall|r: int, c: int| #[trigger]
        cleared.sprite_pixel(row, col, height as int, r, c) == 0 by {
        let i = (r - row) % (CHIP8_DISPLAY_HEIGHT as int);
        let k = (c - col) % (CHIP8_DISPLAY_WIDTH as int);
        if i < height && k < 8 {
            assert(cleared.sprite_row(i) == s.sprite_row(i));
            lemma_bit_of_zero((7 - k) as u8);
        }
    }
    lemma_pixel_xor(0, 0);
    assert(cleared.draw(x, y, height).display =~~= Machine::blank_display());
}

/// Drawing the same sprite a second time at the same place brings back the
/// framebuffer as it was before the first draw.
///
/// The place is the same where the first draw left the two coordinate
/// registers as they were, which it does unless one of them is VF.
pub proof fn law_draw_twice_restores_display(s: Machine, x: u8, y: u8, height: u8)
    requires
        s.wf(),
        x < 16,
        y < 16,
        height < 16,
        s.draw(x, y, height).v(x) == s.v(x),
        s.draw(x, y, height).v(y) == s.v(y),
    ensures
        s.draw(x, y, height).draw(x, y, height).display == s.display,
{
    let once = s.draw(x, y, height);
    let twice = once.draw(x, y, height);
    let row = s.v(y) as int;
    let col = s.v(x) as int;
    assert forall|r: int, c: int|
        0 <= r < CHIP8_DISPLAY_HEIGHT && 0 <= c < CHIP8_DISPLAY_WIDTH
        implies #[trigger] twice.display[r][c] == s.display[r][c] by {
        let pixel = s.display[r][c];
        let sprite = s.sprite_pixel(row, col, height as int, r, c);
        assert(once.sprite_pixel(row, col, height as int, r, c) == sprite);
        lemma_pixel_xor(pixel, sprite);
    }
    assert(twice.display =~~= s.display);
}

/// On a screen with every pixel off, the first draw of a sprite reports no
/// collision and leaves on exactly the pixels on which the sprite has a set
/// bit. A second draw of it at the same place reports a collision if and
/// only if the sprite has a set bit: every set bit then meets the pixel that
/// the first draw turned on.
pub proof fn law_second_draw_collides(s: Machine, x: u8, y: u8, height: u8)
    requires
        s.wf(),
        x < 16,
        y < 16,
        height < 16,
        s.display == Machine::blank_display(),
        s.draw(x, y, height).v(x) == s.v(x),
        s.draw(x, y, height).v(y) == s.v(y),
    ensures
        s.draw(x, y, height).vf() == 0,
        forall|r: int, c: int|
            0 <= r < CHIP8_DISPLAY_HEIGHT && 0 <= c < CHIP8_DISPLAY_WIDTH ==> s.draw(
                x,
                y,
                height,
            ).display[r][c] == #[trigger] s.sprite_pixel(
                s.v(y) as int,
                s.v(x) as int,
                height as int,
                r,
                c,
            ),
        s.draw(x, y, height).draw(x, y, height).vf() == 1 <==> exists|r: int, c: int|
            0 <= r < CHIP8_DISPLAY_HEIGHT && 0 <= c < CHIP8_DISPLAY_WIDTH
                && #[trigger] s.sprite_pixel(s.v(y) as int, s.v(x) as int, height as int, r, c)
                == 1,
        s.draw(x, y, height).draw(x, y, height).vf() <= 1,
{
    let once = s.draw(x, y, height);
    let row = s.v(y) as int;
    let col = s.v(x) as int;
    let h = height as int;
    assert forall|r: int, c: int|
        0 <= r < CHIP8_DISPLAY_HEIGHT && 0 <= c < CHIP8_DISPLAY_WIDTH
        implies #[trigger] once.display[r][c] == s.sprite_pixel(row, col, h, r, c) by {
        let sprite = s.sprite_pixel(row, col, h, r, c);
        lemma_pixel_xor(0, sprite);
    }
    assert forall|r: int, c: int| #[trigger]
        once.sprite_pixel(row, col, h, r, c) == s.sprite_pixel(row, col, h, r, c) by {}
    if once.sprite_collides(row, col, h) {
        let (r, c) = choose|r: int, c: int|
            0 <= r < CHIP8_DISPLAY_HEIGHT && 0 <= c < CHIP8_DISPLAY_WIDTH && once.display[r][c]
                == 1 && #[trigger] once.sprite_pixel(row, col, h, r, c) == 1;
        assert(s.sprite_pixel(row, col, h, r, c) == 1);
    }
    if exists|r: int, c: int|
        0 <= r < CHIP8_DISPLAY_HEIGHT && 0 <= c < CHIP8_DISPLAY_WIDTH && #[trigger] s.sprite_pixel(
            row,
            col,
            h,
            r,
            c,
        ) == 1 {
        let (r, c) = choose|r: int, c: int|
            0 <= r < CHIP8_DISPLAY_HEIGHT && 0 <= c < CHIP8_DISPLAY_WIDTH
                && #[trigger] s.sprite_pixel(row, col, h, r, c) == 1;
        assert(once.display[r][c] == 1);
        assert(once.sprite_pixel(row, col, h, r, c) == 1);
        assert(once.sprite_collides(row, col, h));
    }
}

/// Where a sprite's bits land: bit `j` of row `i`, counted from the least
/// significant, lands in row `(row + i) mod 32` and column
/// `(col + 7 - j) mod 64`.
pub proof fn law_sprite_bit_lands(s: Machine, row: int, col: int, height: int, i: int, j: u8)
    requires
        0 <= row,
        0 <= col,
        0 <= i < height < 16,
        j < 8,
    ensures
        s.sprite_pixel(
            row,
            col,
            height,
            (row + i) % (CHIP8_DISPLAY_HEIGHT as int),
            (col + 7 - j) % (CHIP8_DISPLAY_WIDTH as int),
        ) == bit(s.sprite_row(i), j),
{
    let r = (row + i) % (CHIP8_DISPLAY_HEIGHT as int);
    let c = (col + 7 - j) % (CHIP8_DISPLAY_WIDTH as int);
    assert((r - row) % (CHIP8_DISPLAY_HEIGHT as int) == i);
    assert((c - col) % (CHIP8_DISPLAY_WIDTH as int) == 7 - j);
    assert((7 - (7 - j)) as u8 == j);
}

/// A sprite puts a set bit on no other pixel than those where one of its
/// bits lands: a pixel that it sets is where bit `j` of row `i` lands, for
/// the `i` and `j` that the pixel's distance from the corner gives.
pub proof fn law_sprite_reaches_no_further(
    s: Machine,
    row: int,
    col: int,
    height: int,
    r: int,
    c: int,
)
    requires
        0 <= row,
        0 <= col,
        0 <= height < 16,
        0 <= r < CHIP8_DISPLAY_HEIGHT,
        0 <= c < CHIP8_DISPLAY_WIDTH,
        s.sprite_pixel(row, col, height, r, c) != 0,
    ensures
        ({
            let i = (r - row) % (CHIP8_DISPLAY_HEIGHT as int);
            let j = 7 - (c - col) % (CHIP8_DISPLAY_WIDTH as int);
            &&& 0 <= i < height
            &&& 0 <= j < 8
            &&& r == (row + i) % (CHIP8_DISPLAY_HEIGHT as int)
            &&& c == (col + 7 - j) % (CHIP8_DISPLAY_WIDTH as int)
            &&& s.sprite_row(i) != 0
        }),
{
    let i = (r - row) % (CHIP8_DISPLAY_HEIGHT as int);
    let k = (c - col) % (CHIP8_DISPLAY_WIDTH as int);
    assert(0 <= i < height && 0 <= k < 8);
    if s.sprite_row(i) == 0 {
        lemma_bit_of_zero((7 - k) as u8);
    }
}

/// A sprite has a set bit somewhere on the screen if and only if one of its
/// bytes is not zero.
pub proof fn law_sprite_has_set_bit(s: Machine, row: int, col: int, height: int)
    requires
        0 <= row,
        0 <= col,
        0 <= height < 16,
    ensures
        (exists|r: int, c: int|
            0 <= r < CHIP8_DISPLAY_HEIGHT && 0 <= c < CHIP8_DISPLAY_WIDTH
                && #[trigger] s.sprite_pixel(row, col, height, r, c) == 1) <==> (exists|i: int|
            0 <= i < height && #[trigger] s.sprite_row(i) != 0),
{
    if exists|r: int, c: int|
        0 <= r < CHIP8_DISPLAY_HEIGHT && 0 <= c < CHIP8_DISPLAY_WIDTH && #[trigger] s.sprite_pixel(
            row,
            col,
            height,
            r,
            c,
        ) == 1 {
        let (r, c) = choose|r: int, c: int|
            0 <= r < CHIP8_DISPLAY_HEIGHT && 0 <= c < CHIP8_DISPLAY_WIDTH
                && #[trigger] s.sprite_pixel(row, col, height, r, c) == 1;
        law_sprite_reaches_no_further(s, row, col, height, r, c);
        let i = (r - row) % (CHIP8_DISPLAY_HEIGHT as int);
        assert(0 <= i < height && s.sprite_row(i) != 0);
    }
    if exists|i: int| 0 <= i < height && #[trigger] s.sprite_row(i) != 0 {
        let i = choose|i: int| 0 <= i < height && #[trigger] s.sprite_row(i) != 0;
        let j = lemma_set_bit_of_nonzero(s.sprite_row(i));
        law_sprite_bit_lands(s, row, col, height, i, j);
        let r = (row + i) % (CHIP8_DISPLAY_HEIGHT as int);
        let c = (col + 7 - j) % (CHIP8_DISPLAY_WIDTH as int);
        assert(0 <= r < CHIP8_DISPLAY_HEIGHT && 0 <= c < CHIP8_DISPLAY_WIDTH);
        assert(s.sprite_pixel(row, col, height, r, c) == 1);
    }
}

/// After a jump the next fetch reads the two bytes at the jump's target,
/// the low twelve bits of the instruction, and leaves the program counter
/// behind them; from every state, wherever the program counter stood.
pub proof fn law_jump_then_fetch(s: Machine, instruction: u16, key: Option<u8>, random: u8)
    requires
        s.wf(),
        instruction / 4096 == 1,
        instruction % 4096 + 1 < CHIP8_MEMORY,
    ensures
        Opcode::of(instruction) == (Opcode::Jump { address: instruction % 4096 }),
        !Opcode::of(instruction).is_skip(),
        s.outcome(Opcode::of(instruction)) is Ok,
        s.execute(Opcode::of(instruction), key, random).can_fetch(),
        s.execute(Opcode::of(instruction), key, random).instruction_at_pc() == s.memory[(
        instruction % 4096) as int] * 256 + s.memory[instruction % 4096 + 1],
        s.execute(Opcode::of(instruction), key, random).advance().pc == instruction % 4096 + 2,
{
}

/// A call followed at once by a return gives back the state before the
/// call: the program counter is where it stood when the call began, and the
/// stack is as deep as it was.
pub proof fn law_call_then_return(s: Machine, address: u16, key: Option<u8>, random: u8)
    requires
        s.wf(),
        s.stack.len() < CHIP8_STACK_SIZE,
    ensures
        s.fault(Opcode::Call { address }) is None,
        s.execute(Opcode::Call { address }, key, random).fault(Opcode::Return) is None,
        s.execute(Opcode::Call { address }, key, random).execute(Opcode::Return, key, random)
            == s,
{
    let called = s.execute(Opcode::Call { address }, key, random);
    assert(called.stack.drop_last() =~= s.stack);
    assert(called.execute(Opcode::Return, key, random) =~~= s);
}

/// A return resumes where the matching call left off, whatever ran in
/// between, as long as the stack is again what the call made it.
pub proof fn law_return_resumes_after_call(
    s: Machine,
    address: u16,
    later: Machine,
    key: Option<u8>,
    random: u8,
)
    requires
        s.wf(),
        s.stack.len() < CHIP8_STACK_SIZE,
        later.stack == s.execute(Opcode::Call { address }, key, random).stack,
    ensures
        later.fault(Opcode::Return) is None,
        later.execute(Opcode::Return, key, random).pc == s.pc,
        later.execute(Opcode::Return, key, random).stack == s.stack,
{
    assert(later.stack.drop_last() =~= s.stack);
}

/// Only calls and returns change the stack.
pub proof fn law_stack_changes_by_call_and_return_only(
    s: Machine,
    op: Opcode,
    key: Option<u8>,
    random: u8,
)
    requires
        !(op is Call),
        !(op is Return),
    ensures
        s.execute(op, key, random).stack == s.stack,
{
}

/// No instruction writes to memory: the font and the program stay as they
/// were loaded.
pub proof fn law_execute_keeps_memory(s: Machine, op: Opcode, key: Option<u8>, random: u8)
    ensures
        s.execute(op, key, random).memory == s.memory,
{
}

/// Only the random instruction reads the random byte.
pub proof fn law_random_byte_matters_to_random_only(
    s: Machine,
    op: Opcode,
    key: Option<u8>,
    first: u8,
    second: u8,
)
    requires
        !(op is Random),
    ensures
        s.execute(op, key, first) == s.execute(op, key, second),
{
}

/// Every instruction with operands in range takes a well-formed state to a
/// well-formed state.
pub proof fn law_execute_keeps_well_formed(s: Machine, op: Opcode, key: Option<u8>, random: u8)
    requires
        s.wf(),
        op.operands_in_range(),
    ensures
        s.execute(op, key, random).wf(),
{
    if s.fault(op) is None {
        match op {
            Opcode::Draw { x, y, height } => {
                let drawn = s.draw(x, y, height);
                let row = s.v(y) as int;
                let col = s.v(x) as int;
                assert forall|r: int, c: int|
                    0 <= r < CHIP8_DISPLAY_HEIGHT && 0 <= c
                        < CHIP8_DISPLAY_WIDTH implies #[trigger] drawn.display[r][c] <= 1 by {
                    let pixel = s.display[r][c];
                    let sprite = s.sprite_pixel(row, col, height as int, r, c);
                    let k = (c - col) % (CHIP8_DISPLAY_WIDTH as int);
                    if k < 8 {
                        lemma_bit_is_binary(
                            s.sprite_row((r - row) % (CHIP8_DISPLAY_HEIGHT as int)),
                            (7 - k) as u8,
                        );
                    }
                    lemma_pixel_xor(pixel, sprite);
                }
            },
            _ => {},
        }
    }
}

/// Every instruction decodes to an operation with operands in range.
pub proof fn law_decoded_operands_in_range(instruction: u16)
    ensures
        Opcode::of(instruction).operands_in_range(),
{
}

/// A cycle takes a well-formed state to a well-formed state: the stack never
/// holds more than sixteen return addresses, and every pixel stays 0 or 1.
pub proof fn law_cycle_keeps_well_formed(s: Machine, key: Option<u8>, random: u8)
    requires
        s.wf(),
    ensures
        s.cycle(key, random).wf(),
{
    if s.can_fetch() {
        let op = Opcode::of(s.instruction_at_pc());
        law_decoded_operands_in_range(s.instruction_at_pc());
        law_execute_keeps_well_formed(s.advance(), op, key, random);
    }
}

/// Loading a program leaves everything below the program start, the font
/// with it, as it was, and puts the program's bytes from the program start
/// on.
pub proof fn law_load_keeps_font(s: Machine, program: Seq<u8>)
    requires
        s.wf(),
        0x200 + program.len() <= CHIP8_MEMORY,
    ensures
        s.load(program).wf(),
        forall|a: int| 0 <= a < 0x200 ==> s.load(program).memory[a] == s.memory[a],
        forall|i: int| 0 <= i < program.len() ==> s.load(program).memory[0x200 + i] == program[i],
{
}

} // verus!

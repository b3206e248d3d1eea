use crate::machine::CHIP8_MAX_ROM_SIZE;
use vstd::prelude::*;

verus! {

/// Why a program image was refused.
#[derive(Clone, Copy, Debug, PartialEq, Eq, Structural)]
pub enum RomError {
    /// The image holds no byte.
    Empty,
    /// The image is longer than the program memory.
    TooLarge,
}

/// A program image, padded with zeros to the size of the program memory.
pub struct Rom {
    pub data: [u8; CHIP8_MAX_ROM_SIZE],
}

impl Rom {
    /// `bytes` followed by as many zeros as fill the program memory.
    pub open spec fn padded(bytes: Seq<u8>) -> Seq<u8> {
        Seq::new(
            CHIP8_MAX_ROM_SIZE as nat,
            |i: int| if i < bytes.len() { bytes[i] } else { 0u8 },
        )
    }

    /// Makes a program image of the bytes that were read from a file. An
    /// image without bytes is refused, and so is one that is longer than
    /// the program memory.
    pub fn new(bytes: &[u8]) -> (result: Result<Rom, RomError>)
        ensures
            result is Ok <==> 0 < bytes@.len() <= CHIP8_MAX_ROM_SIZE,
            result matches Ok(rom) ==> rom.data@ == Rom::padded(bytes@),
            result matches Err(error) ==> error == (if bytes@.len() == 0 {
                RomError::Empty
            } else {
                RomError::TooLarge
            }),
    {
        let bytes_read = bytes.len();
        if bytes_read == 0 {
            return Err(RomError::Empty);
        }
        if bytes_read > CHIP8_MAX_ROM_SIZE {
            return Err(RomError::TooLarge);
        }
        let mut buffer = [0u8; CHIP8_MAX_ROM_SIZE];
        let mut i: usize = 0;
        while i < bytes_read
            invariant
                i <= bytes_read <= CHIP8_MAX_ROM_SIZE,
                bytes_read == bytes@.len(),
                forall|k: int| 0 <= k < i ==> buffer[k] == bytes@[k],
                forall|k: int| i <= k < CHIP8_MAX_ROM_SIZE ==> buffer[k] == 0,
            decreases bytes_read - i,
        {
            buffer[i] = bytes[i];
            i += 1;
        }
        assert(buffer@ =~= Rom::padded(bytes@));
        Ok(Rom { data: buffer })
    }
}

} // verus!

use vstd::prelude::*;

use crate::error::Chip8Error;

verus! {

/// Number of addressable bytes.
pub const MEMORY_SIZE: usize = 4096;

/// Address at which programs are loaded and at which execution starts.
pub const START_ADDRESS: u16 = 0x200;

/// Number of bytes taken by the built-in glyphs.
pub const FONTSET_SIZE: usize = 80;

/// The sixteen built-in glyphs, `0` to `F`, five rows each, one byte per row
/// with the leftmost pixel in the most significant bit.
pub const FONTSET: [u8; 80] = [
    0xF0, 0x90, 0x90, 0x90, 0xF0,
    0x20, 0x60, 0x20, 0x20, 0x70,
    0xF0, 0x10, 0xF0, 0x80, 0xF0,
    0xF0, 0x10, 0xF0, 0x10, 0xF0,
    0x90, 0x90, 0xF0, 0x10, 0x10,
    0xF0, 0x80, 0xF0, 0x10, 0xF0,
    0xF0, 0x80, 0xF0, 0x90, 0xF0,
    0xF0, 0x10, 0x20, 0x40, 0x40,
    0xF0, 0x90, 0xF0, 0x90, 0xF0,
    0xF0, 0x90, 0xF0, 0x10, 0xF0,
    0xF0, 0x90, 0xF0, 0x90, 0x90,
    0xE0, 0x90, 0xE0, 0x90, 0xE0,
    0xF0, 0x80, 0x80, 0x80, 0xF0,
    0xE0, 0x90, 0x90, 0x90, 0xE0,
    0xF0, 0x80, 0xF0, 0x80, 0xF0,
    0xF0, 0x80, 0xF0, 0x80, 0x80,
];

/// The 4096 bytes of the machine together with its program counter.
pub struct Memory {
    data: [u8; 4096],
    pc: u16,
}

/// `bytes` with `patch` written over it from index `at` on.
pub open spec fn overwritten(bytes: Seq<u8>, at: int, patch: Seq<u8>) -> Seq<u8> {
    Seq::new(bytes.len(), |a: int| if at <= a < at + patch.len() { patch[a - at] } else { bytes[a] })
}

/// The instruction word stored at `pc`: two bytes, the high one first.
pub open spec fn opcode_at(bytes: Seq<u8>, pc: int) -> int {
    bytes[pc] * 256 + bytes[pc + 1]
}

impl Memory {
    /// The contents of memory, one byte per address.
    pub closed spec fn bytes(&self) -> Seq<u8> {
        self.data@
    }

    /// The program counter.
    pub closed spec fn counter(&self) -> int {
        self.pc as int
    }

    /// Memory always has 4096 bytes and a program counter of sixteen bits.
    pub proof fn lemma_sized(&self)
        ensures
            self.bytes().len() == MEMORY_SIZE,
            0 <= self.counter() <= u16::MAX,
    {
    }

    /// Memory filled with zeros, the program counter at the start address.
    pub fn new() -> (memory: Memory)
        ensures
            memory.bytes() == Seq::new(MEMORY_SIZE as nat, |a: int| 0u8),
            memory.counter() == START_ADDRESS,
    {
        Memory { data: [0u8; 4096], pc: START_ADDRESS }
    }

    /// Writes the glyphs to the lowest addresses and puts the program counter
    /// back at the start address. The rest of memory is left as it is.
    pub fn init(&mut self)
        ensures
            final(self).bytes() == overwritten(old(self).bytes(), 0, FONTSET@),
            final(self).counter() == START_ADDRESS,
    {
        let mut i: usize = 0;
        while i < FONTSET_SIZE
            invariant
                i <= FONTSET_SIZE,
                self.pc == old(self).pc,
                forall|a: int| 0 <= a < i ==> self.data@[a] == FONTSET@[a],
                forall|a: int| i <= a < MEMORY_SIZE ==> self.data@[a] == old(self).data@[a],
            decreases FONTSET_SIZE - i,
        {
            self.data[i] = FONTSET[i];
            i += 1;
        }
        self.pc = START_ADDRESS;
    }

    /// Copies `values` into memory from `start` on, or changes nothing when
    /// they would reach past the last address.
    pub fn set_bytes(&mut self, start: u16, values: &[u8]) -> (res: Result<(), Chip8Error>)
        ensures
            final(self).counter() == old(self).counter(),
            start + values@.len() <= MEMORY_SIZE ==> res == Ok::<(), Chip8Error>(())
                && final(self).bytes() == overwritten(old(self).bytes(), start as int, values@),
            start + values@.len() > MEMORY_SIZE ==> res == Err::<(), _>(
                Chip8Error::AddressOutOfRange,
            ) && final(self).bytes() == old(self).bytes(),
    {
        let first = start as usize;
        if first > MEMORY_SIZE || values.len() > MEMORY_SIZE - first {
            return Err(Chip8Error::AddressOutOfRange);
        }
        let mut i: usize = 0;
        while i < values.len()
            invariant
                i <= values@.len(),
                first == start,
                first + values@.len() <= MEMORY_SIZE,
                self.pc == old(self).pc,
                forall|a: int| first <= a < first + i ==> self.data@[a] == values@[a - first],
                forall|a: int|
                    0 <= a < MEMORY_SIZE && !(first <= a < first + i) ==> self.data@[a] == old(
                        self,
                    ).data@[a],
            decreases values@.len() - i,
        {
            self.data[first + i] = values[i];
            i += 1;
        }
        Ok(())
    }

    /// Copies a program into memory from the start address on. A program that
    /// does not fit below the end of memory is refused and nothing is written.
    pub fn load_rom(&mut self, data: &[u8]) -> (res: Result<(), Chip8Error>)
        ensures
            final(self).counter() == old(self).counter(),
            data@.len() <= MEMORY_SIZE - START_ADDRESS ==> res == Ok::<(), Chip8Error>(())
                && final(self).bytes() == overwritten(
                old(self).bytes(),
                START_ADDRESS as int,
                data@,
            ),
            data@.len() > MEMORY_SIZE - START_ADDRESS ==> res == Err::<(), _>(
                Chip8Error::CapacityError,
            ) && final(self).bytes() == old(self).bytes(),
    {
        match self.set_bytes(START_ADDRESS, data) {
            Ok(()) => Ok(()),
            Err(_) => Err(Chip8Error::CapacityError),
        }
    }

    /// Reads the instruction word at the program counter, high byte first,
    /// and moves the program counter past it. Fails, changing nothing, when
    /// the word would reach past the last address.
    pub fn fetch_opcode(&mut self) -> (res: Result<u16, Chip8Error>)
        ensures
            final(self).bytes() == old(self).bytes(),
            old(self).counter() + 1 < MEMORY_SIZE ==> res is Ok && res->Ok_0 == opcode_at(
                old(self).bytes(),
                old(self).counter(),
            ) && final(self).counter() == old(self).counter() + 2,
            old(self).counter() + 1 >= MEMORY_SIZE ==> res == Err::<u16, _>(
                Chip8Error::AddressOutOfRange,
            ) && final(self).counter() == old(self).counter(),
    {
        let at = self.pc as usize;
        if at >= MEMORY_SIZE - 1 {
            return Err(Chip8Error::AddressOutOfRange);
        }
        let high = self.data[at] as u16;
        let low = self.data[at + 1] as u16;
        self.next();
        Ok(high * 256 + low)
    }

    /// Moves the program counter to the following instruction.
    pub fn next(&mut self)
        requires
            old(self).counter() + 2 <= u16::MAX,
        ensures
            final(self).bytes() == old(self).bytes(),
            final(self).counter() == old(self).counter() + 2,
    {
        self.pc += 2;
    }

    /// Moves the program counter back to the preceding instruction.
    pub fn prev(&mut self)
        requires
            old(self).counter() >= 2,
        ensures
            final(self).bytes() == old(self).bytes(),
            final(self).counter() == old(self).counter() - 2,
    {
        self.pc -= 2;
    }

    /// Sets the program counter.
    pub fn jump(&mut self, address: u16)
        ensures
            final(self).bytes() == old(self).bytes(),
            final(self).counter() == address,
    {
        self.pc = address;
    }

    /// The program counter.
    pub fn pc(&self) -> (pc: u16)
        ensures
            pc == self.counter(),
    {
        self.pc
    }

    /// The `length` bytes stored from `start` on. Fails when they would reach
    /// past the last address.
    pub fn get_bytes(&self, start: u16, length: usize) -> (res: Result<&[u8], Chip8Error>)
        ensures
            start + length <= MEMORY_SIZE ==> res is Ok && res->Ok_0@ == self.bytes().subrange(
                start as int,
                start + length,
            ),
            start + length > MEMORY_SIZE ==> res == Err::<&[u8], _>(Chip8Error::AddressOutOfRange),
    {
        let first = start as usize;
        if first > MEMORY_SIZE || length > MEMORY_SIZE - first {
            return Err(Chip8Error::AddressOutOfRange);
        }
        Ok(&self.data[first..first + length])
    }

    /// All of memory, one byte per address.
    pub fn data(&self) -> (data: &[u8])
        ensures
            data@ == self.bytes(),
    {
        &self.data
    }
}

} // verus!

use vstd::prelude::*;

use crate::error::Chip8Error;
use crate::instruction::{decoded, Instruction};
use crate::memory::{opcode_at, overwritten, FONTSET};
use crate::screen::{blank, collides, drawn};

verus! {

/// Number of keys.
pub const NUM_KEYS: usize = 16;

/// Number of the register that receives carries, borrows, shifted-out bits
/// and collisions.
pub const FLAG_REGISTER: usize = 15;

/// The whole machine as plain mathematical values.
pub ghost struct MachineState {
    /// One byte per address.
    pub memory: Seq<u8>,
    /// The program counter.
    pub pc: int,
    /// One flag per pixel, row after row.
    pub display: Seq<bool>,
    /// The general registers `V0` to `VF`.
    pub v: Seq<u8>,
    /// The index register `I`.
    pub i: u16,
    /// The return addresses, oldest first.
    pub stack: Seq<u16>,
    /// One flag per key: whether it is held down.
    pub keys: Seq<bool>,
    /// The delay timer.
    pub delay: u8,
    /// The sound timer.
    pub sound: u8,
}

/// Whether key number `k` exists and is held down.
pub open spec fn key_down(keys: Seq<bool>, k: int) -> bool {
    0 <= k < keys.len() && keys[k]
}

/// Whether `k` is held down and no key with a smaller number is.
pub open spec fn is_lowest_key(keys: Seq<bool>, k: int) -> bool {
    &&& key_down(keys, k)
    &&& forall|j: int| 0 <= j < k ==> !#[trigger] keys[j]
}

/// The smallest number of a key that is held down, if any is.
pub open spec fn lowest_key(keys: Seq<bool>) -> Option<int> {
    if exists|k: int| is_lowest_key(keys, k) {
        Some(choose|k: int| is_lowest_key(keys, k))
    } else {
        None
    }
}

/// The three decimal digits of `value`, hundreds first.
pub open spec fn decimal_digits(value: u8) -> Seq<u8> {
    seq![value / 100, ((value / 10) % 10) as u8, value % 10]
}

/// 1 for `true`, 0 for `false`.
pub open spec fn flag(b: bool) -> u8 {
    if b {
        1
    } else {
        0
    }
}

impl MachineState {
    /// The sizes that every machine has: 4096 bytes of memory, 2048 pixels,
    /// sixteen registers and keys, at most sixteen return addresses, and a
    /// program counter of sixteen bits.
    pub open spec fn well_formed(self) -> bool {
        &&& self.memory.len() == 4096
        &&& self.display.len() == 2048
        &&& self.v.len() == 16
        &&& self.keys.len() == 16
        &&& self.stack.len() <= 16
        &&& 0 <= self.pc <= u16::MAX
    }

    /// The machine as it is created: everything zero, every pixel off, no
    /// key down, the program counter at the start address.
    pub open spec fn power_on() -> MachineState {
        MachineState {
            memory: Seq::new(4096, |a: int| 0u8),
            pc: 0x200,
            display: blank(),
            v: Seq::new(16, |r: int| 0u8),
            i: 0,
            stack: Seq::empty(),
            keys: Seq::new(16, |k: int| false),
            delay: 0,
            sound: 0,
        }
    }

    /// The machine after the glyphs have been written to the lowest
    /// addresses and the program counter put at the start address.
    pub open spec fn initialized(self) -> MachineState {
        MachineState { memory: overwritten(self.memory, 0, FONTSET@), pc: 0x200, ..self }
    }

    /// The machine after one tick of the 60 Hz clock: each timer that is
    /// above zero goes down by one.
    pub open spec fn ticked(self) -> MachineState {
        MachineState {
            delay: if self.delay > 0 {
                (self.delay - 1) as u8
            } else {
                0
            },
            sound: if self.sound > 0 {
                (self.sound - 1) as u8
            } else {
                0
            },
            ..self
        }
    }

    /// The machine with register `x` set to `value`.
    pub open spec fn with_register(self, x: int, value: u8) -> MachineState {
        MachineState { v: self.v.update(x, value), ..self }
    }

    /// Whether `instr` is a conditional skip whose condition holds. A key
    /// number that names no key counts as a key that is up.
    pub open spec fn skip_taken(self, instr: Instruction) -> bool {
        match instr {
            Instruction::SkipIfByte { x, byte } => self.v[x as int] == byte,
            Instruction::SkipUnlessByte { x, byte } => self.v[x as int] != byte,
            Instruction::SkipIfEqual { x, y } => self.v[x as int] == self.v[y as int],
            Instruction::SkipUnlessEqual { x, y } => self.v[x as int] != self.v[y as int],
            Instruction::SkipIfKey { x } => key_down(self.keys, self.v[x as int] as int),
            Instruction::SkipUnlessKey { x } => !key_down(self.keys, self.v[x as int] as int),
            _ => false,
        }
    }

    /// Whether the program counter that `instr` leaves behind fits in its
    /// sixteen bits: a skip that is taken needs room for two more, a wait
    /// for a key that finds none needs room for two less.
    pub open spec fn counter_fits(self, instr: Instruction) -> bool {
        &&& self.skip_taken(instr) ==> self.pc + 2 <= u16::MAX
        &&& instr is WaitKey && lowest_key(self.keys) is None ==> self.pc >= 2
    }

    /// What `instr` does to the machine. `random` is the byte that the
    /// random source hands out for this instruction; only `Random` reads it.
    /// An error means that the machine is left as it was.
    pub open spec fn apply(self, instr: Instruction, random: u8) -> Result<
        MachineState,
        Chip8Error,
    > {
        match instr {
            Instruction::ClearScreen => Ok(MachineState { display: blank(), ..self }),
            Instruction::Return => if self.stack.len() == 0 {
                Err(Chip8Error::StackUnderflow)
            } else {
                Ok(
                    MachineState {
                        pc: self.stack.last() as int,
                        stack: self.stack.drop_last(),
                        ..self
                    },
                )
            },
            Instruction::Jump { address } => Ok(MachineState { pc: address as int, ..self }),
            Instruction::Call { address } => if self.stack.len() >= 16 {
                Err(Chip8Error::StackOverflow)
            } else {
                Ok(
                    MachineState {
                        pc: address as int,
                        stack: self.stack.push(self.pc as u16),
                        ..self
                    },
                )
            },
            Instruction::SkipIfByte { .. }
            | Instruction::SkipUnlessByte { .. }
            | Instruction::SkipIfEqual { .. }
            | Instruction::SkipUnlessEqual { .. }
            | Instruction::SkipIfKey { .. }
            | Instruction::SkipUnlessKey { .. } => Ok(
                MachineState {
                    pc: if self.skip_taken(instr) {
                        self.pc + 2
                    } else {
                        self.pc
                    },
                    ..self
                },
            ),
            Instruction::LoadByte { x, byte } => Ok(self.with_register(x as int, byte)),
            Instruction::AddByte { x, byte } => Ok(
                self.with_register(x as int, ((self.v[x as int] + byte) % 256) as u8),
            ),
            Instruction::Assign { x, y } => Ok(self.with_register(x as int, self.v[y as int])),
            Instruction::Or { x, y } => Ok(
                self.with_register(x as int, self.v[x as int] | self.v[y as int]),
            ),
            Instruction::And { x, y } => Ok(
                self.with_register(x as int, self.v[x as int] & self.v[y as int]),
            ),
            Instruction::Xor { x, y } => Ok(
                self.with_register(x as int, self.v[x as int] ^ self.v[y as int]),
            ),
            Instruction::Add { x, y } => {
                let sum = self.v[x as int] + self.v[y as int];
                Ok(
                    self.with_register(x as int, (sum % 256) as u8).with_register(
                        15,
                        flag(sum > 255),
                    ),
                )
            },
            Instruction::Sub { x, y } => {
                let difference = self.v[x as int] - self.v[y as int];
                Ok(
                    self.with_register(x as int, (difference % 256) as u8).with_register(
                        15,
                        flag(difference >= 0),
                    ),
                )
            },
            Instruction::SubFrom { x, y } => {
                let difference = self.v[y as int] - self.v[x as int];
                Ok(
                    self.with_register(x as int, (difference % 256) as u8).with_register(
                        15,
                        flag(difference >= 0),
                    ),
                )
            },
            Instruction::ShiftRight { x } => {
                let flagged = self.with_register(15, self.v[x as int] % 2);
                Ok(flagged.with_register(x as int, flagged.v[x as int] / 2))
            },
            Instruction::ShiftLeft { x } => {
                let flagged = self.with_register(15, self.v[x as int] / 128);
                Ok(flagged.with_register(x as int, ((flagged.v[x as int] * 2) % 256) as u8))
            },
            Instruction::LoadIndex { address } => Ok(MachineState { i: address, ..self }),
            Instruction::JumpOffset { address } => Ok(
                MachineState { pc: address + self.v[0], ..self },
            ),
            Instruction::Random { x, byte } => Ok(self.with_register(x as int, random & byte)),
            Instruction::Draw { x, y, height } => if self.i + height > 4096 {
                Err(Chip8Error::AddressOutOfRange)
            } else {
                let sprite = self.memory.subrange(self.i as int, self.i + height);
                let left = self.v[x as int] as int;
                let top = self.v[y as int] as int;
                Ok(
                    MachineState {
                        display: drawn(self.display, sprite, left, top),
                        v: self.v.update(15, flag(collides(self.display, sprite, left, top))),
                        ..self
                    },
                )
            },
            Instruction::ReadDelay { x } => Ok(self.with_register(x as int, self.delay)),
            Instruction::WaitKey { x } => match lowest_key(self.keys) {
                Some(k) => Ok(self.with_register(x as int, k as u8)),
                None => Ok(MachineState { pc: self.pc - 2, ..self }),
            },
            Instruction::SetDelay { x } => Ok(MachineState { delay: self.v[x as int], ..self }),
            Instruction::SetSound { x } => Ok(MachineState { sound: self.v[x as int], ..self }),
            Instruction::AddIndex { x } => Ok(
                MachineState { i: ((self.i + self.v[x as int]) % 65536) as u16, ..self },
            ),
            Instruction::LoadGlyph { x } => Ok(
                MachineState { i: (self.v[x as int] * 5) as u16, ..self },
            ),
            Instruction::StoreDigits { x } => if self.i + 3 > 4096 {
                Err(Chip8Error::AddressOutOfRange)
            } else {
                Ok(
                    MachineState {
                        memory: overwritten(
                            self.memory,
                            self.i as int,
                            decimal_digits(self.v[x as int]),
                        ),
                        ..self
                    },
                )
            },
            Instruction::StoreRegisters { x } => if self.i + x + 1 > 4096 {
                Err(Chip8Error::AddressOutOfRange)
            } else {
                Ok(
                    MachineState {
                        memory: overwritten(self.memory, self.i as int, self.v.take(x + 1)),
                        ..self
                    },
                )
            },
            Instruction::LoadRegisters { x } => if self.i + x + 1 > 4096 {
                Err(Chip8Error::AddressOutOfRange)
            } else {
                Ok(
                    MachineState {
                        v: overwritten(
                            self.v,
                            0,
                            self.memory.subrange(self.i as int, self.i + x + 1),
                        ),
                        ..self
                    },
                )
            },
            Instruction::Unknown { .. } => Err(Chip8Error::UnknownOpcode),
        }
    }

    /// The machine after one whole step (fetch the instruction word at the
    /// program counter, move the program counter past it, decode the word
    /// and run the instruction) and what the step reports. A word that
    /// cannot be fetched changes nothing; an instruction that fails leaves
    /// only the program counter moved.
    pub open spec fn stepped(self, random: u8) -> (MachineState, Result<(), Chip8Error>) {
        if self.pc + 1 >= 4096 {
            (self, Err(Chip8Error::AddressOutOfRange))
        } else {
            let fetched = MachineState { pc: self.pc + 2, ..self };
            fetched.executed(decoded(opcode_at(self.memory, self.pc) as u16), random)
        }
    }

    /// The machine after `instr` has been run on it, and what the run
    /// reports. An instruction that fails changes nothing.
    pub open spec fn executed(self, instr: Instruction, random: u8) -> (
        MachineState,
        Result<(), Chip8Error>,
    ) {
        match self.apply(instr, random) {
            Ok(after) => (after, Ok(())),
            Err(error) => (self, Err(error)),
        }
    }
}

/// The byte of the random source reaches the machine through `Random`
/// alone: every other instruction does the same whatever the byte is.
pub proof fn lemma_random_read_by_random_only(
    s: MachineState,
    instr: Instruction,
    first: u8,
    second: u8,
)
    requires
        !(instr is Random),
    ensures
        s.apply(instr, first) == s.apply(instr, second),
        s.executed(instr, first) == s.executed(instr, second),
{
}

/// Running an instruction on a machine of the right sizes, with a program
/// counter that has room to move, gives a machine of the right sizes.
pub proof fn lemma_executed_well_formed(s: MachineState, instr: Instruction, random: u8)
    requires
        s.well_formed(),
        instr.well_formed(),
        s.counter_fits(instr),
    ensures
        s.executed(instr, random).0.well_formed(),
{
    if instr is WaitKey {
        if lowest_key(s.keys) is Some {
            let k = choose|k: int| is_lowest_key(s.keys, k);
            assert(is_lowest_key(s.keys, k));
        }
    }
}

/// `8xy4`: the flag register ends as 1 if the sum of `Vx` and `Vy` is above
/// 255 and as 0 if not; `Vx`, unless it is the flag register itself, ends as
/// the sum modulo 256.
pub proof fn lemma_add_sets_carry(s: MachineState, x: u8, y: u8, random: u8)
    requires
        s.well_formed(),
        x < 16,
        y < 16,
    ensures
        s.apply(Instruction::Add { x, y }, random) is Ok,
        ({
            let after = s.apply(Instruction::Add { x, y }, random)->Ok_0;
            let sum = s.v[x as int] + s.v[y as int];
            &&& after.v[15] == if sum > 255 {
                1u8
            } else {
                0u8
            }
            &&& x != 15 ==> after.v[x as int] == sum % 256
            &&& forall|r: int| 0 <= r < 15 && r != x ==> after.v[r] == s.v[r]
        }),
{
}

/// `8xy5`: the flag register ends as 1 if `Vx` is at least `Vy` and as 0 if
/// not; `Vx`, unless it is the flag register itself, ends as the difference
/// modulo 256.
pub proof fn lemma_sub_sets_not_borrow(s: MachineState, x: u8, y: u8, random: u8)
    requires
        s.well_formed(),
        x < 16,
        y < 16,
    ensures
        s.apply(Instruction::Sub { x, y }, random) is Ok,
        ({
            let after = s.apply(Instruction::Sub { x, y }, random)->Ok_0;
            &&& after.v[15] == if s.v[x as int] >= s.v[y as int] {
                1u8
            } else {
                0u8
            }
            &&& x != 15 ==> after.v[x as int] == (s.v[x as int] - s.v[y as int]) % 256
            &&& forall|r: int| 0 <= r < 15 && r != x ==> after.v[r] == s.v[r]
        }),
{
}

/// `8xy6`: unless `Vx` is the flag register itself, the flag register ends
/// as the lowest bit that `Vx` had and `Vx` as its old value shifted right
/// by one.
pub proof fn lemma_shift_right_keeps_low_bit(s: MachineState, x: u8, random: u8)
    requires
        s.well_formed(),
        x < 15,
    ensures
        s.apply(Instruction::ShiftRight { x }, random) is Ok,
        ({
            let after = s.apply(Instruction::ShiftRight { x }, random)->Ok_0;
            let before = s.v[x as int];
            &&& after.v[15] == before % 2
            &&& after.v[15] == before & 1
            &&& after.v[x as int] == before / 2
            &&& after.v[x as int] == before >> 1
        }),
{
    let before = s.v[x as int];
    assert(before & 1 == before % 2) by (bit_vector);
    assert(before >> 1 == before / 2) by (bit_vector);
}

/// `8xyE`: unless `Vx` is the flag register itself, the flag register ends
/// as the highest bit that `Vx` had and `Vx` as its old value shifted left
/// by one, modulo 256.
pub proof fn lemma_shift_left_keeps_high_bit(s: MachineState, x: u8, random: u8)
    requires
        s.well_formed(),
        x < 15,
    ensures
        s.apply(Instruction::ShiftLeft { x }, random) is Ok,
        ({
            let after = s.apply(Instruction::ShiftLeft { x }, random)->Ok_0;
            let before = s.v[x as int];
            &&& after.v[15] == before / 128
            &&& after.v[15] == before >> 7
            &&& after.v[x as int] == (before * 2) % 256
            &&& after.v[x as int] == before << 1
        }),
{
    let before = s.v[x as int];
    assert(before >> 7 == before / 128) by (bit_vector);
    assert(before << 1 == (before * 2) % 256) by (bit_vector);
}

/// A call followed at once by a return brings the machine back to where it
/// was when the call was run: the program counter is at the instruction
/// after the call and the stack is as before.
pub proof fn lemma_return_undoes_call(s: MachineState, address: u16, first: u8, second: u8)
    requires
        s.well_formed(),
        s.stack.len() < 16,
    ensures
        s.apply(Instruction::Call { address }, first) is Ok,
        s.apply(Instruction::Call { address }, first)->Ok_0.pc == address,
        s.apply(Instruction::Call { address }, first)->Ok_0.apply(Instruction::Return, second)
            == Ok::<MachineState, Chip8Error>(s),
{
    let called = s.apply(Instruction::Call { address }, first)->Ok_0;
    assert(called.stack.drop_last() == s.stack);
}

/// The same over two whole steps: when the word at the program counter is
/// a call and the word at its target is a return, the two steps leave the
/// machine as it was but for the program counter, which is at the
/// instruction after the call.
pub proof fn lemma_call_return_steps(s: MachineState, address: u16, first: u8, second: u8)
    requires
        s.well_formed(),
        s.stack.len() < 16,
        s.pc + 1 < 4096,
        decoded(opcode_at(s.memory, s.pc) as u16) == (Instruction::Call { address }),
        address + 1 < 4096,
        decoded(opcode_at(s.memory, address as int) as u16) == Instruction::Return,
    ensures
        s.stepped(first).1 is Ok,
        s.stepped(first).0.stepped(second) == (
            MachineState { pc: s.pc + 2, ..s },
            Ok::<(), Chip8Error>(()),
        ),
{
    let fetched = MachineState { pc: s.pc + 2, ..s };
    lemma_return_undoes_call(fetched, address, first, second);
}

/// A wait for a key that finds no key down leaves the whole machine as it
/// was before the step, program counter included, so the next step runs the
/// same instruction again.
pub proof fn lemma_wait_key_repeats(s: MachineState, random: u8)
    requires
        s.well_formed(),
        s.pc + 1 < 4096,
        decoded(opcode_at(s.memory, s.pc) as u16) is WaitKey,
        forall|k: int| 0 <= k < 16 ==> !s.keys[k],
    ensures
        s.stepped(random) == (s, Ok::<(), Chip8Error>(())),
{
    assert forall|k: int| !is_lowest_key(s.keys, k) by {
        if key_down(s.keys, k) {
            assert(!s.keys[k]);
        }
    }
}

/// A wait for a key that finds one down puts the lowest number of a key
/// that is down into its register and goes on.
pub proof fn lemma_wait_key_takes_lowest(s: MachineState, x: u8, k: int, random: u8)
    requires
        s.well_formed(),
        x < 16,
        is_lowest_key(s.keys, k),
    ensures
        s.apply(Instruction::WaitKey { x }, random) == Ok::<MachineState, Chip8Error>(
            s.with_register(x as int, k as u8),
        ),
{
    let chosen = choose|c: int| is_lowest_key(s.keys, c);
    assert(is_lowest_key(s.keys, chosen));
    if chosen < k {
        assert(!s.keys[chosen]);
    }
    if k < chosen {
        assert(!s.keys[k]);
    }
}

/// Initializing twice is the same as initializing once.
pub proof fn lemma_initialized_twice(s: MachineState)
    requires
        s.well_formed(),
    ensures
        s.initialized().initialized() == s.initialized(),
        s.initialized().well_formed(),
{
    assert(s.initialized().initialized().memory =~= s.initialized().memory);
}

/// A machine that has just been created and initialized shows a blank
/// display.
pub proof fn lemma_display_blank_after_init()
    ensures
        MachineState::power_on().initialized().well_formed(),
        MachineState::power_on().initialized().display == blank(),
        forall|k: int|
            0 <= k < 2048 ==> !#[trigger] MachineState::power_on().initialized().display[k],
{
}

} // verus!

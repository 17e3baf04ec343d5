use vstd::prelude::*;

use crate::error::Chip8Error;
use crate::instruction::{decode, decoded, Instruction};
use crate::memory::{overwritten, Memory};
use crate::screen::Screen;
use crate::stack::Stack;
use crate::state::{
    decimal_digits, is_lowest_key, key_down, lowest_key, MachineState, FLAG_REGISTER, NUM_KEYS,
};

verus! {

/// The interpreter: memory, display, registers, call stack, keys and timers.
pub struct Chip8 {
    memory: Memory,
    screen: Screen,
    v_registers: [u8; 16],
    i_register: u16,
    stack: Stack,
    pressed_keys: [bool; 16],
    delay_timer: u8,
    sound_timer: u8,
}

impl View for Chip8 {
    type V = MachineState;

    closed spec fn view(&self) -> MachineState {
        MachineState {
            memory: self.memory.bytes(),
            pc: self.memory.counter(),
            display: self.screen@,
            v: self.v_registers@,
            i: self.i_register,
            stack: self.stack@,
            keys: self.pressed_keys@,
            delay: self.delay_timer,
            sound: self.sound_timer,
        }
    }
}

/// Finds the lowest key that is held down.
fn first_pressed(keys: &[bool; 16]) -> (found: Option<u8>)
    ensures
        found matches Some(k) ==> lowest_key(keys@) == Some(k as int),
        found is None ==> lowest_key(keys@) is None,
{
    let mut k: usize = 0;
    while k < NUM_KEYS
        invariant
            k <= NUM_KEYS,
            forall|j: int| 0 <= j < k ==> !#[trigger] keys@[j],
        decreases NUM_KEYS - k,
    {
        if keys[k] {
            proof {
                assert(is_lowest_key(keys@, k as int));
                let chosen = choose|c: int| is_lowest_key(keys@, c);
                assert(is_lowest_key(keys@, chosen));
                assert(chosen == k);
            }
            return Some(k as u8);
        }
        k += 1;
    }
    proof {
        assert forall|c: int| !is_lowest_key(keys@, c) by {
            if key_down(keys@, c) {
                assert(!keys@[c]);
            }
        }
    }
    None
}

/// A byte from `rand::random`, which draws it from the generator that the
/// `rand` crate keeps for each thread. Nothing is claimed about its value.
/// The call panics if the operating system cannot seed that generator.
#[verifier::external_body]
fn random_byte() -> (byte: u8) {
    rand::random::<u8>()
}

/// Splits a byte into its three decimal digits, hundreds first.
fn digits_of(value: u8) -> (digits: [u8; 3])
    ensures
        digits@ == decimal_digits(value),
{
    let digits = [value / 100, (value / 10) % 10, value % 10];
    assert(digits@ =~= decimal_digits(value));
    digits
}

/// Copies `bytes` into the lowest registers.
fn load_registers(registers: &mut [u8; 16], bytes: &[u8])
    requires
        bytes@.len() <= 16,
    ensures
        final(registers)@ == overwritten(old(registers)@, 0, bytes@),
{
    let mut offset: usize = 0;
    while offset < bytes.len()
        invariant
            bytes@.len() <= 16,
            offset <= bytes@.len(),
            forall|r: int| 0 <= r < offset ==> registers@[r] == bytes@[r],
            forall|r: int| offset <= r < 16 ==> registers@[r] == old(registers)@[r],
        decreases bytes@.len() - offset,
    {
        registers[offset] = bytes[offset];
        offset += 1;
    }
}

impl Chip8 {
    /// Every part of the machine has the size that the model asks for.
    proof fn lemma_sized(&self)
        requires
            self.stack.bounded(),
        ensures
            self@.well_formed(),
    {
        self.memory.lemma_sized();
        self.screen.lemma_sized();
        self.stack.lemma_bounded();
    }

    /// The display of every machine has 2048 pixels.
    pub proof fn lemma_display_sized(&self)
        ensures
            self@.display.len() == 2048,
    {
        self.screen.lemma_sized();
    }

    /// A machine with everything at zero and the program counter at the
    /// start address.
    pub fn new() -> (machine: Chip8)
        ensures
            machine@ == MachineState::power_on(),
            machine@.well_formed(),
    {
        let machine = Chip8 {
            memory: Memory::new(),
            screen: Screen::new(),
            v_registers: [0u8; 16],
            i_register: 0,
            stack: Stack::new(),
            pressed_keys: [false; 16],
            delay_timer: 0,
            sound_timer: 0,
        };
        assert(machine.v_registers@ =~= Seq::new(16, |r: int| 0u8));
        assert(machine.pressed_keys@ =~= Seq::new(16, |k: int| false));
        proof {
            use_type_invariant(&machine.stack);
            machine.lemma_sized();
        }
        machine
    }

    /// Writes the glyphs into memory and puts the program counter at the
    /// start address.
    pub fn init(&mut self)
        ensures
            final(self)@ == old(self)@.initialized(),
            final(self)@.well_formed(),
    {
        self.memory.init();
        proof {
            use_type_invariant(&self.stack);
            self.lemma_sized();
        }
    }

    /// Copies a program into memory from the start address on. A program of
    /// more than 3584 bytes is refused and the machine is left as it was.
    pub fn load_rom(&mut self, data: &[u8]) -> (res: Result<(), Chip8Error>)
        ensures
            data@.len() <= 3584 ==> res == Ok::<(), Chip8Error>(()) && final(self)@ == (MachineState {
                memory: overwritten(old(self)@.memory, 0x200, data@),
                ..old(self)@
            }),
            data@.len() > 3584 ==> res == Err::<(), _>(Chip8Error::CapacityError) && final(self)@
                == old(self)@,
            final(self)@.well_formed(),
    {
        let res = self.memory.load_rom(data);
        proof {
            use_type_invariant(&self.stack);
            self.lemma_sized();
        }
        res
    }

    /// The pixels of the display, row after row from the top, each row from
    /// left to right.
    pub fn get_display(&self) -> (pixels: &[bool])
        ensures
            pixels@ == self@.display,
    {
        self.screen.pixels()
    }

    /// One tick of the 60 Hz clock: each timer that is above zero goes down
    /// by one. Returns whether the sound timer has just reached zero, which
    /// is when the tone ends.
    pub fn tick_timers(&mut self) -> (tone_ended: bool)
        ensures
            final(self)@ == old(self)@.ticked(),
            tone_ended == (old(self)@.sound == 1),
            final(self)@.well_formed(),
    {
        proof {
            use_type_invariant(&self.stack);
            self.lemma_sized();
        }
        let mut tone_ended = false;
        if self.delay_timer > 0 {
            self.delay_timer -= 1;
        }
        if self.sound_timer > 0 {
            if self.sound_timer == 1 {
                tone_ended = true;
            }
            self.sound_timer -= 1;
        }
        tone_ended
    }

    /// One step of the machine: fetches the instruction word at the program
    /// counter, decodes it and runs it. The byte that a `Random` instruction
    /// needs is drawn from the random number generator of the thread.
    pub fn cycle(&mut self) -> (res: Result<(), Chip8Error>)
        ensures
            exists|random: u8| (final(self)@, res) == #[trigger] old(self)@.stepped(random),
            final(self)@.well_formed(),
    {
        proof {
            use_type_invariant(&self.stack);
            self.lemma_sized();
        }
        let opcode = match self.memory.fetch_opcode() {
            Ok(opcode) => opcode,
            Err(error) => {
                assert((self@, Err::<(), Chip8Error>(error)) == old(self)@.stepped(0));
                return Err(error);
            },
        };
        let ghost fetched = self@;
        let res = self.execute(opcode);
        proof {
            let random = choose|random: u8|
                (self@, res) == #[trigger] fetched.executed(decoded(opcode), random);
            assert((self@, res) == old(self)@.stepped(random));
        }
        res
    }

    /// One step of the machine, as `cycle` does it, with the byte that a
    /// `Random` instruction needs handed in by the caller.
    pub fn cycle_with_random(&mut self, random: u8) -> (res: Result<(), Chip8Error>)
        ensures
            (final(self)@, res) == old(self)@.stepped(random),
            final(self)@.well_formed(),
    {
        proof {
            use_type_invariant(&self.stack);
            self.lemma_sized();
        }
        let opcode = match self.memory.fetch_opcode() {
            Ok(opcode) => opcode,
            Err(error) => return Err(error),
        };
        self.execute_instruction(decode(opcode), random)
    }

    /// Decodes the instruction word `opcode` and runs the instruction. The
    /// byte that a `Random` instruction needs is drawn from the random
    /// number generator of the thread. On an error the machine is left as it
    /// was.
    pub fn execute(&mut self, opcode: u16) -> (res: Result<(), Chip8Error>)
        requires
            old(self)@.counter_fits(decoded(opcode)),
        ensures
            exists|random: u8|
                (final(self)@, res) == #[trigger] old(self)@.executed(decoded(opcode), random),
            final(self)@.well_formed(),
    {
        let instr = decode(opcode);
        let random = match instr {
            Instruction::Random { .. } => random_byte(),
            _ => 0,
        };
        let res = self.execute_instruction(instr, random);
        assert((self@, res) == old(self)@.executed(decoded(opcode), random));
        res
    }

    /// Runs one instruction. `random` is the byte that a `Random`
    /// instruction combines with its mask; no other instruction reads it.
    /// On an error the machine is left as it was.
    pub fn execute_instruction(&mut self, instr: Instruction, random: u8) -> (res: Result<
        (),
        Chip8Error,
    >)
        requires
            instr.well_formed(),
            old(self)@.counter_fits(instr),
        ensures
            (final(self)@, res) == old(self)@.executed(instr, random),
            final(self)@.well_formed(),
    {
        match instr {
            Instruction::Return
            | Instruction::Jump { .. }
            | Instruction::Call { .. }
            | Instruction::JumpOffset { .. }
            | Instruction::WaitKey { .. } => self.run_control(instr),
            Instruction::SkipIfByte { .. }
            | Instruction::SkipUnlessByte { .. }
            | Instruction::SkipIfEqual { .. }
            | Instruction::SkipUnlessEqual { .. }
            | Instruction::SkipIfKey { .. }
            | Instruction::SkipUnlessKey { .. } => self.run_skip(instr),
            Instruction::Or { .. }
            | Instruction::And { .. }
            | Instruction::Xor { .. }
            | Instruction::Add { .. }
            | Instruction::Sub { .. }
            | Instruction::SubFrom { .. }
            | Instruction::ShiftRight { .. }
            | Instruction::ShiftLeft { .. } => self.run_arithmetic(instr),
            Instruction::LoadByte { .. }
            | Instruction::AddByte { .. }
            | Instruction::Assign { .. }
            | Instruction::Random { .. }
            | Instruction::ReadDelay { .. }
            | Instruction::SetDelay { .. }
            | Instruction::SetSound { .. }
            | Instruction::LoadIndex { .. }
            | Instruction::AddIndex { .. }
            | Instruction::LoadGlyph { .. } => self.run_transfer(instr, random),
            Instruction::ClearScreen | Instruction::Draw { .. } => self.run_display(instr),
            Instruction::StoreDigits { .. }
            | Instruction::StoreRegisters { .. }
            | Instruction::LoadRegisters { .. } => self.run_memory(instr),
            Instruction::Unknown { .. } => {
                proof {
                    use_type_invariant(&self.stack);
                    self.lemma_sized();
                }
                Err(Chip8Error::UnknownOpcode)
            },
        }
    }

    /// Jumps, calls, returns and the wait for a key.
    fn run_control(&mut self, instr: Instruction) -> (res: Result<(), Chip8Error>)
        requires
            instr.well_formed(),
            old(self)@.counter_fits(instr),
            instr is Return || instr is Jump || instr is Call || instr is JumpOffset
                || instr is WaitKey,
        ensures
            forall|random: u8| (final(self)@, res) == #[trigger] old(self)@.executed(instr, random),
            final(self)@.well_formed(),
    {
        proof {
            use_type_invariant(&self.stack);
            self.lemma_sized();
        }
        match instr {
            Instruction::Return => {
                match self.stack.pop() {
                    Ok(address) => self.memory.jump(address),
                    Err(error) => return Err(error),
                }
            },
            Instruction::Jump { address } => {
                self.memory.jump(address);
            },
            Instruction::Call { address } => {
                match self.stack.push(self.memory.pc()) {
                    Ok(()) => self.memory.jump(address),
                    Err(error) => return Err(error),
                }
            },
            Instruction::JumpOffset { address } => {
                self.memory.jump(address + self.v_registers[0] as u16);
            },
            Instruction::WaitKey { x } => {
                match first_pressed(&self.pressed_keys) {
                    Some(key) => {
                        self.v_registers[x as usize] = key;
                    },
                    None => {
                        self.memory.prev();
                    },
                }
            },
            _ => {},
        }
        Ok(())
    }

    /// The conditional skips.
    fn run_skip(&mut self, instr: Instruction) -> (res: Result<(), Chip8Error>)
        requires
            instr.well_formed(),
            old(self)@.counter_fits(instr),
            instr is SkipIfByte || instr is SkipUnlessByte || instr is SkipIfEqual
                || instr is SkipUnlessEqual || instr is SkipIfKey || instr is SkipUnlessKey,
        ensures
            forall|random: u8| (final(self)@, res) == #[trigger] old(self)@.executed(instr, random),
            final(self)@.well_formed(),
    {
        proof {
            use_type_invariant(&self.stack);
            self.lemma_sized();
        }
        let skip = match instr {
            Instruction::SkipIfByte { x, byte } => self.v_registers[x as usize] == byte,
            Instruction::SkipUnlessByte { x, byte } => self.v_registers[x as usize] != byte,
            Instruction::SkipIfEqual { x, y } => self.v_registers[x as usize]
                == self.v_registers[y as usize],
            Instruction::SkipUnlessEqual { x, y } => self.v_registers[x as usize]
                != self.v_registers[y as usize],
            Instruction::SkipIfKey { x } => self.key_is_down(self.v_registers[x as usize]),
            Instruction::SkipUnlessKey { x } => !self.key_is_down(self.v_registers[x as usize]),
            _ => false,
        };
        if skip {
            self.memory.next();
        }
        Ok(())
    }

    /// The instructions that combine two registers or shift one, and set
    /// the flag register.
    fn run_arithmetic(&mut self, instr: Instruction) -> (res: Result<(), Chip8Error>)
        requires
            instr.well_formed(),
            instr is Or || instr is And || instr is Xor || instr is Add || instr is Sub
                || instr is SubFrom || instr is ShiftRight || instr is ShiftLeft,
        ensures
            forall|random: u8| (final(self)@, res) == #[trigger] old(self)@.executed(instr, random),
            final(self)@.well_formed(),
    {
        proof {
            use_type_invariant(&self.stack);
            self.lemma_sized();
        }
        match instr {
            Instruction::Or { x, y } => {
                self.v_registers[x as usize] = self.v_registers[x as usize]
                    | self.v_registers[y as usize];
            },
            Instruction::And { x, y } => {
                self.v_registers[x as usize] = self.v_registers[x as usize]
                    & self.v_registers[y as usize];
            },
            Instruction::Xor { x, y } => {
                self.v_registers[x as usize] = self.v_registers[x as usize]
                    ^ self.v_registers[y as usize];
            },
            Instruction::Add { x, y } => {
                let vx = self.v_registers[x as usize];
                let vy = self.v_registers[y as usize];
                self.v_registers[x as usize] = vx.wrapping_add(vy);
                self.v_registers[FLAG_REGISTER] = if vx > u8::MAX - vy {
                    1
                } else {
                    0
                };
            },
            Instruction::Sub { x, y } => {
                let vx = self.v_registers[x as usize];
                let vy = self.v_registers[y as usize];
                self.v_registers[x as usize] = vx.wrapping_sub(vy);
                self.v_registers[FLAG_REGISTER] = if vx >= vy {
                    1
                } else {
                    0
                };
            },
            Instruction::SubFrom { x, y } => {
                let vx = self.v_registers[x as usize];
                let vy = self.v_registers[y as usize];
                self.v_registers[x as usize] = vy.wrapping_sub(vx);
                self.v_registers[FLAG_REGISTER] = if vy >= vx {
                    1
                } else {
                    0
                };
            },
            Instruction::ShiftRight { x } => {
                let before = self.v_registers[x as usize];
                assert(before & 0x1 == before % 2) by (bit_vector);
                self.v_registers[FLAG_REGISTER] = before & 0x1;
                let vx = self.v_registers[x as usize];
                assert(vx >> 1 == vx / 2) by (bit_vector);
                self.v_registers[x as usize] = vx >> 1;
            },
            Instruction::ShiftLeft { x } => {
                let before = self.v_registers[x as usize];
                assert(before >> 7 == before / 128) by (bit_vector);
                self.v_registers[FLAG_REGISTER] = before >> 7;
                let vx = self.v_registers[x as usize];
                assert(vx << 1 == (vx * 2) % 256) by (bit_vector);
                self.v_registers[x as usize] = vx << 1;
            },
            _ => {},
        }
        Ok(())
    }

    /// The instructions that move a value into a register, a timer or the
    /// index register.
    fn run_transfer(&mut self, instr: Instruction, random: u8) -> (res: Result<(), Chip8Error>)
        requires
            instr.well_formed(),
            instr is LoadByte || instr is AddByte || instr is Assign || instr is Random
                || instr is ReadDelay || instr is SetDelay || instr is SetSound
                || instr is LoadIndex || instr is AddIndex || instr is LoadGlyph,
        ensures
            (final(self)@, res) == old(self)@.executed(instr, random),
            final(self)@.well_formed(),
    {
        proof {
            use_type_invariant(&self.stack);
            self.lemma_sized();
        }
        match instr {
            Instruction::LoadByte { x, byte } => {
                self.v_registers[x as usize] = byte;
            },
            Instruction::AddByte { x, byte } => {
                self.v_registers[x as usize] = self.v_registers[x as usize].wrapping_add(byte);
            },
            Instruction::Assign { x, y } => {
                self.v_registers[x as usize] = self.v_registers[y as usize];
            },
            Instruction::Random { x, byte } => {
                self.v_registers[x as usize] = random & byte;
            },
            Instruction::ReadDelay { x } => {
                self.v_registers[x as usize] = self.delay_timer;
            },
            Instruction::SetDelay { x } => {
                self.delay_timer = self.v_registers[x as usize];
            },
            Instruction::SetSound { x } => {
                self.sound_timer = self.v_registers[x as usize];
            },
            Instruction::LoadIndex { address } => {
                self.i_register = address;
            },
            Instruction::AddIndex { x } => {
                self.i_register = self.i_register.wrapping_add(self.v_registers[x as usize] as u16);
            },
            Instruction::LoadGlyph { x } => {
                self.i_register = self.v_registers[x as usize] as u16 * 5;
            },
            _ => {},
        }
        Ok(())
    }

    /// Clearing the display and drawing a sprite.
    fn run_display(&mut self, instr: Instruction) -> (res: Result<(), Chip8Error>)
        requires
            instr.well_formed(),
            instr is ClearScreen || instr is Draw,
        ensures
            forall|random: u8| (final(self)@, res) == #[trigger] old(self)@.executed(instr, random),
            final(self)@.well_formed(),
    {
        proof {
            use_type_invariant(&self.stack);
            self.lemma_sized();
        }
        match instr {
            Instruction::ClearScreen => {
                self.screen.clear();
            },
            Instruction::Draw { x, y, height } => {
                let left = self.v_registers[x as usize] as usize;
                let top = self.v_registers[y as usize] as usize;
                let sprite = match self.memory.get_bytes(self.i_register, height as usize) {
                    Ok(sprite) => sprite,
                    Err(error) => return Err(error),
                };
                let collision = self.screen.draw_sprite(left, top, height as usize, sprite);
                self.v_registers[FLAG_REGISTER] = if collision {
                    1
                } else {
                    0
                };
            },
            _ => {},
        }
        proof {
            self.screen.lemma_sized();
        }
        Ok(())
    }

    /// The instructions that copy between registers and memory.
    fn run_memory(&mut self, instr: Instruction) -> (res: Result<(), Chip8Error>)
        requires
            instr.well_formed(),
            instr is StoreDigits || instr is StoreRegisters || instr is LoadRegisters,
        ensures
            forall|random: u8| (final(self)@, res) == #[trigger] old(self)@.executed(instr, random),
            final(self)@.well_formed(),
    {
        proof {
            use_type_invariant(&self.stack);
            self.lemma_sized();
        }
        match instr {
            Instruction::StoreDigits { x } => {
                let digits = digits_of(self.v_registers[x as usize]);
                let res = self.memory.set_bytes(self.i_register, &digits);
                proof {
                    self.memory.lemma_sized();
                }
                res
            },
            Instruction::StoreRegisters { x } => {
                assert(self.v_registers@.subrange(0, x + 1) =~= self.v_registers@.take(x + 1));
                let res = self.memory.set_bytes(
                    self.i_register,
                    &self.v_registers[0..x as usize + 1],
                );
                proof {
                    self.memory.lemma_sized();
                }
                res
            },
            Instruction::LoadRegisters { x } => {
                let bytes = match self.memory.get_bytes(self.i_register, x as usize + 1) {
                    Ok(bytes) => bytes,
                    Err(error) => return Err(error),
                };
                load_registers(&mut self.v_registers, bytes);
                Ok(())
            },
            _ => Ok(()),
        }
    }

    /// Whether the key numbered `key` exists and is held down.
    fn key_is_down(&self, key: u8) -> (down: bool)
        ensures
            down == key_down(self@.keys, key as int),
    {
        (key as usize) < NUM_KEYS && self.pressed_keys[key as usize]
    }

    /// Replaces the state of all sixteen keys.
    pub fn set_pressed_keys(&mut self, keys: [bool; 16])
        ensures
            final(self)@ == (MachineState { keys: keys@, ..old(self)@ }),
            final(self)@.well_formed(),
    {
        self.pressed_keys = keys;
        proof {
            use_type_invariant(&self.stack);
            self.lemma_sized();
        }
    }

    /// The general registers `V0` to `VF`.
    pub fn registers(&self) -> (registers: &[u8])
        ensures
            registers@ == self@.v,
    {
        &self.v_registers
    }

    /// All of memory, one byte per address.
    pub fn memory(&self) -> (bytes: &[u8])
        ensures
            bytes@ == self@.memory,
    {
        self.memory.data()
    }

    /// The program counter.
    pub fn program_counter(&self) -> (pc: u16)
        ensures
            pc == self@.pc,
    {
        self.memory.pc()
    }

    /// The index register `I`.
    pub fn index_register(&self) -> (i: u16)
        ensures
            i == self@.i,
    {
        self.i_register
    }

    /// The delay timer.
    pub fn delay_timer(&self) -> (delay: u8)
        ensures
            delay == self@.delay,
    {
        self.delay_timer
    }

    /// The sound timer.
    pub fn sound_timer(&self) -> (sound: u8)
        ensures
            sound == self@.sound,
    {
        self.sound_timer
    }
}

} // verus!

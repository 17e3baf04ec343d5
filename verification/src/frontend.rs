use vstd::prelude::*;

use crate::machine::Chip8;

verus! {

/// How long a key counts as held after it was last seen pressed, in
/// microseconds. A terminal reports presses and no releases.
pub const KEY_RETENTION: u64 = 100_000;

/// Time between two frames, in microseconds: roughly a sixtieth of a second.
pub const FRAME_INTERVAL: u64 = 16_000;

/// The key that a character of the keyboard stands for. The four by four
/// block `1234 / qwer / asdf / zxcv` is laid out like the keypad
/// `123C / 456D / 789E / A0BF`.
pub open spec fn keypad_key(c: char) -> Option<u8> {
    if c == '1' {
        Some(0x1u8)
    } else if c == '2' {
        Some(0x2u8)
    } else if c == '3' {
        Some(0x3u8)
    } else if c == '4' {
        Some(0xCu8)
    } else if c == 'q' {
        Some(0x4u8)
    } else if c == 'w' {
        Some(0x5u8)
    } else if c == 'e' {
        Some(0x6u8)
    } else if c == 'r' {
        Some(0xDu8)
    } else if c == 'a' {
        Some(0x7u8)
    } else if c == 's' {
        Some(0x8u8)
    } else if c == 'd' {
        Some(0x9u8)
    } else if c == 'f' {
        Some(0xEu8)
    } else if c == 'z' {
        Some(0xAu8)
    } else if c == 'x' {
        Some(0x0u8)
    } else if c == 'c' {
        Some(0xBu8)
    } else if c == 'v' {
        Some(0xFu8)
    } else {
        None
    }
}

/// Every key that a character stands for is one of the sixteen.
pub proof fn lemma_keypad_key_in_range(c: char)
    ensures
        keypad_key(c) matches Some(key) ==> key < 16,
{
}

/// Looks up the key that a character of the keyboard stands for.
pub fn key_for_char(c: char) -> (key: Option<u8>)
    ensures
        key == keypad_key(c),
{
    match c {
        '1' => Some(0x1),
        '2' => Some(0x2),
        '3' => Some(0x3),
        '4' => Some(0xC),
        'q' => Some(0x4),
        'w' => Some(0x5),
        'e' => Some(0x6),
        'r' => Some(0xD),
        'a' => Some(0x7),
        's' => Some(0x8),
        'd' => Some(0x9),
        'f' => Some(0xE),
        'z' => Some(0xA),
        'x' => Some(0x0),
        'c' => Some(0xB),
        'v' => Some(0xF),
        _ => None,
    }
}

/// Whether a key that was last seen pressed at `seen` still counts as held
/// at `now`: it does for `retention` microseconds after the press.
pub open spec fn held(seen: Option<u64>, now: u64, retention: u64) -> bool {
    seen matches Some(at) && (if now >= at {
        now - at
    } else {
        0
    }) < retention
}

/// For each key the time at which it was last seen pressed, in microseconds
/// on the clock of the driver.
pub struct KeyTracker {
    last_seen: [Option<u64>; 16],
}

impl View for KeyTracker {
    type V = Seq<Option<u64>>;

    closed spec fn view(&self) -> Seq<Option<u64>> {
        self.last_seen@
    }
}

impl KeyTracker {
    /// A tracker that has seen no key.
    pub fn new() -> (tracker: KeyTracker)
        ensures
            tracker@ == Seq::new(16, |k: int| None::<u64>),
    {
        let tracker = KeyTracker { last_seen: [None; 16] };
        assert(tracker.last_seen@ =~= Seq::new(16, |k: int| None::<u64>));
        tracker
    }

    /// Notes that `key` was pressed at `now`. A number that names no key is
    /// passed over.
    pub fn press(&mut self, key: u8, now: u64)
        ensures
            final(self)@ == if key < 16 {
                old(self)@.update(key as int, Some(now))
            } else {
                old(self)@
            },
    {
        if key < 16 {
            self.last_seen[key as usize] = Some(now);
        }
    }

    /// The keys that count as held at `now`.
    pub fn snapshot(&self, now: u64) -> (keys: [bool; 16])
        ensures
            self@.len() == 16,
            forall|k: int| 0 <= k < 16 ==> keys@[k] == held(self@[k], now, KEY_RETENTION),
    {
        let mut keys = [false; 16];
        let mut k: usize = 0;
        while k < 16
            invariant
                k <= 16,
                forall|j: int| 0 <= j < k ==> keys@[j] == held(self.last_seen@[j], now, KEY_RETENTION),
            decreases 16 - k,
        {
            keys[k] = match self.last_seen[k] {
                Some(at) => now.saturating_sub(at) < KEY_RETENTION,
                None => false,
            };
            k += 1;
        }
        keys
    }
}

/// The character that shows two pixels, one above the other, in one cell of
/// a terminal.
pub open spec fn half_block(upper: bool, lower: bool) -> char {
    if upper && lower {
        '█'
    } else if upper {
        '▀'
    } else if lower {
        '▄'
    } else {
        ' '
    }
}

/// Line number `line` of the picture: sixty-four characters, each showing
/// a pixel of row `2 * line` above the pixel below it.
pub open spec fn frame_line(display: Seq<bool>, line: int) -> Seq<char> {
    Seq::new(
        64,
        |x: int| half_block(display[2 * line * 64 + x], display[(2 * line + 1) * 64 + x]),
    )
}

/// The display as sixteen lines of sixty-four characters.
pub fn frame(machine: &Chip8) -> (lines: Vec<Vec<char>>)
    ensures
        lines@.len() == 16,
        forall|line: int|
            0 <= line < 16 ==> (#[trigger] lines@[line])@ == frame_line(machine@.display, line),
{
    let pixels = machine.get_display();
    proof {
        machine.lemma_display_sized();
    }
    let mut lines: Vec<Vec<char>> = Vec::new();
    let mut line: usize = 0;
    while line < 16
        invariant
            line <= 16,
            pixels@.len() == 2048,
            lines@.len() == line,
            forall|l: int| 0 <= l < line ==> (#[trigger] lines@[l])@ == frame_line(pixels@, l),
        decreases 16 - line,
    {
        let mut text: Vec<char> = Vec::new();
        let mut x: usize = 0;
        while x < 64
            invariant
                line < 16,
                x <= 64,
                pixels@.len() == 2048,
                text@.len() == x,
                forall|j: int| 0 <= j < x ==> text@[j] == frame_line(pixels@, line as int)[j],
            decreases 64 - x,
        {
            let upper = pixels[2 * line * 64 + x];
            let lower = pixels[(2 * line + 1) * 64 + x];
            let c = match (upper, lower) {
                (true, true) => '█',
                (true, false) => '▀',
                (false, true) => '▄',
                (false, false) => ' ',
            };
            text.push(c);
            x += 1;
        }
        assert(text@ =~= frame_line(pixels@, line as int));
        lines.push(text);
        line += 1;
    }
    lines
}

/// The two clocks of the driver: when the last instruction was due and when
/// the last frame was shown, in microseconds on the clock of the driver.
pub struct Pacer {
    instruction_interval: u64,
    last_instruction: u64,
    last_frame: u64,
}

/// What a `Pacer` holds, as plain numbers.
pub ghost struct PacerState {
    /// Microseconds between two instructions.
    pub instruction_interval: int,
    /// When the last instruction that was run had been due.
    pub last_instruction: int,
    /// When the last frame was shown.
    pub last_frame: int,
}

impl PacerState {
    /// Whether an instruction is due at `now`: one interval or more has
    /// gone by since the last one was.
    pub open spec fn instruction_due(self, now: int) -> bool {
        now - self.last_instruction >= self.instruction_interval
    }

    /// Whether a frame is due at `now`.
    pub open spec fn frame_due(self, now: int) -> bool {
        now - self.last_frame >= FRAME_INTERVAL
    }
}

impl View for Pacer {
    type V = PacerState;

    closed spec fn view(&self) -> PacerState {
        PacerState {
            instruction_interval: self.instruction_interval as int,
            last_instruction: self.last_instruction as int,
            last_frame: self.last_frame as int,
        }
    }
}

impl Pacer {
    /// A pacer for `clock_speed` instructions a second, both clocks started
    /// at `now`.
    pub fn new(clock_speed: u64, now: u64) -> (pacer: Pacer)
        requires
            clock_speed > 0,
        ensures
            pacer@ == (PacerState {
                instruction_interval: 1_000_000int / clock_speed as int,
                last_instruction: now as int,
                last_frame: now as int,
            }),
    {
        Pacer {
            instruction_interval: 1_000_000 / clock_speed,
            last_instruction: now,
            last_frame: now,
        }
    }

    /// Tells whether an instruction is due at `now` and, if one is, counts
    /// it as run: the next one is due one interval after this one was.
    pub fn take_instruction(&mut self, now: u64) -> (due: bool)
        ensures
            due == old(self)@.instruction_due(now as int),
            final(self)@ == if due {
                PacerState {
                    last_instruction: old(self)@.last_instruction + old(self)@.instruction_interval,
                    ..old(self)@
                }
            } else {
                old(self)@
            },
    {
        if now >= self.last_instruction && now - self.last_instruction
            >= self.instruction_interval {
            self.last_instruction += self.instruction_interval;
            true
        } else {
            false
        }
    }

    /// Whether a frame is due at `now`.
    pub fn frame_due(&self, now: u64) -> (due: bool)
        ensures
            due == self@.frame_due(now as int),
    {
        now >= self.last_frame && now - self.last_frame >= FRAME_INTERVAL
    }

    /// Notes that a frame has been shown at `now`.
    pub fn frame_shown(&mut self, now: u64)
        ensures
            final(self)@ == (PacerState { last_frame: now as int, ..old(self)@ }),
    {
        self.last_frame = now;
    }
}

} // verus!

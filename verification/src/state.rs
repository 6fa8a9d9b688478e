//! The machine state: memory, registers, stack, timers, framebuffer and
//! keypad, together with its mathematical view and well-formedness.

use vstd::prelude::*;

verus! {

pub const MEMORY_SIZE: usize = 4096;
pub const NUM_REGISTERS: usize = 16;
pub const STACK_SIZE: usize = 16;
pub const KEYPAD_SIZE: usize = 16;
pub const DISPLAY_WIDTH: usize = 64;
pub const DISPLAY_HEIGHT: usize = 32;
pub const DISPLAY_SIZE: usize = 2048;
pub const PROGRAM_START: usize = 0x200;
pub const MAX_ROM_SIZE: usize = 3584;
pub const FONTSET_SIZE: usize = 80;

/// The machine state: one owner at a time, mutated only through the
/// loader, the executor and the timer tick.
pub struct Chip8 {
    /// 4096 bytes; the fontset sits at 0x000..0x050, programs at 0x200+.
    pub memory: Vec<u8>,
    /// The sixteen 8-bit registers V0..VF; VF doubles as the flag output.
    pub v: Vec<u8>,
    /// The 16-bit address register.
    pub i: u16,
    /// The program counter.
    pub pc: u16,
    /// Sixteen return-address slots; `sp` counts the entries pushed.
    pub stack: Vec<u16>,
    pub sp: u8,
    pub delay_timer: u8,
    pub sound_timer: u8,
    /// 64x32 pixels, row major, one byte per pixel, each 0 or 1.
    pub display: Vec<u8>,
    /// Sixteen key slots, 0 = released, 1 = pressed.
    pub keypad: Vec<u8>,
}

/// The mathematical model of the machine state.
#[verifier::ext_equal]
pub struct Chip8View {
    pub memory: Seq<u8>,
    pub v: Seq<u8>,
    pub i: u16,
    pub pc: u16,
    pub stack: Seq<u16>,
    pub sp: u8,
    pub delay_timer: u8,
    pub sound_timer: u8,
    pub display: Seq<u8>,
    pub keypad: Seq<u8>,
}

impl View for Chip8 {
    type V = Chip8View;

    open spec fn view(&self) -> Chip8View {
        Chip8View {
            memory: self.memory@,
            v: self.v@,
            i: self.i,
            pc: self.pc,
            stack: self.stack@,
            sp: self.sp,
            delay_timer: self.delay_timer,
            sound_timer: self.sound_timer,
            display: self.display@,
            keypad: self.keypad@,
        }
    }
}

impl Chip8View {
    /// Well-formedness: the containers have their fixed sizes, the stack
    /// pointer stays within the stack, and every pixel is 0 or 1.
    pub open spec fn wf(self) -> bool {
        &&& self.memory.len() == MEMORY_SIZE
        &&& self.v.len() == NUM_REGISTERS
        &&& self.stack.len() == STACK_SIZE
        &&& self.display.len() == DISPLAY_SIZE
        &&& self.keypad.len() == KEYPAD_SIZE
        &&& self.sp <= STACK_SIZE
        &&& forall|p: int| 0 <= p < DISPLAY_SIZE ==>
                (self.display[p] == 0 || self.display[p] == 1)
    }
}

/// The 80-byte fontset: 16 glyphs of 5 bytes, one glyph per hex digit.
pub open spec fn fontset_seq() -> Seq<u8> {
    seq![
        0xF0u8, 0x90, 0x90, 0x90, 0xF0, // 0
        0x20, 0x60, 0x20, 0x20, 0x70, // 1
        0xF0, 0x10, 0xF0, 0x80, 0xF0, // 2
        0xF0, 0x10, 0xF0, 0x10, 0xF0, // 3
        0x90, 0x90, 0xF0, 0x10, 0x10, // 4
        0xF0, 0x80, 0xF0, 0x10, 0xF0, // 5
        0xF0, 0x80, 0xF0, 0x90, 0xF0, // 6
        0xF0, 0x10, 0x20, 0x40, 0x40, // 7
        0xF0, 0x90, 0xF0, 0x90, 0xF0, // 8
        0xF0, 0x90, 0xF0, 0x10, 0xF0, // 9
        0xF0, 0x90, 0xF0, 0x90, 0x90, // A
        0xE0, 0x90, 0xE0, 0x90, 0xE0, // B
        0xF0, 0x80, 0x80, 0x80, 0xF0, // C
        0xE0, 0x90, 0x90, 0x90, 0xE0, // D
        0xF0, 0x80, 0xF0, 0x80, 0xF0, // E
        0xF0, 0x80, 0xF0, 0x80, 0x80, // F
    ]
}

/// The state a fresh machine is in: fontset in low memory, everything
/// else zeroed, program counter at the program base address.
pub open spec fn fresh_state() -> Chip8View {
    Chip8View {
        memory: Seq::new(MEMORY_SIZE as nat, |a: int| if 0 <= a < FONTSET_SIZE {
            fontset_seq()[a]
        } else {
            0u8
        }),
        v: Seq::new(NUM_REGISTERS as nat, |j: int| 0u8),
        i: 0,
        pc: 0x200,
        stack: Seq::new(STACK_SIZE as nat, |j: int| 0u16),
        sp: 0,
        delay_timer: 0,
        sound_timer: 0,
        display: Seq::new(DISPLAY_SIZE as nat, |j: int| 0u8),
        keypad: Seq::new(KEYPAD_SIZE as nat, |j: int| 0u8),
    }
}

/// Why a ROM image was rejected: the byte source could not be read, or
/// the image does not fit in the 3584-byte program area.
#[derive(Clone, Copy, Debug, PartialEq, Eq, Structural)]
pub enum RomError {
    RomUnreadable,
    RomTooLarge,
}

/// The machine state after a ROM image is copied in at the program base
/// address: only the covered bytes of memory change.
pub open spec fn spec_load(pre: Chip8View, data: Seq<u8>) -> Chip8View {
    Chip8View {
        memory: Seq::new(
            pre.memory.len(),
            |a: int|
                if PROGRAM_START <= a < PROGRAM_START + data.len() {
                    data[a - PROGRAM_START]
                } else {
                    pre.memory[a]
                },
        ),
        ..pre
    }
}

/// The machine state after one timer tick: each countdown timer one
/// closer to zero, everything else untouched.
pub open spec fn spec_tick(pre: Chip8View) -> Chip8View {
    Chip8View {
        delay_timer: if pre.delay_timer > 0 {
            (pre.delay_timer - 1) as u8
        } else {
            0u8
        },
        sound_timer: if pre.sound_timer > 0 {
            (pre.sound_timer - 1) as u8
        } else {
            0u8
        },
        ..pre
    }
}

/// A vector of `n` zero bytes.
fn zero_bytes(n: usize) -> (r: Vec<u8>)
    ensures
        r@ == Seq::new(n as nat, |j: int| 0u8),
{
    let mut r: Vec<u8> = Vec::new();
    let mut k: usize = 0;
    while k < n
        invariant
            k <= n,
            r@.len() == k,
            forall|j: int| 0 <= j < k ==> r@[j] == 0u8,
        decreases n - k,
    {
        r.push(0);
        k = k + 1;
    }
    proof {
        assert(r@ =~= Seq::new(n as nat, |j: int| 0u8));
    }
    r
}

/// A vector of `n` zero words.
fn zero_words(n: usize) -> (r: Vec<u16>)
    ensures
        r@ == Seq::new(n as nat, |j: int| 0u16),
{
    let mut r: Vec<u16> = Vec::new();
    let mut k: usize = 0;
    while k < n
        invariant
            k <= n,
            r@.len() == k,
            forall|j: int| 0 <= j < k ==> r@[j] == 0u16,
        decreases n - k,
    {
        r.push(0);
        k = k + 1;
    }
    proof {
        assert(r@ =~= Seq::new(n as nat, |j: int| 0u16));
    }
    r
}

/// The fontset as a vector.
fn fontset_vec() -> (r: Vec<u8>)
    ensures
        r@ == fontset_seq(),
{
    let r: Vec<u8> = vec![
        0xF0u8, 0x90, 0x90, 0x90, 0xF0,
        0x20, 0x60, 0x20, 0x20, 0x70,
        0xF0, 0x10, 0xF0, 0x80, 0xF0,
        0xF0, 0x10, 0xF0, 0x10, 0xF0,
        0x90, 0x90, 0xF0, 0x10, 0x10,
        0xF0, 0x80, 0xF0, 0x10, 0xF0,
        0xF0, 0x80, 0xF0, 0x90, 0xF0,
        0xF0, 0x10, 0x20, 0x40, 0x40,
        0xF0, 0x90, 0xF0, 0x90, 0xF0,
        0xF0, 0x90, 0xF0, 0x10, 0xF0,
        0xF0, 0x90, 0xF0, 0x90, 0x90,
        0xE0, 0x90, 0xE0, 0x90, 0xE0,
        0xF0, 0x80, 0x80, 0x80, 0xF0,
        0xE0, 0x90, 0x90, 0x90, 0xE0,
        0xF0, 0x80, 0xF0, 0x80, 0xF0,
        0xF0, 0x80, 0xF0, 0x80, 0x80,
    ];
    r
}

impl Chip8 {
    /// A fresh machine: fontset loaded, everything else zeroed, PC at 0x200.
    pub fn new() -> (c: Chip8)
        ensures
            c@ == fresh_state(),
            c@.wf(),
    {
        let mut memory = fontset_vec();
        let mut k: usize = FONTSET_SIZE;
        while k < MEMORY_SIZE
            invariant
                FONTSET_SIZE <= k <= MEMORY_SIZE,
                memory@.len() == k,
                memory@.subrange(0, FONTSET_SIZE as int) == fontset_seq(),
                forall|j: int| FONTSET_SIZE <= j < k ==> memory@[j] == 0u8,
            decreases MEMORY_SIZE - k,
        {
            let ghost prev = memory@;
            memory.push(0);
            proof {
                assert(memory@.subrange(0, FONTSET_SIZE as int)
                    =~= prev.subrange(0, FONTSET_SIZE as int));
            }
            k = k + 1;
        }
        let c = Chip8 {
            memory,
            v: zero_bytes(NUM_REGISTERS),
            i: 0,
            pc: 0x200,
            stack: zero_words(STACK_SIZE),
            sp: 0,
            delay_timer: 0,
            sound_timer: 0,
            display: zero_bytes(DISPLAY_SIZE),
            keypad: zero_bytes(KEYPAD_SIZE),
        };
        proof {
            assert(c@.memory =~= fresh_state().memory);
            assert(c@ =~= fresh_state());
        }
        c
    }

    /// Record one key of the input matrix as pressed or released.
    pub fn set_key(&mut self, key: usize, pressed: bool)
        requires
            old(self)@.wf(),
            key < KEYPAD_SIZE,
        ensures
            final(self)@ == (Chip8View {
                keypad: old(self)@.keypad.update(key as int, if pressed { 1u8 } else { 0u8 }),
                ..old(self)@
            }),
            final(self)@.wf(),
    {
        self.keypad.set(key, if pressed { 1 } else { 0 });
    }

    /// Decrement each countdown timer by one if it is nonzero; called once
    /// per host frame.
    pub fn tick_timers(&mut self)
        requires
            old(self)@.wf(),
        ensures
            final(self)@ == spec_tick(old(self)@),
            final(self)@.wf(),
    {
        if self.delay_timer > 0 {
            self.delay_timer = self.delay_timer - 1;
        }
        if self.sound_timer > 0 {
            self.sound_timer = self.sound_timer - 1;
        }
        proof {
            assert(self@ =~= spec_tick(old(self)@));
        }
    }

    /// Copy a ROM image into memory at the program base address. An
    /// image larger than the program area is rejected and the state is
    /// left untouched; nothing else — no register, no program counter —
    /// is changed by a load.
    pub fn chip8_load_rom(&mut self, data: &Vec<u8>) -> (r: Result<(), RomError>)
        requires
            old(self)@.wf(),
        ensures
            final(self)@.wf(),
            data@.len() <= MAX_ROM_SIZE ==> r is Ok && final(self)@ == spec_load(
                old(self)@,
                data@,
            ),
            data@.len() > MAX_ROM_SIZE ==> r == Result::<(), RomError>::Err(RomError::RomTooLarge)
                && final(self)@ == old(self)@,
    {
        let ghost pre = old(self)@;
        if data.len() > MAX_ROM_SIZE {
            return Err(RomError::RomTooLarge);
        }
        let mut k: usize = 0;
        while k < data.len()
            invariant
                pre.wf(),
                k <= data@.len(),
                data@.len() <= MAX_ROM_SIZE,
                self@.memory.len() == MEMORY_SIZE,
                forall|a: int|
                    0 <= a < MEMORY_SIZE ==> self@.memory[a] == (if PROGRAM_START <= a
                        < PROGRAM_START + k {
                        data@[a - PROGRAM_START]
                    } else {
                        pre.memory[a]
                    }),
                self@.v == pre.v,
                self@.i == pre.i,
                self@.pc == pre.pc,
                self@.stack == pre.stack,
                self@.sp == pre.sp,
                self@.delay_timer == pre.delay_timer,
                self@.sound_timer == pre.sound_timer,
                self@.display == pre.display,
                self@.keypad == pre.keypad,
            decreases data@.len() - k,
        {
            let b = data[k];
            self.memory.set(PROGRAM_START + k, b);
            k = k + 1;
        }
        proof {
            assert(self@.memory =~= spec_load(pre, data@).memory);
            assert(self@ =~= spec_load(pre, data@));
        }
        Ok(())
    }
}

} // verus!

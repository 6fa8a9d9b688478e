//! The frame driver: the per-frame decisions of the emulator shell —
//! how many cycles to run, when to single-step, when to tick the
//! timers. The windowing code outside the library owns a `MyApp`,
//! calls `run_frame` once per frame, and does the painting and input
//! mapping around it.

use vstd::prelude::*;
use crate::exec::spec_cycle;
use crate::state::{fresh_state, spec_load, spec_tick, Chip8, Chip8View, MAX_ROM_SIZE};

verus! {

/// Whether the emulation advances every frame or only on request.
#[derive(Clone, Copy, Debug, PartialEq, Eq, Structural)]
pub enum ExecutionState {
    Running,
    Paused,
}

/// The emulator shell's state: the machine plus the run/pause controls
/// the window manipulates.
pub struct MyApp {
    pub chip8: Chip8,
    /// How many instruction cycles one frame executes while running.
    pub cycles_per_frame: usize,
    /// A ROM path the window asked to load; the shell reads the file
    /// and replaces the machine.
    pub rom_to_load: Option<String>,
    pub debugger_open: bool,
    pub execution_state: ExecutionState,
    /// While paused, a request to execute exactly one cycle.
    pub step_requested: bool,
}

/// The machine after the cycles of one frame, fed one random byte per
/// cycle.
pub open spec fn run_cycles(s: Chip8View, rs: Seq<u8>) -> Chip8View
    decreases rs.len(),
{
    if rs.len() == 0 {
        s
    } else {
        spec_cycle(run_cycles(s, rs.drop_last()), rs.last())
    }
}

/// Appending one random byte appends one cycle.
proof fn lemma_run_cycles_push(s: Chip8View, rs: Seq<u8>, r: u8)
    ensures
        run_cycles(s, rs.push(r)) == spec_cycle(run_cycles(s, rs), r),
{
    assert(rs.push(r).drop_last() =~= rs);
    assert(rs.push(r).last() == r);
}

/// How many cycles one frame executes: the configured count while
/// running, one for a granted step request while paused, none
/// otherwise.
pub open spec fn frame_cycle_count(
    st: ExecutionState,
    step_requested: bool,
    cycles_per_frame: usize,
) -> int {
    if st is Running {
        cycles_per_frame as int
    } else if step_requested {
        1int
    } else {
        0int
    }
}

impl MyApp {
    /// A fresh shell around a fresh machine, running at ten cycles per
    /// frame, with the ROM image applied if one is given and it fits;
    /// an oversized image leaves the machine fresh, as a failed load
    /// changes nothing.
    pub fn new(rom: Option<&Vec<u8>>) -> (app: MyApp)
        ensures
            app.chip8@.wf(),
            app.cycles_per_frame == 10,
            app.rom_to_load is None,
            !app.debugger_open,
            app.execution_state is Running,
            !app.step_requested,
            app.chip8@ == (match rom {
                Some(d) => if d@.len() <= MAX_ROM_SIZE {
                    spec_load(fresh_state(), d@)
                } else {
                    fresh_state()
                },
                None => fresh_state(),
            }),
    {
        let mut chip8 = Chip8::new();
        match rom {
            Some(data) => {
                let _ = chip8.chip8_load_rom(data);
            },
            None => {},
        }
        MyApp {
            chip8,
            cycles_per_frame: 10,
            rom_to_load: None,
            debugger_open: false,
            execution_state: ExecutionState::Running,
            step_requested: false,
        }
    }

    /// One frame of emulation: the frame's cycles — each drawing its own
    /// random byte — then one timer tick. A step request is granted,
    /// and cleared, only while paused.
    pub fn run_frame(&mut self)
        requires
            old(self).chip8@.wf(),
        ensures
            final(self).chip8@.wf(),
            final(self).cycles_per_frame == old(self).cycles_per_frame,
            final(self).rom_to_load == old(self).rom_to_load,
            final(self).debugger_open == old(self).debugger_open,
            final(self).execution_state == old(self).execution_state,
            final(self).step_requested == (old(self).step_requested && old(
                self,
            ).execution_state is Running),
            exists|rs: Seq<u8>|
                rs.len() == frame_cycle_count(
                    old(self).execution_state,
                    old(self).step_requested,
                    old(self).cycles_per_frame,
                ) && final(self).chip8@ == spec_tick(run_cycles(old(self).chip8@, rs)),
    {
        let ghost pre = old(self).chip8@;
        let ghost mut rs: Seq<u8> = Seq::empty();
        match self.execution_state {
            ExecutionState::Running => {
                let n = self.cycles_per_frame;
                let mut c: usize = 0;
                while c < n
                    invariant
                        c <= n,
                        rs.len() == c,
                        self.chip8@.wf(),
                        self.chip8@ == run_cycles(pre, rs),
                        self.cycles_per_frame == old(self).cycles_per_frame,
                        n == old(self).cycles_per_frame,
                        self.rom_to_load == old(self).rom_to_load,
                        self.debugger_open == old(self).debugger_open,
                        self.execution_state == old(self).execution_state,
                        self.step_requested == old(self).step_requested,
                    decreases n - c,
                {
                    let ghost prev = self.chip8@;
                    self.chip8.chip8_emulate_cycle();
                    proof {
                        let r = choose|r: u8| self.chip8@ == spec_cycle(prev, r);
                        lemma_run_cycles_push(pre, rs, r);
                        rs = rs.push(r);
                    }
                    c = c + 1;
                }
            },
            ExecutionState::Paused => {
                if self.step_requested {
                    let ghost prev = self.chip8@;
                    self.chip8.chip8_emulate_cycle();
                    self.step_requested = false;
                    proof {
                        let r = choose|r: u8| self.chip8@ == spec_cycle(prev, r);
                        lemma_run_cycles_push(pre, rs, r);
                        rs = rs.push(r);
                    }
                }
            },
        }
        self.chip8.tick_timers();
        proof {
            assert(self.chip8@ == spec_tick(run_cycles(pre, rs)));
        }
    }
}

} // verus!

//! What the host's window needs of the machine once per frame: a tick, and
//! the cells to paint.

use vstd::prelude::*;
use crate::chip8::Chip8;
use crate::display::{SCREEN_HEIGHT, SCREEN_WIDTH};
use crate::machine::{run_outcome, Chip8Error, Event, Machine};
use crate::random::random_byte;

verus! {

/// The cells of the screen, (column, row), in the order in which a frame
/// lists them: column by column, each from the top down.
pub open spec fn scan_order() -> Seq<(usize, usize)> {
    Seq::new(2048, |k: int| ((k / 32) as usize, (k % 32) as usize))
}

/// Whether the cell `c` is lit in the framebuffer `gfx`.
pub open spec fn is_lit(gfx: Seq<bool>) -> spec_fn((usize, usize)) -> bool {
    |c: (usize, usize)| gfx[c.0 + c.1 * 64]
}

/// The lit cells of the framebuffer `gfx`, in scan order.
pub open spec fn lit_cells(gfx: Seq<bool>) -> Seq<(usize, usize)> {
    scan_order().filter(is_lit(gfx))
}

/// One frame: what to paint and what happened.
#[derive(Debug)]
pub struct Frame {
    /// The lit cells, as (column, row).
    pub cells: Vec<(usize, usize)>,
    /// The events of the tick that led to this frame.
    pub events: Vec<Event>,
}

/// The machine as the window holds it.
pub struct System {
    pub chip8: Chip8,
    needs_draw: bool,
}

impl System {
    /// The state of the machine that the system drives.
    pub closed spec fn machine(&self) -> Machine {
        self.chip8@
    }

    /// Whether a frame is owed to the window.
    pub closed spec fn pending(&self) -> bool {
        self.needs_draw
    }

    /// Wraps a machine; no frame is owed yet.
    pub fn new(chip8: Chip8) -> (system: System)
        ensures
            system.machine() == chip8@,
            !system.pending(),
    {
        System { chip8, needs_draw: false }
    }

    /// Whether a frame is owed to the window.
    pub fn needs_draw(&self) -> (pending: bool)
        ensures
            pending == self.pending(),
    {
        self.needs_draw
    }

    /// The lit cells of the machine's framebuffer, in scan order.
    pub fn lit_cells(&self) -> (cells: Vec<(usize, usize)>)
        ensures
            cells@ == lit_cells(self.machine().gfx),
    {
        let pixels = self.chip8.pixels();
        let ghost lit = is_lit(self.chip8@.gfx);
        let mut cells: Vec<(usize, usize)> = Vec::new();
        proof {
            reveal(Seq::filter);
        }
        let mut x: usize = 0;
        while x < SCREEN_WIDTH
            invariant
                x <= 64,
                pixels@ == self.chip8@.gfx,
                pixels@.len() == 2048,
                lit == is_lit(self.chip8@.gfx),
                cells@ == scan_order().take(x * 32).filter(lit),
            decreases SCREEN_WIDTH - x,
        {
            let mut y: usize = 0;
            while y < SCREEN_HEIGHT
                invariant
                    x < 64,
                    y <= 32,
                    pixels@ == self.chip8@.gfx,
                    pixels@.len() == 2048,
                    lit == is_lit(self.chip8@.gfx),
                    cells@ == scan_order().take(x * 32 + y).filter(lit),
                decreases SCREEN_HEIGHT - y,
            {
                proof {
                    let k = x * 32 + y;
                    reveal(Seq::filter);
                    assert(scan_order().take(k + 1).drop_last() =~= scan_order().take(k));
                }
                if pixels[x + (y * SCREEN_WIDTH)] {
                    cells.push((x, y));
                }
                y += 1;
            }
            x += 1;
        }
        proof {
            assert(scan_order().take(2048) =~= scan_order());
        }
        cells
    }

    /// Ticks the machine once, with random bytes from the thread-local
    /// generator, and lists what to paint. A fault is handed on and no frame
    /// is made.
    pub fn draw(&mut self, keys: &[bool; 16]) -> (r: Result<Frame, Chip8Error>)
        ensures
            old(self).machine().wf() ==> final(self).machine().wf(),
            exists|randoms: Seq<u8>|
                randoms.len() == old(self).machine().cycles_per_tick() && run_outcome(
                    #[trigger] old(self).machine().tick(keys@, randoms),
                    final(self).machine(),
                    match r {
                        Ok(frame) => Ok(frame.events@),
                        Err(e) => Err(e),
                    },
                ),
            match r {
                Ok(frame) => !final(self).pending() && frame.cells@ == lit_cells(
                    final(self).machine().gfx,
                ),
                Err(_) => final(self).pending() == old(self).pending(),
            },
    {
        let events = match self.chip8.tick(keys, random_byte) {
            Ok(events) => events,
            Err(e) => {
                return Err(e);
            },
        };
        let cells = self.lit_cells();
        self.needs_draw = false;
        Ok(Frame { cells, events })
    }
}

} // verus!

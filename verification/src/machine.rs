//! The machine as a mathematical value, and what each instruction, each
//! cycle and each tick makes of it.

use vstd::prelude::*;
use crate::display::{blank, blit_spec, collides, sprite_rows, PIXELS};
use crate::font::{font_set, GLYPH_STRIDE};
use crate::opcode::{decode_spec, Instruction};

verus! {

/// Bytes of addressable memory.
pub const MEMORY_SIZE: usize = 4096;

/// Address at which a program image is loaded and execution starts.
pub const PROGRAM_START: u16 = 0x200;

/// The most bytes a program image can have.
pub const MAX_PROGRAM_SIZE: usize = 3584;

/// The highest address at which a whole opcode can be fetched.
pub const LAST_FETCH: u16 = 4094;

/// Deepest nesting of subroutine calls.
pub const STACK_DEPTH: usize = 16;

/// Number of general registers, V0 to VF.
pub const REGISTERS: usize = 16;

/// Index of VF, the flag register.
pub const FLAG: usize = 15;

/// Ticks per second that the host is expected to deliver.
pub const FPS: usize = 60;

/// Default instruction rate, in cycles per second.
pub const CLOCK_SPEED: usize = 540;

/// Whether the machine is running or blocked on a key press.
#[derive(Clone, Copy, Debug, PartialEq, Eq, Structural)]
pub enum KeyWait {
    /// Instructions execute normally.
    Running,
    /// The machine stalls until a key goes down; the register named here
    /// receives the key's index.
    Waiting(usize),
}

/// Points on which interpreters have historically disagreed. All `false` is
/// the canonical behaviour.
#[derive(Clone, Copy, Debug, PartialEq, Eq, Structural)]
pub struct Quirks {
    /// The shift instructions shift VY into VX rather than VX in place.
    pub shift_uses_vy: bool,
    /// Bulk store and load leave I just past the last byte they touched.
    pub increment_index: bool,
    /// Sprite pixels that fall off the screen come back in on the opposite
    /// side rather than being dropped.
    pub wrap_sprites: bool,
}

impl Quirks {
    /// The canonical behaviour: shifts work on VX in place, bulk store and
    /// load leave I alone, sprites are clipped at the screen's edges.
    pub open spec fn canonical_spec() -> Quirks {
        Quirks { shift_uses_vy: false, increment_index: false, wrap_sprites: false }
    }

    /// The canonical behaviour.
    #[verifier::when_used_as_spec(canonical_spec)]
    pub fn canonical() -> (q: Quirks)
        ensures
            q == Quirks::canonical_spec(),
    {
        Quirks { shift_uses_vy: false, increment_index: false, wrap_sprites: false }
    }
}

/// Something the host may want to surface.
#[derive(Clone, Copy, Debug, PartialEq, Eq, Structural)]
pub enum Event {
    /// The sound timer went from 1 to 0.
    Beep,
    /// An opcode that no instruction claims was skipped.
    UnknownOpcode(u16),
}

/// A condition that stops the machine.
#[derive(Clone, Copy, Debug, PartialEq, Eq, Structural)]
pub enum Chip8Error {
    /// A return with no call outstanding.
    StackUnderflow,
    /// A call with `STACK_DEPTH` calls outstanding.
    StackOverflow,
    /// A program image that does not fit between `PROGRAM_START` and the end
    /// of memory.
    OversizedCartridge,
    /// A fetch or an I-relative access that reaches past the end of memory.
    OutOfBoundsMemoryAccess,
}

/// The whole state of the machine.
#[verifier::ext_equal]
pub struct Machine {
    pub memory: Seq<u8>,
    pub reg: Seq<u8>,
    pub i: u16,
    pub pc: u16,
    pub stack: Seq<u16>,
    pub gfx: Seq<bool>,
    pub delay_timer: u8,
    pub sound_timer: u8,
    pub wait: KeyWait,
    pub quirks: Quirks,
    pub clock_speed: usize,
}

/// A successful step: the machine it leads to and the event it raised.
#[verifier::ext_equal]
pub struct Step {
    pub machine: Machine,
    pub event: Option<Event>,
}

/// A run of cycles: the machine it leads to, the events raised in order, and
/// the fault that stopped it, if one did.
#[verifier::ext_equal]
pub struct Run {
    pub machine: Machine,
    pub events: Seq<Event>,
    pub fault: Option<Chip8Error>,
}

/// Memory as it is when the machine is built: the font from address 0 on,
/// zero everywhere else.
pub open spec fn initial_memory() -> Seq<u8> {
    Seq::new(
        MEMORY_SIZE as nat,
        |a: int|
            if a < font_set().len() {
                font_set()[a]
            } else {
                0u8
            },
    )
}

/// The big-endian opcode held at `addr` and `addr + 1`.
pub open spec fn opcode_at(memory: Seq<u8>, addr: int) -> u16 {
    (memory[addr] as int * 256 + memory[addr + 1] as int) as u16
}

/// Whether logical key `k` is down. Indices past the last key name no key.
pub open spec fn key_down(keys: Seq<bool>, k: int) -> bool {
    0 <= k < keys.len() && keys[k]
}

/// The first key that is down, scanning upwards from `from`.
pub open spec fn first_pressed_from(keys: Seq<bool>, from: int) -> Option<usize>
    decreases keys.len() - from,
{
    if from < 0 || from >= keys.len() {
        None
    } else if keys[from] {
        Some(from as usize)
    } else {
        first_pressed_from(keys, from + 1)
    }
}

/// The lowest-numbered key that is down.
pub open spec fn first_pressed(keys: Seq<bool>) -> Option<usize> {
    first_pressed_from(keys, 0)
}

/// `first_pressed_from` finds the least index from `from` on that is down.
pub proof fn lemma_first_pressed_from(keys: Seq<bool>, from: int)
    requires
        0 <= from,
        keys.len() <= usize::MAX,
    ensures
        match first_pressed_from(keys, from) {
            Some(k) => from <= k < keys.len() && keys[k as int] && forall|j: int|
                from <= j < k ==> !keys[j],
            None => forall|j: int| from <= j < keys.len() ==> !keys[j],
        },
    decreases keys.len() - from,
{
    if from < keys.len() && !keys[from] {
        lemma_first_pressed_from(keys, from + 1);
    }
}

/// `first_pressed` is the least index that is down, and `None` exactly if no
/// key is down.
pub proof fn lemma_first_pressed(keys: Seq<bool>)
    requires
        keys.len() <= usize::MAX,
    ensures
        match first_pressed(keys) {
            Some(k) => k < keys.len() && keys[k as int] && forall|j: int| 0 <= j < k ==> !keys[j],
            None => forall|j: int| 0 <= j < keys.len() ==> !keys[j],
        },
{
    lemma_first_pressed_from(keys, 0);
}

/// Whether `after` and `returned` are what the step `expected` of the machine
/// `before` prescribes: on success the step's machine and event, on a fault
/// the fault and the machine untouched.
pub open spec fn step_outcome(
    expected: Result<Step, Chip8Error>,
    before: Machine,
    after: Machine,
    returned: Result<Option<Event>, Chip8Error>,
) -> bool {
    match expected {
        Ok(step) => returned == Ok::<Option<Event>, Chip8Error>(step.event) && after
            == step.machine,
        Err(e) => returned == Err::<Option<Event>, Chip8Error>(e) && after == before,
    }
}

/// Whether `after` and `returned` are what `run` prescribes: the run's
/// machine, and its events if there was no fault, else the fault.
pub open spec fn run_outcome(
    run: Run,
    after: Machine,
    returned: Result<Seq<Event>, Chip8Error>,
) -> bool {
    after == run.machine && match run.fault {
        Some(e) => returned == Err::<Seq<Event>, Chip8Error>(e),
        None => returned == Ok::<Seq<Event>, Chip8Error>(run.events),
    }
}

impl Machine {
    /// The sizes are fixed, the stack is within its depth, and a waiting
    /// machine stands on the wait instruction that names its register.
    pub open spec fn wf(self) -> bool {
        &&& self.memory.len() == MEMORY_SIZE
        &&& self.reg.len() == REGISTERS
        &&& self.gfx.len() == PIXELS
        &&& self.stack.len() <= STACK_DEPTH
        &&& match self.wait {
            KeyWait::Running => true,
            KeyWait::Waiting(r) => self.pc <= LAST_FETCH && decode_spec(
                opcode_at(self.memory, self.pc as int),
            ) == (Instruction::WaitKey { x: r }),
        }
    }

    /// The machine as it is built: the font at address 0, everything else
    /// zero, the program counter at `PROGRAM_START`.
    pub open spec fn initial(clock_speed: usize, quirks: Quirks) -> Machine {
        Machine {
            memory: initial_memory(),
            reg: Seq::new(REGISTERS as nat, |k: int| 0u8),
            i: 0,
            pc: PROGRAM_START,
            stack: Seq::empty(),
            gfx: blank(),
            delay_timer: 0,
            sound_timer: 0,
            wait: KeyWait::Running,
            quirks,
            clock_speed,
        }
    }

    /// Whether a program image of `len` bytes fits.
    pub open spec fn fits(len: nat) -> bool {
        len <= MAX_PROGRAM_SIZE
    }

    /// The machine with `data` written from `PROGRAM_START` on. Loading ends
    /// a pending key wait.
    pub open spec fn load(self, data: Seq<u8>) -> Machine {
        Machine {
            memory: Seq::new(
                self.memory.len(),
                |a: int|
                    if PROGRAM_START <= a < PROGRAM_START + data.len() {
                        data[a - PROGRAM_START]
                    } else {
                        self.memory[a]
                    },
            ),
            wait: KeyWait::Running,
            ..self
        }
    }

    /// VX set to `v`.
    pub open spec fn set_reg(self, x: usize, v: u8) -> Machine {
        Machine { reg: self.reg.update(x as int, v), ..self }
    }

    /// VX set to `v`, then VF set to 1 if `flag` holds and to 0 if not. The
    /// flag is written last, so it stands when X names VF.
    pub open spec fn set_reg_flag(self, x: usize, v: u8, flag: bool) -> Machine {
        Machine {
            reg: self.reg.update(x as int, v).update(
                FLAG as int,
                if flag {
                    1u8
                } else {
                    0u8
                },
            ),
            ..self
        }
    }

    /// The program counter moved past one more instruction if `skip` holds.
    pub open spec fn skip_if(self, skip: bool) -> Machine {
        if skip {
            Machine { pc: (self.pc + 2) as u16, ..self }
        } else {
            self
        }
    }

    /// The value that a shift instruction shifts.
    pub open spec fn shift_source(self, x: usize, y: usize) -> u8 {
        if self.quirks.shift_uses_vy {
            self.reg[y as int]
        } else {
            self.reg[x as int]
        }
    }

    /// I after a bulk store or load of V0..=VX: unchanged, or just past the
    /// last byte touched.
    pub open spec fn index_after_bulk(self, x: usize) -> u16 {
        if self.quirks.increment_index {
            (self.i + x + 1) as u16
        } else {
            self.i
        }
    }

    /// The register-to-register instructions.
    pub open spec fn execute_alu(self, ins: Instruction) -> Machine {
        match ins {
            Instruction::Move { x, y } => self.set_reg(x, self.reg[y as int]),
            Instruction::Or { x, y } => self.set_reg(x, self.reg[x as int] | self.reg[y as int]),
            Instruction::And { x, y } => self.set_reg(x, self.reg[x as int] & self.reg[y as int]),
            Instruction::Xor { x, y } => self.set_reg(x, self.reg[x as int] ^ self.reg[y as int]),
            Instruction::Add { x, y } => {
                let sum = self.reg[x as int] + self.reg[y as int];
                self.set_reg_flag(x, (sum % 256) as u8, sum > 255)
            },
            Instruction::Sub { x, y } => {
                let diff = self.reg[x as int] - self.reg[y as int];
                self.set_reg_flag(x, (diff % 256) as u8, diff >= 0)
            },
            Instruction::ShiftRight { x, y } => {
                let v = self.shift_source(x, y);
                self.set_reg_flag(x, v / 2, v % 2 == 1)
            },
            Instruction::SubFrom { x, y } => {
                let diff = self.reg[y as int] - self.reg[x as int];
                self.set_reg_flag(x, (diff % 256) as u8, diff >= 0)
            },
            Instruction::ShiftLeft { x, y } => {
                let v = self.shift_source(x, y);
                self.set_reg_flag(x, ((v * 2) % 256) as u8, v >= 128)
            },
            _ => self,
        }
    }

    /// The sprite that a draw of `n` rows reads: `memory[I .. I + n)`.
    pub open spec fn sprite(self, n: usize) -> Seq<u8> {
        sprite_rows(self.memory, self.i as int, n as int)
    }

    /// The registers as a draw reads its coordinates: with VF already reset.
    pub open spec fn reg_for_draw(self) -> Seq<u8> {
        self.reg.update(FLAG as int, 0u8)
    }

    /// Draws the `n`-row sprite at I with its corner at (VX, VY). VF is reset
    /// before the coordinates are read, so a coordinate taken from VF is 0;
    /// afterwards VF tells whether a lit pixel was hit. Faults if a row of the
    /// sprite lies past the end of memory; a sprite of no rows has none, and
    /// only resets VF.
    pub open spec fn execute_draw(self, x: usize, y: usize, n: usize) -> Result<
        Machine,
        Chip8Error,
    > {
        if n > 0 && self.i + n > MEMORY_SIZE {
            Err(Chip8Error::OutOfBoundsMemoryAccess)
        } else {
            let bx = self.reg_for_draw()[x as int] as int;
            let by = self.reg_for_draw()[y as int] as int;
            let wrap = self.quirks.wrap_sprites;
            Ok(
                Machine {
                    gfx: blit_spec(self.gfx, self.sprite(n), bx, by, wrap),
                    reg: self.reg.update(
                        FLAG as int,
                        if collides(self.gfx, self.sprite(n), bx, by, wrap) {
                            1u8
                        } else {
                            0u8
                        },
                    ),
                    ..self
                },
            )
        }
    }

    /// The wait instruction: with a key down, VX receives the lowest such
    /// key and the machine runs on; with none, the program counter goes back
    /// onto the instruction and the machine waits.
    pub open spec fn execute_wait(self, x: usize, keys: Seq<bool>) -> Machine {
        match first_pressed(keys) {
            Some(k) => Machine { wait: KeyWait::Running, ..self.set_reg(x, k as u8) },
            None => Machine { pc: (self.pc - 2) as u16, wait: KeyWait::Waiting(x), ..self },
        }
    }

    /// Stores the decimal digits of VX at I, I+1, I+2.
    pub open spec fn execute_bcd(self, x: usize) -> Result<Machine, Chip8Error> {
        if self.i + 3 > MEMORY_SIZE {
            Err(Chip8Error::OutOfBoundsMemoryAccess)
        } else {
            let v = self.reg[x as int];
            Ok(
                Machine {
                    memory: self.memory.update(self.i as int, v / 100).update(
                        self.i + 1,
                        (v / 10) % 10,
                    ).update(self.i + 2, v % 10),
                    ..self
                },
            )
        }
    }

    /// Stores V0..=VX at I onwards.
    pub open spec fn execute_store(self, x: usize) -> Result<Machine, Chip8Error> {
        if self.i + x + 1 > MEMORY_SIZE {
            Err(Chip8Error::OutOfBoundsMemoryAccess)
        } else {
            Ok(
                Machine {
                    memory: Seq::new(
                        self.memory.len(),
                        |a: int|
                            if self.i <= a <= self.i + x {
                                self.reg[a - self.i]
                            } else {
                                self.memory[a]
                            },
                    ),
                    i: self.index_after_bulk(x),
                    ..self
                },
            )
        }
    }

    /// Loads V0..=VX from I onwards.
    pub open spec fn execute_load(self, x: usize) -> Result<Machine, Chip8Error> {
        if self.i + x + 1 > MEMORY_SIZE {
            Err(Chip8Error::OutOfBoundsMemoryAccess)
        } else {
            Ok(
                Machine {
                    reg: Seq::new(
                        self.reg.len(),
                        |k: int|
                            if k <= x {
                                self.memory[self.i + k]
                            } else {
                                self.reg[k]
                            },
                    ),
                    i: self.index_after_bulk(x),
                    ..self
                },
            )
        }
    }

    /// The instructions that can fault: return, call, draw and the
    /// I-relative memory accesses.
    pub open spec fn execute_checked(self, ins: Instruction) -> Result<Machine, Chip8Error> {
        match ins {
            Instruction::Return => if self.stack.len() == 0 {
                Err(Chip8Error::StackUnderflow)
            } else {
                Ok(Machine { pc: self.stack.last(), stack: self.stack.drop_last(), ..self })
            },
            Instruction::Call { nnn } => if self.stack.len() >= STACK_DEPTH {
                Err(Chip8Error::StackOverflow)
            } else {
                Ok(Machine { pc: nnn, stack: self.stack.push(self.pc), ..self })
            },
            Instruction::Draw { x, y, n } => self.execute_draw(x, y, n),
            Instruction::Bcd { x } => self.execute_bcd(x),
            Instruction::Store { x } => self.execute_store(x),
            Instruction::Load { x } => self.execute_load(x),
            _ => Ok(self),
        }
    }

    /// The instructions that always succeed and touch neither the ALU nor
    /// memory.
    pub open spec fn execute_plain(self, ins: Instruction, keys: Seq<bool>, random: u8) -> Machine {
        match ins {
            Instruction::ClearScreen => Machine { gfx: blank(), ..self },
            Instruction::Jump { nnn } => Machine { pc: nnn, ..self },
            Instruction::SkipEqImm { x, nn } => self.skip_if(self.reg[x as int] == nn),
            Instruction::SkipNeImm { x, nn } => self.skip_if(self.reg[x as int] != nn),
            Instruction::SkipEqReg { x, y } => self.skip_if(self.reg[x as int] == self.reg[y as int]),
            Instruction::SkipNeReg { x, y } => self.skip_if(self.reg[x as int] != self.reg[y as int]),
            Instruction::LoadImm { x, nn } => self.set_reg(x, nn),
            Instruction::AddImm { x, nn } => self.set_reg(
                x,
                ((self.reg[x as int] + nn) % 256) as u8,
            ),
            Instruction::LoadIndex { nnn } => Machine { i: nnn, ..self },
            Instruction::JumpOffset { nnn } => Machine {
                pc: (nnn + self.reg[0]) as u16,
                ..self
            },
            Instruction::Random { x, nn } => self.set_reg(x, random & nn),
            Instruction::SkipKeyDown { x } => self.skip_if(
                key_down(keys, self.reg[x as int] as int),
            ),
            Instruction::SkipKeyUp { x } => self.skip_if(
                !key_down(keys, self.reg[x as int] as int),
            ),
            Instruction::ReadDelay { x } => self.set_reg(x, self.delay_timer),
            Instruction::WaitKey { x } => self.execute_wait(x, keys),
            Instruction::SetDelay { x } => Machine { delay_timer: self.reg[x as int], ..self },
            Instruction::SetSound { x } => Machine { sound_timer: self.reg[x as int], ..self },
            Instruction::AddIndex { x } => Machine {
                i: ((self.i + self.reg[x as int]) % 0x10000) as u16,
                ..self
            },
            Instruction::Glyph { x } => Machine {
                i: (self.reg[x as int] * GLYPH_STRIDE) as u16,
                ..self
            },
            _ => self,
        }
    }

    /// The effect of one instruction on a machine whose program counter
    /// already stands behind it. `random` is the byte that a `Random`
    /// instruction uses; no other instruction looks at it. An unknown
    /// opcode changes nothing and is reported as an event.
    pub open spec fn execute(self, ins: Instruction, keys: Seq<bool>, random: u8) -> Result<
        Step,
        Chip8Error,
    > {
        match ins {
            Instruction::Unknown { code } => Ok(
                Step { machine: self, event: Some(Event::UnknownOpcode(code)) },
            ),
            Instruction::Move { .. }
            | Instruction::Or { .. }
            | Instruction::And { .. }
            | Instruction::Xor { .. }
            | Instruction::Add { .. }
            | Instruction::Sub { .. }
            | Instruction::ShiftRight { .. }
            | Instruction::SubFrom { .. }
            | Instruction::ShiftLeft { .. } => Ok(
                Step { machine: self.execute_alu(ins), event: None },
            ),
            Instruction::Return
            | Instruction::Call { .. }
            | Instruction::Draw { .. }
            | Instruction::Bcd { .. }
            | Instruction::Store { .. }
            | Instruction::Load { .. } => match self.execute_checked(ins) {
                Ok(machine) => Ok(Step { machine, event: None }),
                Err(e) => Err(e),
            },
            _ => Ok(Step { machine: self.execute_plain(ins, keys, random), event: None }),
        }
    }

    /// Whether `code` is the opcode that was just fetched: the machine is
    /// running and its program counter stands right behind `code`.
    pub open spec fn fetched(self, code: u16) -> bool {
        &&& 2 <= self.pc <= LAST_FETCH + 2
        &&& self.wait == KeyWait::Running
        &&& code == opcode_at(self.memory, self.pc - 2)
    }

    /// Whether an opcode can be fetched at the program counter.
    pub open spec fn can_fetch(self) -> bool {
        self.pc <= LAST_FETCH
    }

    /// The machine after a fetch: the program counter two further, and
    /// running.
    pub open spec fn advanced(self) -> Machine {
        Machine { pc: (self.pc + 2) as u16, wait: KeyWait::Running, ..self }
    }

    /// The instruction at the program counter.
    pub open spec fn current(self) -> Instruction {
        decode_spec(opcode_at(self.memory, self.pc as int))
    }

    /// Whether the next cycle executes a random instruction, and so needs a
    /// random byte.
    pub open spec fn wants_random(self) -> bool {
        self.can_fetch() && self.current() is Random
    }

    /// One cycle: fetch the opcode at the program counter, step past it,
    /// execute it. A fetch past the end of memory faults.
    pub open spec fn cycle(self, keys: Seq<bool>, random: u8) -> Result<Step, Chip8Error> {
        if !self.can_fetch() {
            Err(Chip8Error::OutOfBoundsMemoryAccess)
        } else {
            self.advanced().execute(self.current(), keys, random)
        }
    }

    /// As many cycles as `randoms` has bytes, cycle `k` using `randoms[k]`.
    /// A fault stops the run where it stands.
    pub open spec fn run(self, keys: Seq<bool>, randoms: Seq<u8>) -> Run
        decreases randoms.len(),
    {
        if randoms.len() == 0 {
            Run { machine: self, events: Seq::empty(), fault: None }
        } else {
            let before = self.run(keys, randoms.drop_last());
            if before.fault.is_some() {
                before
            } else {
                match before.machine.cycle(keys, randoms.last()) {
                    Ok(step) => Run {
                        machine: step.machine,
                        events: match step.event {
                            Some(e) => before.events.push(e),
                            None => before.events,
                        },
                        fault: None,
                    },
                    Err(e) => Run { fault: Some(e), ..before },
                }
            }
        }
    }

    /// Whether every byte of `randoms` that a random instruction of the run
    /// reads is one that `may` allows. The bytes dealt to other cycles are
    /// not looked at.
    pub open spec fn draws_within(
        self,
        keys: Seq<bool>,
        randoms: Seq<u8>,
        may: spec_fn(u8) -> bool,
    ) -> bool
        decreases randoms.len(),
    {
        if randoms.len() == 0 {
            true
        } else {
            let before = self.run(keys, randoms.drop_last());
            &&& self.draws_within(keys, randoms.drop_last(), may)
            &&& before.fault.is_none() && before.machine.wants_random() ==> may(randoms.last())
        }
    }

    /// Cycles in one tick.
    pub open spec fn cycles_per_tick(self) -> nat {
        (self.clock_speed / FPS) as nat
    }

    /// Both timers one lower, unless they are at zero.
    pub open spec fn count_down(self) -> Machine {
        Machine {
            delay_timer: if self.delay_timer > 0 {
                (self.delay_timer - 1) as u8
            } else {
                0
            },
            sound_timer: if self.sound_timer > 0 {
                (self.sound_timer - 1) as u8
            } else {
                0
            },
            ..self
        }
    }

    /// Whether counting down now makes the sound timer reach zero.
    pub open spec fn beeps(self) -> bool {
        self.sound_timer == 1
    }

    /// One tick: run the cycles, then count the timers down once. A beep is
    /// the last event of the tick in which the sound timer reaches zero. A
    /// run that faults leaves the timers alone.
    pub open spec fn tick(self, keys: Seq<bool>, randoms: Seq<u8>) -> Run {
        let run = self.run(keys, randoms);
        if run.fault.is_some() {
            run
        } else {
            Run {
                machine: run.machine.count_down(),
                events: if run.machine.beeps() {
                    run.events.push(Event::Beep)
                } else {
                    run.events
                },
                fault: None,
            }
        }
    }
}

/// Running one more cycle: the run over `randoms.push(r)` is the run over
/// `randoms` followed by a cycle that uses `r`.
pub proof fn lemma_run_push(m: Machine, keys: Seq<bool>, randoms: Seq<u8>, r: u8)
    ensures
        m.run(keys, randoms.push(r)) == {
            let before = m.run(keys, randoms);
            if before.fault.is_some() {
                before
            } else {
                match before.machine.cycle(keys, r) {
                    Ok(step) => Run {
                        machine: step.machine,
                        events: match step.event {
                            Some(e) => before.events.push(e),
                            None => before.events,
                        },
                        fault: None,
                    },
                    Err(e) => Run { fault: Some(e), ..before },
                }
            }
        },
{
    assert(randoms.push(r).drop_last() =~= randoms);
}

/// One more cycle reads its random byte only if it executes a random
/// instruction.
pub proof fn lemma_draws_push(
    m: Machine,
    keys: Seq<bool>,
    randoms: Seq<u8>,
    r: u8,
    may: spec_fn(u8) -> bool,
)
    ensures
        m.draws_within(keys, randoms.push(r), may) == {
            let before = m.run(keys, randoms);
            &&& m.draws_within(keys, randoms, may)
            &&& before.fault.is_none() && before.machine.wants_random() ==> may(r)
        },
{
    assert(randoms.push(r).drop_last() =~= randoms);
}

/// Once a run has faulted, no further random byte is read.
pub proof fn lemma_draws_after_fault(
    m: Machine,
    keys: Seq<bool>,
    randoms: Seq<u8>,
    more: Seq<u8>,
    may: spec_fn(u8) -> bool,
)
    requires
        m.run(keys, randoms).fault.is_some(),
    ensures
        m.draws_within(keys, randoms + more, may) == m.draws_within(keys, randoms, may),
    decreases more.len(),
{
    if more.len() == 0 {
        assert(randoms + more =~= randoms);
    } else {
        lemma_draws_after_fault(m, keys, randoms, more.drop_last(), may);
        lemma_run_after_fault(m, keys, randoms, more.drop_last());
        assert((randoms + more).drop_last() =~= randoms + more.drop_last());
    }
}

/// Once a run has faulted, further random bytes change nothing.
pub proof fn lemma_run_after_fault(m: Machine, keys: Seq<bool>, randoms: Seq<u8>, more: Seq<u8>)
    requires
        m.run(keys, randoms).fault.is_some(),
    ensures
        m.run(keys, randoms + more) == m.run(keys, randoms),
    decreases more.len(),
{
    if more.len() == 0 {
        assert(randoms + more =~= randoms);
    } else {
        lemma_run_after_fault(m, keys, randoms, more.drop_last());
        assert((randoms + more).drop_last() =~= randoms + more.drop_last());
    }
}

} // verus!

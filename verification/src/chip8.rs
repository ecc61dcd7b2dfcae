//! The interpreter: the executable machine and the proof that it follows
//! the transition functions of the model.

use vstd::prelude::*;
use crate::arith::{add_carry, shift_left, shift_right, sub_no_borrow};
use crate::display::{blank, blit};
use crate::font::GLYPH_STRIDE;
use crate::machine::{
    lemma_draws_after_fault, lemma_draws_push, lemma_first_pressed, lemma_run_after_fault,
    lemma_run_push, opcode_at, run_outcome, step_outcome,
    Chip8Error, Event, KeyWait, Machine, Quirks, Run, CLOCK_SPEED, FLAG, FPS, LAST_FETCH,
    MAX_PROGRAM_SIZE, MEMORY_SIZE, PROGRAM_START, STACK_DEPTH,
};
use crate::memory::{
    copy_program, fresh_memory, load_registers, read_opcode, scan_keys, store_registers,
    write_bcd,
};
use crate::opcode::{decode, decode_spec, us, us8, Instruction};

verus! {

/// The full data structure of the Chip8 - contains all state.
pub struct Chip8 {
    memory: [u8; 4096],
    reg: [u8; 16],
    i: u16,
    pc: u16,
    stack: Vec<u16>,
    gfx: [bool; 2048],
    delay_timer: u8,
    sound_timer: u8,
    wait: KeyWait,
    quirks: Quirks,
    clock_speed: usize,
}

impl View for Chip8 {
    type V = Machine;

    closed spec fn view(&self) -> Machine {
        Machine {
            memory: self.memory@,
            reg: self.reg@,
            i: self.i,
            pc: self.pc,
            stack: self.stack@,
            gfx: self.gfx@,
            delay_timer: self.delay_timer,
            sound_timer: self.sound_timer,
            wait: self.wait,
            quirks: self.quirks,
            clock_speed: self.clock_speed,
        }
    }
}

impl Chip8 {
    /// The machine's invariant: see `Machine::wf`. The constructors
    /// establish it and every method keeps it; no method needs it to be
    /// called.
    pub open spec fn wf(&self) -> bool {
        self@.wf()
    }

    /// A machine with the default clock speed and the canonical quirks.
    pub fn new() -> (vm: Chip8)
        ensures
            vm@ == Machine::initial(CLOCK_SPEED, Quirks::canonical()),
            vm.wf(),
    {
        Chip8::with_config(CLOCK_SPEED, Quirks::canonical())
    }

    /// A machine that runs `clock_speed / FPS` cycles per tick and behaves as
    /// `quirks` says.
    pub fn with_config(clock_speed: usize, quirks: Quirks) -> (vm: Chip8)
        ensures
            vm@ == Machine::initial(clock_speed, quirks),
            vm.wf(),
    {
        let vm = Chip8 {
            memory: fresh_memory(),
            reg: [0; 16],
            i: 0,
            pc: PROGRAM_START,
            stack: Vec::with_capacity(STACK_DEPTH),
            gfx: [false; 2048],
            delay_timer: 0,
            sound_timer: 0,
            wait: KeyWait::Running,
            quirks,
            clock_speed,
        };
        vm
    }
}

impl Chip8 {
    fn set_reg(&mut self, x: usize, v: u8)
        requires
            x < 16,
        ensures
            final(self)@ == old(self)@.set_reg(x, v),
    {
        self.reg[x] = v;
    }

    fn set_reg_flag(&mut self, x: usize, v: u8, flag: bool)
        requires
            x < 16,
        ensures
            final(self)@ == old(self)@.set_reg_flag(x, v, flag),
    {
        self.reg[x] = v;
        self.reg[FLAG] = if flag {
            1
        } else {
            0
        };
    }

    fn skip_if(&mut self, skip: bool)
        requires
            old(self)@.pc <= 4096,
        ensures
            final(self)@ == old(self)@.skip_if(skip),
    {
        if skip {
            self.pc = self.pc + 2;
        }
    }

    fn shift_source(&self, x: usize, y: usize) -> (v: u8)
        requires
            x < 16,
            y < 16,
        ensures
            v == self@.shift_source(x, y),
    {
        if self.quirks.shift_uses_vy {
            self.reg[y]
        } else {
            self.reg[x]
        }
    }

    fn bump_index(&mut self, x: usize)
        requires
            old(self)@.i + x + 1 <= MEMORY_SIZE,
        ensures
            final(self)@ == (Machine { i: old(self)@.index_after_bulk(x), ..old(self)@ }),
    {
        if self.quirks.increment_index {
            self.i = self.i + x as u16 + 1;
        }
    }

    /// The register-to-register group.
    fn execute_alu(&mut self, ins: Instruction)
        requires
            ins.wf(),
        ensures
            final(self)@ == old(self)@.execute_alu(ins),
    {
        match ins {
            Instruction::Move { x, y } => {
                let v: u8 = self.reg[y];
                self.set_reg(x, v);
            },
            Instruction::Or { x, y } => {
                let v: u8 = self.reg[x] | self.reg[y];
                self.set_reg(x, v);
            },
            Instruction::And { x, y } => {
                let v: u8 = self.reg[x] & self.reg[y];
                self.set_reg(x, v);
            },
            Instruction::Xor { x, y } => {
                let v: u8 = self.reg[x] ^ self.reg[y];
                self.set_reg(x, v);
            },
            Instruction::Add { x, y } => {
                let (v, carry) = add_carry(self.reg[x], self.reg[y]);
                self.set_reg_flag(x, v, carry);
            },
            Instruction::Sub { x, y } => {
                let (v, no_borrow) = sub_no_borrow(self.reg[x], self.reg[y]);
                self.set_reg_flag(x, v, no_borrow);
            },
            Instruction::ShiftRight { x, y } => {
                let (v, out) = shift_right(self.shift_source(x, y));
                self.set_reg_flag(x, v, out);
            },
            Instruction::SubFrom { x, y } => {
                let (v, no_borrow) = sub_no_borrow(self.reg[y], self.reg[x]);
                self.set_reg_flag(x, v, no_borrow);
            },
            Instruction::ShiftLeft { x, y } => {
                let (v, out) = shift_left(self.shift_source(x, y));
                self.set_reg_flag(x, v, out);
            },
            _ => {},
        }
    }

    /// Sprite draw.
    fn execute_draw(&mut self, x: usize, y: usize, n: usize) -> (r: Result<(), Chip8Error>)
        requires
            x < 16,
            y < 16,
            n < 16,
        ensures
            match old(self)@.execute_draw(x, y, n) {
                Ok(m) => r.is_ok() && final(self)@ == m,
                Err(e) => r == Err::<(), Chip8Error>(e) && final(self)@ == old(self)@,
            },
    {
        if n > 0 && us(self.i) + n > MEMORY_SIZE {
            return Err(Chip8Error::OutOfBoundsMemoryAccess);
        }
        self.reg[FLAG] = 0;
        let bx: u8 = self.reg[x];
        let by: u8 = self.reg[y];
        let hit = blit(
            &mut self.gfx,
            &self.memory,
            us(self.i),
            n,
            bx,
            by,
            self.quirks.wrap_sprites,
        );
        if hit {
            self.reg[FLAG] = 1;
        }
        Ok(())
    }

    /// Return, call, draw and the I-relative memory accesses.
    fn execute_checked(&mut self, ins: Instruction) -> (r: Result<(), Chip8Error>)
        requires
            ins.wf(),
        ensures
            match old(self)@.execute_checked(ins) {
                Ok(m) => r.is_ok() && final(self)@ == m,
                Err(e) => r == Err::<(), Chip8Error>(e) && final(self)@ == old(self)@,
            },
    {
        match ins {
            Instruction::Return => {
                match self.stack.pop() {
                    Some(target) => {
                        self.pc = target;
                        Ok(())
                    },
                    None => Err(Chip8Error::StackUnderflow),
                }
            },
            Instruction::Call { nnn } => {
                if self.stack.len() >= STACK_DEPTH {
                    return Err(Chip8Error::StackOverflow);
                }
                self.stack.push(self.pc);
                self.pc = nnn;
                Ok(())
            },
            Instruction::Draw { x, y, n } => self.execute_draw(x, y, n),
            Instruction::Bcd { x } => {
                if us(self.i) + 3 > MEMORY_SIZE {
                    return Err(Chip8Error::OutOfBoundsMemoryAccess);
                }
                write_bcd(&mut self.memory, us(self.i), self.reg[x]);
                Ok(())
            },
            Instruction::Store { x } => {
                if us(self.i) + x + 1 > MEMORY_SIZE {
                    return Err(Chip8Error::OutOfBoundsMemoryAccess);
                }
                store_registers(&mut self.memory, &self.reg, us(self.i), x);
                self.bump_index(x);
                Ok(())
            },
            Instruction::Load { x } => {
                if us(self.i) + x + 1 > MEMORY_SIZE {
                    return Err(Chip8Error::OutOfBoundsMemoryAccess);
                }
                load_registers(&mut self.reg, &self.memory, us(self.i), x);
                self.bump_index(x);
                Ok(())
            },
            _ => Ok(()),
        }
    }

    /// Halt until key press; then store in VX.
    fn execute_wait(&mut self, x: usize, keys: &[bool; 16])
        requires
            x < 16,
            old(self)@.pc >= 2,
        ensures
            final(self)@ == old(self)@.execute_wait(x, keys@),
    {
        match scan_keys(keys) {
            Some(k) => {
                proof {
                    lemma_first_pressed(keys@);
                }
                self.set_reg(x, k as u8);
                self.wait = KeyWait::Running;
            },
            None => {
                // Stand on this instruction again until a key is pressed.
                self.pc = self.pc - 2;
                self.wait = KeyWait::Waiting(x);
            },
        }
    }

    /// Jumps, skips, loads, timers and keys.
    fn execute_plain(&mut self, ins: Instruction, keys: &[bool; 16], random: u8)
        requires
            ins.wf(),
            2 <= old(self)@.pc <= 4096,
        ensures
            final(self)@ == old(self)@.execute_plain(ins, keys@, random),
    {
        match ins {
            Instruction::ClearScreen => {
                self.gfx = [false; 2048];
            },
            Instruction::Jump { nnn } => {
                self.pc = nnn;
            },
            Instruction::SkipEqImm { x, nn } => {
                let skip = self.reg[x] == nn;
                self.skip_if(skip);
            },
            Instruction::SkipNeImm { x, nn } => {
                let skip = self.reg[x] != nn;
                self.skip_if(skip);
            },
            Instruction::SkipEqReg { x, y } => {
                let skip = self.reg[x] == self.reg[y];
                self.skip_if(skip);
            },
            Instruction::SkipNeReg { x, y } => {
                let skip = self.reg[x] != self.reg[y];
                self.skip_if(skip);
            },
            Instruction::LoadImm { x, nn } => {
                self.set_reg(x, nn);
            },
            Instruction::AddImm { x, nn } => {
                let (v, _) = add_carry(self.reg[x], nn);
                self.set_reg(x, v);
            },
            Instruction::LoadIndex { nnn } => {
                self.i = nnn;
            },
            Instruction::JumpOffset { nnn } => {
                self.pc = nnn + self.reg[0] as u16;
            },
            Instruction::Random { x, nn } => {
                self.set_reg(x, random & nn);
            },
            Instruction::SkipKeyDown { x } => {
                let k: usize = us8(self.reg[x]);
                let skip = k < 16 && keys[k];
                self.skip_if(skip);
            },
            Instruction::SkipKeyUp { x } => {
                let k: usize = us8(self.reg[x]);
                let skip = !(k < 16 && keys[k]);
                self.skip_if(skip);
            },
            Instruction::ReadDelay { x } => {
                let v: u8 = self.delay_timer;
                self.set_reg(x, v);
            },
            Instruction::WaitKey { x } => {
                self.execute_wait(x, keys);
            },
            Instruction::SetDelay { x } => {
                self.delay_timer = self.reg[x];
            },
            Instruction::SetSound { x } => {
                self.sound_timer = self.reg[x];
            },
            Instruction::AddIndex { x } => {
                let sum: u32 = (self.i as u32 + self.reg[x] as u32) % 0x10000;
                self.i = sum as u16;
            },
            Instruction::Glyph { x } => {
                self.i = self.reg[x] as u16 * GLYPH_STRIDE;
            },
            _ => {},
        }
    }

    /// Executes the opcode that `advance` has just fetched. On a fault the
    /// machine is left as it was.
    pub fn execute_opcode(&mut self, code: u16, keys: &[bool; 16], random: u8) -> (r: Result<
        Option<Event>,
        Chip8Error,
    >)
        requires
            old(self)@.fetched(code),
        ensures
            old(self).wf() ==> final(self).wf(),
            step_outcome(
                old(self)@.execute(decode_spec(code), keys@, random),
                old(self)@,
                final(self)@,
                r,
            ),
    {
        let ins = decode(code);
        match ins {
            Instruction::Unknown { code } => Ok(Some(Event::UnknownOpcode(code))),
            Instruction::Move { .. }
            | Instruction::Or { .. }
            | Instruction::And { .. }
            | Instruction::Xor { .. }
            | Instruction::Add { .. }
            | Instruction::Sub { .. }
            | Instruction::ShiftRight { .. }
            | Instruction::SubFrom { .. }
            | Instruction::ShiftLeft { .. } => {
                self.execute_alu(ins);
                Ok(None)
            },
            Instruction::Return
            | Instruction::Call { .. }
            | Instruction::Draw { .. }
            | Instruction::Bcd { .. }
            | Instruction::Store { .. }
            | Instruction::Load { .. } => {
                match self.execute_checked(ins) {
                    Ok(()) => Ok(None),
                    Err(e) => Err(e),
                }
            },
            _ => {
                self.execute_plain(ins, keys, random);
                Ok(None)
            },
        }
    }
}

impl Chip8 {
    /// Returns the current opcode and advances the program counter by 2.
    /// Faults, and changes nothing, if the opcode would reach past the end
    /// of memory.
    pub fn advance(&mut self) -> (r: Result<u16, Chip8Error>)
        ensures
            old(self).wf() ==> final(self).wf(),
            old(self)@.can_fetch() ==> r == Ok::<u16, Chip8Error>(
                opcode_at(old(self)@.memory, old(self)@.pc as int),
            ) && final(self)@ == old(self)@.advanced(),
            !old(self)@.can_fetch() ==> r == Err::<u16, Chip8Error>(
                Chip8Error::OutOfBoundsMemoryAccess,
            ) && final(self)@ == old(self)@,
    {
        if self.pc > LAST_FETCH {
            return Err(Chip8Error::OutOfBoundsMemoryAccess);
        }
        let code = read_opcode(&self.memory, us(self.pc));
        self.pc = self.pc + 2;
        self.wait = KeyWait::Running;
        Ok(code)
    }

    /// Advance state of the emulator by 1 cycle: fetch, step past, execute.
    /// `random` is the byte a random instruction uses. A fault leaves the
    /// machine as it was.
    pub fn cycle(&mut self, keys: &[bool; 16], random: u8) -> (r: Result<
        Option<Event>,
        Chip8Error,
    >)
        ensures
            old(self).wf() ==> final(self).wf(),
            step_outcome(old(self)@.cycle(keys@, random), old(self)@, final(self)@, r),
    {
        let pc: u16 = self.pc;
        let wait = self.wait;
        let code = match self.advance() {
            Ok(code) => code,
            Err(e) => {
                return Err(e);
            },
        };
        match self.execute_opcode(code, keys, random) {
            Ok(event) => Ok(event),
            Err(e) => {
                self.pc = pc;
                self.wait = wait;
                Err(e)
            },
        }
    }

    /// Whether the next cycle will execute a random instruction.
    pub fn wants_random(&self) -> (wants: bool)
        ensures
            wants == self@.wants_random(),
    {
        if self.pc > LAST_FETCH {
            return false;
        }
        let ins = decode(read_opcode(&self.memory, us(self.pc)));
        match ins {
            Instruction::Random { .. } => true,
            _ => false,
        }
    }

    /// Advance state of the emulator by 1 'tick': run `clock_speed / FPS`
    /// cycles, then count both timers down once. This should therefore be
    /// called at 60Hz. `rng` is called for a byte before each cycle that
    /// executes a random instruction, and at no other time.
    ///
    /// Returns the events raised, in order; a beep comes last. A fault ends
    /// the tick at once: the faulting cycle has no effect, and the timers
    /// are not counted down.
    pub fn tick<F: Fn() -> u8>(&mut self, keys: &[bool; 16], rng: F) -> (r: Result<
        Vec<Event>,
        Chip8Error,
    >)
        requires
            rng.requires(()),
        ensures
            old(self).wf() ==> final(self).wf(),
            exists|randoms: Seq<u8>|
                {
                    &&& randoms.len() == old(self)@.cycles_per_tick()
                    &&& old(self)@.draws_within(keys@, randoms, |b: u8| rng.ensures((), b))
                    &&& run_outcome(
                        #[trigger] old(self)@.tick(keys@, randoms),
                        final(self)@,
                        match r {
                            Ok(events) => Ok(events@),
                            Err(e) => Err(e),
                        },
                    )
                },
    {
        let cycles: usize = self.clock_speed / FPS;
        let mut events: Vec<Event> = Vec::new();
        let ghost may = |b: u8| rng.ensures((), b);
        let ghost mut randoms: Seq<u8> = Seq::empty();
        let mut k: usize = 0;
        while k < cycles
            invariant
                old(self).wf() ==> self.wf(),
                rng.requires(()),
                may == (|b: u8| rng.ensures((), b)),
                k <= cycles,
                cycles == old(self)@.cycles_per_tick(),
                randoms.len() == k,
                old(self)@.draws_within(keys@, randoms, may),
                old(self)@.run(keys@, randoms) == (Run {
                    machine: self@,
                    events: events@,
                    fault: None,
                }),
            decreases cycles - k,
        {
            let random: u8 = if self.wants_random() {
                rng()
            } else {
                0
            };
            proof {
                lemma_draws_push(old(self)@, keys@, randoms, random, may);
            }
            let step = self.run_one(keys, random, &mut events, Ghost(old(self)@), Ghost(randoms));
            proof {
                randoms = randoms.push(random);
            }
            if let Err(e) = step {
                proof {
                    let rest = Seq::new((cycles - k - 1) as nat, |j: int| 0u8);
                    lemma_run_after_fault(old(self)@, keys@, randoms, rest);
                    lemma_draws_after_fault(old(self)@, keys@, randoms, rest, may);
                    assert(run_outcome(
                        old(self)@.tick(keys@, randoms + rest),
                        self@,
                        Err::<Seq<Event>, Chip8Error>(e),
                    ));
                }
                return Err(e);
            }
            k += 1;
        }
        self.count_down(&mut events);
        proof {
            assert(run_outcome(
                old(self)@.tick(keys@, randoms),
                self@,
                Ok::<Seq<Event>, Chip8Error>(events@),
            ));
        }
        Ok(events)
    }

    /// Runs one more cycle of a run that began at `start` and has used the
    /// random bytes `used`, and appends the event it raises to `events`.
    fn run_one(
        &mut self,
        keys: &[bool; 16],
        random: u8,
        events: &mut Vec<Event>,
        Ghost(start): Ghost<Machine>,
        Ghost(used): Ghost<Seq<u8>>,
    ) -> (r: Result<(), Chip8Error>)
        requires
            start.run(keys@, used) == (Run {
                machine: old(self)@,
                events: old(events)@,
                fault: None,
            }),
        ensures
            old(self).wf() ==> final(self).wf(),
            start.run(keys@, used.push(random)) == (Run {
                machine: final(self)@,
                events: final(events)@,
                fault: match r {
                    Ok(_) => None,
                    Err(e) => Some(e),
                },
            }),
    {
        proof {
            lemma_run_push(start, keys@, used, random);
        }
        match self.cycle(keys, random) {
            Ok(event) => {
                if let Some(e) = event {
                    events.push(e);
                }
                Ok(())
            },
            Err(e) => Err(e),
        }
    }

    /// Counts both timers down by one, unless they are at zero, and adds a
    /// beep to `events` if the sound timer thereby reaches zero.
    fn count_down(&mut self, events: &mut Vec<Event>)
        ensures
            old(self).wf() ==> final(self).wf(),
            final(self)@ == old(self)@.count_down(),
            final(events)@ == if old(self)@.beeps() {
                old(events)@.push(Event::Beep)
            } else {
                old(events)@
            },
    {
        if self.delay_timer > 0 {
            self.delay_timer -= 1;
        }
        if self.sound_timer > 0 {
            if self.sound_timer == 1 {
                events.push(Event::Beep);
            }
            self.sound_timer -= 1;
        }
    }

    /// Loads the specified game data into the emulator, ready for execution.
    /// An image that does not fit in memory is refused and nothing changes.
    pub fn load_game(&mut self, data: Vec<u8>) -> (r: Result<(), Chip8Error>)
        ensures
            old(self).wf() ==> final(self).wf(),
            Machine::fits(data@.len()) ==> r.is_ok() && final(self)@ == old(self)@.load(data@),
            !Machine::fits(data@.len()) ==> r == Err::<(), Chip8Error>(
                Chip8Error::OversizedCartridge,
            ) && final(self)@ == old(self)@,
    {
        if data.len() > MAX_PROGRAM_SIZE {
            return Err(Chip8Error::OversizedCartridge);
        }
        copy_program(&mut self.memory, &data);
        self.wait = KeyWait::Running;
        Ok(())
    }

    /// The framebuffer, row by row, 64 pixels to the row.
    pub fn pixels(&self) -> (px: &[bool])
        ensures
            px@ == self@.gfx,
            px@.len() == 2048,
    {
        self.gfx.as_slice()
    }

    /// The memory.
    pub fn memory(&self) -> (mem: &[u8; 4096])
        ensures
            mem@ == self@.memory,
    {
        &self.memory
    }

    /// The registers V0 to VF.
    pub fn registers(&self) -> (reg: &[u8; 16])
        ensures
            reg@ == self@.reg,
    {
        &self.reg
    }

    /// The index register I.
    pub fn index(&self) -> (i: u16)
        ensures
            i == self@.i,
    {
        self.i
    }

    /// The program counter.
    pub fn pc(&self) -> (pc: u16)
        ensures
            pc == self@.pc,
    {
        self.pc
    }

    /// The return addresses of the calls outstanding, oldest first.
    pub fn stack(&self) -> (stack: &[u16])
        ensures
            stack@ == self@.stack,
    {
        self.stack.as_slice()
    }

    /// The delay timer.
    pub fn delay_timer(&self) -> (t: u8)
        ensures
            t == self@.delay_timer,
    {
        self.delay_timer
    }

    /// The sound timer.
    pub fn sound_timer(&self) -> (t: u8)
        ensures
            t == self@.sound_timer,
    {
        self.sound_timer
    }

    /// Whether the machine is running or waiting for a key.
    pub fn key_wait(&self) -> (wait: KeyWait)
        ensures
            wait == self@.wait,
    {
        self.wait
    }

    /// The quirks the machine was built with.
    pub fn quirks(&self) -> (q: Quirks)
        ensures
            q == self@.quirks,
    {
        self.quirks
    }

    /// The instruction rate the machine was built with.
    pub fn clock_speed(&self) -> (hz: usize)
        ensures
            hz == self@.clock_speed,
    {
        self.clock_speed
    }
}

} // verus!

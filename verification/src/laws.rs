//! Laws of the machine, proved of the transition functions that the
//! interpreter is proved to follow.

use vstd::prelude::*;
use crate::display::{blit_spec, collides, sprite_covers};
use crate::machine::{
    lemma_first_pressed, opcode_at, Chip8Error, Event, KeyWait, Machine, Run, Step, FLAG,
};
use crate::opcode::{decode_spec, op_group, op_n, op_nn, op_x, op_y, Instruction};

verus! {

/// No instruction leaves the machine ill-formed: whatever opcode was
/// fetched, executing it keeps the sizes, the stack depth and the meaning of
/// the wait state.
pub proof fn law_execute_keeps_wf(m: Machine, code: u16, keys: Seq<bool>, random: u8)
    requires
        m.wf(),
        m.fetched(code),
    ensures
        m.execute(decode_spec(code), keys, random) matches Ok(step) ==> step.machine.wf(),
{
}

/// A cycle leads from a well-formed machine to a well-formed machine.
pub proof fn law_cycle_keeps_wf(m: Machine, keys: Seq<bool>, random: u8)
    requires
        m.wf(),
    ensures
        m.cycle(keys, random) matches Ok(step) ==> step.machine.wf(),
{
    if m.can_fetch() {
        law_execute_keeps_wf(m.advanced(), opcode_at(m.memory, m.pc as int), keys, random);
    }
}

/// A run, and a tick, lead from a well-formed machine to a well-formed
/// machine, whether or not they end in a fault.
pub proof fn law_tick_keeps_wf(m: Machine, keys: Seq<bool>, randoms: Seq<u8>)
    requires
        m.wf(),
    ensures
        m.run(keys, randoms).machine.wf(),
        m.tick(keys, randoms).machine.wf(),
    decreases randoms.len(),
{
    if randoms.len() > 0 {
        law_tick_keeps_wf(m, keys, randoms.drop_last());
        law_cycle_keeps_wf(m.run(keys, randoms.drop_last()).machine, keys, randoms.last());
    }
}

/// Only a random instruction looks at the random byte: for every other
/// instruction the cycle is the same whatever the byte.
pub proof fn law_random_byte_matters_to_random_only(
    m: Machine,
    keys: Seq<bool>,
    random: u8,
    other: u8,
)
    requires
        !(m.current() is Random),
    ensures
        m.cycle(keys, random) == m.cycle(keys, other),
{
}

/// `CXNN` sets VX to the random byte AND `nn`, so to no bit outside `nn`.
pub proof fn law_random_is_masked(m: Machine, code: u16, keys: Seq<bool>, random: u8)
    requires
        m.wf(),
        op_group(code) == 0xC,
    ensures
        ({
            let x = op_x(code) as int;
            let nn = op_nn(code) as u8;
            &&& m.execute(decode_spec(code), keys, random) matches Ok(step)
            &&& step.machine.reg[x] == random & nn
            &&& step.machine.reg[x] & !nn == 0
            &&& step.machine.reg[x] <= nn
        }),
{
    let nn = op_nn(code) as u8;
    assert((random & nn) & !nn == 0 && random & nn <= nn) by (bit_vector);
}

/// `8XY4` leaves the carry in VF: 1 if VX + VY exceeds 255, else 0. Unless X
/// names VF, VX holds the sum modulo 256.
pub proof fn law_add_sets_carry(m: Machine, code: u16, keys: Seq<bool>, random: u8)
    requires
        m.wf(),
        op_group(code) == 0x8,
        op_n(code) == 0x4,
    ensures
        ({
            let x = op_x(code) as int;
            let y = op_y(code) as int;
            &&& m.execute(decode_spec(code), keys, random) matches Ok(step)
            &&& step.event.is_none()
            &&& step.machine.reg[FLAG as int] == (if m.reg[x] + m.reg[y] > 255 {
                1u8
            } else {
                0u8
            })
            &&& x != FLAG ==> step.machine.reg[x] == (m.reg[x] + m.reg[y]) % 256
        }),
{
}

/// `8XY5` leaves NOT-borrow in VF: 1 if VX >= VY, else 0. Unless X names
/// VF, VX holds the difference VX - VY modulo 256.
pub proof fn law_sub_sets_not_borrow(m: Machine, code: u16, keys: Seq<bool>, random: u8)
    requires
        m.wf(),
        op_group(code) == 0x8,
        op_n(code) == 0x5,
    ensures
        ({
            let x = op_x(code) as int;
            let y = op_y(code) as int;
            &&& m.execute(decode_spec(code), keys, random) matches Ok(step)
            &&& step.event.is_none()
            &&& step.machine.reg[FLAG as int] == (if m.reg[x] >= m.reg[y] {
                1u8
            } else {
                0u8
            })
            &&& x != FLAG ==> step.machine.reg[x] == (m.reg[x] - m.reg[y]) % 256
        }),
{
}

/// `8XY7` leaves NOT-borrow in VF: 1 if VY >= VX, else 0. Unless X names
/// VF, VX holds the difference VY - VX modulo 256.
pub proof fn law_sub_from_sets_not_borrow(m: Machine, code: u16, keys: Seq<bool>, random: u8)
    requires
        m.wf(),
        op_group(code) == 0x8,
        op_n(code) == 0x7,
    ensures
        ({
            let x = op_x(code) as int;
            let y = op_y(code) as int;
            &&& m.execute(decode_spec(code), keys, random) matches Ok(step)
            &&& step.event.is_none()
            &&& step.machine.reg[FLAG as int] == (if m.reg[y] >= m.reg[x] {
                1u8
            } else {
                0u8
            })
            &&& x != FLAG ==> step.machine.reg[x] == (m.reg[y] - m.reg[x]) % 256
        }),
{
}

/// `8XY6` and `8XYE` leave in VF the bit that the shift pushed out: the
/// lowest bit of the value shifted right, the highest of the value shifted
/// left. Unless X names VF, VX holds the value shifted by one place.
pub proof fn law_shift_sets_flag(m: Machine, code: u16, keys: Seq<bool>, random: u8)
    requires
        m.wf(),
        op_group(code) == 0x8,
        op_n(code) == 0x6 || op_n(code) == 0xE,
    ensures
        ({
            let x = op_x(code) as int;
            let v = m.shift_source(op_x(code) as usize, op_y(code) as usize);
            &&& m.execute(decode_spec(code), keys, random) matches Ok(step)
            &&& op_n(code) == 0x6 ==> step.machine.reg[FLAG as int] == v % 2 && (x != FLAG
                ==> step.machine.reg[x] == v / 2)
            &&& op_n(code) == 0xE ==> step.machine.reg[FLAG as int] == v / 128 && (x != FLAG
                ==> step.machine.reg[x] == (v * 2) % 256)
        }),
{
}

/// `7XNN` adds modulo 256 and raises no flag: every register but VX, VF
/// among them, keeps its value.
pub proof fn law_add_immediate_spares_flag(m: Machine, code: u16, keys: Seq<bool>, random: u8)
    requires
        m.wf(),
        op_group(code) == 0x7,
    ensures
        ({
            let x = op_x(code) as int;
            &&& m.execute(decode_spec(code), keys, random) matches Ok(step)
            &&& step.machine.reg[x] == (m.reg[x] + op_nn(code)) % 256
            &&& forall|k: int| 0 <= k < 16 && k != x ==> step.machine.reg[k] == m.reg[k]
        }),
{
}

/// The framebuffer changes only by a clear and by a draw.
pub proof fn law_framebuffer_changes_by_clear_and_draw(
    m: Machine,
    code: u16,
    keys: Seq<bool>,
    random: u8,
)
    requires
        m.wf(),
        op_group(code) != 0xD,
        !(op_group(code) == 0x0 && op_nn(code) == 0xE0),
    ensures
        m.execute(decode_spec(code), keys, random) matches Ok(step) ==> step.machine.gfx == m.gfx,
{
}

/// No cycle counts a timer down: a cycle changes the delay timer only by
/// `FX15` and the sound timer only by `FX18`.
pub proof fn law_cycles_leave_timers(m: Machine, keys: Seq<bool>, random: u8)
    requires
        m.wf(),
    ensures
        m.cycle(keys, random) matches Ok(step) ==> {
            &&& !(m.current() is SetDelay) ==> step.machine.delay_timer == m.delay_timer
            &&& !(m.current() is SetSound) ==> step.machine.sound_timer == m.sound_timer
        },
{
}

/// Whether the instruction sends the program counter to an odd address.
pub open spec fn jumps_to_odd(m: Machine, ins: Instruction) -> bool {
    match ins {
        Instruction::Jump { nnn } => nnn % 2 == 1,
        Instruction::Call { nnn } => nnn % 2 == 1,
        Instruction::JumpOffset { nnn } => (nnn + m.reg[0]) % 2 == 1,
        _ => false,
    }
}

/// The program counter stays even, and so do the return addresses on the
/// stack, as long as no jump or call names an odd address.
pub proof fn law_program_counter_stays_even(m: Machine, keys: Seq<bool>, random: u8)
    requires
        m.wf(),
        m.pc % 2 == 0,
        forall|k: int| 0 <= k < m.stack.len() ==> m.stack[k] % 2 == 0,
        !jumps_to_odd(m, m.current()),
    ensures
        m.cycle(keys, random) matches Ok(step) ==> {
            &&& step.machine.pc % 2 == 0
            &&& forall|k: int| 0 <= k < step.machine.stack.len() ==> step.machine.stack[k] % 2 == 0
        },
{
}

/// The clear-screen opcode always yields a framebuffer of 2048 pixels, all
/// off, and touches nothing else.
pub proof fn law_clear_screen(m: Machine, code: u16, keys: Seq<bool>, random: u8)
    requires
        m.wf(),
        op_group(code) == 0x0,
        op_nn(code) == 0xE0,
    ensures
        ({
            &&& m.execute(decode_spec(code), keys, random) matches Ok(step)
            &&& step.machine.gfx.len() == 2048
            &&& forall|p: int| 0 <= p < 2048 ==> !step.machine.gfx[p]
            &&& step.machine == Machine { gfx: step.machine.gfx, ..m }
        }),
{
}

/// A draw of height 0 never faults, never changes the framebuffer and always
/// resets VF to 0.
pub proof fn law_draw_nothing(m: Machine, code: u16, keys: Seq<bool>, random: u8)
    requires
        m.wf(),
        op_group(code) == 0xD,
        op_n(code) == 0,
    ensures
        ({
            &&& m.execute(decode_spec(code), keys, random) matches Ok(step)
            &&& step.machine.gfx == m.gfx
            &&& step.machine.reg[FLAG as int] == 0
        }),
{
}

/// XOR-ing the same sprite onto the same place twice restores the
/// framebuffer, and the second time reports a collision exactly if the
/// sprite has a set bit on a pixel that was off to begin with.
pub proof fn law_blit_twice(gfx: Seq<bool>, rows: Seq<u8>, bx: int, by: int, wrap: bool)
    ensures
        blit_spec(blit_spec(gfx, rows, bx, by, wrap), rows, bx, by, wrap) == gfx,
        collides(blit_spec(gfx, rows, bx, by, wrap), rows, bx, by, wrap) <==> exists|p: int|
            0 <= p < gfx.len() && !gfx[p] && #[trigger] sprite_covers(rows, bx, by, wrap, p),
{
    let once = blit_spec(gfx, rows, bx, by, wrap);
    assert(blit_spec(once, rows, bx, by, wrap) =~= gfx);
    if collides(once, rows, bx, by, wrap) {
        let p = choose|p: int|
            0 <= p < once.len() && once[p] && #[trigger] sprite_covers(rows, bx, by, wrap, p);
        assert(!gfx[p]);
    }
    if exists|p: int|
        0 <= p < gfx.len() && !gfx[p] && #[trigger] sprite_covers(rows, bx, by, wrap, p) {
        let p = choose|p: int|
            0 <= p < gfx.len() && !gfx[p] && #[trigger] sprite_covers(rows, bx, by, wrap, p);
        assert(once[p]);
    }
}

/// Drawing the same sprite twice: the second draw leaves the framebuffer as
/// it was before the first, and sets VF to 1 exactly if the sprite shows on
/// a pixel that was off before the first. So on a blank screen every pixel
/// the sprite shows is cleared again, and VF is 1 if it shows any.
pub proof fn law_draw_twice(m: Machine, code: u16, keys: Seq<bool>, random: u8)
    requires
        m.wf(),
        op_group(code) == 0xD,
        m.execute(decode_spec(code), keys, random).is_ok(),
    ensures
        ({
            let ins = decode_spec(code);
            let x = op_x(code) as int;
            let y = op_y(code) as int;
            let first = m.execute(ins, keys, random).unwrap().machine;
            &&& first.execute(ins, keys, random) matches Ok(step)
            &&& step.machine.gfx == m.gfx
            &&& step.machine.reg[FLAG as int] == 1 <==> exists|p: int|
                0 <= p < 2048 && !m.gfx[p] && #[trigger] sprite_covers(
                    m.sprite(op_n(code) as usize),
                    m.reg_for_draw()[x] as int,
                    m.reg_for_draw()[y] as int,
                    m.quirks.wrap_sprites,
                    p,
                )
        }),
{
    let x = op_x(code) as int;
    let y = op_y(code) as int;
    let n = op_n(code) as usize;
    law_blit_twice(
        m.gfx,
        m.sprite(n),
        m.reg_for_draw()[x] as int,
        m.reg_for_draw()[y] as int,
        m.quirks.wrap_sprites,
    );
}

/// While the machine waits and no key is down, a cycle changes nothing.
pub proof fn law_wait_stalls_cycle(m: Machine, keys: Seq<bool>, random: u8)
    requires
        m.wf(),
        m.wait is Waiting,
        keys.len() == 16,
        forall|k: int| 0 <= k < 16 ==> !keys[k],
    ensures
        m.cycle(keys, random) == Ok::<Step, Chip8Error>(Step { machine: m, event: None }),
{
    lemma_first_pressed(keys);
}

/// A tick of a waiting machine with no key down leaves the target register,
/// every other register and the program counter unchanged, and the machine
/// waiting: all it does is count the timers down.
pub proof fn law_wait_stalls(m: Machine, keys: Seq<bool>, randoms: Seq<u8>)
    requires
        m.wf(),
        m.wait is Waiting,
        keys.len() == 16,
        forall|k: int| 0 <= k < 16 ==> !keys[k],
    ensures
        m.run(keys, randoms) == (Run { machine: m, events: Seq::empty(), fault: None }),
        m.tick(keys, randoms).fault.is_none(),
        m.tick(keys, randoms).machine == m.count_down(),
        m.tick(keys, randoms).machine.pc == m.pc,
        m.tick(keys, randoms).machine.reg == m.reg,
        m.tick(keys, randoms).machine.wait == m.wait,
    decreases randoms.len(),
{
    if randoms.len() > 0 {
        law_wait_stalls(m, keys, randoms.drop_last());
        law_wait_stalls_cycle(m, keys, randoms.last());
    }
}

/// While the machine waits, a cycle with a key down writes the lowest such
/// key into the target register, steps past the wait instruction and resumes
/// running.
pub proof fn law_wait_ends_on_key(m: Machine, keys: Seq<bool>, random: u8, r: usize, k: int)
    requires
        m.wf(),
        m.wait == KeyWait::Waiting(r),
        keys.len() == 16,
        0 <= k < 16,
        keys[k],
        forall|j: int| 0 <= j < k ==> !keys[j],
    ensures
        m.cycle(keys, random) == Ok::<Step, Chip8Error>(
            Step {
                machine: Machine {
                    reg: m.reg.update(r as int, k as u8),
                    pc: (m.pc + 2) as u16,
                    wait: KeyWait::Running,
                    ..m
                },
                event: None,
            },
        ),
{
    lemma_first_pressed(keys);
}

/// The number of beeps among `events`.
pub open spec fn beeps_in(events: Seq<Event>) -> nat
    decreases events.len(),
{
    if events.len() == 0 {
        0
    } else {
        beeps_in(events.drop_last()) + if events.last() is Beep {
            1nat
        } else {
            0nat
        }
    }
}

/// The machine after the first `n` ticks of a series in which tick `t` sees
/// the keys `keys[t]` and uses the random bytes `randoms[t]`.
pub open spec fn after_ticks(
    m: Machine,
    keys: Seq<Seq<bool>>,
    randoms: Seq<Seq<u8>>,
    n: nat,
) -> Machine
    decreases n,
{
    if n == 0 {
        m
    } else {
        after_ticks(m, keys, randoms, (n - 1) as nat).tick(keys[n - 1], randoms[n - 1]).machine
    }
}

/// Whether the cycles of a tick run without a fault and leave the sound
/// timer as they found it.
pub open spec fn cycles_spare_sound(m: Machine, keys: Seq<bool>, randoms: Seq<u8>) -> bool {
    let run = m.run(keys, randoms);
    run.fault.is_none() && run.machine.sound_timer == m.sound_timer
}

/// The cycles of a tick raise no beep: only counting the timers down does.
pub proof fn law_cycles_do_not_beep(m: Machine, keys: Seq<bool>, randoms: Seq<u8>)
    ensures
        beeps_in(m.run(keys, randoms).events) == 0,
    decreases randoms.len(),
{
    if randoms.len() > 0 {
        law_cycles_do_not_beep(m, keys, randoms.drop_last());
        let before = m.run(keys, randoms.drop_last());
        if before.fault.is_none() {
            if let Ok(step) = before.machine.cycle(keys, randoms.last()) {
                if let Some(e) = step.event {
                    assert(before.events.push(e).drop_last() =~= before.events);
                }
            }
        }
    }
}

/// With the sound timer at `s` and ticks whose cycles leave it alone, the
/// beep fires exactly once, in the last of the next `s` ticks. Counting
/// those ticks from 0, tick `j` finds the timer at `s - j`, does not fault,
/// and raises one beep if `j + 1 == s` and none otherwise.
pub proof fn law_beep_once(m: Machine, keys: Seq<Seq<bool>>, randoms: Seq<Seq<u8>>, j: nat)
    requires
        j < m.sound_timer,
        forall|t: nat|
            t <= j ==> cycles_spare_sound(
                #[trigger] after_ticks(m, keys, randoms, t),
                keys[t as int],
                randoms[t as int],
            ),
    ensures
        after_ticks(m, keys, randoms, j).sound_timer == m.sound_timer - j,
        after_ticks(m, keys, randoms, j).tick(keys[j as int], randoms[j as int]).fault.is_none(),
        beeps_in(
            after_ticks(m, keys, randoms, j).tick(keys[j as int], randoms[j as int]).events,
        ) == (if j + 1 == m.sound_timer {
            1nat
        } else {
            0nat
        }),
    decreases j,
{
    if j > 0 {
        law_beep_once(m, keys, randoms, (j - 1) as nat);
    }
    let now = after_ticks(m, keys, randoms, j);
    let run = now.run(keys[j as int], randoms[j as int]);
    law_cycles_do_not_beep(now, keys[j as int], randoms[j as int]);
    if run.machine.beeps() {
        assert(run.events.push(Event::Beep).drop_last() =~= run.events);
    }
}

} // verus!

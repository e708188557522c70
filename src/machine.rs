use vstd::prelude::*;

use crate::display::{collides, drawn, sprite_rows, Chip8Display};
use crate::error::Chip8Error;
use crate::font::{font, font_glyphs, FONT_LEN, FONT_START};
use crate::instruction::{decode_spec, Instruction};
use crate::keypad::{first_released, lemma_first_released, Chip8Keypad};
use crate::random::random_byte;
use crate::stack::Chip8Stack;
use crate::{DISPLAY_HEIGHT, DISPLAY_SIZE, MEMORY_SIZE, STACK_CAPACITY};

verus! {

/// Microseconds between two decrements of the timers (60 Hz).
pub const TIMER_DECREMENT_INTERVAL_US: u128 = 16667;

/// Address at which the program is loaded and execution starts.
pub const PROGRAM_START: usize = 0x200;

/// Largest program that fits in memory after `PROGRAM_START`.
pub const MAX_PROGRAM_LEN: usize = 0xE00;

/// Index of the flags register VF.
pub const VF: usize = 15;

/// Number of general registers.
pub const REGISTER_COUNT: usize = 16;

/// The machine as mathematical values.
pub struct MachineView {
    pub ram: Seq<u8>,
    pub pc: u16,
    pub i: u16,
    pub v: Seq<u8>,
    pub delay_timer: u8,
    pub sound_timer: u8,
    pub stack: Seq<u16>,
    pub display: Seq<bool>,
    pub cosmac_quirks: bool,
    pub elapsed_us: u128,
}

/// The whole state of the virtual machine.
#[derive(Debug)]
pub struct Chip8State {
    pub ram: Vec<u8>,
    /// Program counter.
    pub pc: u16,
    /// Index register.
    pub i: u16,
    /// General purpose registers V0 to VF.
    pub v: Vec<u8>,
    pub delay_timer: u8,
    pub sound_timer: u8,
    pub stack: Chip8Stack,
    pub display: Chip8Display,
    /// Whether the legacy behaviour of shifts, bitwise operations, store and
    /// load is in force.
    pub cosmac_quirks: bool,
    /// Time accumulated towards the next timer decrement.
    pub elapsed_us: u128,
}

impl View for Chip8State {
    type V = MachineView;

    open spec fn view(&self) -> MachineView {
        MachineView {
            ram: self.ram@,
            pc: self.pc,
            i: self.i,
            v: self.v@,
            delay_timer: self.delay_timer,
            sound_timer: self.sound_timer,
            stack: self.stack@,
            display: self.display.pixels@,
            cosmac_quirks: self.cosmac_quirks,
            elapsed_us: self.elapsed_us,
        }
    }
}

/// Memory at creation: the font, the program at `PROGRAM_START`, zero elsewhere.
pub open spec fn initial_ram(rom: Seq<u8>) -> Seq<u8> {
    Seq::new(
        MEMORY_SIZE as nat,
        |a: int|
            if FONT_START <= a < FONT_START + FONT_LEN {
                font_glyphs()[a - FONT_START]
            } else if PROGRAM_START <= a < PROGRAM_START + rom.len() {
                rom[a - PROGRAM_START]
            } else {
                0u8
            },
    )
}

/// The machine at creation.
pub open spec fn initial_view(rom: Seq<u8>, cosmac: bool) -> MachineView {
    MachineView {
        ram: initial_ram(rom),
        pc: PROGRAM_START as u16,
        i: 0,
        v: Seq::new(REGISTER_COUNT as nat, |r: int| 0u8),
        delay_timer: 0,
        sound_timer: 0,
        stack: Seq::empty(),
        display: Seq::new(DISPLAY_SIZE as nat, |k: int| false),
        cosmac_quirks: cosmac,
        elapsed_us: 0,
    }
}

/// A timer after `ticks` decrements, none of which goes below zero.
pub open spec fn timer_after(t: u8, ticks: int) -> u8 {
    if ticks >= t { 0 } else { (t - ticks) as u8 }
}

/// The machine after `delta_us` more microseconds: one decrement of each
/// timer for each whole interval accumulated, the remainder kept.
pub open spec fn update_timers_spec(m: MachineView, delta_us: u64) -> MachineView {
    let total = m.elapsed_us + delta_us;
    let ticks = total / TIMER_DECREMENT_INTERVAL_US as int;
    MachineView {
        delay_timer: timer_after(m.delay_timer, ticks),
        sound_timer: timer_after(m.sound_timer, ticks),
        elapsed_us: (total % TIMER_DECREMENT_INTERVAL_US as int) as u128,
        ..m
    }
}

/// The big-endian word at `pc`, or `None` where it would be read past memory.
pub open spec fn fetch_spec(m: MachineView) -> Option<u16> {
    if m.pc + 1 < MEMORY_SIZE {
        Some((m.ram[m.pc as int] * 256 + m.ram[m.pc + 1]) as u16)
    } else {
        None
    }
}

/// The machine with `pc` moved past this instruction, and past the next one
/// too where `skip` holds.
pub open spec fn next_pc(m: MachineView, skip: bool) -> MachineView {
    MachineView { pc: (if skip { m.pc + 4 } else { m.pc + 2 }) as u16, ..m }
}

/// The machine with register `x` set to `val` and `pc` moved on.
pub open spec fn set_reg(m: MachineView, x: u8, val: u8) -> MachineView {
    MachineView { v: m.v.update(x as int, val), ..next_pc(m, false) }
}

/// The machine with register `x` set to `val`, VF to `flag`, and `pc` moved on.
pub open spec fn set_reg_flag(m: MachineView, x: u8, val: u8, flag: u8) -> MachineView {
    MachineView { v: m.v.update(x as int, val).update(VF as int, flag), ..next_pc(m, false) }
}

/// `a + b` modulo 256.
pub open spec fn wrap_add(a: u8, b: u8) -> u8 {
    if a + b < 256 { (a + b) as u8 } else { (a + b - 256) as u8 }
}

/// `a - b` modulo 256.
pub open spec fn wrap_sub(a: u8, b: u8) -> u8 {
    if a >= b { (a - b) as u8 } else { (a + 256 - b) as u8 }
}

/// The register operand of a shift: Vy in quirk mode, Vx otherwise.
pub open spec fn shift_source(m: MachineView, x: u8, y: u8) -> u8 {
    if m.cosmac_quirks { m.v[y as int] } else { m.v[x as int] }
}

/// The result of a bitwise operation: VF forced to zero in quirk mode only.
pub open spec fn bitwise_result(m: MachineView, x: u8, val: u8) -> MachineView {
    if m.cosmac_quirks { set_reg_flag(m, x, val, 0) } else { set_reg(m, x, val) }
}

/// The outcome of a sprite draw while a render has just happened.
pub open spec fn draw_spec(m: MachineView, x: u8, y: u8, n: u8) -> Result<MachineView, Chip8Error> {
    let v1 = m.v.update(VF as int, 0);
    let x0 = (v1[x as int] % 64u8) as int;
    let y0 = (v1[y as int] % 32u8) as int;
    if m.i + sprite_rows(y0, n as int) > MEMORY_SIZE {
        Err(Chip8Error::MemoryOutOfBounds(m.i))
    } else {
        let hit = collides(m.display, m.ram, m.i as int, x0, y0, n as int);
        Ok(
            MachineView {
                display: drawn(m.display, m.ram, m.i as int, x0, y0, n as int),
                v: v1.update(VF as int, if hit { 1u8 } else { 0u8 }),
                ..next_pc(m, false)
            },
        )
    }
}

/// The outcome of executing `ins`, fetched at `m.pc`, with keypad `keys`,
/// `render` telling whether a frame was presented since the last cycle and
/// `rnd` the random byte of this cycle. `Err` leaves the machine as it was.
pub open spec fn spec_execute(
    m: MachineView,
    ins: Instruction,
    keys: Chip8Keypad,
    render: bool,
    rnd: u8,
) -> Result<MachineView, Chip8Error> {
    match ins {
        Instruction::ClearScreen => Ok(
            MachineView { display: Seq::new(DISPLAY_SIZE as nat, |k: int| false), ..next_pc(m, false) },
        ),
        Instruction::Return => if m.stack.len() == 0 {
            Err(Chip8Error::StackUnderflow)
        } else {
            Ok(MachineView { pc: m.stack.last(), stack: m.stack.drop_last(), ..m })
        },
        Instruction::Jump { addr } => Ok(MachineView { pc: addr, ..m }),
        Instruction::Call { addr } => if m.stack.len() == STACK_CAPACITY {
            Err(Chip8Error::StackOverflow)
        } else {
            Ok(MachineView { pc: addr, stack: m.stack.push((m.pc + 2) as u16), ..m })
        },
        Instruction::SkipEqImm { x, nn } => Ok(next_pc(m, m.v[x as int] == nn)),
        Instruction::SkipNeImm { x, nn } => Ok(next_pc(m, m.v[x as int] != nn)),
        Instruction::SkipEqReg { x, y } => Ok(next_pc(m, m.v[x as int] == m.v[y as int])),
        Instruction::SkipNeReg { x, y } => Ok(next_pc(m, m.v[x as int] != m.v[y as int])),
        Instruction::LoadImm { x, nn } => Ok(set_reg(m, x, nn)),
        Instruction::AddImm { x, nn } => Ok(set_reg(m, x, wrap_add(m.v[x as int], nn))),
        Instruction::Move { x, y } => Ok(set_reg(m, x, m.v[y as int])),
        Instruction::Or { x, y } => Ok(bitwise_result(m, x, m.v[x as int] | m.v[y as int])),
        Instruction::And { x, y } => Ok(bitwise_result(m, x, m.v[x as int] & m.v[y as int])),
        Instruction::Xor { x, y } => Ok(bitwise_result(m, x, m.v[x as int] ^ m.v[y as int])),
        Instruction::AddReg { x, y } => Ok(
            set_reg_flag(
                m,
                x,
                wrap_add(m.v[x as int], m.v[y as int]),
                if m.v[x as int] + m.v[y as int] >= 256 { 1 } else { 0 },
            ),
        ),
        Instruction::SubReg { x, y } => Ok(
            set_reg_flag(
                m,
                x,
                wrap_sub(m.v[x as int], m.v[y as int]),
                if m.v[x as int] < m.v[y as int] { 0 } else { 1 },
            ),
        ),
        Instruction::ShiftRight { x, y } => {
            let src = shift_source(m, x, y);
            Ok(set_reg_flag(m, x, src / 2, src % 2))
        },
        Instruction::SubRev { x, y } => Ok(
            set_reg_flag(
                m,
                x,
                wrap_sub(m.v[y as int], m.v[x as int]),
                if m.v[y as int] < m.v[x as int] { 0 } else { 1 },
            ),
        ),
        Instruction::ShiftLeft { x, y } => {
            let src = shift_source(m, x, y);
            Ok(set_reg_flag(m, x, ((src * 2) % 256) as u8, src / 128))
        },
        Instruction::LoadIndex { addr } => Ok(MachineView { i: addr, ..next_pc(m, false) }),
        Instruction::JumpOffset { addr } => Ok(MachineView { pc: (addr + m.v[0]) as u16, ..m }),
        Instruction::Random { x, nn } => Ok(set_reg(m, x, rnd & nn)),
        Instruction::Draw { x, y, n } => if !render {
            Ok(m)
        } else {
            draw_spec(m, x, y, n)
        },
        Instruction::SkipKeyPressed { x } => if m.v[x as int] >= 16 {
            Err(Chip8Error::InvalidKey(m.v[x as int]))
        } else {
            Ok(next_pc(m, keys.pressed@[m.v[x as int] as int]))
        },
        Instruction::SkipKeyNotPressed { x } => if m.v[x as int] >= 16 {
            Err(Chip8Error::InvalidKey(m.v[x as int]))
        } else {
            Ok(next_pc(m, !keys.pressed@[m.v[x as int] as int]))
        },
        Instruction::GetDelay { x } => Ok(set_reg(m, x, m.delay_timer)),
        Instruction::SetDelay { x } => Ok(MachineView { delay_timer: m.v[x as int], ..next_pc(m, false) }),
        Instruction::SetSound { x } => Ok(MachineView { sound_timer: m.v[x as int], ..next_pc(m, false) }),
        Instruction::AddIndex { x } => {
            let s = m.i + m.v[x as int];
            // I wraps modulo 4096; the sum stays below 2 * 4096.
            if s >= MEMORY_SIZE {
                Ok(MachineView { i: (s - MEMORY_SIZE) as u16, v: m.v.update(VF as int, 1), ..next_pc(m, false) })
            } else {
                Ok(MachineView { i: s as u16, ..next_pc(m, false) })
            }
        },
        Instruction::GetKey { x } => if first_released(keys) < 16 {
            Ok(set_reg(m, x, first_released(keys) as u8))
        } else {
            Ok(m)
        },
        Instruction::FontChar { x } => Ok(MachineView { i: (FONT_START + m.v[x as int] * 5) as u16, ..next_pc(m, false) }),
        Instruction::Bcd { x } => if m.i + 2 >= MEMORY_SIZE {
            Err(Chip8Error::MemoryOutOfBounds(m.i))
        } else {
            let d = m.v[x as int];
            Ok(
                MachineView {
                    ram: m.ram.update(m.i as int, d / 100).update(m.i + 1, (d % 100) / 10).update(m.i + 2, d % 10),
                    ..next_pc(m, false)
                },
            )
        },
        Instruction::Store { x } => if m.i + x >= MEMORY_SIZE {
            Err(Chip8Error::MemoryOutOfBounds(m.i))
        } else {
            Ok(
                MachineView {
                    ram: Seq::new(m.ram.len(), |a: int| if m.i <= a <= m.i + x { m.v[a - m.i] } else { m.ram[a] }),
                    i: if m.cosmac_quirks { (m.i + x + 1) as u16 } else { m.i },
                    ..next_pc(m, false)
                },
            )
        },
        Instruction::Load { x } => if m.i + x >= MEMORY_SIZE {
            Err(Chip8Error::MemoryOutOfBounds(m.i))
        } else {
            Ok(
                MachineView {
                    v: Seq::new(m.v.len(), |r: int| if r <= x { m.ram[m.i + r] } else { m.v[r] }),
                    i: if m.cosmac_quirks { (m.i + x + 1) as u16 } else { m.i },
                    ..next_pc(m, false)
                },
            )
        },
    }
}

/// `m1` and `r` are what executing `ins` on `m0` gives: the new machine on
/// success, the error and the machine unchanged on a fatal condition.
pub open spec fn execute_post(
    m0: MachineView,
    m1: MachineView,
    r: Result<(), Chip8Error>,
    ins: Instruction,
    keys: Chip8Keypad,
    render: bool,
    rnd: u8,
) -> bool {
    match spec_execute(m0, ins, keys, render, rnd) {
        Ok(m) => r == Ok::<(), Chip8Error>(()) && m1 == m,
        Err(e) => r == Err::<(), Chip8Error>(e) && m1 == m0,
    }
}

/// One whole cycle: the timers, then the fetch, decode and execution of the
/// instruction at `pc`. A fatal condition leaves the machine as the timer
/// update left it, with `pc` at the faulting instruction.
pub open spec fn step_spec(
    m: MachineView,
    delta_us: u64,
    keys: Chip8Keypad,
    render: bool,
    rnd: u8,
) -> (MachineView, Result<(), Chip8Error>) {
    let m1 = update_timers_spec(m, delta_us);
    match fetch_spec(m1) {
        None => (m1, Err(Chip8Error::FetchOutOfBounds(m1.pc))),
        Some(w) => match decode_spec(w) {
            None => (m1, Err(Chip8Error::UnknownInstruction(w))),
            Some(ins) => match spec_execute(m1, ins, keys, render, rnd) {
                Ok(m2) => (m2, Ok(())),
                Err(e) => (m1, Err(e)),
            },
        },
    }
}

impl MachineView {
    pub open spec fn wf(self) -> bool {
        &&& self.ram.len() == MEMORY_SIZE
        &&& self.v.len() == REGISTER_COUNT
        &&& self.stack.len() <= STACK_CAPACITY
        &&& self.display.len() == DISPLAY_SIZE
        &&& self.i <= MEMORY_SIZE
        &&& self.elapsed_us < TIMER_DECREMENT_INTERVAL_US
    }
}



/// `n` zero bytes.
fn zeroes(n: usize) -> (r: Vec<u8>)
    ensures
        r@ == Seq::new(n as nat, |k: int| 0u8),
{
    let mut r: Vec<u8> = Vec::new();
    let mut k: usize = 0;
    while k < n
        invariant
            k <= n,
            r@ == Seq::new(k as nat, |j: int| 0u8),
        decreases n - k,
    {
        r.push(0);
        k = k + 1;
        assert(r@ =~= Seq::new(k as nat, |j: int| 0u8));
    }
    r
}

/// Copies V0..=Vx into `ram` from address `i` on.
fn store_registers(ram: &mut Vec<u8>, v: &Vec<u8>, i: usize, x: usize)
    requires
        x < v@.len(),
        i + x < old(ram)@.len(),
    ensures
        final(ram)@ == Seq::new(
            old(ram)@.len(),
            |a: int| if i <= a <= i + x { v@[a - i] } else { old(ram)@[a] },
        ),
{
    let ghost r0 = ram@;
    let ram_len = ram.len();
    let v_len = v.len();
    let mut k: usize = 0;
    while k <= x
        invariant
            x < v@.len(),
            ram@.len() == ram_len,
            v@.len() == v_len,
            i + x < r0.len(),
            k <= x + 1,
            ram@ == Seq::new(r0.len(), |a: int| if i <= a < i + k { v@[a - i] } else { r0[a] }),
        decreases x + 1 - k,
    {
        ram.set(i + k, v[k]);
        k = k + 1;
        assert(ram@ =~= Seq::new(r0.len(), |a: int| if i <= a < i + k { v@[a - i] } else { r0[a] }));
    }
    assert(ram@ =~= Seq::new(r0.len(), |a: int| if i <= a <= i + x { v@[a - i] } else { r0[a] }));
}

/// Fills V0..=Vx from `ram` starting at address `i`.
fn load_registers(v: &mut Vec<u8>, ram: &Vec<u8>, i: usize, x: usize)
    requires
        x < old(v)@.len(),
        i + x < ram@.len(),
    ensures
        final(v)@ == Seq::new(old(v)@.len(), |r: int| if r <= x { ram@[i + r] } else { old(v)@[r] }),
{
    let ghost v0 = v@;
    let ram_len = ram.len();
    let v_len = v.len();
    let mut k: usize = 0;
    while k <= x
        invariant
            x < v0.len(),
            ram@.len() == ram_len,
            v@.len() == v_len,
            i + x < ram@.len(),
            k <= x + 1,
            v@ == Seq::new(v0.len(), |r: int| if r < k { ram@[i + r] } else { v0[r] }),
        decreases x + 1 - k,
    {
        v.set(k, ram[i + k]);
        k = k + 1;
        assert(v@ =~= Seq::new(v0.len(), |r: int| if r < k { ram@[i + r] } else { v0[r] }));
    }
    assert(v@ =~= Seq::new(v0.len(), |r: int| if r <= x { ram@[i + r] } else { v0[r] }));
}

impl Chip8State {
    pub open spec fn wf(&self) -> bool {
        &&& self@.wf()
        &&& self.stack.wf()
        &&& self.display.wf()
    }

    /// A machine with `rom` loaded at `PROGRAM_START`, the font in place and
    /// everything else zero; `cosmac` selects the legacy behaviour for good.
    pub fn new(rom: &[u8], cosmac: bool) -> (r: Chip8State)
        requires
            rom@.len() <= MAX_PROGRAM_LEN,
        ensures
            r.wf(),
            r@ == initial_view(rom@, cosmac),
    {
        let glyphs = font();
        let mut ram: Vec<u8> = Vec::new();
        let mut a: usize = 0;
        while a < MEMORY_SIZE
            invariant
                a <= MEMORY_SIZE,
                rom@.len() <= MAX_PROGRAM_LEN,
                glyphs@ == font_glyphs(),
                ram@.len() == a,
                forall|j: int| 0 <= j < a ==> ram@[j] == #[trigger] initial_ram(rom@)[j],
            decreases MEMORY_SIZE - a,
        {
            let byte: u8 = if FONT_START <= a && a < FONT_START + FONT_LEN {
                glyphs[a - FONT_START]
            } else if PROGRAM_START <= a && a < PROGRAM_START + rom.len() {
                rom[a - PROGRAM_START]
            } else {
                0
            };
            ram.push(byte);
            a = a + 1;
        }
        assert(ram@ =~= initial_ram(rom@));
        let stack = Chip8Stack::new();
        let display = Chip8Display::new();
        let v = zeroes(REGISTER_COUNT);
        Chip8State {
            ram,
            pc: PROGRAM_START as u16,
            i: 0,
            v,
            delay_timer: 0,
            sound_timer: 0,
            stack,
            display,
            cosmac_quirks: cosmac,
            elapsed_us: 0,
        }
    }

    /// Adds `delta_us` to the accumulated time and decrements both timers,
    /// never below zero, once for each whole interval, keeping the remainder.
    pub fn update_timers(&mut self, delta_us: u64)
        requires
            old(self).wf(),
        ensures
            final(self).wf(),
            final(self)@ == update_timers_spec(old(self)@, delta_us),
    {
        let total: u128 = self.elapsed_us + delta_us as u128;
        let ticks: u128 = total / TIMER_DECREMENT_INTERVAL_US;
        if ticks >= self.delay_timer as u128 {
            self.delay_timer = 0;
        } else {
            self.delay_timer = self.delay_timer - ticks as u8;
        }
        if ticks >= self.sound_timer as u128 {
            self.sound_timer = 0;
        } else {
            self.sound_timer = self.sound_timer - ticks as u8;
        }
        self.elapsed_us = total % TIMER_DECREMENT_INTERVAL_US;
    }

    /// The big-endian instruction word at `pc`, or `None` where it would be
    /// read past memory.
    pub fn fetch(&self) -> (r: Option<u16>)
        requires
            self.wf(),
        ensures
            r == fetch_spec(self@),
    {
        if self.pc as usize + 1 < MEMORY_SIZE {
            let hi = self.ram[self.pc as usize] as u16;
            let lo = self.ram[self.pc as usize + 1] as u16;
            Some(hi * 256 + lo)
        } else {
            None
        }
    }

    fn write_reg(&mut self, x: u8, val: u8)
        requires
            old(self).wf(),
            x < REGISTER_COUNT,
            old(self).pc + 4 <= u16::MAX,
        ensures
            final(self).wf(),
            final(self)@ == set_reg(old(self)@, x, val),
    {
        self.v.set(x as usize, val);
        self.pc = self.pc + 2;
    }

    fn write_reg_flag(&mut self, x: u8, val: u8, flag: u8)
        requires
            old(self).wf(),
            x < REGISTER_COUNT,
            old(self).pc + 4 <= u16::MAX,
        ensures
            final(self).wf(),
            final(self)@ == set_reg_flag(old(self)@, x, val, flag),
    {
        self.v.set(x as usize, val);
        self.v.set(VF, flag);
        self.pc = self.pc + 2;
    }

    fn execute_control(&mut self, ins: Instruction, render: bool) -> (r: Result<(), Chip8Error>)
        requires
            old(self).wf(),
            ins.wf(),
            old(self).pc + 1 < MEMORY_SIZE,
            ins is ClearScreen || ins is Return || ins is Jump || ins is Call || ins is SkipEqImm
                || ins is SkipNeImm || ins is SkipEqReg || ins is SkipNeReg || ins is JumpOffset
                || ins is Draw,
        ensures
            final(self).wf(),
            forall|keys: Chip8Keypad, rnd: u8|
                execute_post(old(self)@, final(self)@, r, ins, keys, render, rnd),
    {
        match ins {
            Instruction::ClearScreen => {
                self.display.clear();
                self.pc = self.pc + 2;
                Ok(())
            },
            Instruction::Return => {
                if self.stack.len() == 0 {
                    return Err(Chip8Error::StackUnderflow);
                }
                self.pc = self.stack.pop();
                Ok(())
            },
            Instruction::Jump { addr } => {
                self.pc = addr;
                Ok(())
            },
            Instruction::Call { addr } => {
                if self.stack.len() == STACK_CAPACITY {
                    return Err(Chip8Error::StackOverflow);
                }
                let ret = self.pc + 2;
                self.stack.push(ret);
                self.pc = addr;
                Ok(())
            },
            Instruction::SkipEqImm { x, nn } => {
                let skip = self.v[x as usize] == nn;
                self.pc = if skip { self.pc + 4 } else { self.pc + 2 };
                Ok(())
            },
            Instruction::SkipNeImm { x, nn } => {
                let skip = self.v[x as usize] != nn;
                self.pc = if skip { self.pc + 4 } else { self.pc + 2 };
                Ok(())
            },
            Instruction::SkipEqReg { x, y } => {
                let skip = self.v[x as usize] == self.v[y as usize];
                self.pc = if skip { self.pc + 4 } else { self.pc + 2 };
                Ok(())
            },
            Instruction::SkipNeReg { x, y } => {
                let skip = self.v[x as usize] != self.v[y as usize];
                self.pc = if skip { self.pc + 4 } else { self.pc + 2 };
                Ok(())
            },
            Instruction::JumpOffset { addr } => {
                self.pc = addr + self.v[0] as u16;
                Ok(())
            },
            Instruction::Draw { x, y, n } => {
                if !render {
                    // Wait for the next presented frame: retry this instruction.
                    return Ok(());
                }
                let vx: u8 = if x as usize == VF { 0 } else { self.v[x as usize] };
                let vy: u8 = if y as usize == VF { 0 } else { self.v[y as usize] };
                let x0: u8 = vx % 64;
                let y0: u8 = vy % 32;
                let rows: usize = if (n as usize) < DISPLAY_HEIGHT - y0 as usize {
                    n as usize
                } else {
                    DISPLAY_HEIGHT - y0 as usize
                };
                if self.i as usize + rows > MEMORY_SIZE {
                    return Err(Chip8Error::MemoryOutOfBounds(self.i));
                }
                self.v.set(VF, 0);
                assert(self.v@[x as int] == vx && self.v@[y as int] == vy);
                let hit = self.display.draw(&self.ram, self.i as usize, x0, y0, n);
                self.v.set(VF, if hit { 1 } else { 0 });
                self.pc = self.pc + 2;
                Ok(())
            },
            _ => Ok(()),
        }
    }

    fn execute_alu(&mut self, ins: Instruction, rnd: u8) -> (r: Result<(), Chip8Error>)
        requires
            old(self).wf(),
            ins.wf(),
            old(self).pc + 1 < MEMORY_SIZE,
            ins is LoadImm || ins is AddImm || ins is Move || ins is Or || ins is And || ins is Xor
                || ins is AddReg || ins is SubReg || ins is ShiftRight || ins is SubRev
                || ins is ShiftLeft || ins is LoadIndex || ins is Random,
        ensures
            final(self).wf(),
            forall|keys: Chip8Keypad, render: bool|
                execute_post(old(self)@, final(self)@, r, ins, keys, render, rnd),
    {
        match ins {
            Instruction::LoadImm { x, nn } => self.write_reg(x, nn),
            Instruction::AddImm { x, nn } => {
                let a = self.v[x as usize];
                let val: u8 = if (a as u16 + nn as u16) < 256 {
                    a + nn
                } else {
                    (a as u16 + nn as u16 - 256) as u8
                };
                self.write_reg(x, val);
            },
            Instruction::Move { x, y } => {
                let val = self.v[y as usize];
                self.write_reg(x, val);
            },
            Instruction::Or { x, y } => {
                let val = self.v[x as usize] | self.v[y as usize];
                if self.cosmac_quirks {
                    self.write_reg_flag(x, val, 0);
                } else {
                    self.write_reg(x, val);
                }
            },
            Instruction::And { x, y } => {
                let val = self.v[x as usize] & self.v[y as usize];
                if self.cosmac_quirks {
                    self.write_reg_flag(x, val, 0);
                } else {
                    self.write_reg(x, val);
                }
            },
            Instruction::Xor { x, y } => {
                let val = self.v[x as usize] ^ self.v[y as usize];
                if self.cosmac_quirks {
                    self.write_reg_flag(x, val, 0);
                } else {
                    self.write_reg(x, val);
                }
            },
            Instruction::AddReg { x, y } => {
                let a = self.v[x as usize];
                let b = self.v[y as usize];
                let sum: u16 = a as u16 + b as u16;
                if sum < 256 {
                    self.write_reg_flag(x, sum as u8, 0);
                } else {
                    self.write_reg_flag(x, (sum - 256) as u8, 1);
                }
            },
            Instruction::SubReg { x, y } => {
                let a = self.v[x as usize];
                let b = self.v[y as usize];
                if a >= b {
                    self.write_reg_flag(x, a - b, 1);
                } else {
                    self.write_reg_flag(x, (a as u16 + 256 - b as u16) as u8, 0);
                }
            },
            Instruction::SubRev { x, y } => {
                let a = self.v[x as usize];
                let b = self.v[y as usize];
                if b >= a {
                    self.write_reg_flag(x, b - a, 1);
                } else {
                    self.write_reg_flag(x, (b as u16 + 256 - a as u16) as u8, 0);
                }
            },
            Instruction::ShiftRight { x, y } => {
                let src = if self.cosmac_quirks { self.v[y as usize] } else { self.v[x as usize] };
                self.write_reg_flag(x, src / 2, src % 2);
            },
            Instruction::ShiftLeft { x, y } => {
                let src = if self.cosmac_quirks { self.v[y as usize] } else { self.v[x as usize] };
                self.write_reg_flag(x, ((src as u16 * 2) % 256) as u8, src / 128);
            },
            Instruction::LoadIndex { addr } => {
                self.i = addr;
                self.pc = self.pc + 2;
            },
            Instruction::Random { x, nn } => self.write_reg(x, rnd & nn),
            _ => {},
        }
        Ok(())
    }

    fn execute_misc(&mut self, ins: Instruction, keypad: &Chip8Keypad) -> (r: Result<(), Chip8Error>)
        requires
            old(self).wf(),
            ins.wf(),
            old(self).pc + 1 < MEMORY_SIZE,
            ins is SkipKeyPressed || ins is SkipKeyNotPressed || ins is GetDelay || ins is SetDelay
                || ins is SetSound || ins is AddIndex || ins is GetKey || ins is FontChar
                || ins is Bcd || ins is Store || ins is Load,
        ensures
            final(self).wf(),
            forall|render: bool, rnd: u8|
                execute_post(old(self)@, final(self)@, r, ins, *keypad, render, rnd),
    {
        match ins {
            Instruction::SkipKeyPressed { x } => {
                let key = self.v[x as usize];
                if key >= 16 {
                    return Err(Chip8Error::InvalidKey(key));
                }
                let skip = keypad.pressed[key as usize];
                self.pc = if skip { self.pc + 4 } else { self.pc + 2 };
            },
            Instruction::SkipKeyNotPressed { x } => {
                let key = self.v[x as usize];
                if key >= 16 {
                    return Err(Chip8Error::InvalidKey(key));
                }
                let skip = !keypad.pressed[key as usize];
                self.pc = if skip { self.pc + 4 } else { self.pc + 2 };
            },
            Instruction::GetDelay { x } => {
                let t = self.delay_timer;
                self.write_reg(x, t);
            },
            Instruction::SetDelay { x } => {
                self.delay_timer = self.v[x as usize];
                self.pc = self.pc + 2;
            },
            Instruction::SetSound { x } => {
                self.sound_timer = self.v[x as usize];
                self.pc = self.pc + 2;
            },
            Instruction::AddIndex { x } => {
                let s: u16 = self.i + self.v[x as usize] as u16;
                if s >= MEMORY_SIZE as u16 {
                    self.i = s - MEMORY_SIZE as u16;
                    self.v.set(VF, 1);
                } else {
                    self.i = s;
                }
                self.pc = self.pc + 2;
            },
            Instruction::GetKey { x } => {
                let k = keypad.find_released();
                proof {
                    lemma_first_released(*keypad);
                }
                if k < 16 {
                    self.write_reg(x, k);
                }
                // Otherwise no key was released: retry this instruction.
            },
            Instruction::FontChar { x } => {
                self.i = FONT_START as u16 + self.v[x as usize] as u16 * 5;
                self.pc = self.pc + 2;
            },
            Instruction::Bcd { x } => {
                if self.i as usize + 2 >= MEMORY_SIZE {
                    return Err(Chip8Error::MemoryOutOfBounds(self.i));
                }
                let d = self.v[x as usize];
                let i = self.i as usize;
                self.ram.set(i, d / 100);
                self.ram.set(i + 1, (d % 100) / 10);
                self.ram.set(i + 2, d % 10);
                self.pc = self.pc + 2;
            },
            Instruction::Store { x } => {
                if self.i as usize + x as usize >= MEMORY_SIZE {
                    return Err(Chip8Error::MemoryOutOfBounds(self.i));
                }
                store_registers(&mut self.ram, &self.v, self.i as usize, x as usize);
                if self.cosmac_quirks {
                    self.i = self.i + x as u16 + 1;
                }
                self.pc = self.pc + 2;
            },
            Instruction::Load { x } => {
                if self.i as usize + x as usize >= MEMORY_SIZE {
                    return Err(Chip8Error::MemoryOutOfBounds(self.i));
                }
                load_registers(&mut self.v, &self.ram, self.i as usize, x as usize);
                if self.cosmac_quirks {
                    self.i = self.i + x as u16 + 1;
                }
                self.pc = self.pc + 2;
            },
            _ => {},
        }
        Ok(())
    }

    /// Executes `ins`, fetched at `pc`, as `spec_execute` describes: on a
    /// fatal condition the machine is left as it was.
    pub fn execute(
        &mut self,
        ins: Instruction,
        keypad: &Chip8Keypad,
        render_just_happened: bool,
        random: u8,
    ) -> (r: Result<(), Chip8Error>)
        requires
            old(self).wf(),
            ins.wf(),
            old(self).pc + 1 < MEMORY_SIZE,
        ensures
            final(self).wf(),
            execute_post(old(self)@, final(self)@, r, ins, *keypad, render_just_happened, random),
    {
        match ins {
            Instruction::ClearScreen | Instruction::Return | Instruction::Jump { .. }
            | Instruction::Call { .. } | Instruction::SkipEqImm { .. } | Instruction::SkipNeImm { .. }
            | Instruction::SkipEqReg { .. } | Instruction::SkipNeReg { .. }
            | Instruction::JumpOffset { .. } | Instruction::Draw { .. } => {
                self.execute_control(ins, render_just_happened)
            },
            Instruction::LoadImm { .. } | Instruction::AddImm { .. } | Instruction::Move { .. }
            | Instruction::Or { .. } | Instruction::And { .. } | Instruction::Xor { .. }
            | Instruction::AddReg { .. } | Instruction::SubReg { .. } | Instruction::ShiftRight { .. }
            | Instruction::SubRev { .. } | Instruction::ShiftLeft { .. }
            | Instruction::LoadIndex { .. } | Instruction::Random { .. } => self.execute_alu(ins, random),
            _ => self.execute_misc(ins, keypad),
        }
    }

    /// One cycle with `random` as the random byte: the timers advance by
    /// `delta_us`, then the instruction at `pc` is fetched, decoded and
    /// executed. `render_just_happened` tells whether a frame was presented
    /// since the last cycle.
    pub fn step(
        &mut self,
        delta_us: u64,
        keypad: &Chip8Keypad,
        render_just_happened: bool,
        random: u8,
    ) -> (r: Result<(), Chip8Error>)
        requires
            old(self).wf(),
        ensures
            final(self).wf(),
            (final(self)@, r) == step_spec(old(self)@, delta_us, *keypad, render_just_happened, random),
    {
        self.update_timers(delta_us);
        let w = match self.fetch() {
            Some(w) => w,
            None => return Err(Chip8Error::FetchOutOfBounds(self.pc)),
        };
        let ins = match Instruction::decode(w) {
            Some(ins) => ins,
            None => return Err(Chip8Error::UnknownInstruction(w)),
        };
        self.execute(ins, keypad, render_just_happened, random)
    }

    /// One cycle as `step` makes it, with a byte drawn from the thread-local
    /// random generator.
    pub fn update(
        &mut self,
        delta_us: u64,
        keypad: &Chip8Keypad,
        blank_interrupt: bool,
    ) -> (r: Result<(), Chip8Error>)
        requires
            old(self).wf(),
        ensures
            final(self).wf(),
            exists|rnd: u8|
                (final(self)@, r) == #[trigger] step_spec(old(self)@, delta_us, *keypad, blank_interrupt, rnd),
    {
        let rnd = random_byte();
        self.step(delta_us, keypad, blank_interrupt, rnd)
    }
}

} // verus!

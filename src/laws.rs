use vstd::arithmetic::div_mod::{lemma_fundamental_div_mod, lemma_fundamental_div_mod_converse};
use vstd::prelude::*;

use crate::display::{collides, hit, sprite_bit};
use crate::instruction::Instruction;
use crate::keypad::{first_released, lemma_first_released, released, Chip8Keypad};
use crate::machine::{
    spec_execute, timer_after, update_timers_spec, MachineView, TIMER_DECREMENT_INTERVAL_US, VF,
};
use crate::{DISPLAY_SIZE, DISPLAY_WIDTH, MEMORY_SIZE};

verus! {

/// Addition wraps modulo 256; VF holds the carry of 8xy4; 7xnn leaves every
/// other register, VF included, alone.
pub proof fn lemma_addition_wraps(m: MachineView, x: u8, y: u8, nn: u8, keys: Chip8Keypad, render: bool, rnd: u8)
    requires
        m.wf(),
        x < 16,
        y < 16,
        m.pc + 1 < MEMORY_SIZE,
    ensures
        ({
            let r = spec_execute(m, Instruction::AddImm { x, nn }, keys, render, rnd)->Ok_0;
            &&& r.v[x as int] == (m.v[x as int] + nn) % 256
            &&& forall|k: int| 0 <= k < 16 && k != x ==> r.v[k] == m.v[k]
        }),
        ({
            let r = spec_execute(m, Instruction::AddReg { x, y }, keys, render, rnd)->Ok_0;
            &&& x != VF ==> r.v[x as int] == (m.v[x as int] + m.v[y as int]) % 256
            &&& r.v[VF as int] == if m.v[x as int] + m.v[y as int] > 255 { 1u8 } else { 0u8 }
        }),
{
}

/// Subtraction wraps modulo 256; VF holds the absence of borrow of 8xy5 and
/// 8xy7.
pub proof fn lemma_subtraction_wraps(m: MachineView, x: u8, y: u8, keys: Chip8Keypad, render: bool, rnd: u8)
    requires
        m.wf(),
        x < 16,
        y < 16,
        m.pc + 1 < MEMORY_SIZE,
    ensures
        ({
            let r = spec_execute(m, Instruction::SubReg { x, y }, keys, render, rnd)->Ok_0;
            &&& x != VF ==> r.v[x as int] == (m.v[x as int] - m.v[y as int]) % 256
            &&& r.v[VF as int] == if m.v[x as int] >= m.v[y as int] { 1u8 } else { 0u8 }
        }),
        ({
            let r = spec_execute(m, Instruction::SubRev { x, y }, keys, render, rnd)->Ok_0;
            &&& x != VF ==> r.v[x as int] == (m.v[y as int] - m.v[x as int]) % 256
            &&& r.v[VF as int] == if m.v[y as int] >= m.v[x as int] { 1u8 } else { 0u8 }
        }),
{
}

/// 8xy6 and 8xyE shift Vy in quirk mode and Vx in place otherwise; VF gets
/// the bit shifted out.
pub proof fn lemma_shift_source(m: MachineView, x: u8, y: u8, keys: Chip8Keypad, render: bool, rnd: u8)
    requires
        m.wf(),
        x < 16,
        y < 16,
        x != VF,
        m.pc + 1 < MEMORY_SIZE,
    ensures
        ({
            let src = if m.cosmac_quirks { m.v[y as int] } else { m.v[x as int] };
            let r = spec_execute(m, Instruction::ShiftRight { x, y }, keys, render, rnd)->Ok_0;
            let l = spec_execute(m, Instruction::ShiftLeft { x, y }, keys, render, rnd)->Ok_0;
            &&& r.v[x as int] == src / 2
            &&& r.v[VF as int] == src % 2
            &&& l.v[x as int] == (src * 2) % 256
            &&& l.v[VF as int] == src / 128
        }),
{
}

/// Where Vx and Vy differ in the bits that survive a right shift, the two
/// modes leave different values in Vx.
pub proof fn lemma_shift_modes_differ(m: MachineView, x: u8, y: u8, keys: Chip8Keypad, render: bool, rnd: u8)
    requires
        m.wf(),
        x < 16,
        y < 16,
        x != VF,
        m.pc + 1 < MEMORY_SIZE,
        m.v[x as int] / 2 != m.v[y as int] / 2,
    ensures
        spec_execute(MachineView { cosmac_quirks: true, ..m }, Instruction::ShiftRight { x, y }, keys, render, rnd)->Ok_0.v[x as int]
            != spec_execute(MachineView { cosmac_quirks: false, ..m }, Instruction::ShiftRight { x, y }, keys, render, rnd)->Ok_0.v[x as int],
{
}

/// 8xy1, 8xy2 and 8xy3 clear VF in quirk mode and leave it alone otherwise.
pub proof fn lemma_bitwise_flag(m: MachineView, x: u8, y: u8, keys: Chip8Keypad, render: bool, rnd: u8)
    requires
        m.wf(),
        x < 16,
        y < 16,
        x != VF,
        m.pc + 1 < MEMORY_SIZE,
    ensures
        ({
            let or = spec_execute(m, Instruction::Or { x, y }, keys, render, rnd)->Ok_0;
            let and = spec_execute(m, Instruction::And { x, y }, keys, render, rnd)->Ok_0;
            let xor = spec_execute(m, Instruction::Xor { x, y }, keys, render, rnd)->Ok_0;
            &&& or.v[x as int] == m.v[x as int] | m.v[y as int]
            &&& and.v[x as int] == m.v[x as int] & m.v[y as int]
            &&& xor.v[x as int] == m.v[x as int] ^ m.v[y as int]
            &&& or.v[VF as int] == if m.cosmac_quirks { 0 } else { m.v[VF as int] }
            &&& and.v[VF as int] == if m.cosmac_quirks { 0 } else { m.v[VF as int] }
            &&& xor.v[VF as int] == if m.cosmac_quirks { 0 } else { m.v[VF as int] }
        }),
{
}

/// Dxyn waits, changing nothing, until a frame has been presented; then it
/// draws once and moves past itself, with VF = 1 exactly when a set pixel
/// was hit.
pub proof fn lemma_draw_waits_for_render(m: MachineView, x: u8, y: u8, n: u8, keys: Chip8Keypad, rnd: u8)
    requires
        m.wf(),
        x < 16,
        y < 16,
        n < 16,
        m.pc + 1 < MEMORY_SIZE,
    ensures
        spec_execute(m, Instruction::Draw { x, y, n }, keys, false, rnd) == Ok::<MachineView, crate::error::Chip8Error>(m),
        spec_execute(m, Instruction::Draw { x, y, n }, keys, true, rnd) matches Ok(r) ==> {
            let v1 = m.v.update(VF as int, 0);
            let x0 = v1[x as int] % 64;
            let y0 = v1[y as int] % 32;
            &&& r.pc == m.pc + 2
            &&& r.v[VF as int] == if collides(m.display, m.ram, m.i as int, x0 as int, y0 as int, n as int) { 1u8 } else { 0u8 }
        },
{
}

/// A sprite's origin wraps to Vx mod 64, Vy mod 32, but the sprite itself is
/// clipped: no pixel left of or above its origin changes.
pub proof fn lemma_draw_clips(m: MachineView, x: u8, y: u8, n: u8, keys: Chip8Keypad, rnd: u8)
    requires
        m.wf(),
        x < 16,
        y < 16,
        x != VF,
        y != VF,
        n < 16,
        m.pc + 1 < MEMORY_SIZE,
    ensures
        spec_execute(m, Instruction::Draw { x, y, n }, keys, true, rnd) matches Ok(r) ==> {
            let x0 = m.v[x as int] % 64;
            let y0 = m.v[y as int] % 32;
            &&& forall|k: int| 0 <= k < DISPLAY_SIZE && (k % 64 < x0 || k / 64 < y0)
                ==> #[trigger] r.display[k] == m.display[k]
            &&& n > 0 ==> r.display[y0 * 64 + x0] == (m.display[y0 * 64 + x0] != sprite_bit(m.ram[m.i as int], 0))
        },
{
    let x0 = m.v[x as int] % 64;
    let y0 = m.v[y as int] % 32;
    let k0 = y0 * 64 + x0;
    lemma_fundamental_div_mod_converse(k0 as int, DISPLAY_WIDTH as int, y0 as int, x0 as int);
    assert(hit(m.ram, m.i as int, x0 as int, y0 as int, n as int, k0) == (n > 0 && sprite_bit(m.ram[m.i as int], 0)));
}

/// Fx0A waits, changing nothing, while no key went from pressed to released;
/// on a release it stores the lowest released key in Vx and moves on.
pub proof fn lemma_get_key(m: MachineView, x: u8, keys: Chip8Keypad, render: bool, rnd: u8)
    requires
        m.wf(),
        x < 16,
        m.pc + 1 < MEMORY_SIZE,
    ensures
        (forall|j: int| 0 <= j < 16 ==> !released(keys, j))
            ==> spec_execute(m, Instruction::GetKey { x }, keys, render, rnd) == Ok::<MachineView, crate::error::Chip8Error>(m),
        (exists|j: int| 0 <= j < 16 && released(keys, j)) ==> {
            let r = spec_execute(m, Instruction::GetKey { x }, keys, render, rnd)->Ok_0;
            let k = r.v[x as int] as int;
            &&& r.pc == m.pc + 2
            &&& 0 <= k < 16
            &&& released(keys, k)
            &&& forall|j: int| 0 <= j < k ==> !released(keys, j)
        },
{
    lemma_first_released(keys);
    if exists|j: int| 0 <= j < 16 && released(keys, j) {
        let j = choose|j: int| 0 <= j < 16 && released(keys, j);
        assert(first_released(keys) <= j);
    }
}

/// With exactly one interval elapsed, each timer goes down by one, stopping
/// at zero, and the accumulated remainder is kept.
pub proof fn lemma_timer_one_interval(m: MachineView)
    requires
        m.wf(),
    ensures
        ({
            let r = update_timers_spec(m, TIMER_DECREMENT_INTERVAL_US as u64);
            &&& r.delay_timer == if m.delay_timer > 0 { m.delay_timer - 1 } else { 0 }
            &&& r.sound_timer == if m.sound_timer > 0 { m.sound_timer - 1 } else { 0 }
            &&& r.elapsed_us == m.elapsed_us
        }),
{
    let total = m.elapsed_us + TIMER_DECREMENT_INTERVAL_US;
    lemma_fundamental_div_mod_converse(total, TIMER_DECREMENT_INTERVAL_US as int, 1, m.elapsed_us as int);
}

/// Time handed over in two parts has the same effect as handed over at once:
/// no time is lost between intervals.
pub proof fn lemma_timers_no_drift(m: MachineView, a: u64, b: u64)
    requires
        m.wf(),
        a + b <= u64::MAX,
    ensures
        update_timers_spec(update_timers_spec(m, a), b) == update_timers_spec(m, (a + b) as u64),
{
    let i = TIMER_DECREMENT_INTERVAL_US as int;
    let t = m.elapsed_us + a;
    let t2 = t % i + b;
    lemma_fundamental_div_mod(t, i);
    lemma_fundamental_div_mod(t2, i);
    lemma_fundamental_div_mod_converse(t + b, i, t / i + t2 / i, t2 % i);
    let k1 = t / i;
    let k2 = t2 / i;
    assert(timer_after(timer_after(m.delay_timer, k1), k2) == timer_after(m.delay_timer, k1 + k2));
    assert(timer_after(timer_after(m.sound_timer, k1), k2) == timer_after(m.sound_timer, k1 + k2));
}

/// Fx55 and Fx65 leave I moved past the x + 1 registers in quirk mode and
/// unchanged otherwise.
pub proof fn lemma_store_load_index(m: MachineView, x: u8, keys: Chip8Keypad, render: bool, rnd: u8)
    requires
        m.wf(),
        x < 16,
        m.pc + 1 < MEMORY_SIZE,
        m.i + x < MEMORY_SIZE,
    ensures
        ({
            let s = spec_execute(m, Instruction::Store { x }, keys, render, rnd)->Ok_0;
            let l = spec_execute(m, Instruction::Load { x }, keys, render, rnd)->Ok_0;
            &&& s.i == if m.cosmac_quirks { m.i + x + 1 } else { m.i as int }
            &&& l.i == if m.cosmac_quirks { m.i + x + 1 } else { m.i as int }
            &&& forall|k: int| 0 <= k <= x ==> s.ram[m.i + k] == m.v[k]
            &&& forall|k: int| 0 <= k <= x ==> l.v[k] == m.ram[m.i + k]
        }),
{
}

/// Fx33 writes the hundreds, tens and units of Vx at I, I+1, I+2.
pub proof fn lemma_bcd_digits(m: MachineView, x: u8, keys: Chip8Keypad, render: bool, rnd: u8)
    requires
        m.wf(),
        x < 16,
        m.pc + 1 < MEMORY_SIZE,
        m.i + 2 < MEMORY_SIZE,
    ensures
        ({
            let r = spec_execute(m, Instruction::Bcd { x }, keys, render, rnd)->Ok_0;
            let (d0, d1, d2) = (r.ram[m.i as int], r.ram[m.i + 1], r.ram[m.i + 2]);
            &&& d0 < 10 && d1 < 10 && d2 < 10
            &&& 100 * d0 + 10 * d1 + d2 == m.v[x as int]
        }),
{
}

/// The sum of a sequence of elapsed times.
pub open spec fn total_us(ds: Seq<u64>) -> int
    decreases ds.len(),
{
    if ds.len() == 0 { 0 } else { total_us(ds.drop_last()) + ds.last() }
}

/// The machine after the timer updates for each of `ds`, in order.
pub open spec fn timers_after_each(m: MachineView, ds: Seq<u64>) -> MachineView
    decreases ds.len(),
{
    if ds.len() == 0 { m } else { update_timers_spec(timers_after_each(m, ds.drop_last()), ds.last()) }
}

/// Any number of timer updates has the effect of one update by their total:
/// each timer drops by one per whole interval in the accumulated time, never
/// below zero, and the remainder carries over without drift.
pub proof fn lemma_timers_over_many_calls(m: MachineView, ds: Seq<u64>)
    requires
        m.wf(),
        total_us(ds) <= u64::MAX,
    ensures
        timers_after_each(m, ds) == update_timers_spec(m, total_us(ds) as u64),
        ({
            let ticks = (m.elapsed_us + total_us(ds)) / TIMER_DECREMENT_INTERVAL_US as int;
            let r = timers_after_each(m, ds);
            &&& r.delay_timer == timer_after(m.delay_timer, ticks)
            &&& r.sound_timer == timer_after(m.sound_timer, ticks)
            &&& r.elapsed_us == (m.elapsed_us + total_us(ds)) % TIMER_DECREMENT_INTERVAL_US as int
        }),
    decreases ds.len(),
{
    if ds.len() == 0 {
        let i = TIMER_DECREMENT_INTERVAL_US as int;
        lemma_fundamental_div_mod_converse(m.elapsed_us as int, i, 0, m.elapsed_us as int);
        assert(update_timers_spec(m, 0) == m);
    } else {
        let init = ds.drop_last();
        assert(total_us(init) >= 0) by {
            lemma_total_nonneg(init);
        }
        lemma_timers_over_many_calls(m, init);
        lemma_timers_no_drift(m, total_us(init) as u64, ds.last());
    }
}

proof fn lemma_total_nonneg(ds: Seq<u64>)
    ensures
        total_us(ds) >= 0,
    decreases ds.len(),
{
    if ds.len() > 0 {
        lemma_total_nonneg(ds.drop_last());
    }
}

/// Executing an instruction changes a timer only through Fx15 and Fx18, and
/// never touches the accumulated time.
pub proof fn lemma_execute_keeps_timers(m: MachineView, ins: Instruction, keys: Chip8Keypad, render: bool, rnd: u8)
    requires
        m.wf(),
        ins.wf(),
        m.pc + 1 < MEMORY_SIZE,
    ensures
        spec_execute(m, ins, keys, render, rnd) matches Ok(r) ==> {
            &&& r.elapsed_us == m.elapsed_us
            &&& !(ins is SetDelay) ==> r.delay_timer == m.delay_timer
            &&& !(ins is SetSound) ==> r.sound_timer == m.sound_timer
        },
{
}

} // verus!

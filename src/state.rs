//! The mathematical model of the machine and the meaning of each instruction.
use vstd::prelude::*;
use crate::exception::Exception;
use crate::font::font;

verus! {

/// Everything a program can observe of the machine.
pub ghost struct MachineState {
    pub mem: Seq<u8>,
    pub v: Seq<u8>,
    pub i: u16,
    pub pc: u16,
    pub stack: Seq<u16>,
    pub sp: u8,
    pub dt: u8,
    pub st: u8,
    pub keypad: Seq<bool>,
    pub fb: Seq<bool>,
}

impl MachineState {
    /// Memory, registers, stack, keypad and framebuffer have their fixed sizes,
    /// and the stack pointer stays within the stack.
    pub open spec fn wf(self) -> bool {
        &&& self.mem.len() == 4096
        &&& self.v.len() == 16
        &&& self.stack.len() == 16
        &&& self.sp <= 16
        &&& self.keypad.len() == 16
        &&& self.fb.len() == 2048
    }
}

/// The state right after construction or reset: the font at address 0,
/// the program counter at the entry address, everything else zero.
pub open spec fn initial_state() -> MachineState {
    MachineState {
        mem: Seq::new(4096, |a: int| if a < 80 { font()[a] } else { 0u8 }),
        v: Seq::new(16, |k: int| 0u8),
        i: 0,
        pc: 512,
        stack: Seq::new(16, |k: int| 0u16),
        sp: 0,
        dt: 0,
        st: 0,
        keypad: Seq::new(16, |k: int| false),
        fb: Seq::new(2048, |p: int| false),
    }
}

/// A timer after one tick: one less, but never below zero.
pub open spec fn count_down(t: u8) -> u8 {
    if t > 0 { (t - 1) as u8 } else { 0 }
}

/// The instruction word at `pc`, high byte first.
pub open spec fn fetch_word(mem: Seq<u8>, pc: int) -> u16 {
    (mem[pc] * 256 + mem[pc + 1]) as u16
}

/// Top nibble: the opcode family.
pub open spec fn op_family(op: u16) -> int { op as int / 4096 }

/// Second nibble: register index x.
pub open spec fn op_x(op: u16) -> int { (op as int / 256) % 16 }

/// Third nibble: register index y.
pub open spec fn op_y(op: u16) -> int { (op as int / 16) % 16 }

/// Low nibble: immediate n.
pub open spec fn op_n(op: u16) -> int { op as int % 16 }

/// Low byte: immediate nn.
pub open spec fn op_nn(op: u16) -> u8 { (op % 256) as u8 }

/// Low 12 bits: address nnn.
pub open spec fn op_nnn(op: u16) -> u16 { (op % 4096) as u16 }

/// The first address at or past the end of memory that a block operation
/// starting at `i` touches.
pub open spec fn first_out_of_range(i: u16) -> u16 {
    if i >= 4096 { i } else { 4096 }
}

/// `s` with register `x` set to `val`.
pub open spec fn with_reg(s: MachineState, x: int, val: u8) -> MachineState {
    MachineState { v: s.v.update(x, val), ..s }
}

/// `s` with the next instruction skipped.
pub open spec fn skip(s: MachineState) -> MachineState {
    MachineState { pc: (s.pc + 2) as u16, ..s }
}

/// `s`, skipping the next instruction when `cond` holds.
pub open spec fn skip_if(s: MachineState, cond: bool) -> MachineState {
    if cond { skip(s) } else { s }
}

/// Key `k` is pressed and no key of a lower index is.
pub open spec fn is_first_pressed(keys: Seq<bool>, k: int) -> bool {
    &&& 0 <= k < keys.len()
    &&& keys[k]
    &&& forall|j: int| 0 <= j < k ==> !keys[j]
}

/// Some key is pressed.
pub open spec fn any_pressed(keys: Seq<bool>) -> bool {
    exists|j: int| 0 <= j < keys.len() && keys[j]
}

/// Row of a sprite that lands on pixel `p` when drawn from row `y`.
pub open spec fn sprite_row(y: int, p: int) -> int {
    (p / 64 - y) % 32
}

/// Bit (column) of a sprite byte that lands on pixel `p` when drawn from column `x`.
pub open spec fn sprite_col(x: int, p: int) -> int {
    (p % 64 - x) % 64
}

/// Bit `b` of a sprite byte, counted from the most significant.
pub open spec fn sprite_bit(byte: u8, b: int) -> bool {
    byte & (0x80u8 >> (b as u8)) != 0
}

/// Drawing the `n`-byte sprite at `mem[i..i + n]` at column `x`, row `y`
/// flips pixel `p`: some set sprite bit lands on it, coordinates wrapping.
pub open spec fn sprite_covers(mem: Seq<u8>, i: int, n: int, x: int, y: int, p: int) -> bool {
    let r = sprite_row(y, p);
    let b = sprite_col(x, p);
    r < n && b < 8 && sprite_bit(mem[i + r], b)
}

/// The framebuffer after drawing: each covered pixel flipped.
pub open spec fn drawn_fb(s: MachineState, n: int, x: int, y: int) -> Seq<bool> {
    Seq::new(2048, |p: int| s.fb[p] != sprite_covers(s.mem, s.i as int, n, x, y, p))
}

/// Drawing turns off some pixel that was on.
pub open spec fn draw_collides(s: MachineState, n: int, x: int, y: int) -> bool {
    exists|p: int| 0 <= p < 2048 && s.fb[p] && sprite_covers(s.mem, s.i as int, n, x, y, p)
}

/// Draw the `n`-byte sprite at the index register at the position held by
/// registers `x` and `y`; register F is the collision flag.
pub open spec fn draw_spec(s: MachineState, x: int, y: int, n: int) -> Result<MachineState, Exception> {
    if s.i + n > 4096 {
        Err(Exception::OutOfMemory(first_out_of_range(s.i)))
    } else {
        let vx = s.v[x] as int;
        let vy = s.v[y] as int;
        let t = MachineState { fb: drawn_fb(s, n, vx, vy), ..s };
        Ok(with_reg(t, 15, if draw_collides(s, n, vx, vy) { 1u8 } else { 0u8 }))
    }
}

/// Family 0: no-op, clear the screen, return.
pub open spec fn exec_sys(s: MachineState, op: u16) -> Result<MachineState, Exception> {
    let nn = op_nn(op);
    if nn == 0x00 {
        Ok(s)
    } else if nn == 0xE0 {
        Ok(MachineState { fb: Seq::new(2048, |p: int| false), ..s })
    } else if nn == 0xEE {
        if s.sp == 0 {
            Err(Exception::StackUnderflow(0))
        } else {
            Ok(MachineState { sp: (s.sp - 1) as u8, pc: s.stack[s.sp - 1], ..s })
        }
    } else {
        Err(Exception::IllegalOpcode(op))
    }
}

/// Family 8: register-to-register arithmetic and logic.
pub open spec fn exec_alu(s: MachineState, op: u16) -> Result<MachineState, Exception> {
    let x = op_x(op);
    let vx = s.v[x] as int;
    let vy = s.v[op_y(op)] as int;
    let n = op_n(op);
    if n == 0 {
        Ok(with_reg(s, x, vy as u8))
    } else if n == 1 {
        Ok(with_reg(s, x, (vx as u8) | (vy as u8)))
    } else if n == 2 {
        Ok(with_reg(s, x, (vx as u8) & (vy as u8)))
    } else if n == 3 {
        Ok(with_reg(s, x, (vx as u8) ^ (vy as u8)))
    } else if n == 4 {
        Ok(with_reg(with_reg(s, x, ((vx + vy) % 256) as u8), 15, if vx + vy >= 256 { 1u8 } else { 0u8 }))
    } else if n == 5 {
        Ok(with_reg(with_reg(s, x, ((vx - vy) % 256) as u8), 15, if vx >= vy { 1u8 } else { 0u8 }))
    } else if n == 6 {
        Ok(with_reg(with_reg(s, 15, (vx % 2) as u8), x, (vx / 2) as u8))
    } else if n == 7 {
        Ok(with_reg(with_reg(s, x, ((vy - vx) % 256) as u8), 15, if vy >= vx { 1u8 } else { 0u8 }))
    } else if n == 0xE {
        Ok(with_reg(with_reg(s, 15, if vx >= 128 { 1u8 } else { 0u8 }), x, ((vx * 2) % 256) as u8))
    } else {
        Err(Exception::IllegalOpcode(op))
    }
}

/// Family E: skip on the first pressed key.
pub open spec fn exec_key(s: MachineState, op: u16) -> Result<MachineState, Exception> {
    let vx = s.v[op_x(op)] as int;
    let nn = op_nn(op);
    if nn == 0x9E {
        Ok(skip_if(s, is_first_pressed(s.keypad, vx)))
    } else if nn == 0xA1 {
        Ok(skip_if(s, any_pressed(s.keypad) && !is_first_pressed(s.keypad, vx)))
    } else {
        Err(Exception::IllegalOpcode(op))
    }
}

/// Memory after storing the decimal digits of `val` at `i`.
pub open spec fn bcd_mem(mem: Seq<u8>, i: int, val: u8) -> Seq<u8> {
    mem.update(i, val / 100).update(i + 1, (val / 10) % 10).update(i + 2, val % 10)
}

/// Memory after storing registers 0 to x inclusive from `i` on.
pub open spec fn stored_mem(s: MachineState, x: int) -> Seq<u8> {
    Seq::new(4096, |a: int| if s.i <= a <= s.i + x { s.v[a - s.i] } else { s.mem[a] })
}

/// Registers after loading registers 0 to x inclusive from memory at `i`.
pub open spec fn loaded_regs(s: MachineState, x: int) -> Seq<u8> {
    Seq::new(16, |k: int| if k <= x { s.mem[s.i + k] } else { s.v[k] })
}

/// Family F: timers, index arithmetic, decimal digits, register blocks,
/// waiting for a key.
pub open spec fn exec_misc(s: MachineState, op: u16) -> Result<MachineState, Exception> {
    let x = op_x(op);
    let vx = s.v[x];
    let nn = op_nn(op);
    if nn == 0x07 {
        Ok(with_reg(s, x, s.dt))
    } else if nn == 0x0A {
        Ok(if is_first_pressed(s.keypad, vx as int) { s } else { MachineState { pc: (s.pc - 2) as u16, ..s } })
    } else if nn == 0x15 {
        Ok(MachineState { dt: vx, ..s })
    } else if nn == 0x18 {
        Ok(MachineState { st: vx, ..s })
    } else if nn == 0x1E {
        Ok(MachineState { i: ((s.i + vx) % 65536) as u16, ..s })
    } else if nn == 0x29 {
        Ok(MachineState { i: (5 * vx) as u16, ..s })
    } else if nn == 0x33 {
        if s.i + 3 > 4096 {
            Err(Exception::OutOfMemory(first_out_of_range(s.i)))
        } else {
            Ok(MachineState { mem: bcd_mem(s.mem, s.i as int, vx), ..s })
        }
    } else if nn == 0x55 {
        if s.i + x >= 4096 {
            Err(Exception::IllegalAddress(first_out_of_range(s.i)))
        } else {
            Ok(MachineState { mem: stored_mem(s, x), ..s })
        }
    } else if nn == 0x65 {
        if s.i + x >= 4096 {
            Err(Exception::IllegalAddress(first_out_of_range(s.i)))
        } else {
            Ok(MachineState { v: loaded_regs(s, x), ..s })
        }
    } else {
        Err(Exception::IllegalOpcode(op))
    }
}

/// Executing instruction `op` on `s`, whose program counter already points
/// past it; `rnd` is the byte the random source hands out. On failure the
/// state stays as it was.
pub open spec fn exec_spec(s: MachineState, op: u16, rnd: u8) -> Result<MachineState, Exception> {
    let d = op_family(op);
    let x = op_x(op);
    let vx = s.v[x];
    let vy = s.v[op_y(op)];
    let nn = op_nn(op);
    let nnn = op_nnn(op);
    if d == 0 {
        exec_sys(s, op)
    } else if d == 1 {
        Ok(MachineState { pc: nnn, ..s })
    } else if d == 2 {
        if s.sp >= 16 {
            Err(Exception::StackOverflow(s.sp))
        } else {
            Ok(MachineState { stack: s.stack.update(s.sp as int, s.pc), sp: (s.sp + 1) as u8, pc: nnn, ..s })
        }
    } else if d == 3 {
        Ok(skip_if(s, vx == nn))
    } else if d == 4 {
        Ok(skip_if(s, vx != nn))
    } else if d == 5 {
        Ok(skip_if(s, vx == vy))
    } else if d == 6 {
        Ok(with_reg(s, x, nn))
    } else if d == 7 {
        Ok(with_reg(s, x, ((vx + nn) % 256) as u8))
    } else if d == 8 {
        exec_alu(s, op)
    } else if d == 9 {
        Ok(skip_if(s, vx != vy))
    } else if d == 0xA {
        Ok(MachineState { i: nnn, ..s })
    } else if d == 0xB {
        let t = s.v[0] + nnn;
        if t > 0xFFF {
            Err(Exception::IllegalAddress(t as u16))
        } else {
            Ok(MachineState { pc: t as u16, ..s })
        }
    } else if d == 0xC {
        Ok(with_reg(s, x, if nn == 0 { 0u8 } else { rnd % nn }))
    } else if d == 0xD {
        draw_spec(s, x, op_y(op), op_n(op))
    } else if d == 0xE {
        exec_key(s, op)
    } else {
        exec_misc(s, op)
    }
}

/// The state after the timers count down: the first step of every tick.
pub open spec fn timers_ticked(s: MachineState) -> MachineState {
    MachineState { dt: count_down(s.dt), st: count_down(s.st), ..s }
}

/// One tick from `s`: the timers count down; the instruction at the program
/// counter is fetched, the counter steps past it, and the instruction runs.
/// Yields the new state and the outcome.
pub open spec fn tick_spec(s: MachineState, rnd: u8) -> (MachineState, Result<(), Exception>) {
    let t = timers_ticked(s);
    if t.pc + 1 >= 4096 {
        (t, Err(Exception::OutOfMemory(t.pc)))
    } else {
        let u = MachineState { pc: (t.pc + 2) as u16, ..t };
        match exec_spec(u, fetch_word(t.mem, t.pc as int), rnd) {
            Ok(w) => (w, Ok(())),
            Err(e) => (u, Err(e)),
        }
    }
}

} // verus!

verus! {

/// Memory after copying `bin` to it from address `offset` on.
pub open spec fn program_loaded(mem: Seq<u8>, offset: int, bin: Seq<u8>) -> Seq<u8> {
    Seq::new(mem.len(), |a: int| if offset <= a < offset + bin.len() { bin[a - offset] } else { mem[a] })
}

} // verus!

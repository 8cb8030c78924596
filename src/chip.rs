//! The machine: its state, construction, loading, input, output and the tick.
use vstd::prelude::*;
use rand::rngs::SmallRng;
use crate::exception::Exception;
use crate::font::{font, font_table};
use crate::rng::{random_byte, seeded_rng};
use crate::state::{
    any_pressed, bcd_mem, draw_spec, exec_alu, exec_key, exec_misc, exec_spec, exec_sys,
    first_out_of_range, initial_state, is_first_pressed, loaded_regs, program_loaded,
    sprite_bit, sprite_col, sprite_covers, sprite_row, stored_mem, tick_spec, with_reg,
    MachineState,
};
use crate::{DISP_HEIGHT, DISP_WIDTH, ENTRY_ADDR, FB_SIZE, FONT_SIZE, KEY_NUM, MEM_SIZE, REG_NUM, STACK_SIZE};

verus! {

/// A CHIP-8 machine, exclusively owned by the loop that drives it.
pub struct Chip {
    mem: Vec<u8>,
    v: Vec<u8>,
    i: u16,
    pc: u16,
    stack: Vec<u16>,
    sp: u8,
    dt: u8,
    st: u8,
    keypad: Vec<bool>,
    fb: Vec<bool>,
    rng: SmallRng,
}

impl View for Chip {
    type V = MachineState;

    closed spec fn view(&self) -> MachineState {
        MachineState {
            mem: self.mem@,
            v: self.v@,
            i: self.i,
            pc: self.pc,
            stack: self.stack@,
            sp: self.sp,
            dt: self.dt,
            st: self.st,
            keypad: self.keypad@,
            fb: self.fb@,
        }
    }
}

/// A vector of `n` copies of `val`.
fn filled<T: Copy>(val: T, n: usize) -> (r: Vec<T>)
    ensures
        r@ == Seq::new(n as nat, |k: int| val),
{
    let mut r: Vec<T> = Vec::new();
    let mut k: usize = 0;
    while k < n
        invariant
            k <= n,
            r@ == Seq::new(k as nat, |j: int| val),
        decreases n - k,
    {
        r.push(val);
        k += 1;
        assert(r@ =~= Seq::new(k as nat, |j: int| val));
    }
    r
}

/// Memory as it is after construction: the font, then zeros.
fn initial_memory() -> (r: Vec<u8>)
    ensures
        r@ == initial_state().mem,
{
    let glyphs = font_table();
    let mut r: Vec<u8> = Vec::new();
    let mut a: usize = 0;
    while a < MEM_SIZE
        invariant
            a <= MEM_SIZE,
            glyphs@ == font(),
            r@ == Seq::new(a as nat, |k: int| if k < 80 { font()[k] } else { 0u8 }),
        decreases MEM_SIZE - a,
    {
        if a < FONT_SIZE {
            r.push(glyphs[a]);
        } else {
            r.push(0);
        }
        a += 1;
        assert(r@ =~= Seq::new(a as nat, |k: int| if k < 80 { font()[k] } else { 0u8 }));
    }
    r
}

impl Chip {
    /// The fixed sizes of every part of the machine hold.
    pub open spec fn wf(&self) -> bool {
        self@.wf()
    }

    /// A machine with the font loaded, the program counter at the entry
    /// address, everything else zero, and the random source seeded with `seed`.
    pub fn new(seed: u64) -> (r: Chip)
        ensures
            r@ == initial_state(),
            r.wf(),
    {
        let r = Chip {
            mem: initial_memory(),
            v: filled(0u8, REG_NUM),
            i: 0,
            pc: ENTRY_ADDR,
            stack: filled(0u16, STACK_SIZE),
            sp: 0,
            dt: 0,
            st: 0,
            keypad: filled(false, KEY_NUM),
            fb: filled(false, FB_SIZE),
            rng: seeded_rng(seed),
        };
        assert(r@ =~= initial_state());
        r
    }

    /// Returns every part of the machine to the state right after `new`
    /// and re-seeds the random source; no program is reloaded.
    pub fn reset(&mut self, seed: u64)
        ensures
            final(self)@ == initial_state(),
            final(self).wf(),
    {
        self.mem = initial_memory();
        self.v = filled(0u8, REG_NUM);
        self.i = 0;
        self.pc = ENTRY_ADDR;
        self.stack = filled(0u16, STACK_SIZE);
        self.sp = 0;
        self.dt = 0;
        self.st = 0;
        self.keypad = filled(false, KEY_NUM);
        self.fb = filled(false, FB_SIZE);
        self.rng = seeded_rng(seed);
        assert(self@ =~= initial_state());
    }

    /// Copies `bin` into memory from `offset` on. Fails with `OutOfMemory`,
    /// carrying the program's length, when it does not fit.
    pub fn load_rom(&mut self, offset: u16, bin: &[u8]) -> (r: Result<(), Exception>)
        requires
            old(self).wf(),
        ensures
            final(self).wf(),
            offset + bin@.len() <= 4096 ==> r == Ok::<(), Exception>(()) && final(self)@ == (MachineState {
                mem: program_loaded(old(self)@.mem, offset as int, bin@),
                ..old(self)@
            }),
            offset + bin@.len() > 4096 ==> r == Err::<(), Exception>(Exception::OutOfMemory(#[verifier::truncate] (bin@.len() as u16)))
                && final(self)@ == old(self)@,
    {
        if bin.len() > MEM_SIZE || offset as usize > MEM_SIZE - bin.len() {
            return Err(Exception::OutOfMemory(#[verifier::truncate] (bin.len() as u16)));
        }
        let ghost before = self.mem@;
        let start = offset as usize;
        let mut k: usize = 0;
        while k < bin.len()
            invariant
                k <= bin@.len(),
                start + bin@.len() <= 4096,
                before.len() == 4096,
                self@ == (MachineState { mem: self.mem@, ..old(self)@ }),
                self.mem@ == Seq::new(4096, |a: int| if start <= a < start + k { bin@[a - start] } else { before[a] }),
            decreases bin@.len() - k,
        {
            self.mem.set(start + k, bin[k]);
            k += 1;
            assert(self.mem@ =~= Seq::new(4096, |a: int| if start <= a < start + k { bin@[a - start] } else { before[a] }));
        }
        assert(self.mem@ =~= program_loaded(before, offset as int, bin@));
        Ok(())
    }

    /// Sets the state of key `key`; keys past the last are ignored.
    pub fn set_keypad(&mut self, key: u8, pressed: bool)
        requires
            old(self).wf(),
        ensures
            final(self).wf(),
            key < 16 ==> final(self)@ == (MachineState {
                keypad: old(self)@.keypad.update(key as int, pressed),
                ..old(self)@
            }),
            key >= 16 ==> final(self)@ == old(self)@,
    {
        if key < 16 {
            self.keypad.set(key as usize, pressed);
            assert(self@ =~= (MachineState { keypad: old(self)@.keypad.update(key as int, pressed), ..old(self)@ }));
        }
    }

    /// The framebuffer: 2048 pixels, row-major, 64 to a row.
    pub fn framebuffer(&self) -> (r: &[bool])
        ensures
            r@ == self@.fb,
    {
        self.fb.as_slice()
    }

    /// Whether the sound is on: the sound timer is running.
    pub fn tone(&self) -> (r: bool)
        ensures
            r == (self@.st != 0),
    {
        self.st != 0
    }
}

/// The outcome of an operation matches `spec`: on success the state is the
/// one it gives, on failure the error it gives and the state unchanged.
pub open spec fn follows(spec: Result<MachineState, Exception>, before: MachineState, after: MachineState, r: Result<(), Exception>) -> bool {
    match spec {
        Ok(s) => r == Ok::<(), Exception>(()) && after == s,
        Err(e) => r == Err::<(), Exception>(e) && after == before,
    }
}

/// Pixel `p` is covered by the sprite and drawing has already reached it:
/// its sprite row comes before `row`, or it lies on `row` before bit `col`.
pub open spec fn covered_before(mem: Seq<u8>, i: int, n: int, x: int, y: int, p: int, row: int, col: int) -> bool {
    &&& sprite_covers(mem, i, n, x, y, p)
    &&& (sprite_row(y, p) < row || (sprite_row(y, p) == row && sprite_col(x, p) < col))
}

/// Bit `b` of sprite row `r` drawn at `(x, y)` lands on pixel
/// `(x + b) % 64 + ((y + r) % 32) * 64`, and that pixel's sprite row and bit
/// are `r` and `b` again.
proof fn lemma_pixel_of(x: int, y: int, r: int, b: int)
    requires
        0 <= x < 256,
        0 <= y < 256,
        0 <= r < 32,
        0 <= b < 64,
    ensures
        ({
            let p = (x + b) % 64 + ((y + r) % 32) * 64;
            &&& 0 <= p < 2048
            &&& sprite_row(y, p) == r
            &&& sprite_col(x, p) == b
        }),
{
    let p = (x + b) % 64 + ((y + r) % 32) * 64;
    assert(p / 64 == (y + r) % 32);
    assert(p % 64 == (x + b) % 64);
}

/// A pixel is determined by its sprite row and bit.
proof fn lemma_pixel_unique(x: int, y: int, p: int)
    requires
        0 <= x < 256,
        0 <= y < 256,
        0 <= p < 2048,
    ensures
        p == (x + sprite_col(x, p)) % 64 + ((y + sprite_row(y, p)) % 32) * 64,
{
}

impl Chip {
    /// The lowest-indexed pressed key, if any key is pressed.
    fn first_pressed(&self) -> (r: Option<u8>)
        requires
            self.wf(),
        ensures
            match r {
                Some(k) => is_first_pressed(self@.keypad, k as int),
                None => !any_pressed(self@.keypad),
            },
    {
        let mut k: usize = 0;
        while k < KEY_NUM
            invariant
                k <= 16,
                self.wf(),
                forall|j: int| 0 <= j < k ==> !self@.keypad[j],
            decreases 16 - k,
        {
            if self.keypad[k] {
                return Some(k as u8);
            }
            k += 1;
        }
        None
    }

    /// Skips the next instruction when `cond` holds.
    fn skip_if(&mut self, cond: bool)
        requires
            old(self).wf(),
            old(self).pc <= 4096,
        ensures
            final(self)@ == crate::state::skip_if(old(self)@, cond),
    {
        if cond {
            self.pc = self.pc + 2;
        }
    }

    /// Sets register `x`.
    fn load_reg(&mut self, x: usize, val: u8)
        requires
            old(self).wf(),
            x < 16,
        ensures
            final(self)@ == with_reg(old(self)@, x as int, val),
            final(self).wf(),
    {
        self.v.set(x, val);
    }
}

impl Chip {
    /// Draws the `n`-byte sprite at the index register at the position held
    /// by registers `x` and `y`, flipping each covered pixel; register F
    /// becomes 1 when a pixel that was on is turned off, else 0.
    #[verifier::rlimit(50)]
    fn draw_sprite(&mut self, x: usize, y: usize, n: usize) -> (r: Result<(), Exception>)
        requires
            old(self).wf(),
            x < 16,
            y < 16,
            n < 16,
        ensures
            final(self).wf(),
            follows(draw_spec(old(self)@, x as int, y as int, n as int), old(self)@, final(self)@, r),
    {
        if self.i as usize + n > MEM_SIZE {
            return Err(Exception::OutOfMemory(if self.i >= 4096 { self.i } else { 4096 }));
        }
        let px = self.v[x] as usize;
        let py = self.v[y] as usize;
        let base = self.i as usize;
        let ghost s0 = self@;
        let ghost mem = s0.mem;
        let mut flipped = false;
        let mut row: usize = 0;
        while row < n
            invariant
                s0.wf(),
                self.wf(),
                row <= n,
                n < 16,
                x < 16,
                y < 16,
                base + n <= 4096,
                base == s0.i,
                mem == s0.mem,
                px == s0.v[x as int],
                py == s0.v[y as int],
                self@ == (MachineState { fb: self@.fb, ..s0 }),
                forall|p: int| 0 <= p < 2048 ==> #[trigger] self@.fb[p]
                    == (s0.fb[p] != covered_before(mem, base as int, n as int, px as int, py as int, p, row as int, 0)),
                flipped == exists|p: int| 0 <= p < 2048 && s0.fb[p]
                    && #[trigger] covered_before(mem, base as int, n as int, px as int, py as int, p, row as int, 0),
            decreases n - row,
        {
            let sprite = self.mem[base + row];
            let mut col: usize = 0;
            while col < 8
                invariant
                    s0.wf(),
                    self.wf(),
                    row < n,
                    n < 16,
                    x < 16,
                    y < 16,
                    col <= 8,
                    base + n <= 4096,
                    base == s0.i,
                    mem == s0.mem,
                    sprite == mem[base + row],
                    px == s0.v[x as int],
                    py == s0.v[y as int],
                    self@ == (MachineState { fb: self@.fb, ..s0 }),
                    forall|p: int| 0 <= p < 2048 ==> #[trigger] self@.fb[p]
                        == (s0.fb[p] != covered_before(mem, base as int, n as int, px as int, py as int, p, row as int, col as int)),
                    flipped == exists|p: int| 0 <= p < 2048 && s0.fb[p]
                        && #[trigger] covered_before(mem, base as int, n as int, px as int, py as int, p, row as int, col as int),
                decreases 8 - col,
            {
                let ghost fb0 = self@.fb;
                let ghost flipped0 = flipped;
                let idx = (px + col) % DISP_WIDTH + ((py + row) % DISP_HEIGHT) * DISP_WIDTH;
                proof {
                    lemma_pixel_of(px as int, py as int, row as int, col as int);
                    assert forall|p: int| 0 <= p < 2048 && p != idx implies
                        covered_before(mem, base as int, n as int, px as int, py as int, p, row as int, col as int + 1)
                        == covered_before(mem, base as int, n as int, px as int, py as int, p, row as int, col as int) by {
                        lemma_pixel_unique(px as int, py as int, p);
                    }
                }
                if sprite & (0x80u8 >> col as u8) != 0 {
                    assert(sprite_bit(mem[base + row], col as int));
                    let lit = self.fb[idx];
                    flipped = flipped || lit;
                    self.fb.set(idx, !lit);
                    proof {
                        assert(covered_before(mem, base as int, n as int, px as int, py as int, idx as int, row as int, col as int + 1));
                        if flipped0 {
                            let w = choose|p: int| 0 <= p < 2048 && s0.fb[p]
                                && #[trigger] covered_before(mem, base as int, n as int, px as int, py as int, p, row as int, col as int);
                            assert(covered_before(mem, base as int, n as int, px as int, py as int, w, row as int, col as int + 1));
                        }
                        if flipped {
                            if !flipped0 {
                                assert(s0.fb[idx as int]);
                            }
                        } else {
                            assert forall|p: int| 0 <= p < 2048 && s0.fb[p] implies
                                !covered_before(mem, base as int, n as int, px as int, py as int, p, row as int, col as int + 1) by {
                                if p != idx {
                                    assert(!covered_before(mem, base as int, n as int, px as int, py as int, p, row as int, col as int));
                                }
                            }
                        }
                    }
                } else {
                    proof {
                        assert(!covered_before(mem, base as int, n as int, px as int, py as int, idx as int, row as int, col as int + 1));
                        if flipped0 {
                            let w = choose|p: int| 0 <= p < 2048 && s0.fb[p]
                                && #[trigger] covered_before(mem, base as int, n as int, px as int, py as int, p, row as int, col as int);
                            assert(covered_before(mem, base as int, n as int, px as int, py as int, w, row as int, col as int + 1));
                        } else {
                            assert forall|p: int| 0 <= p < 2048 && s0.fb[p] implies
                                !covered_before(mem, base as int, n as int, px as int, py as int, p, row as int, col as int + 1) by {
                                if p != idx {
                                    assert(!covered_before(mem, base as int, n as int, px as int, py as int, p, row as int, col as int));
                                }
                            }
                        }
                    }
                }
                col += 1;
            }
            proof {
                assert forall|p: int| 0 <= p < 2048 implies
                    covered_before(mem, base as int, n as int, px as int, py as int, p, row as int, 8)
                    == covered_before(mem, base as int, n as int, px as int, py as int, p, row as int + 1, 0) by {}
                if flipped {
                    let w = choose|p: int| 0 <= p < 2048 && s0.fb[p]
                        && #[trigger] covered_before(mem, base as int, n as int, px as int, py as int, p, row as int, 8);
                    assert(covered_before(mem, base as int, n as int, px as int, py as int, w, row as int + 1, 0));
                } else {
                    assert forall|p: int| 0 <= p < 2048 && s0.fb[p] implies
                        !covered_before(mem, base as int, n as int, px as int, py as int, p, row as int + 1, 0) by {
                        assert(!covered_before(mem, base as int, n as int, px as int, py as int, p, row as int, 8));
                    }
                }
            }
            row += 1;
        }
        proof {
            assert forall|p: int| 0 <= p < 2048 implies
                covered_before(mem, base as int, n as int, px as int, py as int, p, n as int, 0)
                == sprite_covers(mem, base as int, n as int, px as int, py as int, p) by {}
            if flipped {
                let w = choose|p: int| 0 <= p < 2048 && s0.fb[p]
                    && #[trigger] covered_before(mem, base as int, n as int, px as int, py as int, p, n as int, 0);
                assert(sprite_covers(mem, base as int, n as int, px as int, py as int, w));
            }
            assert(self@.fb =~= crate::state::drawn_fb(s0, n as int, px as int, py as int));
        }
        self.v.set(15, if flipped { 1 } else { 0 });
        Ok(())
    }
}

impl Chip {
    /// Family 0: no-op, clear the screen, return from a subroutine.
    fn exec_sys(&mut self, op: u16) -> (r: Result<(), Exception>)
        requires
            old(self).wf(),
        ensures
            final(self).wf(),
            follows(exec_sys(old(self)@, op), old(self)@, final(self)@, r),
    {
        let nn = (op % 256) as u8;
        if nn == 0x00 {
            Ok(())
        } else if nn == 0xE0 {
            self.fb = filled(false, FB_SIZE);
            Ok(())
        } else if nn == 0xEE {
            self.ret()
        } else {
            Err(Exception::IllegalOpcode(op))
        }
    }

    /// Pops a return address into the program counter.
    fn ret(&mut self) -> (r: Result<(), Exception>)
        requires
            old(self).wf(),
        ensures
            final(self).wf(),
            old(self)@.sp == 0 ==> r == Err::<(), Exception>(Exception::StackUnderflow(0))
                && final(self)@ == old(self)@,
            old(self)@.sp > 0 ==> r == Ok::<(), Exception>(()) && final(self)@ == (MachineState {
                sp: (old(self)@.sp - 1) as u8,
                pc: old(self)@.stack[old(self)@.sp - 1],
                ..old(self)@
            }),
    {
        if self.sp == 0 {
            return Err(Exception::StackUnderflow(self.sp));
        }
        self.sp = self.sp - 1;
        self.pc = self.stack[self.sp as usize];
        Ok(())
    }

    /// Pushes the program counter and jumps to `addr`.
    fn call(&mut self, addr: u16) -> (r: Result<(), Exception>)
        requires
            old(self).wf(),
        ensures
            final(self).wf(),
            old(self)@.sp >= 16 ==> r == Err::<(), Exception>(Exception::StackOverflow(old(self)@.sp))
                && final(self)@ == old(self)@,
            old(self)@.sp < 16 ==> r == Ok::<(), Exception>(()) && final(self)@ == (MachineState {
                stack: old(self)@.stack.update(old(self)@.sp as int, old(self)@.pc),
                sp: (old(self)@.sp + 1) as u8,
                pc: addr,
                ..old(self)@
            }),
    {
        if self.sp as usize >= STACK_SIZE {
            return Err(Exception::StackOverflow(self.sp));
        }
        let pc = self.pc;
        self.stack.set(self.sp as usize, pc);
        self.sp = self.sp + 1;
        self.pc = addr;
        Ok(())
    }

    /// Family 8: register-to-register arithmetic and logic; register F
    /// takes the carry, the no-borrow bit or the bit shifted out.
    #[verifier::rlimit(40)]
    fn exec_alu(&mut self, op: u16) -> (r: Result<(), Exception>)
        requires
            old(self).wf(),
        ensures
            final(self).wf(),
            follows(exec_alu(old(self)@, op), old(self)@, final(self)@, r),
    {
        let x = ((op / 256) % 16) as usize;
        let n = op % 16;
        let vx = self.v[x];
        let vy = self.v[((op / 16) % 16) as usize];
        if n == 0 {
            self.load_reg(x, vy);
        } else if n == 1 {
            self.load_reg(x, vx | vy);
        } else if n == 2 {
            self.load_reg(x, vx & vy);
        } else if n == 3 {
            self.load_reg(x, vx ^ vy);
        } else if n == 4 {
            let carry = vx as u16 + vy as u16 >= 256;
            self.load_reg(x, vx.wrapping_add(vy));
            self.load_reg(15, if carry { 1 } else { 0 });
        } else if n == 5 {
            self.load_reg(x, vx.wrapping_sub(vy));
            self.load_reg(15, if vx >= vy { 1 } else { 0 });
        } else if n == 6 {
            self.load_reg(15, vx & 1);
            assert((vx & 1) == vx % 2) by (bit_vector);
            self.load_reg(x, vx >> 1);
            assert((vx >> 1) == vx / 2) by (bit_vector);
        } else if n == 7 {
            self.load_reg(x, vy.wrapping_sub(vx));
            self.load_reg(15, if vy >= vx { 1 } else { 0 });
        } else if n == 0xE {
            self.load_reg(15, if vx & 0x80 == 0 { 0 } else { 1 });
            assert((vx & 0x80 == 0) == (vx < 128)) by (bit_vector);
            self.load_reg(x, vx << 1);
            assert((vx << 1) as int == (vx * 2) % 256) by (bit_vector);
        } else {
            return Err(Exception::IllegalOpcode(op));
        }
        Ok(())
    }

    /// Family E: skips on the first pressed key being, or not being, the
    /// one register x names.
    fn exec_key(&mut self, op: u16) -> (r: Result<(), Exception>)
        requires
            old(self).wf(),
            old(self).pc <= 4096,
        ensures
            final(self).wf(),
            follows(exec_key(old(self)@, op), old(self)@, final(self)@, r),
    {
        let vx = self.v[((op / 256) % 16) as usize];
        let nn = (op % 256) as u8;
        let key = self.first_pressed();
        if nn == 0x9E {
            let hit = match key {
                Some(k) => k == vx,
                None => false,
            };
            self.skip_if(hit);
            Ok(())
        } else if nn == 0xA1 {
            let miss = match key {
                Some(k) => k != vx,
                None => false,
            };
            self.skip_if(miss);
            Ok(())
        } else {
            Err(Exception::IllegalOpcode(op))
        }
    }
}

impl Chip {
    /// Stores the decimal digits of register x (hundreds, tens, units) at
    /// the index register.
    fn store_reg_bcd(&mut self, x: usize) -> (r: Result<(), Exception>)
        requires
            old(self).wf(),
            x < 16,
        ensures
            final(self).wf(),
            old(self)@.i + 3 > 4096 ==> r == Err::<(), Exception>(Exception::OutOfMemory(first_out_of_range(old(self)@.i)))
                && final(self)@ == old(self)@,
            old(self)@.i + 3 <= 4096 ==> r == Ok::<(), Exception>(()) && final(self)@ == (MachineState {
                mem: bcd_mem(old(self)@.mem, old(self)@.i as int, old(self)@.v[x as int]),
                ..old(self)@
            }),
    {
        if self.i as usize + 3 > MEM_SIZE {
            return Err(Exception::OutOfMemory(if self.i >= 4096 { self.i } else { 4096 }));
        }
        let num = self.v[x];
        let at = self.i as usize;
        self.mem.set(at, num / 100);
        self.mem.set(at + 1, (num / 10) % 10);
        self.mem.set(at + 2, num % 10);
        Ok(())
    }

    /// Stores registers 0 to x inclusive in memory from the index register on.
    fn store_regs(&mut self, x: usize) -> (r: Result<(), Exception>)
        requires
            old(self).wf(),
            x < 16,
        ensures
            final(self).wf(),
            old(self)@.i + x >= 4096 ==> r == Err::<(), Exception>(Exception::IllegalAddress(first_out_of_range(old(self)@.i)))
                && final(self)@ == old(self)@,
            old(self)@.i + x < 4096 ==> r == Ok::<(), Exception>(()) && final(self)@ == (MachineState {
                mem: stored_mem(old(self)@, x as int),
                ..old(self)@
            }),
    {
        let base = self.i as usize;
        if base + x >= MEM_SIZE {
            return Err(Exception::IllegalAddress(if self.i >= 4096 { self.i } else { 4096 }));
        }
        let ghost s0 = self@;
        let mut k: usize = 0;
        while k <= x
            invariant
                s0.wf(),
                self.wf(),
                k <= x + 1,
                x < 16,
                base == s0.i,
                base + x < 4096,
                self@ == (MachineState { mem: self@.mem, ..s0 }),
                self@.mem == Seq::new(4096, |a: int| if base <= a < base + k { s0.v[a - base] } else { s0.mem[a] }),
            decreases x + 1 - k,
        {
            let val = self.v[k];
            self.mem.set(base + k, val);
            k += 1;
            assert(self@.mem =~= Seq::new(4096, |a: int| if base <= a < base + k { s0.v[a - base] } else { s0.mem[a] }));
        }
        assert(self@.mem =~= stored_mem(s0, x as int));
        Ok(())
    }

    /// Loads registers 0 to x inclusive from memory from the index register on.
    fn load_regs(&mut self, x: usize) -> (r: Result<(), Exception>)
        requires
            old(self).wf(),
            x < 16,
        ensures
            final(self).wf(),
            old(self)@.i + x >= 4096 ==> r == Err::<(), Exception>(Exception::IllegalAddress(first_out_of_range(old(self)@.i)))
                && final(self)@ == old(self)@,
            old(self)@.i + x < 4096 ==> r == Ok::<(), Exception>(()) && final(self)@ == (MachineState {
                v: loaded_regs(old(self)@, x as int),
                ..old(self)@
            }),
    {
        let base = self.i as usize;
        if base + x >= MEM_SIZE {
            return Err(Exception::IllegalAddress(if self.i >= 4096 { self.i } else { 4096 }));
        }
        let ghost s0 = self@;
        let mut k: usize = 0;
        while k <= x
            invariant
                s0.wf(),
                self.wf(),
                k <= x + 1,
                x < 16,
                base == s0.i,
                base + x < 4096,
                self@ == (MachineState { v: self@.v, ..s0 }),
                self@.v == Seq::new(16, |j: int| if j < k { s0.mem[base + j] } else { s0.v[j] }),
            decreases x + 1 - k,
        {
            let val = self.mem[base + k];
            self.v.set(k, val);
            k += 1;
            assert(self@.v =~= Seq::new(16, |j: int| if j < k { s0.mem[base + j] } else { s0.v[j] }));
        }
        assert(self@.v =~= loaded_regs(s0, x as int));
        Ok(())
    }

    /// Family F: timers, index arithmetic, font glyphs, decimal digits,
    /// register blocks, and waiting for a key.
    fn exec_misc(&mut self, op: u16) -> (r: Result<(), Exception>)
        requires
            old(self).wf(),
            2 <= old(self).pc <= 4096,
        ensures
            final(self).wf(),
            follows(exec_misc(old(self)@, op), old(self)@, final(self)@, r),
    {
        let x = ((op / 256) % 16) as usize;
        let nn = (op % 256) as u8;
        let vx = self.v[x];
        if nn == 0x07 {
            let dt = self.dt;
            self.load_reg(x, dt);
            Ok(())
        } else if nn == 0x0A {
            let key = self.first_pressed();
            let ready = match key {
                Some(k) => k == vx,
                None => false,
            };
            if !ready {
                self.pc = self.pc - 2;
            }
            Ok(())
        } else if nn == 0x15 {
            self.dt = vx;
            Ok(())
        } else if nn == 0x18 {
            self.st = vx;
            Ok(())
        } else if nn == 0x1E {
            self.i = self.i.wrapping_add(vx as u16);
            Ok(())
        } else if nn == 0x29 {
            self.i = 5 * vx as u16;
            Ok(())
        } else if nn == 0x33 {
            self.store_reg_bcd(x)
        } else if nn == 0x55 {
            self.store_regs(x)
        } else if nn == 0x65 {
            self.load_regs(x)
        } else {
            Err(Exception::IllegalOpcode(op))
        }
    }

    /// Executes instruction `op`; the program counter already points past
    /// it. `rnd` is the byte the random source handed out for this tick.
    fn execute(&mut self, op: u16, rnd: u8) -> (r: Result<(), Exception>)
        requires
            old(self).wf(),
            2 <= old(self).pc <= 4096,
        ensures
            final(self).wf(),
            follows(exec_spec(old(self)@, op, rnd), old(self)@, final(self)@, r),
    {
        let d = op / 4096;
        let x = ((op / 256) % 16) as usize;
        let y = ((op / 16) % 16) as usize;
        let n = (op % 16) as usize;
        let nn = (op % 256) as u8;
        let nnn = op % 4096;
        let vx = self.v[x];
        let vy = self.v[y];
        if d == 0 {
            self.exec_sys(op)
        } else if d == 1 {
            self.pc = nnn;
            Ok(())
        } else if d == 2 {
            self.call(nnn)
        } else if d == 3 {
            self.skip_if(vx == nn);
            Ok(())
        } else if d == 4 {
            self.skip_if(vx != nn);
            Ok(())
        } else if d == 5 {
            self.skip_if(vx == vy);
            Ok(())
        } else if d == 6 {
            self.load_reg(x, nn);
            Ok(())
        } else if d == 7 {
            self.load_reg(x, vx.wrapping_add(nn));
            Ok(())
        } else if d == 8 {
            self.exec_alu(op)
        } else if d == 9 {
            self.skip_if(vx != vy);
            Ok(())
        } else if d == 0xA {
            self.i = nnn;
            Ok(())
        } else if d == 0xB {
            let target = self.v[0] as u16 + nnn;
            if target > 0xFFF {
                return Err(Exception::IllegalAddress(target));
            }
            self.pc = target;
            Ok(())
        } else if d == 0xC {
            self.load_reg(x, if nn == 0 { 0 } else { rnd % nn });
            Ok(())
        } else if d == 0xD {
            self.draw_sprite(x, y, n)
        } else if d == 0xE {
            self.exec_key(op)
        } else {
            self.exec_misc(op)
        }
    }

    /// One step of the machine, with `rnd` as the byte the random source
    /// hands out should the instruction ask for one: the timers count down;
    /// then, unless the program counter leaves no room for a whole
    /// instruction (`OutOfMemory`), the instruction there is fetched, the
    /// counter steps past it, and the instruction runs.
    pub fn tick_with(&mut self, rnd: u8) -> (r: Result<(), Exception>)
        requires
            old(self).wf(),
        ensures
            final(self).wf(),
            tick_spec(old(self)@, rnd) == (final(self)@, r),
    {
        if self.dt > 0 {
            self.dt = self.dt - 1;
        }
        if self.st > 0 {
            self.st = self.st - 1;
        }
        if self.pc as usize + 1 >= MEM_SIZE {
            return Err(Exception::OutOfMemory(self.pc));
        }
        let op = self.fetch();
        assert(self@ == crate::state::timers_ticked(old(self)@));
        self.pc = self.pc + 2;
        self.execute(op, rnd)
    }

    /// The instruction word at the program counter, high byte first.
    fn fetch(&self) -> (r: u16)
        requires
            self.wf(),
            self@.pc + 1 < 4096,
        ensures
            r == crate::state::fetch_word(self@.mem, self@.pc as int),
    {
        let hi = self.mem[self.pc as usize] as u16;
        let lo = self.mem[self.pc as usize + 1] as u16;
        hi * 256 + lo
    }

    /// One step of the machine: as `tick_with`, drawing the byte from the
    /// machine's random source when the instruction at the program counter
    /// asks for one.
    pub fn tick(&mut self) -> (r: Result<(), Exception>)
        requires
            old(self).wf(),
        ensures
            final(self).wf(),
            exists|rnd: u8| tick_spec(old(self)@, rnd) == (final(self)@, r),
    {
        let wants_random = (self.pc as usize) + 1 < MEM_SIZE && self.mem[self.pc as usize] / 16 == 0xC;
        let rnd = if wants_random { random_byte(&mut self.rng) } else { 0 };
        let ghost before = self@;
        let r = self.tick_with(rnd);
        assert(tick_spec(before, rnd) == (self@, r));
        r
    }
}

impl Chip {
    /// The 16 general-purpose registers.
    pub fn registers(&self) -> (r: &[u8])
        ensures
            r@ == self@.v,
    {
        self.v.as_slice()
    }

    /// The 4096 bytes of memory.
    pub fn memory(&self) -> (r: &[u8])
        ensures
            r@ == self@.mem,
    {
        self.mem.as_slice()
    }

    /// The 16 return-address slots of the call stack.
    pub fn stack(&self) -> (r: &[u16])
        ensures
            r@ == self@.stack,
    {
        self.stack.as_slice()
    }

    /// The state of the 16 keys.
    pub fn keypad(&self) -> (r: &[bool])
        ensures
            r@ == self@.keypad,
    {
        self.keypad.as_slice()
    }

    /// The program counter.
    pub fn program_counter(&self) -> (r: u16)
        ensures
            r == self@.pc,
    {
        self.pc
    }

    /// The index register.
    pub fn index(&self) -> (r: u16)
        ensures
            r == self@.i,
    {
        self.i
    }

    /// The number of stacked return addresses.
    pub fn stack_pointer(&self) -> (r: u8)
        ensures
            r == self@.sp,
    {
        self.sp
    }

    /// The delay timer.
    pub fn delay_timer(&self) -> (r: u8)
        ensures
            r == self@.dt,
    {
        self.dt
    }

    /// The sound timer.
    pub fn sound_timer(&self) -> (r: u8)
        ensures
            r == self@.st,
    {
        self.st
    }
}

} // verus!

//! Laws of the machine, proved over the model that the operations' contracts
//! speak of.
use vstd::prelude::*;
use crate::exception::Exception;
use crate::state::{
    draw_collides, draw_spec, exec_spec, sprite_bit, sprite_col, sprite_covers, sprite_row,
    MachineState,
};

verus! {

/// The instruction word of family `d` with fields x, y and n.
pub open spec fn instruction(d: int, x: int, y: int, n: int) -> u16 {
    (d * 4096 + x * 256 + y * 16 + n) as u16
}

/// Adding register y to register x (`8xy4`, x not the flag register) leaves
/// `(a + b) mod 256` in register x and sets the flag register to 1 exactly
/// when `a + b` reaches 256.
pub proof fn add_with_carry(s: MachineState, x: int, y: int, rnd: u8)
    requires
        s.wf(),
        0 <= x < 15,
        0 <= y < 16,
    ensures
        ({
            let a = s.v[x] as int;
            let b = s.v[y] as int;
            let r = exec_spec(s, instruction(8, x, y, 4), rnd);
            &&& r is Ok
            &&& r->Ok_0.v[x] == (a + b) % 256
            &&& r->Ok_0.v[15] == (if a + b >= 256 { 1u8 } else { 0u8 })
        }),
{
}

/// Subtracting register y from register x (`8xy5`, x not the flag
/// register) leaves `(a - b) mod 256` in register x and sets the flag
/// register to 1 exactly when no borrow occurs, `a >= b`.
pub proof fn subtract_without_borrow(s: MachineState, x: int, y: int, rnd: u8)
    requires
        s.wf(),
        0 <= x < 15,
        0 <= y < 16,
    ensures
        ({
            let a = s.v[x] as int;
            let b = s.v[y] as int;
            let r = exec_spec(s, instruction(8, x, y, 5), rnd);
            &&& r is Ok
            &&& r->Ok_0.v[x] == (a - b) % 256
            &&& r->Ok_0.v[15] == (if a >= b { 1u8 } else { 0u8 })
        }),
{
}

/// Drawing the same sprite twice at the same place (the position registers
/// not being the flag register) gives back the framebuffer as it was; the
/// second draw reports a collision exactly when some pixel the sprite covers
/// was lit by the first, that is, was off before it.
pub proof fn draw_twice_restores(s: MachineState, x: int, y: int, n: int)
    requires
        s.wf(),
        0 <= x < 15,
        0 <= y < 15,
        0 <= n < 16,
        s.i + n <= 4096,
    ensures
        ({
            let once = draw_spec(s, x, y, n);
            let twice = draw_spec(once->Ok_0, x, y, n);
            &&& once is Ok
            &&& twice is Ok
            &&& twice->Ok_0.fb == s.fb
            &&& (twice->Ok_0.v[15] == 1) == exists|p: int|
                0 <= p < 2048 && !s.fb[p] && #[trigger] sprite_covers(s.mem, s.i as int, n, s.v[x] as int, s.v[y] as int, p)
        }),
{
    let once = draw_spec(s, x, y, n)->Ok_0;
    let vx = s.v[x] as int;
    let vy = s.v[y] as int;
    assert(once.v[x] == s.v[x] && once.v[y] == s.v[y]);
    assert(once.mem == s.mem && once.i == s.i);
    let twice = draw_spec(once, x, y, n)->Ok_0;
    assert(twice.fb =~= s.fb);
    if draw_collides(once, n, vx, vy) {
        let p = choose|p: int| 0 <= p < 2048 && once.fb[p] && sprite_covers(once.mem, once.i as int, n, vx, vy, p);
        assert(!s.fb[p]);
    }
    if exists|p: int| 0 <= p < 2048 && !s.fb[p] && #[trigger] sprite_covers(s.mem, s.i as int, n, vx, vy, p) {
        let p = choose|p: int| 0 <= p < 2048 && !s.fb[p] && #[trigger] sprite_covers(s.mem, s.i as int, n, vx, vy, p);
        assert(once.fb[p]);
        assert(draw_collides(once, n, vx, vy));
    }
}

/// Coordinates wrap on both axes: bit `b` of sprite row `r` flips the pixel
/// in column `(x + b) mod 64` of row `(y + r) mod 32`, where x and y are the
/// values of the position registers.
pub proof fn draw_wraps(s: MachineState, x: int, y: int, n: int, r: int, b: int)
    requires
        s.wf(),
        0 <= x < 16,
        0 <= y < 16,
        0 <= n < 16,
        s.i + n <= 4096,
        0 <= r < n,
        0 <= b < 8,
        sprite_bit(s.mem[s.i + r], b),
    ensures
        ({
            let p = (s.v[x] + b) % 64 + ((s.v[y] + r) % 32) * 64;
            let after = draw_spec(s, x, y, n);
            &&& 0 <= p < 2048
            &&& after is Ok
            &&& after->Ok_0.fb[p] == !s.fb[p]
        }),
{
    let p = (s.v[x] + b) % 64 + ((s.v[y] + r) % 32) * 64;
    assert(p / 64 == (s.v[y] + r) % 32);
    assert(p % 64 == (s.v[x] + b) % 64);
    assert(sprite_row(s.v[y] as int, p) == r);
    assert(sprite_col(s.v[x] as int, p) == b);
}

/// A call (`2nnn`) succeeds exactly while fewer than 16 return addresses are
/// stacked, pushing one more; with all 16 slots in use it fails with
/// `StackOverflow`. A return (`00EE`) on an empty stack fails with
/// `StackUnderflow`; otherwise it pops the latest address into the program
/// counter.
pub proof fn stack_discipline(s: MachineState, nnn: int, rnd: u8)
    requires
        s.wf(),
        0 <= nnn < 4096,
    ensures
        ({
            let call = exec_spec(s, (0x2000 + nnn) as u16, rnd);
            &&& s.sp < 16 ==> call is Ok && call->Ok_0.sp == s.sp + 1 && call->Ok_0.pc == nnn
                && call->Ok_0.stack[s.sp as int] == s.pc
            &&& s.sp == 16 ==> call == Err::<MachineState, Exception>(Exception::StackOverflow(16))
        }),
        ({
            let ret = exec_spec(s, 0x00EE, rnd);
            &&& s.sp == 0 ==> ret == Err::<MachineState, Exception>(Exception::StackUnderflow(0))
            &&& s.sp > 0 ==> ret is Ok && ret->Ok_0.sp == s.sp - 1 && ret->Ok_0.pc == s.stack[s.sp - 1]
        }),
{
}

/// A call followed by a return comes back to the address after the call,
/// with the stack as deep as before.
pub proof fn call_then_return(s: MachineState, nnn: int, rnd: u8)
    requires
        s.wf(),
        0 <= nnn < 4096,
        s.sp < 16,
    ensures
        ({
            let called = exec_spec(s, (0x2000 + nnn) as u16, rnd)->Ok_0;
            let back = exec_spec(called, 0x00EE, rnd);
            &&& back is Ok
            &&& back->Ok_0.pc == s.pc
            &&& back->Ok_0.sp == s.sp
        }),
{
}

} // verus!

//! The laws of the cycle engine, proved once and for all over the
//! specification-level transition function that `Chip8::emulate_cycle` is
//! verified against.

use vstd::prelude::*;

use crate::model::{
    fetch, first_key_from, lemma_op_fields, spec_cycle, VmView,
};
use vstd::arithmetic::div_mod::lemma_mod_add_multiples_vanish;

verus! {

/// How an opcode built from its four nibbles decodes.
proof fn lemma_decode(op: u16, f: u16, x: u16, y: u16, k: u16)
    requires
        f < 16,
        x < 16,
        y < 16,
        k < 16,
        op == f * 0x1000 + x * 0x100 + y * 0x10 + k,
    ensures
        op & 0xF000 == f * 0x1000,
        (op & 0x0F00) >> 8 == x,
        (op & 0x00F0) >> 4 == y,
        op & 0x000F == k,
        op & 0x00FF == y * 0x10 + k,
        op & 0x0FFF == x * 0x100 + y * 0x10 + k,
{
    assert(op & 0xF000 == f * 0x1000 && (op & 0x0F00) >> 8 == x && (op & 0x00F0) >> 4 == y && op
        & 0x000F == k && op & 0x00FF == y * 0x10 + k && op & 0x0FFF == x * 0x100 + y * 0x10
        + k) by (bit_vector)
        requires
            f < 16 && x < 16 && y < 16 && k < 16 && op == f * 0x1000 + x * 0x100 + y * 0x10 + k,
    ;
}

/// How an opcode built from its family and a 12-bit operand decodes.
proof fn lemma_decode_nnn(op: u16, f: u16, n: u16)
    requires
        f < 16,
        n < 0x1000,
        op == f * 0x1000 + n,
    ensures
        op & 0xF000 == f * 0x1000,
        op & 0x0FFF == n,
        op & 0x00FF == n % 0x100,
        (op & 0x0F00) >> 8 == n / 0x100,
        op & 0x000F == n % 0x10,
        (op & 0x00F0) >> 4 == (n % 0x100) / 0x10,
{
    assert(op & 0xF000 == f * 0x1000 && op & 0x0FFF == n && op & 0x00FF == n % 0x100 && (op
        & 0x0F00) >> 8 == n / 0x100 && op & 0x000F == n % 0x10 && (op & 0x00F0) >> 4 == (n
        % 0x100) / 0x10) by (bit_vector)
        requires
            f < 16 && n < 0x1000 && op == f * 0x1000 + n,
    ;
}

/// A big-endian opcode assembled from two bytes, in arithmetic form.
proof fn lemma_fetch_bytes(hi: u8, lo: u8)
    ensures
        ((hi as u16) << 8) | (lo as u16) == (hi as u16) * 0x100 + lo as u16,
{
    assert(((hi as u16) << 8) | (lo as u16) == (hi as u16) * 0x100 + lo as u16) by (bit_vector);
}

/// With no key pressed at all, no scan from any start finds one.
proof fn lemma_no_key(kp: Seq<u8>, i: int)
    requires
        forall|j: int| 0 <= j < 16 ==> kp[j] == 0,
    ensures
        first_key_from(kp, i) is None,
    decreases 16 - i,
{
    if 0 <= i < 16 {
        lemma_no_key(kp, i + 1);
    }
}

/// The scan from `i` finds `key` when `key` is pressed and everything
/// below it is not.
proof fn lemma_first_key(kp: Seq<u8>, key: int, i: int)
    requires
        0 <= i <= key < 16,
        kp[key] != 0,
        forall|j: int| 0 <= j < key ==> kp[j] == 0,
    ensures
        first_key_from(kp, i) == Some(key),
    decreases key - i,
{
    if i < key {
        lemma_first_key(kp, key, i + 1);
    }
}

/// The add instruction 8XY4, for every register pair: the flag register
/// ends 1 exactly when the unsigned 8-bit sum of VX and VY overflows, the
/// stored result is the sum modulo 256, and the program counter moves to
/// the next instruction.
pub proof fn lemma_add_sets_carry(pre: VmView, rnd: u8, x: u16, y: u16)
    requires
        pre.wf(),
        pre.pc < 4095,
        x < 16,
        y < 16,
        fetch(pre) == 0x8000 + x * 0x100 + y * 0x10 + 4,
    ensures
        spec_cycle(pre, rnd) matches Ok(post) && post.regs[15] == (if pre.regs[x as int]
            + pre.regs[y as int] > 255 {
            1u8
        } else {
            0u8
        }) && (x != 15 ==> post.regs[x as int] == (pre.regs[x as int] + pre.regs[y as int]) % 256)
            && post.pc == pre.pc + 2,
{
    let op = fetch(pre);
    lemma_op_fields(op);
    lemma_decode(op, 8, x, y, 4);
}

/// The subtract instruction 8XY5, for every register pair: the flag
/// register ends 0 exactly when VY exceeded the original VX (a borrow),
/// else 1; the stored result is VX minus VY modulo 256; and the program
/// counter moves to the next instruction.
pub proof fn lemma_sub_sets_borrow(pre: VmView, rnd: u8, x: u16, y: u16)
    requires
        pre.wf(),
        pre.pc < 4095,
        x < 16,
        y < 16,
        fetch(pre) == 0x8000 + x * 0x100 + y * 0x10 + 5,
    ensures
        spec_cycle(pre, rnd) matches Ok(post) && post.regs[15] == (if pre.regs[y as int]
            > pre.regs[x as int] {
            0u8
        } else {
            1u8
        }) && (x != 15 ==> post.regs[x as int] == (pre.regs[x as int] - pre.regs[y as int]) % 256)
            && post.pc == pre.pc + 2,
{
    let op = fetch(pre);
    lemma_op_fields(op);
    lemma_decode(op, 8, x, y, 5);
    lemma_mod_add_multiples_vanish(pre.regs[x as int] - pre.regs[y as int], 256);
}

/// The clear-screen instruction 00E0: afterwards every pixel reads zero,
/// the draw flag is set, and the program counter moves on; nothing else in
/// the machine changes but the timers.
pub proof fn lemma_clear_screen(pre: VmView, rnd: u8)
    requires
        pre.wf(),
        pre.pc < 4095,
        fetch(pre) == 0x00E0,
    ensures
        spec_cycle(pre, rnd) matches Ok(post) && post.gfx.len() == 2048 && (forall|i: int|
            0 <= i < 2048 ==> post.gfx[i] == 0) && post.draw && post.pc == pre.pc + 2
            && post.regs == pre.regs && post.mem == pre.mem,
{
    let op = fetch(pre);
    lemma_op_fields(op);
    lemma_decode(op, 0, 0, 0xE, 0);
}

/// The register dump FX55, an index reset ANNN back to the same address,
/// and the register load FX65 round-trip: all sixteen registers read back
/// exactly what was written, and both the dump and the load advance the
/// index register by X + 1.  The dumped region must not overlap the three
/// instructions themselves.
pub proof fn lemma_dump_load_round_trip(
    pre: VmView,
    rnd1: u8,
    rnd2: u8,
    rnd3: u8,
    x: u16,
)
    requires
        pre.wf(),
        pre.pc < 4091,
        x < 16,
        pre.index + x <= 4095,
        pre.index + x < pre.pc || pre.pc + 5 < pre.index,
        pre.mem[pre.pc as int] == 0xF0 + x,
        pre.mem[pre.pc + 1] == 0x55,
        pre.mem[pre.pc + 2] == 0xA0 + pre.index / 0x100,
        pre.mem[pre.pc + 3] == pre.index % 0x100,
        pre.mem[pre.pc + 4] == 0xF0 + x,
        pre.mem[pre.pc + 5] == 0x65,
        pre.index < 0x1000,
    ensures
        spec_cycle(pre, rnd1) matches Ok(s1) && s1.index == pre.index + x + 1 && (spec_cycle(
            s1,
            rnd2,
        ) matches Ok(s2) && s2.index == pre.index && (spec_cycle(s2, rnd3) matches Ok(s3)
            && s3.index == pre.index + x + 1 && s3.regs == pre.regs)),
{
    let idx = pre.index as int;
    let op1 = fetch(pre);
    lemma_fetch_bytes(pre.mem[pre.pc as int], pre.mem[pre.pc + 1]);
    lemma_op_fields(op1);
    lemma_decode(op1, 0xF, x, 5, 5);
    let s1 = spec_cycle(pre, rnd1)->Ok_0;
    assert(s1.mem == crate::model::dump_mem(pre.mem, pre.regs, idx, x as int));
    assert(s1.pc == pre.pc + 2 && s1.index == idx + x + 1);
    assert(s1.mem[pre.pc + 2] == pre.mem[pre.pc + 2]);
    assert(s1.mem[pre.pc + 3] == pre.mem[pre.pc + 3]);
    assert(s1.mem[pre.pc + 4] == pre.mem[pre.pc + 4]);
    assert(s1.mem[pre.pc + 5] == pre.mem[pre.pc + 5]);
    let op2 = fetch(s1);
    lemma_fetch_bytes(s1.mem[s1.pc as int], s1.mem[s1.pc + 1]);
    assert(op2 == 0xA000 + pre.index) by {
        assert((0xA0 + pre.index / 0x100) * 0x100 + pre.index % 0x100 == 0xA000 + pre.index);
    }
    lemma_op_fields(op2);
    lemma_decode_nnn(op2, 0xA, pre.index);
    let s2 = spec_cycle(s1, rnd2)->Ok_0;
    assert(s2.index == pre.index && s2.pc == pre.pc + 4 && s2.mem == s1.mem && s2.regs
        == pre.regs);
    let op3 = fetch(s2);
    lemma_fetch_bytes(s2.mem[s2.pc as int], s2.mem[s2.pc + 1]);
    lemma_op_fields(op3);
    lemma_decode(op3, 0xF, x, 6, 5);
    let s3 = spec_cycle(s2, rnd3)->Ok_0;
    assert(s3.regs == crate::model::load_regs(s2.regs, s2.mem, idx, x as int));
    assert(s3.regs =~= pre.regs);
}

/// Setting the index with ANNN and then adding a register holding 0x10
/// with FX1E leaves the index at NNN + 16, with the flag register 1
/// exactly when NNN + 16 exceeds 0xFFF.
pub proof fn lemma_index_add_overflow(
    pre: VmView,
    rnd1: u8,
    rnd2: u8,
    x: u16,
    n: u16,
)
    requires
        pre.wf(),
        pre.pc < 4093,
        x < 16,
        n < 0x1000,
        pre.mem[pre.pc as int] == 0xA0 + n / 0x100,
        pre.mem[pre.pc + 1] == n % 0x100,
        pre.mem[pre.pc + 2] == 0xF0 + x,
        pre.mem[pre.pc + 3] == 0x1E,
        pre.regs[x as int] == 0x10,
    ensures
        spec_cycle(pre, rnd1) matches Ok(s1) && (spec_cycle(s1, rnd2) matches Ok(s2) && s2.index
            == n + 16 && s2.regs[15] == (if n + 16 > 0xFFF {
            1u8
        } else {
            0u8
        })),
{
    let op1 = fetch(pre);
    lemma_fetch_bytes(pre.mem[pre.pc as int], pre.mem[pre.pc + 1]);
    assert(op1 == 0xA000 + n) by {
        assert((0xA0 + n / 0x100) * 0x100 + n % 0x100 == 0xA000 + n);
    }
    lemma_op_fields(op1);
    lemma_decode_nnn(op1, 0xA, n);
    let s1 = spec_cycle(pre, rnd1)->Ok_0;
    assert(s1.index == n && s1.pc == pre.pc + 2 && s1.mem == pre.mem && s1.regs == pre.regs);
    let op2 = fetch(s1);
    lemma_fetch_bytes(s1.mem[s1.pc as int], s1.mem[s1.pc + 1]);
    lemma_op_fields(op2);
    lemma_decode(op2, 0xF, x, 1, 0xE);
    let s2 = spec_cycle(s1, rnd2)->Ok_0;
    assert((n + 0x10) % 0x10000 == n + 16);
}

/// The skip-if-equal-literal instruction 3XNN: the program counter
/// advances by 4 when VX equals NN, else by 2.
pub proof fn lemma_skip_eq_literal(pre: VmView, rnd: u8, x: u16, nn: u16)
    requires
        pre.wf(),
        pre.pc < 4095,
        x < 16,
        nn < 0x100,
        fetch(pre) == 0x3000 + x * 0x100 + nn,
    ensures
        spec_cycle(pre, rnd) matches Ok(post) && post.pc == pre.pc + (if pre.regs[x as int] == nn {
            4int
        } else {
            2int
        }),
{
    let op = fetch(pre);
    lemma_op_fields(op);
    lemma_decode_nnn(op, 3, (x * 0x100 + nn) as u16);
}

/// The skip-if-unequal-literal instruction 4XNN: the program counter
/// advances by 4 when VX differs from NN, else by 2.
pub proof fn lemma_skip_ne_literal(pre: VmView, rnd: u8, x: u16, nn: u16)
    requires
        pre.wf(),
        pre.pc < 4095,
        x < 16,
        nn < 0x100,
        fetch(pre) == 0x4000 + x * 0x100 + nn,
    ensures
        spec_cycle(pre, rnd) matches Ok(post) && post.pc == pre.pc + (if pre.regs[x as int] != nn {
            4int
        } else {
            2int
        }),
{
    let op = fetch(pre);
    lemma_op_fields(op);
    lemma_decode_nnn(op, 4, (x * 0x100 + nn) as u16);
}

/// The skip-if-registers-equal instruction 5XY0: the program counter
/// advances by 4 when VX equals VY, else by 2.
pub proof fn lemma_skip_eq_register(pre: VmView, rnd: u8, x: u16, y: u16)
    requires
        pre.wf(),
        pre.pc < 4095,
        x < 16,
        y < 16,
        fetch(pre) == 0x5000 + x * 0x100 + y * 0x10,
    ensures
        spec_cycle(pre, rnd) matches Ok(post) && post.pc == pre.pc + (if pre.regs[x as int]
            == pre.regs[y as int] {
            4int
        } else {
            2int
        }),
{
    let op = fetch(pre);
    lemma_op_fields(op);
    lemma_decode(op, 5, x, y, 0);
}

/// The skip-if-registers-unequal instruction 9XY0: the program counter
/// advances by 4 when VX differs from VY, else by 2.
pub proof fn lemma_skip_ne_register(pre: VmView, rnd: u8, x: u16, y: u16)
    requires
        pre.wf(),
        pre.pc < 4095,
        x < 16,
        y < 16,
        fetch(pre) == 0x9000 + x * 0x100 + y * 0x10,
    ensures
        spec_cycle(pre, rnd) matches Ok(post) && post.pc == pre.pc + (if pre.regs[x as int]
            != pre.regs[y as int] {
            4int
        } else {
            2int
        }),
{
    let op = fetch(pre);
    lemma_op_fields(op);
    lemma_decode(op, 9, x, y, 0);
}

/// The await-key instruction FX0A with no key pressed: the cycle succeeds
/// and the machine is left exactly as it was — program counter, registers
/// and timers included — so repeated cycles stay stalled until a key
/// appears.
pub proof fn lemma_await_key_stalls(pre: VmView, rnd: u8, x: u16)
    requires
        pre.wf(),
        pre.pc < 4095,
        x < 16,
        fetch(pre) == 0xF000 + x * 0x100 + 0x0A,
        forall|j: int| 0 <= j < 16 ==> pre.keypad[j] == 0,
    ensures
        spec_cycle(pre, rnd) == Ok::<VmView, crate::model::Chip8Error>(pre),
{
    let op = fetch(pre);
    lemma_op_fields(op);
    lemma_decode(op, 0xF, x, 0, 0xA);
    lemma_no_key(pre.keypad, 0);
}

/// The await-key instruction FX0A once a key is down: the program counter
/// advances by 2 and VX holds the lowest-indexed pressed key.
pub proof fn lemma_await_key_takes_lowest(pre: VmView, rnd: u8, x: u16, key: int)
    requires
        pre.wf(),
        pre.pc < 4095,
        x < 16,
        fetch(pre) == 0xF000 + x * 0x100 + 0x0A,
        0 <= key < 16,
        pre.keypad[key] != 0,
        forall|j: int| 0 <= j < key ==> pre.keypad[j] == 0,
    ensures
        spec_cycle(pre, rnd) matches Ok(post) && post.pc == pre.pc + 2 && post.regs[x as int]
            == key,
{
    let op = fetch(pre);
    lemma_op_fields(op);
    lemma_decode(op, 0xF, x, 0, 0xA);
    lemma_first_key(pre.keypad, key, 0);
}

} // verus!

//! The executable machine: the state the interpreter mutates, its
//! constructor, the program loader, and the caller-facing accessors.

use vstd::prelude::*;

use crate::model::{
    cycle_matches, draw_cols, draw_rows, dump_mem, exec_matches, fetch, first_key_from, font_seq,
    initial_vm, lemma_op_fields, load_mem, load_regs, spec_exec, tick, Chip8Error,
    VmView,
};

verus! {

/// The CHIP-8 virtual machine: 4096 bytes of memory, 16 registers, a call
/// stack of 16 return addresses, two countdown timers, a 64x32 one-bit
/// framebuffer, and 16 key states.
pub struct Chip8 {
    memory: Vec<u8>,
    registers: Vec<u8>,
    pc: u16,
    index: u16,
    stack: Vec<u16>,
    sp: usize,
    delay: u8,
    sound: u8,
    gfx: Vec<u8>,
    keypad: Vec<u8>,
    draw: bool,
}

impl View for Chip8 {
    type V = VmView;

    closed spec fn view(&self) -> VmView {
        VmView {
            mem: self.memory@,
            regs: self.registers@,
            pc: self.pc,
            index: self.index,
            stack: self.stack@,
            sp: self.sp,
            delay: self.delay,
            sound: self.sound,
            gfx: self.gfx@,
            keypad: self.keypad@,
            draw: self.draw,
        }
    }
}

/// Relies on rand::random: one byte drawn from the thread-local generator.
/// Nothing is promised of its value; callers state what holds of every
/// outcome.
#[verifier::external_body]
fn random_byte() -> u8 {
    rand::random::<u8>()
}

/// A vector of `n` zero bytes.
fn zero_bytes(n: usize) -> (v: Vec<u8>)
    ensures
        v@ == Seq::new(n as nat, |i: int| 0u8),
{
    let mut v: Vec<u8> = Vec::new();
    let mut i: usize = 0;
    while i < n
        invariant
            i <= n,
            v@.len() == i,
            forall|j: int| 0 <= j < i ==> v@[j] == 0u8,
        decreases n - i,
    {
        v.push(0u8);
        i = i + 1;
    }
    proof {
        assert(v@ =~= Seq::new(n as nat, |i: int| 0u8));
    }
    v
}

/// A vector of `n` zero words.
fn zero_words(n: usize) -> (v: Vec<u16>)
    ensures
        v@ == Seq::new(n as nat, |i: int| 0u16),
{
    let mut v: Vec<u16> = Vec::new();
    let mut i: usize = 0;
    while i < n
        invariant
            i <= n,
            v@.len() == i,
            forall|j: int| 0 <= j < i ==> v@[j] == 0u16,
        decreases n - i,
    {
        v.push(0u16);
        i = i + 1;
    }
    proof {
        assert(v@ =~= Seq::new(n as nat, |i: int| 0u16));
    }
    v
}

/// The built-in font table as a vector: 16 glyphs of 5 bytes.
fn font_table() -> (v: Vec<u8>)
    ensures
        v@ == font_seq(),
{
    let mut v: Vec<u8> = Vec::new();
    v.push(0xF0); v.push(0x90); v.push(0x90); v.push(0x90); v.push(0xF0); // 0
    v.push(0x20); v.push(0x60); v.push(0x20); v.push(0x20); v.push(0x70); // 1
    v.push(0xF0); v.push(0x10); v.push(0xF0); v.push(0x80); v.push(0xF0); // 2
    v.push(0xF0); v.push(0x10); v.push(0xF0); v.push(0x10); v.push(0xF0); // 3
    v.push(0x90); v.push(0x90); v.push(0xF0); v.push(0x10); v.push(0x10); // 4
    v.push(0xF0); v.push(0x80); v.push(0xF0); v.push(0x10); v.push(0xF0); // 5
    v.push(0xF0); v.push(0x80); v.push(0xF0); v.push(0x90); v.push(0xF0); // 6
    v.push(0xF0); v.push(0x10); v.push(0x20); v.push(0x40); v.push(0x40); // 7
    v.push(0xF0); v.push(0x90); v.push(0xF0); v.push(0x90); v.push(0xF0); // 8
    v.push(0xF0); v.push(0x90); v.push(0xF0); v.push(0x10); v.push(0xF0); // 9
    v.push(0xF0); v.push(0x90); v.push(0xF0); v.push(0x90); v.push(0x90); // A
    v.push(0xE0); v.push(0x90); v.push(0xE0); v.push(0x90); v.push(0xE0); // B
    v.push(0xF0); v.push(0x80); v.push(0x80); v.push(0x80); v.push(0xF0); // C
    v.push(0xE0); v.push(0x90); v.push(0x90); v.push(0x90); v.push(0xE0); // D
    v.push(0xF0); v.push(0x80); v.push(0xF0); v.push(0x80); v.push(0xF0); // E
    v.push(0xF0); v.push(0x80); v.push(0xF0); v.push(0x80); v.push(0x80); // F
    proof {
        assert(v@ =~= font_seq());
    }
    v
}

/// Zeroes every byte of a buffer in place.
fn clear_buf(v: &mut Vec<u8>)
    ensures
        final(v)@ == Seq::new(old(v)@.len(), |i: int| 0u8),
{
    let n = v.len();
    let mut i: usize = 0;
    while i < n
        invariant
            i <= n,
            v@.len() == n,
            forall|j: int| 0 <= j < i ==> v@[j] == 0u8,
        decreases n - i,
    {
        v[i] = 0;
        i = i + 1;
    }
    proof {
        assert(v@ =~= Seq::new(old(v)@.len(), |i: int| 0u8));
    }
}

/// Writes registers 0..=x into memory at `index`.
fn copy_regs_to_mem(mem: &mut Vec<u8>, regs: &Vec<u8>, index: usize, x: usize)
    requires
        old(mem)@.len() == 4096,
        regs@.len() == 16,
        x < 16,
        index + x <= 4095,
    ensures
        final(mem)@ == dump_mem(old(mem)@, regs@, index as int, x as int),
{
    let mut i: usize = 0;
    while i <= x
        invariant
            i <= x + 1,
            x < 16,
            index + x <= 4095,
            mem@.len() == 4096,
            regs@.len() == 16,
            forall|j: int| 0 <= j < i ==> mem@[index + j] == regs@[j],
            forall|j: int| 0 <= j < 4096 && !(index <= j < index + i) ==> mem@[j] == old(mem)@[j],
        decreases x + 1 - i,
    {
        mem[index + i] = regs[i];
        i = i + 1;
    }
    proof {
        assert(mem@ =~= dump_mem(old(mem)@, regs@, index as int, x as int));
    }
}

/// Reads registers 0..=x back from memory at `index`.
fn copy_mem_to_regs(regs: &mut Vec<u8>, mem: &Vec<u8>, index: usize, x: usize)
    requires
        old(regs)@.len() == 16,
        mem@.len() == 4096,
        x < 16,
        index + x <= 4095,
    ensures
        final(regs)@ == load_regs(old(regs)@, mem@, index as int, x as int),
{
    let mut i: usize = 0;
    while i <= x
        invariant
            i <= x + 1,
            x < 16,
            index + x <= 4095,
            regs@.len() == 16,
            mem@.len() == 4096,
            forall|j: int| 0 <= j < i ==> regs@[j] == mem@[index + j],
            forall|j: int| i <= j < 16 ==> regs@[j] == old(regs)@[j],
        decreases x + 1 - i,
    {
        regs[i] = mem[index + i];
        i = i + 1;
    }
    proof {
        assert(regs@ =~= load_regs(old(regs)@, mem@, index as int, x as int));
    }
}

/// The lowest-indexed pressed key, if any key is down.
fn lowest_pressed(keypad: &Vec<u8>) -> (r: Option<u8>)
    requires
        keypad@.len() == 16,
    ensures
        r == (match first_key_from(keypad@, 0) {
            None => None::<u8>,
            Some(k) => Some(k as u8),
        }),
{
    let mut i: usize = 0;
    while i < 16
        invariant
            i <= 16,
            keypad@.len() == 16,
            first_key_from(keypad@, 0) == first_key_from(keypad@, i as int),
        decreases 16 - i,
    {
        if keypad[i] != 0 {
            return Some(i as u8);
        }
        i = i + 1;
    }
    None
}

/// XORs an n-row sprite read from memory at `index` into the framebuffer at
/// (vx, vy), coordinates wrapping modulo the 64x32 screen; reports whether
/// any pixel was flipped from set to unset.
fn draw_sprite(gfx: &mut Vec<u8>, mem: &Vec<u8>, index: usize, vx: u8, vy: u8, n: usize) -> (hit:
    bool)
    requires
        old(gfx)@.len() == 2048,
        forall|i: int| 0 <= i < 2048 ==> old(gfx)@[i] == 0 || old(gfx)@[i] == 1,
        mem@.len() == 4096,
        n <= 15,
        index + n <= 4096,
    ensures
        final(gfx)@ == draw_rows(old(gfx)@, mem@, index as int, vx as int, vy as int, n as int).0,
        hit == draw_rows(old(gfx)@, mem@, index as int, vx as int, vy as int, n as int).1,
        final(gfx)@.len() == 2048,
        forall|i: int| 0 <= i < 2048 ==> final(gfx)@[i] == 0 || final(gfx)@[i] == 1,
{
    let mut hit = false;
    let mut r: usize = 0;
    while r < n
        invariant
            r <= n,
            n <= 15,
            index + n <= 4096,
            mem@.len() == 4096,
            gfx@.len() == 2048,
            forall|i: int| 0 <= i < 2048 ==> gfx@[i] == 0 || gfx@[i] == 1,
            gfx@ == draw_rows(old(gfx)@, mem@, index as int, vx as int, vy as int, r as int).0,
            hit == draw_rows(old(gfx)@, mem@, index as int, vx as int, vy as int, r as int).1,
        decreases n - r,
    {
        let row: u8 = mem[index + r];
        let ghost g0 = gfx@;
        let ghost hit0 = hit;
        let mut c: usize = 0;
        while c < 8
            invariant
                c <= 8,
                r < n,
                n <= 15,
                index + n <= 4096,
                mem@.len() == 4096,
                gfx@.len() == 2048,
                forall|i: int| 0 <= i < 2048 ==> gfx@[i] == 0 || gfx@[i] == 1,
                g0.len() == 2048,
                row == mem@[index + r],
                gfx@ == draw_cols(g0, row, vx as int, vy as int + r as int, c as int).0,
                hit == (hit0 || draw_cols(g0, row, vx as int, vy as int + r as int, c as int).1),
            decreases 8 - c,
        {
            if row & (0x80u8 >> (c as u8)) != 0 {
                let px = (vx as usize + c) % 64;
                let py = (vy as usize + r) % 32;
                let pos = py * 64 + px;
                let cur = gfx[pos];
                if cur == 1 {
                    hit = true;
                }
                proof {
                    assert((0u8 ^ 1u8) == 1u8 && (1u8 ^ 1u8) == 0u8) by (bit_vector);
                }
                gfx[pos] = cur ^ 1;
            }
            c = c + 1;
        }
        r = r + 1;
    }
    hit
}

impl Chip8 {
    /// A fresh machine: font copied to addresses 0x00..0x50, everything else
    /// zeroed, program counter at the conventional start address 0x200.
    pub fn new() -> (c: Chip8)
        ensures
            c@ == initial_vm(),
            c@.wf(),
    {
        let mut memory = font_table();
        let mut tail = zero_bytes(4016);
        memory.append(&mut tail);
        let c = Chip8 {
            memory,
            registers: zero_bytes(16),
            pc: 0x200,
            index: 0,
            stack: zero_words(16),
            sp: 0,
            delay: 0,
            sound: 0,
            gfx: zero_bytes(2048),
            keypad: zero_bytes(16),
            draw: false,
        };
        proof {
            assert(c@.mem =~= initial_vm().mem);
            assert(c@ =~= initial_vm());
        }
        c
    }

    /// Copies a program image into memory at offset 0x200.  An image longer
    /// than the 3584 bytes of program memory is rejected with a capacity
    /// error and the machine is left exactly as it was.
    pub fn load(&mut self, rom: &Vec<u8>) -> (r: Result<(), Chip8Error>)
        requires
            old(self)@.wf(),
        ensures
            final(self)@.wf(),
            rom@.len() <= 3584 ==> r == Ok::<(), Chip8Error>(()) && final(self)@ == (VmView {
                mem: load_mem(old(self)@.mem, rom@),
                ..old(self)@
            }),
            rom@.len() > 3584 ==> r == Err::<(), Chip8Error>(Chip8Error::RomTooLarge)
                && final(self)@ == old(self)@,
    {
        if rom.len() > 3584 {
            return Err(Chip8Error::RomTooLarge);
        }
        let mut i: usize = 0;
        while i < rom.len()
            invariant
                old(self)@.wf(),
                i <= rom@.len() <= 3584,
                self.memory@.len() == 4096,
                forall|j: int| 0 <= j < i ==> self.memory@[512 + j] == rom@[j],
                forall|j: int|
                    0 <= j < 4096 && !(512 <= j < 512 + i) ==> self.memory@[j] == old(
                        self,
                    )@.mem[j],
                self.registers@ == old(self)@.regs,
                self.pc == old(self)@.pc,
                self.index == old(self)@.index,
                self.stack@ == old(self)@.stack,
                self.sp == old(self)@.sp,
                self.delay == old(self)@.delay,
                self.sound == old(self)@.sound,
                self.gfx@ == old(self)@.gfx,
                self.keypad@ == old(self)@.keypad,
                self.draw == old(self)@.draw,
            decreases rom@.len() - i,
        {
            self.memory[512 + i] = rom[i];
            i = i + 1;
        }
        proof {
            assert(self@.mem =~= load_mem(old(self)@.mem, rom@));
            assert(self@ =~= (VmView { mem: load_mem(old(self)@.mem, rom@), ..old(self)@ }));
        }
        Ok(())
    }

    /// The 0x0NNN family: clear the screen, or return from a subroutine.
    fn step_sys(&mut self, op: u16) -> (r: Result<(), Chip8Error>)
        requires
            old(self)@.wf(),
            old(self)@.pc < 4095,
            op & 0xF000 == 0x0000,
        ensures
            final(self)@.wf(),
            exec_matches(old(self)@, op, 0u8, final(self)@, r),
    {
        if op == 0x00E0 {
            clear_buf(&mut self.gfx);
            self.draw = true;
            self.pc = self.pc + 2;
            proof {
                assert(self@.gfx =~= Seq::new(2048, |i: int| 0u8));
            }
            Ok(())
        } else if op == 0x00EE {
            if self.sp == 0 {
                return Err(Chip8Error::StackUnderflow);
            }
            self.sp = self.sp - 1;
            self.pc = self.stack[self.sp];
            Ok(())
        } else {
            Err(Chip8Error::UnknownOpcode)
        }
    }

    /// Jumps, calls, the index-setting instruction, and the four skip
    /// instructions: the families 1, 2, 3, 4, 5, 9, A and B.
    fn step_flow(&mut self, op: u16) -> (r: Result<(), Chip8Error>)
        requires
            old(self)@.wf(),
            old(self)@.pc < 4095,
            op & 0xF000 == 0x1000 || op & 0xF000 == 0x2000 || op & 0xF000 == 0x3000 || op & 0xF000
                == 0x4000 || op & 0xF000 == 0x5000 || op & 0xF000 == 0x9000 || op & 0xF000
                == 0xA000 || op & 0xF000 == 0xB000,
        ensures
            final(self)@.wf(),
            exec_matches(old(self)@, op, 0u8, final(self)@, r),
    {
        proof {
            lemma_op_fields(op);
        }
        let x = ((op & 0x0F00) >> 8) as usize;
        let y = ((op & 0x00F0) >> 4) as usize;
        let k = op & 0x000F;
        let nn = (op & 0x00FF) as u8;
        let nnn = op & 0x0FFF;
        let fam = op & 0xF000;
        if fam == 0x1000 {
            self.pc = nnn;
        } else if fam == 0x2000 {
            if self.sp >= 16 {
                return Err(Chip8Error::StackOverflow);
            }
            let ret = self.pc + 2;
            self.stack[self.sp] = ret;
            self.sp = self.sp + 1;
            self.pc = nnn;
        } else if fam == 0x3000 {
            if self.registers[x] == nn {
                self.pc = self.pc + 4;
            } else {
                self.pc = self.pc + 2;
            }
        } else if fam == 0x4000 {
            if self.registers[x] != nn {
                self.pc = self.pc + 4;
            } else {
                self.pc = self.pc + 2;
            }
        } else if fam == 0x5000 {
            if k != 0 {
                return Err(Chip8Error::UnknownOpcode);
            }
            if self.registers[x] == self.registers[y] {
                self.pc = self.pc + 4;
            } else {
                self.pc = self.pc + 2;
            }
        } else if fam == 0x9000 {
            if k != 0 {
                return Err(Chip8Error::UnknownOpcode);
            }
            if self.registers[x] != self.registers[y] {
                self.pc = self.pc + 4;
            } else {
                self.pc = self.pc + 2;
            }
        } else if fam == 0xA000 {
            self.index = nnn;
            self.pc = self.pc + 2;
        } else {
            self.pc = nnn + self.registers[0] as u16;
        }
        Ok(())
    }

    /// Register loads and arithmetic: the families 6, 7 and 8.
    fn step_alu(&mut self, op: u16) -> (r: Result<(), Chip8Error>)
        requires
            old(self)@.wf(),
            old(self)@.pc < 4095,
            op & 0xF000 == 0x6000 || op & 0xF000 == 0x7000 || op & 0xF000 == 0x8000,
        ensures
            final(self)@.wf(),
            exec_matches(old(self)@, op, 0u8, final(self)@, r),
    {
        proof {
            lemma_op_fields(op);
        }
        let x = ((op & 0x0F00) >> 8) as usize;
        let y = ((op & 0x00F0) >> 4) as usize;
        let k = op & 0x000F;
        let nn = (op & 0x00FF) as u8;
        let fam = op & 0xF000;
        if fam == 0x6000 {
            self.registers[x] = nn;
        } else if fam == 0x7000 {
            let vx = self.registers[x];
            self.registers[x] = ((vx as u16 + nn as u16) % 256) as u8;
        } else {
            let vx = self.registers[x];
            let vy = self.registers[y];
            if k == 0 {
                self.registers[x] = vy;
            } else if k == 1 {
                self.registers[x] = vx | vy;
            } else if k == 2 {
                self.registers[x] = vx & vy;
            } else if k == 3 {
                self.registers[x] = vx ^ vy;
            } else if k == 4 {
                let sum = vx as u16 + vy as u16;
                self.registers[x] = (sum % 256) as u8;
                self.registers[0xF] = if sum > 255 {
                    1
                } else {
                    0
                };
            } else if k == 5 {
                let diff = vx as u16 + 256 - vy as u16;
                self.registers[x] = (diff % 256) as u8;
                self.registers[0xF] = if vy > vx {
                    0
                } else {
                    1
                };
            } else if k == 6 {
                self.registers[x] = vx >> 1;
                self.registers[0xF] = vx & 1;
            } else if k == 7 {
                let diff = vy as u16 + 256 - vx as u16;
                self.registers[x] = (diff % 256) as u8;
                self.registers[0xF] = if vx > vy {
                    0
                } else {
                    1
                };
            } else if k == 0xE {
                self.registers[x] = vx << 1;
                self.registers[0xF] = vx >> 7;
            } else {
                return Err(Chip8Error::UnknownOpcode);
            }
        }
        self.pc = self.pc + 2;
        Ok(())
    }

    /// The CXNN instruction: the random byte `rb`, masked by NN.
    fn step_rand(&mut self, op: u16, rb: u8) -> (r: Result<(), Chip8Error>)
        requires
            old(self)@.wf(),
            old(self)@.pc < 4095,
            op & 0xF000 == 0xC000,
        ensures
            final(self)@.wf(),
            exec_matches(old(self)@, op, rb, final(self)@, r),
    {
        proof {
            lemma_op_fields(op);
        }
        let x = ((op & 0x0F00) >> 8) as usize;
        let nn = (op & 0x00FF) as u8;
        self.registers[x] = rb & nn;
        self.pc = self.pc + 2;
        Ok(())
    }

    /// The DXYN instruction: XOR a sprite into the framebuffer and set the
    /// flag register to whether any pixel was flipped off.
    fn step_draw(&mut self, op: u16) -> (r: Result<(), Chip8Error>)
        requires
            old(self)@.wf(),
            old(self)@.pc < 4095,
            op & 0xF000 == 0xD000,
        ensures
            final(self)@.wf(),
            exec_matches(old(self)@, op, 0u8, final(self)@, r),
    {
        proof {
            lemma_op_fields(op);
        }
        let x = ((op & 0x0F00) >> 8) as usize;
        let y = ((op & 0x00F0) >> 4) as usize;
        let k = op & 0x000F;
        if self.index as usize + k as usize > 4096 {
            return Err(Chip8Error::AddressOutOfRange);
        }
        let vx = self.registers[x];
        let vy = self.registers[y];
        let hit = draw_sprite(&mut self.gfx, &self.memory, self.index as usize, vx, vy, k as usize);
        self.registers[0xF] = if hit {
            1
        } else {
            0
        };
        self.draw = true;
        self.pc = self.pc + 2;
        Ok(())
    }

    /// The EX9E and EXA1 instructions: skip on the key named by VX.
    fn step_key(&mut self, op: u16) -> (r: Result<(), Chip8Error>)
        requires
            old(self)@.wf(),
            old(self)@.pc < 4095,
            op & 0xF000 == 0xE000,
        ensures
            final(self)@.wf(),
            exec_matches(old(self)@, op, 0u8, final(self)@, r),
    {
        proof {
            lemma_op_fields(op);
        }
        let x = ((op & 0x0F00) >> 8) as usize;
        let nn = (op & 0x00FF) as u8;
        if nn == 0x9E {
            let vx = self.registers[x];
            if vx >= 16 {
                return Err(Chip8Error::KeyOutOfRange);
            }
            if self.keypad[vx as usize] != 0 {
                self.pc = self.pc + 4;
            } else {
                self.pc = self.pc + 2;
            }
            Ok(())
        } else if nn == 0xA1 {
            let vx = self.registers[x];
            if vx >= 16 {
                return Err(Chip8Error::KeyOutOfRange);
            }
            if self.keypad[vx as usize] == 0 {
                self.pc = self.pc + 4;
            } else {
                self.pc = self.pc + 2;
            }
            Ok(())
        } else {
            Err(Chip8Error::UnknownOpcode)
        }
    }

    /// The FXNN family apart from await-key: timers, index arithmetic, the
    /// font address, BCD, and the register dump and load.
    fn step_fx(&mut self, op: u16) -> (r: Result<(), Chip8Error>)
        requires
            old(self)@.wf(),
            old(self)@.pc < 4095,
            op & 0xF000 == 0xF000,
            op & 0x00FF != 0x0A,
        ensures
            final(self)@.wf(),
            exec_matches(old(self)@, op, 0u8, final(self)@, r),
    {
        proof {
            lemma_op_fields(op);
        }
        let x = ((op & 0x0F00) >> 8) as usize;
        let nn = (op & 0x00FF) as u8;
        if nn == 0x07 {
            self.registers[x] = self.delay;
            self.pc = self.pc + 2;
        } else if nn == 0x15 {
            self.delay = self.registers[x];
            self.pc = self.pc + 2;
        } else if nn == 0x18 {
            self.sound = self.registers[x];
            self.pc = self.pc + 2;
        } else if nn == 0x1E {
            let sum: u32 = self.index as u32 + self.registers[x] as u32;
            self.registers[0xF] = if sum > 0xFFF {
                1
            } else {
                0
            };
            self.index = (sum % 0x10000) as u16;
            self.pc = self.pc + 2;
        } else if nn == 0x29 {
            self.index = self.registers[x] as u16 * 5;
            self.pc = self.pc + 2;
        } else if nn == 0x33 {
            if self.index as usize + 2 > 4095 {
                return Err(Chip8Error::AddressOutOfRange);
            }
            let vx = self.registers[x];
            let i0 = self.index as usize;
            self.memory[i0] = vx / 100;
            self.memory[i0 + 1] = (vx / 10) % 10;
            self.memory[i0 + 2] = vx % 10;
            self.pc = self.pc + 2;
        } else if nn == 0x55 {
            if self.index as usize + x > 4095 {
                return Err(Chip8Error::AddressOutOfRange);
            }
            let i0 = self.index as usize;
            copy_regs_to_mem(&mut self.memory, &self.registers, i0, x);
            self.index = self.index + x as u16 + 1;
            self.pc = self.pc + 2;
        } else if nn == 0x65 {
            if self.index as usize + x > 4095 {
                return Err(Chip8Error::AddressOutOfRange);
            }
            let i0 = self.index as usize;
            copy_mem_to_regs(&mut self.registers, &self.memory, i0, x);
            self.index = self.index + x as u16 + 1;
            self.pc = self.pc + 2;
        } else {
            return Err(Chip8Error::UnknownOpcode);
        }
        Ok(())
    }

    /// One instruction cycle: fetch the two bytes at the program counter as
    /// a big-endian opcode, execute its effect, then count both timers down
    /// once.  The await-key instruction with no key pressed leaves the
    /// machine untouched, timers included, and succeeds.  On any error the
    /// machine is left exactly as it was.
    #[verifier::rlimit(100)]
    pub fn emulate_cycle(&mut self) -> (r: Result<(), Chip8Error>)
        requires
            old(self)@.wf(),
        ensures
            final(self)@.wf(),
            r is Err ==> final(self)@ == old(self)@,
            exists|rnd: u8| cycle_matches(old(self)@, rnd, final(self)@, r),
    {
        if self.pc >= 4095 {
            proof {
                assert(cycle_matches(
                    old(self)@,
                    0u8,
                    self@,
                    Err::<(), Chip8Error>(Chip8Error::AddressOutOfRange),
                ));
            }
            return Err(Chip8Error::AddressOutOfRange);
        }
        let pc0 = self.pc as usize;
        let op: u16 = ((self.memory[pc0] as u16) << 8) | (self.memory[pc0 + 1] as u16);
        proof {
            lemma_op_fields(op);
            assert(op == fetch(self@));
        }
        let fam = op & 0xF000;
        let nn = (op & 0x00FF) as u8;
        let ghost mut rnd_wit: u8 = 0u8;
        if fam == 0xF000 && nn == 0x0A {
            let x = ((op & 0x0F00) >> 8) as usize;
            match lowest_pressed(&self.keypad) {
                None => {
                    proof {
                        assert(cycle_matches(old(self)@, 0u8, self@, Ok::<(), Chip8Error>(())));
                    }
                    return Ok(());
                },
                Some(key) => {
                    self.registers[x] = key;
                    self.pc = self.pc + 2;
                    proof {
                        assert(spec_exec(old(self)@, op, rnd_wit) == Ok::<VmView, Chip8Error>(
                            self@,
                        ));
                    }
                },
            }
        } else {
            let step: Result<(), Chip8Error> = if fam == 0x0000 {
                self.step_sys(op)
            } else if fam == 0x6000 || fam == 0x7000 || fam == 0x8000 {
                self.step_alu(op)
            } else if fam == 0xC000 {
                let rb = random_byte();
                proof {
                    rnd_wit = rb;
                }
                self.step_rand(op, rb)
            } else if fam == 0xD000 {
                self.step_draw(op)
            } else if fam == 0xE000 {
                self.step_key(op)
            } else if fam == 0xF000 {
                self.step_fx(op)
            } else {
                self.step_flow(op)
            };
            if let Err(e) = step {
                proof {
                    assert(cycle_matches(old(self)@, rnd_wit, self@, Err::<(), Chip8Error>(e)));
                }
                return Err(e);
            }
        }
        let ghost mid = self@;
        proof {
            assert(spec_exec(old(self)@, op, rnd_wit) == Ok::<VmView, Chip8Error>(mid));
        }
        if self.delay > 0 {
            self.delay = self.delay - 1;
        }
        if self.sound > 0 {
            self.sound = self.sound - 1;
        }
        proof {
            assert(self@ =~= tick(mid));
            assert(cycle_matches(old(self)@, rnd_wit, self@, Ok::<(), Chip8Error>(())));
        }
        Ok(())
    }

    /// True whenever the framebuffer changed since the caller last reset it.
    pub fn draw_flag(&self) -> (b: bool)
        ensures
            b == self@.draw,
    {
        self.draw
    }

    /// Resets the draw flag after the caller consumed the framebuffer.
    pub fn clear_draw_flag(&mut self)
        ensures
            final(self)@ == (VmView { draw: false, ..old(self)@ }),
    {
        self.draw = false;
    }

    /// The pixel at column `x`, row `y`: 0 or 1.
    pub fn pixel(&self, x: usize, y: usize) -> (p: u8)
        requires
            self@.wf(),
            x < 64,
            y < 32,
        ensures
            p == self@.gfx[y * 64 + x],
    {
        self.gfx[y * 64 + x]
    }

    /// Writes one key state; nonzero keypad entries read as pressed.
    pub fn set_key(&mut self, key: usize, down: bool)
        requires
            old(self)@.wf(),
            key < 16,
        ensures
            final(self)@.wf(),
            final(self)@ == (VmView {
                keypad: old(self)@.keypad.update(key as int, if down { 1u8 } else { 0u8 }),
                ..old(self)@
            }),
    {
        self.keypad[key] = if down {
            1
        } else {
            0
        };
    }

    /// One key state, as the machine will read it.
    pub fn key(&self, key: usize) -> (k: u8)
        requires
            self@.wf(),
            key < 16,
        ensures
            k == self@.keypad[key as int],
    {
        self.keypad[key]
    }

    /// One general-purpose register.
    pub fn register(&self, i: usize) -> (v: u8)
        requires
            self@.wf(),
            i < 16,
        ensures
            v == self@.regs[i as int],
    {
        self.registers[i]
    }

    /// The program counter.
    pub fn program_counter(&self) -> (v: u16)
        ensures
            v == self@.pc,
    {
        self.pc
    }

    /// The index register.
    pub fn index_register(&self) -> (v: u16)
        ensures
            v == self@.index,
    {
        self.index
    }

    /// The delay timer.
    pub fn delay_timer(&self) -> (v: u8)
        ensures
            v == self@.delay,
    {
        self.delay
    }

    /// The sound timer.
    pub fn sound_timer(&self) -> (v: u8)
        ensures
            v == self@.sound,
    {
        self.sound
    }

    /// The stack pointer: how many return addresses are stacked.
    pub fn stack_pointer(&self) -> (v: usize)
        ensures
            v == self@.sp,
    {
        self.sp
    }

    /// One byte of memory.
    pub fn memory_at(&self, addr: usize) -> (v: u8)
        requires
            self@.wf(),
            addr < 4096,
        ensures
            v == self@.mem[addr as int],
    {
        self.memory[addr]
    }
}

} // verus!

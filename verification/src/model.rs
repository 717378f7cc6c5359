//! Mathematical model of the CHIP-8 machine: the ghost state, the built-in
//! font, and the specification-level transition function that one cycle of
//! the interpreter must follow.

use vstd::prelude::*;

verus! {

/// Errors the virtual machine reports to its caller.
///
/// The original CHIP-8 description leaves several situations undefined; this
/// machine resolves each of them by stopping with an error instead of
/// corrupting state: an opcode outside the 35 defined encodings, more than 16
/// nested calls, a return with an empty stack, and any memory access past
/// address 4095.  A key index of 16 or more named by a skip-if-key
/// instruction is likewise an error.
#[derive(Clone, Copy, Debug, PartialEq, Eq, Structural)]
pub enum Chip8Error {
    /// A program image longer than the 3584 bytes of program memory.
    RomTooLarge,
    /// An opcode that matches none of the defined instruction encodings.
    UnknownOpcode,
    /// A call with 16 return addresses already stacked.
    StackOverflow,
    /// A return with no stacked return address.
    StackUnderflow,
    /// A fetch or a memory-pointer operation past address 4095.
    AddressOutOfRange,
    /// A skip-if-key instruction naming a key index of 16 or more.
    KeyOutOfRange,
}

/// The abstract state of the machine: what the interpreter reads and writes.
#[verifier::ext_equal]
pub ghost struct VmView {
    /// 4096 bytes of memory; the font lives at 0x00..0x50, programs at 0x200.
    pub mem: Seq<u8>,
    /// The 16 general-purpose registers; index 15 is the flag register.
    pub regs: Seq<u8>,
    /// Program counter.
    pub pc: u16,
    /// Index register, the memory pointer of the sprite/BCD/dump operations.
    pub index: u16,
    /// 16 slots of return addresses.
    pub stack: Seq<u16>,
    /// Stack pointer: number of return addresses in use, 0 to 16.
    pub sp: usize,
    /// Delay timer, counting down once per cycle.
    pub delay: u8,
    /// Sound timer, counting down once per cycle.
    pub sound: u8,
    /// 64x32 one-bit pixels, row-major: pixel (x, y) at index y * 64 + x.
    pub gfx: Seq<u8>,
    /// 16 key states, nonzero meaning pressed; written by the caller.
    pub keypad: Seq<u8>,
    /// True whenever the framebuffer changed; reset by the caller.
    pub draw: bool,
}

impl VmView {
    /// Well-formedness: the fixed sizes of every component, and pixels that
    /// are always 0 or 1.
    pub open spec fn wf(self) -> bool {
        &&& self.mem.len() == 4096
        &&& self.regs.len() == 16
        &&& self.stack.len() == 16
        &&& self.sp <= 16
        &&& self.gfx.len() == 2048
        &&& self.keypad.len() == 16
        &&& forall|i: int| 0 <= i < 2048 ==> #[trigger] self.gfx[i] == 0 || self.gfx[i] == 1
    }
}

/// The built-in font: 16 glyphs of 5 bytes each, one glyph per hex digit.
pub open spec fn font_seq() -> Seq<u8> {
    seq![
        0xF0u8, 0x90, 0x90, 0x90, 0xF0, // 0
        0x20, 0x60, 0x20, 0x20, 0x70, // 1
        0xF0, 0x10, 0xF0, 0x80, 0xF0, // 2
        0xF0, 0x10, 0xF0, 0x10, 0xF0, // 3
        0x90, 0x90, 0xF0, 0x10, 0x10, // 4
        0xF0, 0x80, 0xF0, 0x10, 0xF0, // 5
        0xF0, 0x80, 0xF0, 0x90, 0xF0, // 6
        0xF0, 0x10, 0x20, 0x40, 0x40, // 7
        0xF0, 0x90, 0xF0, 0x90, 0xF0, // 8
        0xF0, 0x90, 0xF0, 0x10, 0xF0, // 9
        0xF0, 0x90, 0xF0, 0x90, 0x90, // A
        0xE0, 0x90, 0xE0, 0x90, 0xE0, // B
        0xF0, 0x80, 0x80, 0x80, 0xF0, // C
        0xE0, 0x90, 0x90, 0x90, 0xE0, // D
        0xF0, 0x80, 0xF0, 0x80, 0xF0, // E
        0xF0, 0x80, 0xF0, 0x80, 0x80, // F
    ]
}

/// The state a freshly constructed machine is in: font in low memory,
/// everything else zeroed, program counter at 0x200.
pub open spec fn initial_vm() -> VmView {
    VmView {
        mem: Seq::new(4096, |i: int| if 0 <= i < 80 { font_seq()[i] } else { 0u8 }),
        regs: Seq::new(16, |i: int| 0u8),
        pc: 0x200,
        index: 0,
        stack: Seq::new(16, |i: int| 0u16),
        sp: 0,
        delay: 0,
        sound: 0,
        gfx: Seq::new(2048, |i: int| 0u8),
        keypad: Seq::new(16, |i: int| 0u8),
        draw: false,
    }
}

/// Memory after a program image is copied in at offset 512.
pub open spec fn load_mem(mem: Seq<u8>, rom: Seq<u8>) -> Seq<u8> {
    Seq::new(4096, |i: int| if 512 <= i < 512 + rom.len() { rom[i - 512] } else { mem[i] })
}

/// The big-endian 16-bit opcode at the program counter.
pub open spec fn fetch(pre: VmView) -> u16 {
    ((pre.mem[pre.pc as int] as u16) << 8) | (pre.mem[pre.pc as int + 1] as u16)
}

/// Both timers counted down by one, floored at zero.
pub open spec fn tick(s: VmView) -> VmView {
    VmView {
        delay: if s.delay > 0 { (s.delay - 1) as u8 } else { s.delay },
        sound: if s.sound > 0 { (s.sound - 1) as u8 } else { s.sound },
        ..s
    }
}

/// The lowest pressed key at index `i` or above, if any.
pub open spec fn first_key_from(keypad: Seq<u8>, i: int) -> Option<int>
    decreases 16 - i,
{
    if i < 0 || i >= 16 {
        None
    } else if keypad[i] != 0 {
        Some(i)
    } else {
        first_key_from(keypad, i + 1)
    }
}

/// Memory after registers 0..=x are written at `index`.
pub open spec fn dump_mem(mem: Seq<u8>, regs: Seq<u8>, index: int, x: int) -> Seq<u8> {
    Seq::new(4096, |i: int| if index <= i <= index + x { regs[i - index] } else { mem[i] })
}

/// Registers after 0..=x are read back from memory at `index`.
pub open spec fn load_regs(regs: Seq<u8>, mem: Seq<u8>, index: int, x: int) -> Seq<u8> {
    Seq::new(16, |i: int| if i <= x { mem[index + i] } else { regs[i] })
}

/// Framebuffer index of the pixel drawn at (x, y); coordinates wrap
/// modulo the 64x32 screen.
pub open spec fn pixel_pos(x: int, y: int) -> int {
    (y % 32) * 64 + (x % 64)
}

/// Framebuffer and collision flag after the leftmost `c` bits of one sprite
/// row byte are XORed in at row `y`, starting at column `x`.
pub open spec fn draw_cols(gfx: Seq<u8>, row: u8, x: int, y: int, c: int) -> (Seq<u8>, bool)
    decreases c,
{
    if c <= 0 {
        (gfx, false)
    } else {
        let prev = draw_cols(gfx, row, x, y, c - 1);
        if row & (0x80u8 >> ((c - 1) as u8)) != 0 {
            let p = pixel_pos(x + (c - 1), y);
            (prev.0.update(p, prev.0[p] ^ 1), prev.1 || prev.0[p] == 1)
        } else {
            prev
        }
    }
}

/// Framebuffer and collision flag after the first `r` rows of a sprite at
/// memory[index..] are XORed in at (x, y).
pub open spec fn draw_rows(
    gfx: Seq<u8>,
    mem: Seq<u8>,
    index: int,
    x: int,
    y: int,
    r: int,
) -> (Seq<u8>, bool)
    decreases r,
{
    if r <= 0 {
        (gfx, false)
    } else {
        let prev = draw_rows(gfx, mem, index, x, y, r - 1);
        let row = draw_cols(prev.0, mem[index + (r - 1)], x, y + (r - 1), 8);
        (row.0, prev.1 || row.1)
    }
}

/// The effect of one decoded instruction, timers not yet ticked.  `rnd` is
/// the byte the random-number source produced, used only by the CXNN
/// instruction.  The await-key instruction with no key pressed leaves the
/// state exactly as it was.
pub open spec fn spec_exec(pre: VmView, op: u16, rnd: u8) -> Result<VmView, Chip8Error> {
    let x = ((op & 0x0F00) >> 8) as int;
    let y = ((op & 0x00F0) >> 4) as int;
    let k = op & 0x000F;
    let nn = (op & 0x00FF) as u8;
    let nnn = op & 0x0FFF;
    if op & 0xF000 == 0x0000 {
        if op == 0x00E0 {
            Ok(VmView {
                gfx: Seq::new(2048, |i: int| 0u8),
                draw: true,
                pc: (pre.pc + 2) as u16,
                ..pre
            })
        } else if op == 0x00EE {
            if pre.sp == 0 {
                Err(Chip8Error::StackUnderflow)
            } else {
                Ok(VmView { sp: (pre.sp - 1) as usize, pc: pre.stack[pre.sp - 1], ..pre })
            }
        } else {
            Err(Chip8Error::UnknownOpcode)
        }
    } else if op & 0xF000 == 0x1000 {
        Ok(VmView { pc: nnn, ..pre })
    } else if op & 0xF000 == 0x2000 {
        if pre.sp >= 16 {
            Err(Chip8Error::StackOverflow)
        } else {
            Ok(VmView {
                stack: pre.stack.update(pre.sp as int, (pre.pc + 2) as u16),
                sp: (pre.sp + 1) as usize,
                pc: nnn,
                ..pre
            })
        }
    } else if op & 0xF000 == 0x3000 {
        Ok(VmView { pc: if pre.regs[x] == nn { (pre.pc + 4) as u16 } else { (pre.pc + 2) as u16 }, ..pre })
    } else if op & 0xF000 == 0x4000 {
        Ok(VmView { pc: if pre.regs[x] != nn { (pre.pc + 4) as u16 } else { (pre.pc + 2) as u16 }, ..pre })
    } else if op & 0xF000 == 0x5000 {
        if k != 0 {
            Err(Chip8Error::UnknownOpcode)
        } else {
            Ok(VmView {
                pc: if pre.regs[x] == pre.regs[y] { (pre.pc + 4) as u16 } else { (pre.pc + 2) as u16 },
                ..pre
            })
        }
    } else if op & 0xF000 == 0x6000 {
        Ok(VmView { regs: pre.regs.update(x, nn), pc: (pre.pc + 2) as u16, ..pre })
    } else if op & 0xF000 == 0x7000 {
        Ok(VmView {
            regs: pre.regs.update(x, ((pre.regs[x] + nn) % 256) as u8),
            pc: (pre.pc + 2) as u16,
            ..pre
        })
    } else if op & 0xF000 == 0x8000 {
        let vx = pre.regs[x];
        let vy = pre.regs[y];
        if k == 0 {
            Ok(VmView { regs: pre.regs.update(x, vy), pc: (pre.pc + 2) as u16, ..pre })
        } else if k == 1 {
            Ok(VmView { regs: pre.regs.update(x, vx | vy), pc: (pre.pc + 2) as u16, ..pre })
        } else if k == 2 {
            Ok(VmView { regs: pre.regs.update(x, vx & vy), pc: (pre.pc + 2) as u16, ..pre })
        } else if k == 3 {
            Ok(VmView { regs: pre.regs.update(x, vx ^ vy), pc: (pre.pc + 2) as u16, ..pre })
        } else if k == 4 {
            Ok(VmView {
                regs: pre.regs.update(x, ((vx + vy) % 256) as u8).update(
                    15,
                    if vx + vy > 255 { 1u8 } else { 0u8 },
                ),
                pc: (pre.pc + 2) as u16,
                ..pre
            })
        } else if k == 5 {
            Ok(VmView {
                regs: pre.regs.update(x, ((vx + 256 - vy) % 256) as u8).update(
                    15,
                    if vy > vx { 0u8 } else { 1u8 },
                ),
                pc: (pre.pc + 2) as u16,
                ..pre
            })
        } else if k == 6 {
            Ok(VmView {
                regs: pre.regs.update(x, vx >> 1).update(15, vx & 1),
                pc: (pre.pc + 2) as u16,
                ..pre
            })
        } else if k == 7 {
            Ok(VmView {
                regs: pre.regs.update(x, ((vy + 256 - vx) % 256) as u8).update(
                    15,
                    if vx > vy { 0u8 } else { 1u8 },
                ),
                pc: (pre.pc + 2) as u16,
                ..pre
            })
        } else if k == 0xE {
            Ok(VmView {
                regs: pre.regs.update(x, vx << 1).update(15, vx >> 7),
                pc: (pre.pc + 2) as u16,
                ..pre
            })
        } else {
            Err(Chip8Error::UnknownOpcode)
        }
    } else if op & 0xF000 == 0x9000 {
        if k != 0 {
            Err(Chip8Error::UnknownOpcode)
        } else {
            Ok(VmView {
                pc: if pre.regs[x] != pre.regs[y] { (pre.pc + 4) as u16 } else { (pre.pc + 2) as u16 },
                ..pre
            })
        }
    } else if op & 0xF000 == 0xA000 {
        Ok(VmView { index: nnn, pc: (pre.pc + 2) as u16, ..pre })
    } else if op & 0xF000 == 0xB000 {
        Ok(VmView { pc: (nnn + pre.regs[0]) as u16, ..pre })
    } else if op & 0xF000 == 0xC000 {
        Ok(VmView { regs: pre.regs.update(x, rnd & nn), pc: (pre.pc + 2) as u16, ..pre })
    } else if op & 0xF000 == 0xD000 {
        if pre.index + k > 4096 {
            Err(Chip8Error::AddressOutOfRange)
        } else {
            let d = draw_rows(
                pre.gfx,
                pre.mem,
                pre.index as int,
                pre.regs[x] as int,
                pre.regs[y] as int,
                k as int,
            );
            Ok(VmView {
                gfx: d.0,
                regs: pre.regs.update(15, if d.1 { 1u8 } else { 0u8 }),
                draw: true,
                pc: (pre.pc + 2) as u16,
                ..pre
            })
        }
    } else if op & 0xF000 == 0xE000 {
        if nn == 0x9E {
            if pre.regs[x] >= 16 {
                Err(Chip8Error::KeyOutOfRange)
            } else {
                Ok(VmView {
                    pc: if pre.keypad[pre.regs[x] as int] != 0 {
                        (pre.pc + 4) as u16
                    } else {
                        (pre.pc + 2) as u16
                    },
                    ..pre
                })
            }
        } else if nn == 0xA1 {
            if pre.regs[x] >= 16 {
                Err(Chip8Error::KeyOutOfRange)
            } else {
                Ok(VmView {
                    pc: if pre.keypad[pre.regs[x] as int] == 0 {
                        (pre.pc + 4) as u16
                    } else {
                        (pre.pc + 2) as u16
                    },
                    ..pre
                })
            }
        } else {
            Err(Chip8Error::UnknownOpcode)
        }
    } else {
        // op & 0xF000 == 0xF000
        if nn == 0x07 {
            Ok(VmView { regs: pre.regs.update(x, pre.delay), pc: (pre.pc + 2) as u16, ..pre })
        } else if nn == 0x0A {
            match first_key_from(pre.keypad, 0) {
                None => Ok(pre),
                Some(key) => Ok(VmView {
                    regs: pre.regs.update(x, key as u8),
                    pc: (pre.pc + 2) as u16,
                    ..pre
                }),
            }
        } else if nn == 0x15 {
            Ok(VmView { delay: pre.regs[x], pc: (pre.pc + 2) as u16, ..pre })
        } else if nn == 0x18 {
            Ok(VmView { sound: pre.regs[x], pc: (pre.pc + 2) as u16, ..pre })
        } else if nn == 0x1E {
            Ok(VmView {
                regs: pre.regs.update(15, if pre.index + pre.regs[x] > 0xFFF { 1u8 } else { 0u8 }),
                index: ((pre.index + pre.regs[x]) % 0x10000) as u16,
                pc: (pre.pc + 2) as u16,
                ..pre
            })
        } else if nn == 0x29 {
            Ok(VmView { index: (pre.regs[x] * 5) as u16, pc: (pre.pc + 2) as u16, ..pre })
        } else if nn == 0x33 {
            if pre.index + 2 > 4095 {
                Err(Chip8Error::AddressOutOfRange)
            } else {
                Ok(VmView {
                    mem: pre.mem.update(pre.index as int, pre.regs[x] / 100).update(
                        pre.index + 1,
                        (pre.regs[x] / 10) % 10,
                    ).update(pre.index + 2, pre.regs[x] % 10),
                    pc: (pre.pc + 2) as u16,
                    ..pre
                })
            }
        } else if nn == 0x55 {
            if pre.index + x > 4095 {
                Err(Chip8Error::AddressOutOfRange)
            } else {
                Ok(VmView {
                    mem: dump_mem(pre.mem, pre.regs, pre.index as int, x),
                    index: (pre.index + x + 1) as u16,
                    pc: (pre.pc + 2) as u16,
                    ..pre
                })
            }
        } else if nn == 0x65 {
            if pre.index + x > 4095 {
                Err(Chip8Error::AddressOutOfRange)
            } else {
                Ok(VmView {
                    regs: load_regs(pre.regs, pre.mem, pre.index as int, x),
                    index: (pre.index + x + 1) as u16,
                    pc: (pre.pc + 2) as u16,
                    ..pre
                })
            }
        } else {
            Err(Chip8Error::UnknownOpcode)
        }
    }
}

/// Bounds of the operand fields decoded from an opcode, and how the
/// await-key encoding relates to its family and low byte.
pub proof fn lemma_op_fields(op: u16)
    ensures
        (op & 0x0F00) >> 8 < 16,
        (op & 0x00F0) >> 4 < 16,
        op & 0x000F < 16,
        op & 0x00FF < 256,
        op & 0x0FFF < 4096,
        (op & 0xF0FF == 0xF00A) == (op & 0xF000 == 0xF000 && op & 0x00FF == 0x0A),
        op & 0xF000 == 0x0000 || op & 0xF000 == 0x1000 || op & 0xF000 == 0x2000 || op & 0xF000
            == 0x3000 || op & 0xF000 == 0x4000 || op & 0xF000 == 0x5000 || op & 0xF000 == 0x6000
            || op & 0xF000 == 0x7000 || op & 0xF000 == 0x8000 || op & 0xF000 == 0x9000 || op
            & 0xF000 == 0xA000 || op & 0xF000 == 0xB000 || op & 0xF000 == 0xC000 || op & 0xF000
            == 0xD000 || op & 0xF000 == 0xE000 || op & 0xF000 == 0xF000,
{
    assert((op & 0x0F00) >> 8 < 16 && (op & 0x00F0) >> 4 < 16 && op & 0x000F < 16 && op & 0x00FF
        < 256 && op & 0x0FFF < 4096 && ((op & 0xF0FF == 0xF00A) == (op & 0xF000 == 0xF000 && op
        & 0x00FF == 0x0A))) by (bit_vector);
    assert(op & 0xF000 == 0x0000 || op & 0xF000 == 0x1000 || op & 0xF000 == 0x2000 || op & 0xF000
        == 0x3000 || op & 0xF000 == 0x4000 || op & 0xF000 == 0x5000 || op & 0xF000 == 0x6000 || op
        & 0xF000 == 0x7000 || op & 0xF000 == 0x8000 || op & 0xF000 == 0x9000 || op & 0xF000
        == 0xA000 || op & 0xF000 == 0xB000 || op & 0xF000 == 0xC000 || op & 0xF000 == 0xD000 || op
        & 0xF000 == 0xE000 || op & 0xF000 == 0xF000) by (bit_vector);
}

/// What one call of the cycle engine does: fetch the opcode at the program
/// counter, apply its effect, then count both timers down once — except that
/// the await-key instruction with no key pressed changes nothing at all, not
/// even the timers, and a failed cycle changes nothing either.
pub open spec fn spec_cycle(pre: VmView, rnd: u8) -> Result<VmView, Chip8Error> {
    if pre.pc as int + 1 >= 4096 {
        Err(Chip8Error::AddressOutOfRange)
    } else {
        let op = fetch(pre);
        if op & 0xF0FF == 0xF00A && first_key_from(pre.keypad, 0) is None {
            Ok(pre)
        } else {
            match spec_exec(pre, op, rnd) {
                Ok(s) => Ok(tick(s)),
                Err(e) => Err(e),
            }
        }
    }
}

/// One instruction's effect related to its observable outcome, timers not
/// yet ticked: on success the new state is what `spec_exec` gives; on
/// failure the error is the one `spec_exec` gives and the state is
/// untouched.
pub open spec fn exec_matches(
    pre: VmView,
    op: u16,
    rnd: u8,
    post: VmView,
    r: Result<(), Chip8Error>,
) -> bool {
    match spec_exec(pre, op, rnd) {
        Ok(v) => r is Ok && post == v,
        Err(e) => r == Err::<(), Chip8Error>(e) && post == pre,
    }
}

/// One cycle call related to its observable outcome: on success the new
/// state is what `spec_cycle` gives; on failure the error is the one
/// `spec_cycle` gives and the state is untouched.
pub open spec fn cycle_matches(
    pre: VmView,
    rnd: u8,
    post: VmView,
    r: Result<(), Chip8Error>,
) -> bool {
    match spec_cycle(pre, rnd) {
        Ok(v) => r is Ok && post == v,
        Err(e) => r == Err::<(), Chip8Error>(e) && post == pre,
    }
}

} // verus!

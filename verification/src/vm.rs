//! The machine itself: its concrete state, construction, and the read and
//! write access an external loader, renderer or debugger needs.

use vstd::prelude::*;
use crate::model::{VmView, init_vm, mem_written, zero_regs, zero_mem, blank_display};
use crate::sprite::pix;

verus! {

/// The text byte for a lit pixel: '#'.
pub const LIT_BYTE: u8 = 35;

/// The text byte for a dark pixel: '.'.
pub const DARK_BYTE: u8 = 46;

/// A CHIP-8 machine: 4096 bytes of memory, sixteen 8-bit registers, a 16-bit
/// index register and program counter, a collision flag, a call stack of
/// return addresses, and a 64 by 32 monochrome display stored row-major.
pub struct Chip8 {
    pub(crate) pc: u16,
    pub(crate) v: Vec<u8>,
    pub(crate) i: u16,
    pub(crate) vf: u8,
    pub(crate) memory: Vec<u8>,
    pub(crate) stack: Vec<u16>,
    pub(crate) display: Vec<bool>,
}

impl View for Chip8 {
    type V = VmView;

    closed spec fn view(&self) -> VmView {
        VmView {
            pc: self.pc,
            v: self.v@,
            i: self.i,
            vf: self.vf,
            mem: self.memory@,
            stack: self.stack@,
            display: self.display@,
        }
    }
}

/// A vector of `n` zero bytes.
fn zero_bytes(n: usize) -> (r: Vec<u8>)
    ensures
        r@ == Seq::new(n as nat, |k: int| 0u8),
{
    let mut r: Vec<u8> = Vec::new();
    while r.len() < n
        invariant
            r@.len() <= n,
            r@ == Seq::new(r@.len(), |k: int| 0u8),
        decreases n - r.len(),
    {
        r.push(0);
        assert(r@ =~= Seq::new(r@.len(), |k: int| 0u8));
    }
    r
}

/// A vector of `n` dark pixels.
fn dark_pixels(n: usize) -> (r: Vec<bool>)
    ensures
        r@ == Seq::new(n as nat, |k: int| false),
{
    let mut r: Vec<bool> = Vec::new();
    while r.len() < n
        invariant
            r@.len() <= n,
            r@ == Seq::new(r@.len(), |k: int| false),
        decreases n - r.len(),
    {
        r.push(false);
        assert(r@ =~= Seq::new(r@.len(), |k: int| false));
    }
    r
}

impl Chip8 {
    /// A machine in the canonical initial state: program counter at 0x200,
    /// registers, index, collision flag, memory and display zeroed, call
    /// stack empty.
    pub fn new() -> (vm: Chip8)
        ensures
            vm@.wf(),
            vm@ == init_vm(),
    {
        let vm = Chip8 {
            pc: 0x200,
            v: zero_bytes(16),
            i: 0,
            vf: 0,
            memory: zero_bytes(4096),
            stack: Vec::new(),
            display: dark_pixels(2048),
        };
        proof {
            assert(vm@.v =~= zero_regs());
            assert(vm@.mem =~= zero_mem());
            assert(vm@.display =~= blank_display());
            assert(vm@.stack =~= Seq::<u16>::empty());
            assert(vm@ =~= init_vm());
        }
        vm
    }

    /// The program counter.
    pub fn pc(&self) -> (r: u16)
        ensures
            r == self@.pc,
    {
        self.pc
    }

    /// General-purpose register `x`.
    pub fn register(&self, x: usize) -> (r: u8)
        requires
            self@.wf(),
            x < 16,
        ensures
            r == self@.v[x as int],
    {
        self.v[x]
    }

    /// The index register.
    pub fn index(&self) -> (r: u16)
        ensures
            r == self@.i,
    {
        self.i
    }

    /// The collision flag written by the latest sprite draw.
    pub fn collision_flag(&self) -> (r: u8)
        ensures
            r == self@.vf,
    {
        self.vf
    }

    /// How many return addresses the call stack holds.
    pub fn stack_depth(&self) -> (r: usize)
        ensures
            r == self@.stack.len(),
    {
        self.stack.len()
    }

    /// The topmost return address, if any.
    pub fn stack_top(&self) -> (r: Option<u16>)
        ensures
            r == (if self@.stack.len() == 0 {
                Option::<u16>::None
            } else {
                Option::Some(self@.stack.last())
            }),
    {
        if self.stack.len() == 0 {
            None
        } else {
            Some(self.stack[self.stack.len() - 1])
        }
    }

    /// The return address at position `k` of the call stack, oldest first:
    /// the read access an external debugger uses to walk the whole stack.
    pub fn stack_at(&self, k: usize) -> (r: u16)
        requires
            k < self@.stack.len(),
        ensures
            r == self@.stack[k as int],
    {
        self.stack[k]
    }

    /// The byte at a memory address.
    pub fn read_memory(&self, addr: usize) -> (r: u8)
        requires
            self@.wf(),
            addr < 4096,
        ensures
            r == self@.mem[addr as int],
    {
        self.memory[addr]
    }

    /// Writes one byte of memory: the operation an external ROM loader uses
    /// to populate program bytes before the first step.
    pub fn write_memory(&mut self, addr: usize, byte: u8)
        requires
            old(self)@.wf(),
            addr < 4096,
        ensures
            final(self)@.wf(),
            final(self)@ == mem_written(old(self)@, addr as int, byte),
    {
        self.memory[addr] = byte;
    }

    /// Reads one pixel of the flattened display.
    pub(crate) fn pixel_at(&self, k: usize) -> (r: bool)
        requires
            self@.wf(),
            k < 2048,
        ensures
            r == self@.display[k as int],
    {
        self.display[k]
    }

    /// Writes one pixel of the flattened display.
    pub(crate) fn set_pixel_at(&mut self, k: usize, val: bool)
        requires
            old(self)@.wf(),
            k < 2048,
        ensures
            final(self)@ == (VmView {
                display: old(self)@.display.update(k as int, val),
                ..old(self)@
            }),
    {
        self.display[k] = val;
    }

    /// Sets the program counter.
    pub(crate) fn set_pc(&mut self, pc: u16)
        ensures
            final(self)@ == (VmView { pc: pc, ..old(self)@ }),
    {
        self.pc = pc;
    }

    /// Sets the collision flag.
    pub(crate) fn set_vf(&mut self, val: u8)
        ensures
            final(self)@ == (VmView { vf: val, ..old(self)@ }),
    {
        self.vf = val;
    }

    /// Sets one general-purpose register.
    pub(crate) fn set_reg(&mut self, x: usize, val: u8)
        requires
            old(self)@.wf(),
            x < 16,
        ensures
            final(self)@ == (VmView { v: old(self)@.v.update(x as int, val), ..old(self)@ }),
    {
        self.v[x] = val;
    }

    /// Sets the index register.
    pub(crate) fn set_index(&mut self, val: u16)
        ensures
            final(self)@ == (VmView { i: val, ..old(self)@ }),
    {
        self.i = val;
    }

    /// Pushes a return address onto the call stack.
    pub(crate) fn push_stack(&mut self, addr: u16)
        ensures
            final(self)@ == (VmView { stack: old(self)@.stack.push(addr), ..old(self)@ }),
    {
        self.stack.push(addr);
    }

    /// Pops the topmost return address, if any.
    pub(crate) fn pop_stack(&mut self) -> (r: Option<u16>)
        ensures
            old(self)@.stack.len() == 0 ==> r == Option::<u16>::None
                && final(self)@ == old(self)@,
            old(self)@.stack.len() > 0 ==> r == Option::Some(old(self)@.stack.last())
                && final(self)@ == (VmView { stack: old(self)@.stack.drop_last(), ..old(self)@ }),
    {
        let r = self.stack.pop();
        proof {
            if old(self)@.stack.len() > 0 {
                assert(self@.stack =~= old(self)@.stack.drop_last());
            }
        }
        r
    }

    /// Darkens the whole display.
    pub(crate) fn set_display_dark(&mut self)
        ensures
            final(self)@ == (VmView { display: blank_display(), ..old(self)@ }),
    {
        self.display = dark_pixels(2048);
    }

    /// The pixel at column `x` of row `y`: true is lit.
    pub fn pixel(&self, y: usize, x: usize) -> (r: bool)
        requires
            self@.wf(),
            y < 32,
            x < 64,
        ensures
            r == pix(self@.display, y as int, x as int),
    {
        self.display[y * 64 + x]
    }

    /// One display row as text bytes, for an external renderer: LIT_BYTE for a
    /// lit pixel, DARK_BYTE for a dark one.
    pub fn render_row(&self, y: usize) -> (r: Vec<u8>)
        requires
            self@.wf(),
            y < 32,
        ensures
            r@.len() == 64,
            forall|x: int|
                0 <= x < 64 ==> r@[x] == (if pix(self@.display, y as int, x) {
                    LIT_BYTE
                } else {
                    DARK_BYTE
                }),
    {
        let mut r: Vec<u8> = Vec::new();
        let mut x: usize = 0;
        while x < 64
            invariant
                self@.wf(),
                y < 32,
                x <= 64,
                r@.len() == x,
                forall|j: int|
                    0 <= j < x ==> r@[j] == (if pix(self@.display, y as int, j) {
                        LIT_BYTE
                    } else {
                        DARK_BYTE
                    }),
            decreases 64 - x,
        {
            let lit = self.display[y * 64 + x];
            r.push(if lit {
                LIT_BYTE
            } else {
                DARK_BYTE
            });
            x += 1;
        }
        r
    }
}

} // verus!

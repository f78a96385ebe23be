//! Mathematical model of the machine: the abstract state, the operand fields
//! of an instruction word, and the effect of each instruction as a function
//! (or relation) on abstract states.

use vstd::prelude::*;

verus! {

/// Abstract state of the machine: the register file, memory, call stack and
/// display, as mathematical values.
#[verifier::ext_equal]
pub ghost struct VmView {
    /// Program counter.
    pub pc: u16,
    /// The sixteen general-purpose registers.
    pub v: Seq<u8>,
    /// Index register.
    pub i: u16,
    /// Collision flag, written by sprite draws.
    pub vf: u8,
    /// Memory: 4096 bytes.
    pub mem: Seq<u8>,
    /// Call stack of return addresses, last element on top.
    pub stack: Seq<u16>,
    /// Display: 32 rows of 64 pixels, row-major.
    pub display: Seq<bool>,
}

impl VmView {
    /// Well-formedness: the fixed sizes of the register file, memory and display.
    pub open spec fn wf(self) -> bool {
        &&& self.v.len() == 16
        &&& self.mem.len() == 4096
        &&& self.display.len() == 2048
    }
}

/// The non-fatal outcome of one executed instruction.
#[derive(Clone, Copy, Debug, PartialEq, Eq, Structural)]
pub enum StepEvent {
    /// A known instruction was executed.
    Executed,
    /// The word matched no known instruction family: no state changed beyond
    /// the fetch advance of the program counter, and execution may continue.
    UnknownOpcode(u16),
    /// `0x00EE` found the call stack empty: the return itself left the
    /// program counter alone.
    EmptyStackReturn,
}

/// A fatal failure of a step, surfaced without corrupting the state.
#[derive(Clone, Copy, Debug, PartialEq, Eq, Structural)]
pub enum VmError {
    /// A fetch or sprite read would touch an address outside memory.
    AddressOutOfRange,
}

/// Opcode family: the high nibble of the instruction word.
pub open spec fn family_of(op: u16) -> u16 {
    op >> 12
}

/// Register operand `x`: bits 8..12 of the instruction word.
pub open spec fn x_of(op: u16) -> u16 {
    (op >> 8) & 0xF
}

/// Register operand `y`: bits 4..8 of the instruction word.
pub open spec fn y_of(op: u16) -> u16 {
    (op >> 4) & 0xF
}

/// Immediate operand `kk`: the low byte of the instruction word.
pub open spec fn kk_of(op: u16) -> u8 {
    (op & 0xFF) as u8
}

/// Address operand `nnn`: the low 12 bits of the instruction word.
pub open spec fn nnn_of(op: u16) -> u16 {
    op & 0xFFF
}

/// Sprite height operand `n`: the low nibble of the instruction word.
pub open spec fn n_of(op: u16) -> u16 {
    op & 0xF
}

/// The operand fields are bounded by their widths.
pub proof fn lemma_operand_bounds(op: u16)
    ensures
        family_of(op) < 16,
        x_of(op) < 16,
        y_of(op) < 16,
        nnn_of(op) < 0x1000,
        n_of(op) < 16,
{
    assert(op >> 12 < 16) by (bit_vector);
    assert((op >> 8) & 0xF < 16) by (bit_vector);
    assert((op >> 4) & 0xF < 16) by (bit_vector);
    assert(op & 0xFFF < 0x1000) by (bit_vector);
    assert(op & 0xF < 16) by (bit_vector);
}

/// An all-zero register file.
pub open spec fn zero_regs() -> Seq<u8> {
    Seq::new(16, |k: int| 0u8)
}

/// All-zero memory.
pub open spec fn zero_mem() -> Seq<u8> {
    Seq::new(4096, |k: int| 0u8)
}

/// A display with every pixel dark.
pub open spec fn blank_display() -> Seq<bool> {
    Seq::new(2048, |k: int| false)
}

/// The state of a freshly constructed machine: program counter at the
/// conventional program origin 0x200, everything else zeroed.
pub open spec fn init_vm() -> VmView {
    VmView {
        pc: 0x200,
        v: zero_regs(),
        i: 0,
        vf: 0,
        mem: zero_mem(),
        stack: Seq::empty(),
        display: blank_display(),
    }
}

/// The state with the program counter advanced past one instruction word, as
/// an unconditional fetch leaves it.
pub open spec fn advanced(s: VmView) -> VmView {
    VmView { pc: (s.pc + 2) as u16, ..s }
}

/// The big-endian instruction word at the program counter.
pub open spec fn fetched_word(s: VmView) -> u16 {
    ((s.mem[s.pc as int] as u16) * 256 + s.mem[s.pc as int + 1] as u16) as u16
}

/// The state with one memory byte replaced.
pub open spec fn mem_written(s: VmView, addr: int, byte: u8) -> VmView {
    VmView { mem: s.mem.update(addr, byte), ..s }
}

/// `0x00E0`: every pixel reset to dark.
pub open spec fn clear_effect(s: VmView) -> VmView {
    VmView { display: blank_display(), ..s }
}

/// `0x00EE`: the top of the call stack popped into the program counter; on an
/// empty stack the state is untouched.
pub open spec fn return_effect(s: VmView) -> VmView {
    if s.stack.len() == 0 {
        s
    } else {
        VmView { pc: s.stack.last(), stack: s.stack.drop_last(), ..s }
    }
}

/// `0x1nnn`: the program counter set to the address operand.
pub open spec fn jump_effect(s: VmView, op: u16) -> VmView {
    VmView { pc: nnn_of(op), ..s }
}

/// `0x2nnn`: the current program counter pushed, then the jump to `nnn`.
pub open spec fn call_effect(s: VmView, op: u16) -> VmView {
    VmView { pc: nnn_of(op), stack: s.stack.push(s.pc), ..s }
}

/// `0x3xkk`: skip one instruction (two further bytes) when register `x`
/// equals the immediate. The fetch advance is not included here.
pub open spec fn skip_eq_effect(s: VmView, op: u16) -> VmView {
    if s.v[x_of(op) as int] == kk_of(op) {
        VmView { pc: (s.pc + 2) as u16, ..s }
    } else {
        s
    }
}

/// `0x4xkk`: skip when register `x` differs from the immediate.
pub open spec fn skip_ne_effect(s: VmView, op: u16) -> VmView {
    if s.v[x_of(op) as int] != kk_of(op) {
        VmView { pc: (s.pc + 2) as u16, ..s }
    } else {
        s
    }
}

/// `0x9xy0`: skip when registers `x` and `y` differ.
pub open spec fn skip_regs_ne_effect(s: VmView, op: u16) -> VmView {
    if s.v[x_of(op) as int] != s.v[y_of(op) as int] {
        VmView { pc: (s.pc + 2) as u16, ..s }
    } else {
        s
    }
}

/// `0x6xkk`: register `x` loaded with the immediate.
pub open spec fn load_effect(s: VmView, op: u16) -> VmView {
    VmView { v: s.v.update(x_of(op) as int, kk_of(op)), ..s }
}

/// `0x7xkk`: modulo-256 addition of the immediate into register `x`; no carry
/// flag is written.
pub open spec fn add_effect(s: VmView, op: u16) -> VmView {
    VmView {
        v: s.v.update(x_of(op) as int, ((s.v[x_of(op) as int] + kk_of(op)) % 256) as u8),
        ..s
    }
}

/// `0xAnnn`: the index register loaded with the address operand.
pub open spec fn index_effect(s: VmView, op: u16) -> VmView {
    VmView { i: nnn_of(op), ..s }
}

/// `0xCxkk`: register `x` loaded with a random byte masked by the immediate.
/// The byte drawn is a parameter: the instruction's effect is this for some
/// byte, nothing more.
pub open spec fn random_effect(s: VmView, op: u16, byte: u8) -> VmView {
    VmView { v: s.v.update(x_of(op) as int, byte & kk_of(op)), ..s }
}

} // verus!

//! The execution engine: the per-instruction operations, the decoder that
//! dispatches one instruction word, and the fetch-decode-execute step.

use vstd::prelude::*;
use crate::model::{
    VmView, StepEvent, VmError, family_of, x_of, y_of, kk_of, nnn_of, n_of, lemma_operand_bounds,
    advanced, fetched_word, clear_effect, return_effect, jump_effect, call_effect, skip_eq_effect,
    skip_ne_effect, skip_regs_ne_effect, load_effect, add_effect, index_effect, random_effect,
};
use crate::sprite::{pix, draw_effect, draw_oob};
use crate::vm::Chip8;

verus! {

/// How one decoded instruction acts on a post-fetch state `pre` (one whose
/// program counter has already been advanced past the instruction word):
/// relates the state `post` and outcome `r` that executing `op` may leave.
/// Randomness makes this a relation rather than a function: for `0xCxkk`
/// every byte is a possible outcome.
pub open spec fn exec_rel(
    pre: VmView,
    op: u16,
    post: VmView,
    r: Result<StepEvent, VmError>,
) -> bool {
    if op == 0x00E0 {
        post == clear_effect(pre) && r == Ok::<StepEvent, VmError>(StepEvent::Executed)
    } else if op == 0x00EE {
        if pre.stack.len() > 0 {
            post == return_effect(pre) && r == Ok::<StepEvent, VmError>(StepEvent::Executed)
        } else {
            post == pre && r == Ok::<StepEvent, VmError>(StepEvent::EmptyStackReturn)
        }
    } else if family_of(op) == 0x1 {
        post == jump_effect(pre, op) && r == Ok::<StepEvent, VmError>(StepEvent::Executed)
    } else if family_of(op) == 0x2 {
        post == call_effect(pre, op) && r == Ok::<StepEvent, VmError>(StepEvent::Executed)
    } else if family_of(op) == 0x3 {
        post == skip_eq_effect(pre, op) && r == Ok::<StepEvent, VmError>(StepEvent::Executed)
    } else if family_of(op) == 0x4 {
        post == skip_ne_effect(pre, op) && r == Ok::<StepEvent, VmError>(StepEvent::Executed)
    } else if family_of(op) == 0x6 {
        post == load_effect(pre, op) && r == Ok::<StepEvent, VmError>(StepEvent::Executed)
    } else if family_of(op) == 0x7 {
        post == add_effect(pre, op) && r == Ok::<StepEvent, VmError>(StepEvent::Executed)
    } else if family_of(op) == 0x9 && n_of(op) == 0 {
        post == skip_regs_ne_effect(pre, op) && r == Ok::<StepEvent, VmError>(StepEvent::Executed)
    } else if family_of(op) == 0xA {
        post == index_effect(pre, op) && r == Ok::<StepEvent, VmError>(StepEvent::Executed)
    } else if family_of(op) == 0xC {
        (exists|byte: u8| post == random_effect(pre, op, byte)) && r == Ok::<StepEvent, VmError>(
            StepEvent::Executed,
        )
    } else if family_of(op) == 0xD {
        if draw_oob(pre, op) {
            post == pre && r == Err::<StepEvent, VmError>(VmError::AddressOutOfRange)
        } else {
            post == draw_effect(pre, op) && r == Ok::<StepEvent, VmError>(StepEvent::Executed)
        }
    } else {
        post == pre && r == Ok::<StepEvent, VmError>(StepEvent::UnknownOpcode(op))
    }
}

/// Relies on rand::random: draws one uniformly distributed byte from the
/// thread-local generator. Nothing is assumed of the value: every byte is a
/// possible outcome.
#[verifier::external_body]
fn random_byte() -> u8 {
    rand::random::<u8>()
}

/// The `x` operand as a register index.
fn reg_x(op: u16) -> (r: usize)
    ensures
        r == x_of(op),
        r < 16,
{
    proof {
        lemma_operand_bounds(op);
    }
    ((op >> 8) & 0xF) as usize
}

/// The `y` operand as a register index.
fn reg_y(op: u16) -> (r: usize)
    ensures
        r == y_of(op),
        r < 16,
{
    proof {
        lemma_operand_bounds(op);
    }
    ((op >> 4) & 0xF) as usize
}

/// The immediate operand `kk`.
fn imm_kk(op: u16) -> (r: u8)
    ensures
        r == kk_of(op),
{
    (op & 0xFF) as u8
}

impl Chip8 {
    /// `0x00E0`: clears the screen: every one of the 2048 pixels goes dark,
    /// whatever sequence of draws came before.
    pub fn clear_screen(&mut self)
        requires
            old(self)@.wf(),
        ensures
            final(self)@.wf(),
            final(self)@ == clear_effect(old(self)@),
            forall|y: int, x: int|
                0 <= y < 32 && 0 <= x < 64 ==> !pix(final(self)@.display, y, x),
    {
        self.set_display_dark();
    }

    /// `0x00EE`: pops the top return address into the program counter. On an
    /// empty stack the program counter and everything else stay untouched:
    /// the condition is reported by the decoder, never a crash.
    pub fn return_from_subroutine(&mut self)
        requires
            old(self)@.wf(),
        ensures
            final(self)@.wf(),
            final(self)@ == return_effect(old(self)@),
            old(self)@.stack.len() == 0 ==> final(self)@ == old(self)@,
    {
        if let Some(address) = self.pop_stack() {
            self.set_pc(address);
        }
    }

    /// `0x1nnn`: sets the program counter to the address operand, leaving
    /// all other state unchanged.
    pub fn jump_to_address(&mut self, op: u16)
        requires
            old(self)@.wf(),
        ensures
            final(self)@.wf(),
            final(self)@ == jump_effect(old(self)@, op),
    {
        self.set_pc(op & 0x0FFF);
    }

    /// `0x2nnn`: pushes the current program counter onto the call stack,
    /// then jumps to the address operand.
    pub fn call_subroutine(&mut self, op: u16)
        requires
            old(self)@.wf(),
        ensures
            final(self)@.wf(),
            final(self)@ == call_effect(old(self)@, op),
    {
        let pc0 = self.pc();
        self.push_stack(pc0);
        self.set_pc(op & 0x0FFF);
    }

    /// `0x3xkk`: with the fetch advance already applied, skips the next
    /// instruction (two further bytes) exactly when register `x` equals the
    /// immediate.
    pub fn skip_next_same_value(&mut self, op: u16)
        requires
            old(self)@.wf(),
            old(self)@.pc + 2 <= u16::MAX,
        ensures
            final(self)@.wf(),
            final(self)@ == skip_eq_effect(old(self)@, op),
    {
        let x = reg_x(op);
        let kk = imm_kk(op);
        if self.register(x) == kk {
            let pc0 = self.pc();
            self.set_pc(pc0 + 2);
        }
    }

    /// `0x4xkk`: skips exactly when register `x` differs from the immediate.
    pub fn skip_next_not_same_value(&mut self, op: u16)
        requires
            old(self)@.wf(),
            old(self)@.pc + 2 <= u16::MAX,
        ensures
            final(self)@.wf(),
            final(self)@ == skip_ne_effect(old(self)@, op),
    {
        let x = reg_x(op);
        let kk = imm_kk(op);
        if self.register(x) != kk {
            let pc0 = self.pc();
            self.set_pc(pc0 + 2);
        }
    }

    /// `0x6xkk`: loads register `x` with the immediate; reading the register
    /// afterwards yields exactly that value.
    pub fn set_register(&mut self, op: u16)
        requires
            old(self)@.wf(),
        ensures
            final(self)@.wf(),
            final(self)@ == load_effect(old(self)@, op),
            final(self)@.v[x_of(op) as int] == kk_of(op),
    {
        let x = reg_x(op);
        let kk = imm_kk(op);
        self.set_reg(x, kk);
    }

    /// `0x7xkk`: adds the immediate into register `x` with modulo-256
    /// wraparound: overflow is silently truncated and no carry flag is
    /// written.
    pub fn add_to_register(&mut self, op: u16)
        requires
            old(self)@.wf(),
        ensures
            final(self)@.wf(),
            final(self)@ == add_effect(old(self)@, op),
            final(self)@.v[x_of(op) as int] == (old(self)@.v[x_of(op) as int] + kk_of(op)) % 256,
    {
        let x = reg_x(op);
        let kk = imm_kk(op);
        let sum: u16 = (self.register(x) as u16) + (kk as u16);
        self.set_reg(x, (sum % 256) as u8);
    }

    /// `0x9xy0`: skips exactly when registers `x` and `y` differ.
    pub fn skip_next_if_not_equal(&mut self, op: u16)
        requires
            old(self)@.wf(),
            old(self)@.pc + 2 <= u16::MAX,
        ensures
            final(self)@.wf(),
            final(self)@ == skip_regs_ne_effect(old(self)@, op),
    {
        let x = reg_x(op);
        let y = reg_y(op);
        if self.register(x) != self.register(y) {
            let pc0 = self.pc();
            self.set_pc(pc0 + 2);
        }
    }

    /// `0xAnnn`: loads the index register with the address operand.
    pub fn index_register(&mut self, op: u16)
        requires
            old(self)@.wf(),
        ensures
            final(self)@.wf(),
            final(self)@ == index_effect(old(self)@, op),
    {
        self.set_index(op & 0x0FFF);
    }

    /// `0xCxkk`: loads register `x` with a random byte ANDed with the
    /// immediate mask. Of the byte nothing is assumed; whatever it was, the
    /// stored value has no bit outside the mask.
    pub fn set_register_random_source(&mut self, op: u16)
        requires
            old(self)@.wf(),
        ensures
            final(self)@.wf(),
            exists|byte: u8| final(self)@ == random_effect(old(self)@, op, byte),
            final(self)@.v[x_of(op) as int] == (final(self)@.v[x_of(op) as int] & kk_of(op)),
    {
        let byte = random_byte();
        let x = reg_x(op);
        let kk = imm_kk(op);
        self.set_reg(x, byte & kk);
        proof {
            assert(self@ == random_effect(old(self)@, op, byte));
            assert((byte & kk) & kk == byte & kk) by (bit_vector);
        }
    }

    /// Fetches the big-endian instruction word at the program counter and
    /// advances the program counter past it. A fetch that would read outside
    /// memory fails the step explicitly and changes nothing.
    pub fn fetch_opcode(&mut self) -> (r: Result<u16, VmError>)
        requires
            old(self)@.wf(),
        ensures
            final(self)@.wf(),
            old(self)@.pc + 1 < 4096 ==> r == Ok::<u16, VmError>(fetched_word(old(self)@))
                && final(self)@ == advanced(old(self)@),
            old(self)@.pc + 1 >= 4096 ==> r == Err::<u16, VmError>(VmError::AddressOutOfRange)
                && final(self)@ == old(self)@,
    {
        let pc = self.pc();
        if pc >= 4095 {
            return Err(VmError::AddressOutOfRange);
        }
        let hi = self.read_memory(pc as usize);
        let lo = self.read_memory(pc as usize + 1);
        self.set_pc(pc + 2);
        proof {
            assert(((hi as u16) << 8) | (lo as u16) == (hi as u16) * 256 + (lo as u16))
                by (bit_vector);
        }
        Ok(((hi as u16) << 8) | (lo as u16))
    }

    /// Decodes one already-fetched instruction word and dispatches it to its
    /// operation: the decode table, stated relative to a program counter
    /// that the fetch has already advanced. A word matching no family
    /// changes nothing at all and is reported, non-fatally, as unknown, so
    /// execution may continue on the next step.
    pub fn decode_opcode(&mut self, op: u16) -> (r: Result<StepEvent, VmError>)
        requires
            old(self)@.wf(),
            old(self)@.pc + 2 <= u16::MAX,
        ensures
            final(self)@.wf(),
            exec_rel(old(self)@, op, final(self)@, r),
            family_of(op) == 0x1 ==> final(self)@ == jump_effect(old(self)@, op),
    {
        proof {
            lemma_operand_bounds(op);
            assert(0x00E0u16 >> 12 == 0) by (bit_vector);
            assert(0x00EEu16 >> 12 == 0) by (bit_vector);
        }
        let family = op >> 12;
        if op == 0x00E0 {
            self.clear_screen();
            Ok(StepEvent::Executed)
        } else if op == 0x00EE {
            let empty = self.stack_depth() == 0;
            self.return_from_subroutine();
            if empty {
                Ok(StepEvent::EmptyStackReturn)
            } else {
                Ok(StepEvent::Executed)
            }
        } else if family == 0x1 {
            self.jump_to_address(op);
            Ok(StepEvent::Executed)
        } else if family == 0x2 {
            self.call_subroutine(op);
            Ok(StepEvent::Executed)
        } else if family == 0x3 {
            self.skip_next_same_value(op);
            Ok(StepEvent::Executed)
        } else if family == 0x4 {
            self.skip_next_not_same_value(op);
            Ok(StepEvent::Executed)
        } else if family == 0x6 {
            self.set_register(op);
            Ok(StepEvent::Executed)
        } else if family == 0x7 {
            self.add_to_register(op);
            Ok(StepEvent::Executed)
        } else if family == 0x9 && (op & 0xF) == 0 {
            self.skip_next_if_not_equal(op);
            Ok(StepEvent::Executed)
        } else if family == 0xA {
            self.index_register(op);
            Ok(StepEvent::Executed)
        } else if family == 0xC {
            self.set_register_random_source(op);
            Ok(StepEvent::Executed)
        } else if family == 0xD {
            match self.draw_sprite(op) {
                Ok(()) => Ok(StepEvent::Executed),
                Err(e) => Err(e),
            }
        } else {
            Ok(StepEvent::UnknownOpcode(op))
        }
    }

    /// One atomic unit of work: fetches the word at the program counter,
    /// decodes it and executes it. A fetch outside memory fails the step
    /// without touching anything. From the pre-fetch program counter, a
    /// taken skip advances it by 4 in all and an untaken one by 2, the
    /// skipped instruction being the word after this one.
    pub fn step(&mut self) -> (r: Result<StepEvent, VmError>)
        requires
            old(self)@.wf(),
        ensures
            final(self)@.wf(),
            old(self)@.pc + 1 < 4096 ==> exec_rel(
                advanced(old(self)@),
                fetched_word(old(self)@),
                final(self)@,
                r,
            ),
            old(self)@.pc + 1 >= 4096 ==> r == Err::<StepEvent, VmError>(
                VmError::AddressOutOfRange,
            ) && final(self)@ == old(self)@,
            old(self)@.pc + 1 < 4096 && family_of(fetched_word(old(self)@)) == 0x3
                ==> final(self)@.pc == (if old(self)@.v[x_of(fetched_word(old(self)@)) as int]
                == kk_of(fetched_word(old(self)@)) {
                (old(self)@.pc + 4) as u16
            } else {
                (old(self)@.pc + 2) as u16
            }),
            old(self)@.pc + 1 < 4096 && family_of(fetched_word(old(self)@)) == 0x4
                ==> final(self)@.pc == (if old(self)@.v[x_of(fetched_word(old(self)@)) as int]
                != kk_of(fetched_word(old(self)@)) {
                (old(self)@.pc + 4) as u16
            } else {
                (old(self)@.pc + 2) as u16
            }),
    {
        let word = match self.fetch_opcode() {
            Ok(word) => word,
            Err(e) => {
                return Err(e);
            },
        };
        let r = self.decode_opcode(word);
        proof {
            lemma_operand_bounds(word);
            assert(0x00E0u16 >> 12 == 0) by (bit_vector);
            assert(0x00EEu16 >> 12 == 0) by (bit_vector);
        }
        r
    }
}

} // verus!

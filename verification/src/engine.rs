//! The execution engine: a fetch-decode-execute step over a
//! `MachineState`, calling out to an I/O capability on the byte-transfer
//! instructions. `spec_step` is the machine's small-step semantics; one
//! `Interpreter::step` is proved to realise it exactly.

use vstd::prelude::*;
use vstd::math::abs;
use vstd::wrapping::i32_specs;
use crate::isa::{spec_decode, spec_size, Instruction};
use crate::machine::{word_at, word_in_data, with_word, ExecutionError, MachineModel, MachineState};

verus! {

/// What one step of the engine produced.
#[derive(Clone, Copy, Debug, PartialEq, Eq, Structural)]
pub enum ExecutionEffect {
    /// The instruction ran; the machine may take another step.
    StateChange,
    /// A fatal fault; the machine halts, its state as it was before the
    /// faulting instruction.
    Error(ExecutionError),
    /// A clean halt, from the `Exit` instruction.
    Exit,
}

/// The I/O capability the engine is driven with: a blocking one-byte
/// input and a fire-and-forget one-byte output.
pub trait IO {
    /// Blocks until one byte of input is available and returns it.
    fn read_byte(&mut self) -> u8;

    /// Emits one byte to the output.
    fn write_byte(&mut self, b: u8);
}

/// Truncating 32-bit division of `a` by `b` (nonzero), wrapping on the
/// one representable overflow: the magnitude quotient, negated when the
/// signs differ, and `i32::MIN` for `i32::MIN / -1`.
pub open spec fn spec_div_wrap(a: i32, b: i32) -> i32 {
    if a == i32::MIN && b == -1 {
        i32::MIN
    } else {
        let q = abs(a as int) / abs(b as int);
        if (a < 0) != (b < 0) {
            (-(q as int)) as i32
        } else {
            q as i32
        }
    }
}

/// `m` with the instruction pointer advanced over `i`'s encoding.
pub open spec fn advance_ip(m: MachineModel, i: Instruction) -> MachineModel {
    MachineModel { ip: (m.ip + spec_size(i)) as i32, ..m }
}

/// The effect of instruction `i` on machine `m`: the machine after the
/// instruction and what the step reports. `input` is the byte the I/O
/// capability supplies, read only by `ReadByte`. A fault leaves the
/// machine exactly as it was.
pub open spec fn spec_execute(m: MachineModel, i: Instruction, input: u8) -> (MachineModel,
    ExecutionEffect) {
    match i {
        Instruction::Call(target) => {
            if m.call_stack.len() >= m.call_max {
                (m, ExecutionEffect::Error(ExecutionError::StackOverflow))
            } else {
                (
                    MachineModel {
                        ip: target,
                        call_stack: m.call_stack.push((m.ip + 5) as i32),
                        ..m
                    },
                    ExecutionEffect::StateChange,
                )
            }
        },
        Instruction::Ret => {
            if m.call_stack.len() == 0 {
                (m, ExecutionEffect::Error(ExecutionError::StackUnderflow))
            } else {
                (
                    MachineModel { ip: m.call_stack.last(), call_stack: m.call_stack.drop_last(), ..m },
                    ExecutionEffect::StateChange,
                )
            }
        },
        Instruction::WriteByte(_) => (advance_ip(m, i), ExecutionEffect::StateChange),
        Instruction::ReadByte(r) => (
            MachineModel { regs: m.regs.update(r as int, input as i32), ..advance_ip(m, i) },
            ExecutionEffect::StateChange,
        ),
        Instruction::Debug => (advance_ip(m, i), ExecutionEffect::StateChange),
        Instruction::Exit => (advance_ip(m, i), ExecutionEffect::Exit),
        Instruction::Load(addr, r) => {
            if word_in_data(m.data, addr as int) {
                (
                    MachineModel {
                        regs: m.regs.update(r as int, word_at(m.data, addr as int)),
                        ..advance_ip(m, i)
                    },
                    ExecutionEffect::StateChange,
                )
            } else {
                (m, ExecutionEffect::Error(ExecutionError::OutOfBounds))
            }
        },
        Instruction::Store(r, addr) => {
            if word_in_data(m.data, addr as int) {
                (
                    MachineModel {
                        data: with_word(m.data, addr as int, m.regs[r as int]),
                        ..advance_ip(m, i)
                    },
                    ExecutionEffect::StateChange,
                )
            } else {
                (m, ExecutionEffect::Error(ExecutionError::OutOfBounds))
            }
        },
        Instruction::Push(r) => {
            if 4 <= m.sp && m.sp + 4 <= m.data.len() {
                (
                    MachineModel {
                        data: with_word(m.data, m.sp as int, m.regs[r as int]),
                        sp: (m.sp - 4) as i32,
                        ..advance_ip(m, i)
                    },
                    ExecutionEffect::StateChange,
                )
            } else {
                (m, ExecutionEffect::Error(ExecutionError::StackOverflow))
            }
        },
        Instruction::Pop(r) => {
            if 0 <= m.sp && m.sp + 8 <= m.data.len() {
                (
                    MachineModel {
                        sp: (m.sp + 4) as i32,
                        regs: m.regs.update(r as int, word_at(m.data, m.sp + 4)),
                        ..advance_ip(m, i)
                    },
                    ExecutionEffect::StateChange,
                )
            } else {
                (m, ExecutionEffect::Error(ExecutionError::StackUnderflow))
            }
        },
        Instruction::Fill(v, r) => (
            MachineModel { regs: m.regs.update(r as int, v), ..advance_ip(m, i) },
            ExecutionEffect::StateChange,
        ),
        Instruction::Nop => (advance_ip(m, i), ExecutionEffect::StateChange),
        Instruction::Add(d, a, b) => (
            MachineModel {
                regs: m.regs.update(
                    d as int,
                    i32_specs::wrapping_add(m.regs[a as int], m.regs[b as int]),
                ),
                ..advance_ip(m, i)
            },
            ExecutionEffect::StateChange,
        ),
        Instruction::Subtract(d, a, b) => (
            MachineModel {
                regs: m.regs.update(
                    d as int,
                    i32_specs::wrapping_sub(m.regs[a as int], m.regs[b as int]),
                ),
                ..advance_ip(m, i)
            },
            ExecutionEffect::StateChange,
        ),
        Instruction::Multiply(d, a, b) => (
            MachineModel {
                regs: m.regs.update(
                    d as int,
                    i32_specs::wrapping_mul(m.regs[a as int], m.regs[b as int]),
                ),
                ..advance_ip(m, i)
            },
            ExecutionEffect::StateChange,
        ),
        Instruction::Divide(d, a, b) => {
            if m.regs[b as int] == 0 {
                (m, ExecutionEffect::Error(ExecutionError::DivideByZero))
            } else {
                (
                    MachineModel {
                        regs: m.regs.update(
                            d as int,
                            spec_div_wrap(m.regs[a as int], m.regs[b as int]),
                        ),
                        ..advance_ip(m, i)
                    },
                    ExecutionEffect::StateChange,
                )
            }
        },
    }
}

/// One step of the machine: fault `UnableToFetch` when the instruction
/// pointer is outside the code segment, fault `InvalidInstruction` when
/// the bytes there decode to nothing, and otherwise run the decoded
/// instruction per `spec_execute`.
pub open spec fn spec_step(m: MachineModel, input: u8) -> (MachineModel, ExecutionEffect) {
    if !(0 <= m.ip && m.ip < m.code.len()) {
        (m, ExecutionEffect::Error(ExecutionError::UnableToFetch))
    } else {
        match spec_decode(m.code.skip(m.ip as int)) {
            None => (m, ExecutionEffect::Error(ExecutionError::InvalidInstruction)),
            Some(i) => spec_execute(m, i, input),
        }
    }
}

/// The machine went from `pre` to `post` reporting `eff`, as one
/// `spec_step` with input byte `b` says.
pub open spec fn step_outcome(pre: MachineModel, b: u8, post: MachineModel, eff: ExecutionEffect)
    -> bool {
    post == spec_step(pre, b).0 && eff == spec_step(pre, b).1
}

/// The machine went from `pre` to `post` reporting `eff`, as
/// `spec_execute` of instruction `i` with input byte `b` says.
pub open spec fn execute_outcome(
    pre: MachineModel,
    i: Instruction,
    b: u8,
    post: MachineModel,
    eff: ExecutionEffect,
) -> bool {
    post == spec_execute(pre, i, b).0 && eff == spec_execute(pre, i, b).1
}

/// Truncating division wrapping on `i32::MIN / -1`, through unsigned
/// magnitudes.
fn div_wrapping(a: i32, b: i32) -> (r: i32)
    requires
        b != 0,
    ensures
        r == spec_div_wrap(a, b),
{
    if a == i32::MIN && b == -1 {
        return i32::MIN;
    }
    let ua: u32 = if a >= 0 {
        a as u32
    } else if a == i32::MIN {
        0x8000_0000
    } else {
        (-a) as u32
    };
    let ub: u32 = if b >= 0 {
        b as u32
    } else if b == i32::MIN {
        0x8000_0000
    } else {
        (-b) as u32
    };
    let q: u32 = ua / ub;
    proof {
        assert(ua == abs(a as int));
        assert(ub == abs(b as int));
        assert(0 <= q && q <= ua) by (nonlinear_arith)
            requires
                q == ua as int / ub as int,
                1 <= ub,
                0 <= ua,
        ;
    }
    if (a < 0) != (b < 0) {
        if q == 0x8000_0000 {
            i32::MIN
        } else {
            -(q as i32)
        }
    } else {
        proof {
            if ua == 0x8000_0000 {
                assert(a == i32::MIN && b < 0 && b != -1);
                assert(ub >= 2);
                vstd::arithmetic::div_mod::lemma_div_is_ordered_by_denominator(
                    ua as int,
                    2,
                    ub as int,
                );
                assert(q <= 0x4000_0000);
            }
        }
        q as i32
    }
}

/// Law: stepping preserves well-formedness. Whatever the input byte and
/// whatever the outcome, a step taken from a well-formed machine leaves
/// a well-formed machine.
pub proof fn lemma_step_preserves_wf(m: MachineModel, input: u8)
    requires
        m.wf(),
    ensures
        spec_step(m, input).0.wf(),
{
}

/// Law: a non-faulting step over any instruction other than `Call` and
/// `Ret` (the two that set the instruction pointer themselves) advances
/// the instruction pointer by exactly the instruction's encoded size.
pub proof fn lemma_step_advances_ip(m: MachineModel, b: u8)
    requires
        m.wf(),
        spec_step(m, b).1 == ExecutionEffect::StateChange || spec_step(m, b).1
            == ExecutionEffect::Exit,
        !(spec_decode(m.code.skip(m.ip as int)) matches Some(Instruction::Call(_))),
        !(spec_decode(m.code.skip(m.ip as int)) matches Some(Instruction::Ret)),
    ensures
        spec_decode(m.code.skip(m.ip as int)) is Some,
        spec_step(m, b).0.ip == m.ip + spec_size(spec_decode(m.code.skip(m.ip as int)).unwrap()),
{
    let i = spec_decode(m.code.skip(m.ip as int)).unwrap();
    crate::isa::lemma_decode_needs_size(m.code.skip(m.ip as int), i);
}

/// Law: a `Call`, followed eventually by the `Ret` that finds the call
/// stack exactly as the `Call` left it, restores the instruction
/// pointer to the instruction following the `Call`.
pub proof fn lemma_call_ret_restores_ip(m: MachineModel, b1: u8, m2: MachineModel, b2: u8)
    requires
        m.wf(),
        spec_decode(m.code.skip(m.ip as int)) matches Some(Instruction::Call(_)),
        spec_step(m, b1).1 == ExecutionEffect::StateChange,
        m2.call_stack == spec_step(m, b1).0.call_stack,
        spec_decode(m2.code.skip(m2.ip as int)) matches Some(Instruction::Ret),
        spec_step(m2, b2).1 == ExecutionEffect::StateChange,
    ensures
        spec_step(m2, b2).0.ip == m.ip + 5,
{
}

/// Law: a successful `Push(r)`, followed — after any steps that touch
/// neither the stack pointer nor the word pushed at the old stack
/// pointer — by a successful `Pop(r)`, restores both the stack pointer
/// and register `r` to what they were before the `Push`. Taking `m2`
/// to be the machine right after the `Push` gives the immediate
/// push-then-pop case.
#[verifier::rlimit(50)]
pub proof fn lemma_push_pop_round_trip(m: MachineModel, r: u8, b1: u8, m2: MachineModel, b2: u8)
    requires
        m.wf(),
        spec_decode(m.code.skip(m.ip as int)) == Some(Instruction::Push(r)),
        spec_step(m, b1).1 == ExecutionEffect::StateChange,
        m2.wf(),
        m2.sp == spec_step(m, b1).0.sp,
        word_at(m2.data, m.sp as int) == word_at(spec_step(m, b1).0.data, m.sp as int),
        spec_decode(m2.code.skip(m2.ip as int)) == Some(Instruction::Pop(r)),
        spec_step(m2, b2).1 == ExecutionEffect::StateChange,
    ensures
        spec_step(m2, b2).0.sp == m.sp,
        spec_step(m2, b2).0.regs[r as int] == m.regs[r as int],
{
    let m1 = spec_step(m, b1).0;
    crate::machine::lemma_word_store_load(m.data, m.sp as int, m.regs[r as int]);
    assert(m1.data == with_word(m.data, m.sp as int, m.regs[r as int]));
    assert(m1.sp == m.sp - 4);
    assert(word_at(m1.data, m.sp as int) == m.regs[r as int]);
    assert(m2.sp + 4 == m.sp);
    assert(word_at(m2.data, m2.sp + 4) == word_at(m2.data, m.sp as int));
    let m3 = spec_step(m2, b2).0;
    assert(m3.regs == m2.regs.update(r as int, word_at(m2.data, m2.sp + 4)));
    assert(m3.regs[r as int] == word_at(m2.data, m2.sp + 4));
}

/// Law: `Divide` with a zero divisor register always reports
/// `DivideByZero` and halts with the machine unchanged — in particular
/// the destination register keeps its value.
pub proof fn lemma_divide_by_zero_faults(m: MachineModel, b: u8, d: u8, a: u8, s: u8)
    requires
        0 <= m.ip && m.ip < m.code.len(),
        spec_decode(m.code.skip(m.ip as int)) == Some(Instruction::Divide(d, a, s)),
        m.regs[s as int] == 0,
    ensures
        spec_step(m, b).0 == m,
        spec_step(m, b).1 == ExecutionEffect::Error(ExecutionError::DivideByZero),
{
}

/// A deterministic I/O capability for driving the engine without a
/// device: reads come from a fixed script (zero once it is exhausted),
/// writes accumulate in a buffer.
pub struct ScriptedIo {
    input: Vec<u8>,
    cursor: usize,
    output: Vec<u8>,
}

impl ScriptedIo {
    /// The scripted input bytes.
    pub closed spec fn spec_input(&self) -> Seq<u8> {
        self.input@
    }

    /// How many scripted bytes have been read.
    pub closed spec fn spec_cursor(&self) -> int {
        self.cursor as int
    }

    /// The bytes written so far.
    pub closed spec fn spec_output(&self) -> Seq<u8> {
        self.output@
    }

    /// A fresh device over the given input script, nothing yet read or
    /// written.
    pub fn new(input: Vec<u8>) -> (s: ScriptedIo)
        ensures
            s.spec_input() == input@,
            s.spec_cursor() == 0,
            s.spec_output() =~= Seq::<u8>::empty(),
    {
        ScriptedIo { input, cursor: 0, output: Vec::new() }
    }

    /// The bytes the engine has written to this device.
    pub fn output_bytes(&self) -> (r: &Vec<u8>)
        ensures
            r@ == self.spec_output(),
    {
        &self.output
    }

    /// How many scripted input bytes have been consumed.
    pub fn bytes_read(&self) -> (r: usize)
        ensures
            r == self.spec_cursor(),
    {
        self.cursor
    }
}

impl IO for ScriptedIo {
    /// The next scripted byte, advancing the cursor; zero once the
    /// script is exhausted.
    fn read_byte(&mut self) -> (r: u8)
        ensures
            final(self).spec_input() == old(self).spec_input(),
            final(self).spec_output() == old(self).spec_output(),
            old(self).spec_cursor() < old(self).spec_input().len() ==> r == old(self).spec_input()[
                old(self).spec_cursor()] && final(self).spec_cursor() == old(self).spec_cursor()
                + 1,
            old(self).spec_cursor() >= old(self).spec_input().len() ==> r == 0
                && final(self).spec_cursor() == old(self).spec_cursor(),
    {
        if self.cursor < self.input.len() {
            let b = self.input[self.cursor];
            self.cursor = self.cursor + 1;
            b
        } else {
            0
        }
    }

    /// Appends the byte to the output buffer.
    fn write_byte(&mut self, b: u8)
        ensures
            final(self).spec_input() == old(self).spec_input(),
            final(self).spec_cursor() == old(self).spec_cursor(),
            final(self).spec_output() == old(self).spec_output().push(b),
    {
        self.output.push(b);
    }
}

/// The engine: exclusive owner of one run's machine state.
pub struct Interpreter {
    /// The machine this engine drives.
    pub state: MachineState,
}

impl Interpreter {
    /// Takes ownership of a freshly loaded machine.
    pub fn new(state: MachineState) -> (r: Interpreter)
        ensures
            r.state == state,
    {
        Interpreter { state }
    }

    /// Fetches the instruction at the instruction pointer: faults
    /// `UnableToFetch` exactly when the pointer is outside the code
    /// segment and `InvalidInstruction` exactly when the bytes there
    /// decode to nothing.
    pub fn fetch_instruction(&self) -> (r: Result<Instruction, ExecutionError>)
        requires
            self.state@.wf(),
        ensures
            match r {
                Ok(i) => 0 <= self.state@.ip && self.state@.ip < self.state@.code.len()
                    && spec_decode(self.state@.code.skip(self.state@.ip as int)) == Some(i),
                Err(e) => {
                    if 0 <= self.state@.ip && self.state@.ip < self.state@.code.len() {
                        e == ExecutionError::InvalidInstruction && spec_decode(
                            self.state@.code.skip(self.state@.ip as int),
                        ) is None
                    } else {
                        e == ExecutionError::UnableToFetch
                    }
                },
            },
    {
        let ip = self.state.ip();
        if ip < 0 {
            return Err(ExecutionError::UnableToFetch);
        }
        let start = ip as usize;
        if start >= self.state.code_len() {
            return Err(ExecutionError::UnableToFetch);
        }
        let tail = self.state.code_tail(start);
        proof {
            assert(tail@ =~= self.state@.code.skip(ip as int));
        }
        match Instruction::decode(tail) {
            Some(i) => {
                match Self::validate_instruction(i) {
                    Some(i) => Ok(i),
                    None => Err(ExecutionError::InvalidInstruction),
                }
            },
            None => Err(ExecutionError::InvalidInstruction),
        }
    }

    /// A decoded instruction is already well-formed: every operand value
    /// is meaningful, so validation accepts it unchanged.
    pub fn validate_instruction(i: Instruction) -> (r: Option<Instruction>)
        ensures
            r == Some(i),
    {
        Some(i)
    }

    /// Runs one already-fetched instruction against the machine,
    /// realising `spec_execute` for some input byte (the byte the I/O
    /// capability returned, when the instruction reads one).
    pub fn execute_instruction<T: IO>(&mut self, i: Instruction, io: &mut T) -> (r:
        ExecutionEffect)
        requires
            old(self).state@.wf(),
            0 <= old(self).state@.ip,
            old(self).state@.ip + spec_size(i) <= old(self).state@.code.len(),
        ensures
            final(self).state@.wf(),
            exists|b: u8| execute_outcome(old(self).state@, i, b, final(self).state@, r),
    {
        let ghost pre = self.state@;
        let ip = self.state.ip();
        match i {
            Instruction::Call(target) => {
                let eff = match self.state.push_call(ip + 5) {
                    Ok(_) => {
                        self.state.set_ip(target);
                        ExecutionEffect::StateChange
                    },
                    Err(e) => ExecutionEffect::Error(e),
                };
                proof {
                    assert(execute_outcome(pre, i, 0u8, self.state@, eff));
                }
                eff
            },
            Instruction::Ret => {
                let eff = match self.state.pop_call() {
                    Ok(addr) => {
                        self.state.set_ip(addr);
                        ExecutionEffect::StateChange
                    },
                    Err(e) => ExecutionEffect::Error(e),
                };
                proof {
                    assert(execute_outcome(pre, i, 0u8, self.state@, eff));
                }
                eff
            },
            Instruction::WriteByte(r) => {
                let v = self.state.read_register(r);
                let bytes = crate::bits::big_endian_bytes_of_word(v);
                io.write_byte(bytes[3]);
                self.state.set_ip(ip + 2);
                proof {
                    assert(execute_outcome(pre, i, 0u8, self.state@, ExecutionEffect::StateChange));
                }
                ExecutionEffect::StateChange
            },
            Instruction::ReadByte(r) => {
                let b = io.read_byte();
                self.state.write_register(r, b as i32);
                self.state.set_ip(ip + 2);
                proof {
                    assert(execute_outcome(pre, i, b, self.state@, ExecutionEffect::StateChange));
                }
                ExecutionEffect::StateChange
            },
            Instruction::Debug => {
                self.state.set_ip(ip + 1);
                proof {
                    assert(execute_outcome(pre, i, 0u8, self.state@, ExecutionEffect::StateChange));
                }
                ExecutionEffect::StateChange
            },
            Instruction::Exit => {
                self.state.set_ip(ip + 1);
                proof {
                    assert(execute_outcome(pre, i, 0u8, self.state@, ExecutionEffect::Exit));
                }
                ExecutionEffect::Exit
            },
            Instruction::Load(addr, r) => {
                let eff = match self.state.read_word(addr) {
                    Ok(v) => {
                        self.state.write_register(r, v);
                        self.state.set_ip(ip + 6);
                        ExecutionEffect::StateChange
                    },
                    Err(e) => ExecutionEffect::Error(e),
                };
                proof {
                    assert(execute_outcome(pre, i, 0u8, self.state@, eff));
                }
                eff
            },
            Instruction::Store(r, addr) => {
                let v = self.state.read_register(r);
                let eff = match self.state.write_word(addr, v) {
                    Ok(_) => {
                        self.state.set_ip(ip + 6);
                        ExecutionEffect::StateChange
                    },
                    Err(e) => ExecutionEffect::Error(e),
                };
                proof {
                    assert(execute_outcome(pre, i, 0u8, self.state@, eff));
                }
                eff
            },
            Instruction::Push(r) => {
                let sp = self.state.sp();
                let eff = if sp < 4 || (sp as usize) + 4 > self.state.data_len() {
                    ExecutionEffect::Error(ExecutionError::StackOverflow)
                } else {
                    let v = self.state.read_register(r);
                    let _ = self.state.write_word(sp, v);
                    self.state.set_sp(sp - 4);
                    self.state.set_ip(ip + 2);
                    ExecutionEffect::StateChange
                };
                proof {
                    assert(execute_outcome(pre, i, 0u8, self.state@, eff));
                }
                eff
            },
            Instruction::Pop(r) => {
                let sp = self.state.sp();
                let eff = if (sp as usize) + 8 > self.state.data_len() {
                    ExecutionEffect::Error(ExecutionError::StackUnderflow)
                } else {
                    match self.state.read_word(sp + 4) {
                        Ok(v) => {
                            self.state.set_sp(sp + 4);
                            self.state.write_register(r, v);
                            self.state.set_ip(ip + 2);
                            ExecutionEffect::StateChange
                        },
                        Err(_) => ExecutionEffect::Error(ExecutionError::StackUnderflow),
                    }
                };
                proof {
                    assert(execute_outcome(pre, i, 0u8, self.state@, eff));
                }
                eff
            },
            Instruction::Fill(v, r) => {
                self.state.write_register(r, v);
                self.state.set_ip(ip + 6);
                proof {
                    assert(execute_outcome(pre, i, 0u8, self.state@, ExecutionEffect::StateChange));
                }
                ExecutionEffect::StateChange
            },
            Instruction::Nop => {
                self.state.set_ip(ip + 1);
                proof {
                    assert(execute_outcome(pre, i, 0u8, self.state@, ExecutionEffect::StateChange));
                }
                ExecutionEffect::StateChange
            },
            Instruction::Add(d, a, b) => {
                let x = self.state.read_register(a);
                let y = self.state.read_register(b);
                self.state.write_register(d, x.wrapping_add(y));
                self.state.set_ip(ip + 4);
                proof {
                    assert(execute_outcome(pre, i, 0u8, self.state@, ExecutionEffect::StateChange));
                }
                ExecutionEffect::StateChange
            },
            Instruction::Subtract(d, a, b) => {
                let x = self.state.read_register(a);
                let y = self.state.read_register(b);
                self.state.write_register(d, x.wrapping_sub(y));
                self.state.set_ip(ip + 4);
                proof {
                    assert(execute_outcome(pre, i, 0u8, self.state@, ExecutionEffect::StateChange));
                }
                ExecutionEffect::StateChange
            },
            Instruction::Multiply(d, a, b) => {
                let x = self.state.read_register(a);
                let y = self.state.read_register(b);
                self.state.write_register(d, x.wrapping_mul(y));
                self.state.set_ip(ip + 4);
                proof {
                    assert(execute_outcome(pre, i, 0u8, self.state@, ExecutionEffect::StateChange));
                }
                ExecutionEffect::StateChange
            },
            Instruction::Divide(d, a, b) => {
                let y = self.state.read_register(b);
                let eff = if y == 0 {
                    ExecutionEffect::Error(ExecutionError::DivideByZero)
                } else {
                    let x = self.state.read_register(a);
                    self.state.write_register(d, div_wrapping(x, y));
                    self.state.set_ip(ip + 4);
                    ExecutionEffect::StateChange
                };
                proof {
                    assert(execute_outcome(pre, i, 0u8, self.state@, eff));
                }
                eff
            },
        }
    }

    /// One fetch-decode-execute step, realising `spec_step` for some
    /// input byte. Well-formedness of the machine is preserved.
    pub fn step<T: IO>(&mut self, io: &mut T) -> (r: ExecutionEffect)
        requires
            old(self).state@.wf(),
        ensures
            final(self).state@.wf(),
            exists|b: u8| step_outcome(old(self).state@, b, final(self).state@, r),
    {
        let ghost pre = self.state@;
        match self.fetch_instruction() {
            Err(e) => {
                proof {
                    assert(step_outcome(pre, 0u8, self.state@, ExecutionEffect::Error(e)));
                }
                ExecutionEffect::Error(e)
            },
            Ok(i) => {
                proof {
                    crate::isa::lemma_decode_needs_size(pre.code.skip(pre.ip as int), i);
                }
                let eff = self.execute_instruction(i, io);
                proof {
                    let b = choose|b: u8| execute_outcome(pre, i, b, self.state@, eff);
                    assert(step_outcome(pre, b, self.state@, eff));
                }
                eff
            },
        }
    }
}

} // verus!

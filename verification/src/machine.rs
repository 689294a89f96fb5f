//! The machine state: the register file (instruction, stack and base
//! pointers plus a 256-slot general-purpose bank), the memory image
//! (read-only code, read-write data hosting the operand stack), and the
//! bounded call stack. Every accessor is range-checked.

use vstd::prelude::*;
use crate::bits::{
    big_endian_bytes_of_word, interpret_big_endian_word, spec_word, spec_word_bytes,
};

verus! {

/// Run-time fault kinds; each one halts the machine.
#[derive(Clone, Copy, Debug, PartialEq, Eq, Structural)]
pub enum ExecutionError {
    /// The bytes at the instruction pointer decode to no instruction.
    InvalidInstruction,
    /// The instruction pointer lies outside the code segment.
    UnableToFetch,
    /// A data address fell outside the data segment.
    OutOfBounds,
    /// The call stack is at its configured maximum, or the operand
    /// stack would grow past the bottom of the data segment.
    StackOverflow,
    /// The call stack is empty, or the operand stack would shrink past
    /// the top of the data segment.
    StackUnderflow,
    /// A divisor register held zero.
    DivideByZero,
}

/// A data address `addr` can hold a four-byte word inside `data`.
pub open spec fn word_in_data(data: Seq<u8>, addr: int) -> bool {
    0 <= addr && addr + 4 <= data.len()
}

/// The signed word stored big-endian at `addr` in `data`.
pub open spec fn word_at(data: Seq<u8>, addr: int) -> i32 {
    spec_word(data[addr], data[addr + 1], data[addr + 2], data[addr + 3])
}

/// `data` with the word `v` stored big-endian at `addr`.
pub open spec fn with_word(data: Seq<u8>, addr: int, v: i32) -> Seq<u8> {
    let b = spec_word_bytes(v);
    data.update(addr, b[0]).update(addr + 1, b[1]).update(addr + 2, b[2]).update(addr + 3, b[3])
}

/// Law: memory words round-trip. Reading back a word just stored at a
/// valid data address gives the stored value, and storing never changes
/// the segment's length.
pub proof fn lemma_word_store_load(data: Seq<u8>, addr: int, v: i32)
    requires
        word_in_data(data, addr),
    ensures
        with_word(data, addr, v).len() == data.len(),
        word_at(with_word(data, addr, v), addr) == v,
{
    crate::bits::lemma_value_round_trip(v);
}

/// The mathematical image of a `MachineState`.
#[verifier::ext_equal]
pub ghost struct MachineModel {
    /// The immutable code segment.
    pub code: Seq<u8>,
    /// The mutable data segment, which also hosts the operand stack.
    pub data: Seq<u8>,
    /// Instruction pointer: byte offset of the next fetch into `code`.
    pub ip: i32,
    /// Stack pointer: byte offset into `data`; the operand stack grows
    /// downward from its starting base.
    pub sp: i32,
    /// Base pointer: byte offset into `data`.
    pub bp: i32,
    /// The 256 general-purpose registers.
    pub regs: Seq<i32>,
    /// Return addresses pushed by `Call`, popped by `Ret`.
    pub call_stack: Seq<i32>,
    /// The configured bound on the call stack's depth.
    pub call_max: int,
}

impl MachineModel {
    /// Well-formedness: the register bank has exactly 256 slots, the
    /// stack and base pointers lie within the data segment, the call
    /// stack respects its bound, and both segments are small enough
    /// that every address computation fits in a signed 32-bit word.
    pub open spec fn wf(self) -> bool {
        &&& self.regs.len() == 256
        &&& 0 <= self.sp && self.sp <= self.data.len()
        &&& 0 <= self.bp && self.bp <= self.data.len()
        &&& self.call_stack.len() <= self.call_max
        &&& self.code.len() + 8 < 0x8000_0000
        &&& self.data.len() + 8 < 0x8000_0000
    }
}

/// The register file and memory image of one run.
pub struct MachineState {
    code: Vec<u8>,
    data: Vec<u8>,
    ip: i32,
    sp: i32,
    bp: i32,
    regs: Vec<i32>,
    call_stack: Vec<i32>,
    call_max: usize,
}

impl View for MachineState {
    type V = MachineModel;

    closed spec fn view(&self) -> MachineModel {
        MachineModel {
            code: self.code@,
            data: self.data@,
            ip: self.ip,
            sp: self.sp,
            bp: self.bp,
            regs: self.regs@,
            call_stack: self.call_stack@,
            call_max: self.call_max as int,
        }
    }
}

impl MachineState {
    /// Builds the initial state for a run: the instruction pointer at
    /// the start of the code segment, the stack and base pointers at
    /// `stack_base`, every general-purpose register zero, and an empty
    /// call stack bounded by `call_max`.
    pub fn new(code: Vec<u8>, data: Vec<u8>, stack_base: usize, call_max: usize) -> (m:
        MachineState)
        requires
            stack_base <= data@.len(),
            code@.len() + 8 < 0x8000_0000,
            data@.len() + 8 < 0x8000_0000,
        ensures
            m@.wf(),
            m@.code == code@,
            m@.data == data@,
            m@.ip == 0,
            m@.sp == stack_base,
            m@.bp == stack_base,
            m@.regs =~= Seq::new(256, |k: int| 0i32),
            m@.call_stack =~= Seq::<i32>::empty(),
            m@.call_max == call_max,
    {
        let mut regs: Vec<i32> = Vec::new();
        let mut k: usize = 0;
        while k < 256
            invariant
                k <= 256,
                regs@.len() == k,
                forall|j: int| 0 <= j < k ==> regs@[j] == 0i32,
            decreases 256 - k,
        {
            regs.push(0);
            k += 1;
        }
        proof {
            assert(regs@ =~= Seq::new(256, |j: int| 0i32));
        }
        MachineState {
            code,
            data,
            ip: 0,
            sp: stack_base as i32,
            bp: stack_base as i32,
            regs,
            call_stack: Vec::new(),
            call_max,
        }
    }

    /// The current instruction pointer.
    pub fn ip(&self) -> (r: i32)
        ensures
            r == self@.ip,
    {
        self.ip
    }

    /// The current stack pointer.
    pub fn sp(&self) -> (r: i32)
        ensures
            r == self@.sp,
    {
        self.sp
    }

    /// The current base pointer.
    pub fn bp(&self) -> (r: i32)
        ensures
            r == self@.bp,
    {
        self.bp
    }

    /// How many return addresses the call stack holds.
    pub fn call_depth(&self) -> (r: usize)
        ensures
            r == self@.call_stack.len(),
    {
        self.call_stack.len()
    }

    /// The length of the code segment.
    pub fn code_len(&self) -> (r: usize)
        ensures
            r == self@.code.len(),
    {
        self.code.len()
    }

    /// The length of the data segment.
    pub fn data_len(&self) -> (r: usize)
        ensures
            r == self@.data.len(),
    {
        self.data.len()
    }

    /// The tail of the code segment from byte offset `start`: the bytes
    /// the next instruction is decoded from.
    pub fn code_tail(&self, start: usize) -> (r: &[u8])
        requires
            start <= self@.code.len(),
        ensures
            r@ == self@.code.subrange(start as int, self@.code.len() as int),
    {
        vstd::slice::slice_subrange(self.code.as_slice(), start, self.code.len())
    }

    /// Sets the instruction pointer.
    pub fn set_ip(&mut self, v: i32)
        ensures
            final(self)@ =~= (MachineModel { ip: v, ..old(self)@ }),
    {
        self.ip = v;
    }

    /// Reads general-purpose register `idx`; every 8-bit index is valid.
    pub fn read_register(&self, idx: u8) -> (v: i32)
        requires
            self@.wf(),
        ensures
            v == self@.regs[idx as int],
    {
        self.regs[idx as usize]
    }

    /// Writes general-purpose register `idx`; every 8-bit index is valid.
    pub fn write_register(&mut self, idx: u8, v: i32)
        requires
            old(self)@.wf(),
        ensures
            final(self)@ =~= (MachineModel { regs: old(self)@.regs.update(idx as int, v), ..old(
                self,
            )@ }),
            final(self)@.wf(),
    {
        self.regs[idx as usize] = v;
    }

    /// Reads the big-endian word at data address `addr`, or faults with
    /// `OutOfBounds` exactly when the four bytes do not fit in the data
    /// segment.
    pub fn read_word(&self, addr: i32) -> (r: Result<i32, ExecutionError>)
        requires
            self@.wf(),
        ensures
            word_in_data(self@.data, addr as int) ==> r == Ok::<i32, ExecutionError>(
                word_at(self@.data, addr as int),
            ),
            !word_in_data(self@.data, addr as int) ==> r == Err::<i32, ExecutionError>(
                ExecutionError::OutOfBounds,
            ),
    {
        if addr < 0 {
            return Err(ExecutionError::OutOfBounds);
        }
        let a = addr as usize;
        if a >= self.data.len() || self.data.len() - a < 4 {
            return Err(ExecutionError::OutOfBounds);
        }
        Ok(
            interpret_big_endian_word(
                self.data[a],
                self.data[a + 1],
                self.data[a + 2],
                self.data[a + 3],
            ),
        )
    }

    /// Stores `v` big-endian at data address `addr`, or faults with
    /// `OutOfBounds` (leaving the state unchanged) exactly when the four
    /// bytes do not fit in the data segment.
    pub fn write_word(&mut self, addr: i32, v: i32) -> (r: Result<(), ExecutionError>)
        requires
            old(self)@.wf(),
        ensures
            final(self)@.wf(),
            word_in_data(old(self)@.data, addr as int) ==> r == Ok::<(), ExecutionError>(())
                && final(self)@ =~= (MachineModel {
                data: with_word(old(self)@.data, addr as int, v),
                ..old(self)@
            }),
            !word_in_data(old(self)@.data, addr as int) ==> r == Err::<(), ExecutionError>(
                ExecutionError::OutOfBounds,
            ) && final(self)@ =~= old(self)@,
    {
        if addr < 0 {
            return Err(ExecutionError::OutOfBounds);
        }
        let a = addr as usize;
        if a >= self.data.len() || self.data.len() - a < 4 {
            return Err(ExecutionError::OutOfBounds);
        }
        let b = big_endian_bytes_of_word(v);
        self.data[a] = b[0];
        self.data[a + 1] = b[1];
        self.data[a + 2] = b[2];
        self.data[a + 3] = b[3];
        Ok(())
    }

    /// Sets the stack pointer; the new value must stay inside the data
    /// segment, which keeps the state well-formed.
    pub fn set_sp(&mut self, v: i32)
        requires
            0 <= v && v <= old(self)@.data.len(),
        ensures
            final(self)@ =~= (MachineModel { sp: v, ..old(self)@ }),
    {
        self.sp = v;
    }

    /// Pushes a return address, or faults with `StackOverflow` (leaving
    /// the state unchanged) exactly when the call stack is at its bound.
    pub fn push_call(&mut self, ret: i32) -> (r: Result<(), ExecutionError>)
        requires
            old(self)@.wf(),
        ensures
            final(self)@.wf(),
            old(self)@.call_stack.len() < old(self)@.call_max ==> r == Ok::<(), ExecutionError>(())
                && final(self)@ =~= (MachineModel {
                call_stack: old(self)@.call_stack.push(ret),
                ..old(self)@
            }),
            old(self)@.call_stack.len() >= old(self)@.call_max ==> r == Err::<(), ExecutionError>(
                ExecutionError::StackOverflow,
            ) && final(self)@ =~= old(self)@,
    {
        if self.call_stack.len() >= self.call_max {
            Err(ExecutionError::StackOverflow)
        } else {
            self.call_stack.push(ret);
            Ok(())
        }
    }

    /// Pops the most recent return address, or faults with
    /// `StackUnderflow` (leaving the state unchanged) exactly when the
    /// call stack is empty.
    pub fn pop_call(&mut self) -> (r: Result<i32, ExecutionError>)
        requires
            old(self)@.wf(),
        ensures
            final(self)@.wf(),
            old(self)@.call_stack.len() > 0 ==> r == Ok::<i32, ExecutionError>(
                old(self)@.call_stack.last(),
            ) && final(self)@ =~= (MachineModel {
                call_stack: old(self)@.call_stack.drop_last(),
                ..old(self)@
            }),
            old(self)@.call_stack.len() == 0 ==> r == Err::<i32, ExecutionError>(
                ExecutionError::StackUnderflow,
            ) && final(self)@ =~= old(self)@,
    {
        match self.call_stack.pop() {
            Some(ret) => Ok(ret),
            None => Err(ExecutionError::StackUnderflow),
        }
    }
}

} // verus!

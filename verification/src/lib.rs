//! Sandboxed stack virtual machine: an evaluation stack, a page-based linear
//! memory, a gas meter driven by per-opcode weight tiers, and an interpreter
//! loop over bytecode, each with its behaviour stated as a contract.
pub mod gas;
pub mod interpreter;
pub mod memory;
pub mod word;

use vstd::prelude::*;
use vstd::slice::slice_subrange;

use crate::gas::{GasMeterEngine, GasView};
use crate::interpreter::{InterpreterView, VectorInterpreter};
use crate::memory::{LinearMemoryIsolate, MemoryView};
use crate::word::{be_bytes, be_word, word_from_be_bytes, word_to_be_bytes};

verus! {

/// Execution failures of the runtime.
#[derive(Debug, Clone, PartialEq, Eq, Structural)]
pub enum VmError {
    /// The gas budget cannot cover the requested charge.
    OutOfGas { budget: u64, required: u64 },
    /// An access outside the linear memory (or outside the bytecode).
    MemoryAccessViolation { address: usize },
    /// A value was needed from an empty evaluation stack.
    StackUnderflow,
    /// The evaluation stack is full.
    StackOverflow { depth: usize },
    /// The byte at the instruction pointer is no opcode of the machine.
    InvalidOpcode { opcode: u8 },
    /// Division with a zero divisor.
    DivisionByZero,
    /// A system call failed.
    SyscallExecutionFailure { call_code: u32 },
    /// The call-frame stack is full.
    CallStackOverflow,
    /// A return with no call frame to return to.
    CallStackUnderflow,
    /// The program executed a trap instruction.
    ExecutionTrap,
}

/// A call frame: where RET continues, the frame's registers and its memory base.
#[derive(Debug, Clone)]
pub struct ExecutionFrameContext {
    /// The byte address at which execution continues when this frame is popped.
    pub return_address: usize,
    /// Register slots of the frame.
    pub registers: Vec<u64>,
    /// Base index of the frame in linear memory.
    pub memory_base: usize,
}

/// Abstract value of an [`ExecutionFrameContext`].
#[verifier::ext_equal]
pub struct FrameView {
    pub return_address: usize,
    pub registers: Seq<u64>,
    pub memory_base: usize,
}

impl View for ExecutionFrameContext {
    type V = FrameView;

    open spec fn view(&self) -> FrameView {
        FrameView {
            return_address: self.return_address,
            registers: self.registers@,
            memory_base: self.memory_base,
        }
    }
}

/// How a run of the interpreter loop ended without error.
#[derive(Debug, Clone, Copy, PartialEq, Eq, Structural)]
pub enum ExecutionStatus {
    /// The instruction pointer left the bytecode, or a HALT made the machine inactive.
    Finished,
    /// A SYSCALL popped `call_code`; once the call has been served, execution
    /// continues at `resume_at`.
    SyscallPending { call_code: u32, resume_at: usize },
}

/// What one instruction leaves for the loop to do next.
pub enum Step {
    /// Go on at this instruction pointer.
    Continue(usize),
    /// Hand a system call out, then go on at `resume_at`.
    Syscall { call_code: u32, resume_at: usize },
}

/// Abstract state of a [`VirtualMachineIsolate`].
#[verifier::ext_equal]
pub struct MachineView {
    pub interpreter: InterpreterView,
    pub memory: MemoryView,
    pub gas: GasView,
    /// Call frames, the innermost last.
    pub frames: Seq<FrameView>,
    pub max_call_depth: usize,
    pub active: bool,
}

/// The frame a CALL at `ip` pushes.
pub open spec fn call_frame(ip: usize) -> FrameView {
    FrameView { return_address: (ip + 1) as usize, registers: Seq::new(16, |i: int| 0u64), memory_base: 0 }
}

/// The result of an arithmetic instruction on `a` (pushed first) and `b` (the top);
/// `op` is ADD, SUB, MUL or DIV, and for DIV `b` is not zero.
pub open spec fn arithmetic_value(op: u8, a: u64, b: u64) -> u64 {
    if op == 0x10 {
        vstd::wrapping::u64_specs::wrapping_add(a, b)
    } else if op == 0x11 {
        vstd::wrapping::u64_specs::wrapping_sub(a, b)
    } else if op == 0x12 {
        vstd::wrapping::u64_specs::wrapping_mul(a, b)
    } else {
        a / b
    }
}

/// A push's outcome, turned into that of an instruction that goes on at `next`.
pub open spec fn continue_after(r: Result<(), VmError>, next: usize) -> Result<Step, VmError> {
    match r {
        Ok(()) => Ok(Step::Continue(next)),
        Err(e) => Err(e),
    }
}

impl MachineView {
    /// This machine with its stack replaced.
    pub open spec fn with_interpreter(self, interpreter: InterpreterView) -> MachineView {
        MachineView { interpreter, ..self }
    }

    /// This machine with its memory replaced.
    pub open spec fn with_memory(self, memory: MemoryView) -> MachineView {
        MachineView { memory, ..self }
    }

    /// This machine with its gas meter replaced.
    pub open spec fn with_gas(self, gas: GasView) -> MachineView {
        MachineView { gas, ..self }
    }

    /// Pushes `value` as an instruction that goes on at `next`.
    pub open spec fn push_then(self, value: u64, next: usize) -> (MachineView, Result<Step, VmError>) {
        let (i, r) = self.interpreter.push_outcome(value);
        (self.with_interpreter(i), continue_after(r, next))
    }

    /// Executing the instruction at `ip` (its gas already charged): the machine
    /// afterwards, and where execution goes on or the error that stops it. A
    /// failing instruction keeps what it popped before it failed popped.
    pub open spec fn instruction_outcome(self, code: Seq<u8>, ip: usize) -> (MachineView, Result<Step, VmError>) {
        let op = code[ip as int];
        let next = (ip + 1) as usize;
        if op == 0x00 {
            (MachineView { active: false, ..self }, Ok(Step::Continue(next)))
        } else if op == 0x0F {
            (self, Err(VmError::ExecutionTrap))
        } else if op == 0x10 || op == 0x11 || op == 0x12 {
            let (i, r) = self.interpreter.pop_two_outcome();
            match r {
                Err(e) => (self.with_interpreter(i), Err(e)),
                Ok((a, b)) => self.with_interpreter(i).push_then(arithmetic_value(op, a, b), next),
            }
        } else if op == 0x13 {
            let (i1, rb) = self.interpreter.pop_outcome();
            match rb {
                Err(e) => (self.with_interpreter(i1), Err(e)),
                Ok(b) => if b == 0 {
                    (self.with_interpreter(i1), Err(VmError::DivisionByZero))
                } else {
                    let (i2, ra) = i1.pop_outcome();
                    match ra {
                        Err(e) => (self.with_interpreter(i2), Err(e)),
                        Ok(a) => self.with_interpreter(i2).push_then(arithmetic_value(op, a, b), next),
                    }
                },
            }
        } else if op == 0x20 {
            if code.len() - ip <= 8 {
                (self, Err(VmError::MemoryAccessViolation { address: ip }))
            } else {
                self.push_then(be_word(code.subrange(ip + 1, ip + 9)), (ip + 9) as usize)
            }
        } else if op == 0x30 {
            let (i, ra) = self.interpreter.pop_outcome();
            match ra {
                Err(e) => (self.with_interpreter(i), Err(e)),
                Ok(addr) => match self.memory.read_outcome(addr as usize, 8) {
                    Err(e) => (self.with_interpreter(i), Err(e)),
                    Ok(bytes) => self.with_interpreter(i).push_then(be_word(bytes), next),
                },
            }
        } else if op == 0x31 {
            let (i1, ra) = self.interpreter.pop_outcome();
            match ra {
                Err(e) => (self.with_interpreter(i1), Err(e)),
                Ok(addr) => {
                    let (i2, rv) = i1.pop_outcome();
                    match rv {
                        Err(e) => (self.with_interpreter(i2), Err(e)),
                        Ok(val) => {
                            let (mem, rw) = self.memory.write_outcome(addr as usize, be_bytes(val));
                            (self.with_interpreter(i2).with_memory(mem), continue_after(rw, next))
                        },
                    }
                },
            }
        } else if op == 0x40 {
            if self.frames.len() >= self.max_call_depth {
                (self, Err(VmError::CallStackOverflow))
            } else {
                let (i, rd) = self.interpreter.pop_outcome();
                match rd {
                    Err(e) => (self.with_interpreter(i), Err(e)),
                    Ok(dest) => (
                        MachineView { interpreter: i, frames: self.frames.push(call_frame(ip)), ..self },
                        Ok(Step::Continue(dest as usize)),
                    ),
                }
            }
        } else if op == 0x41 {
            if self.frames.len() == 0 {
                (self, Err(VmError::CallStackUnderflow))
            } else {
                (
                    MachineView { frames: self.frames.drop_last(), ..self },
                    Ok(Step::Continue(self.frames.last().return_address)),
                )
            }
        } else if op == 0x50 {
            let (i, rc) = self.interpreter.pop_outcome();
            match rc {
                Err(e) => (self.with_interpreter(i), Err(e)),
                Ok(call_code) => (
                    self.with_interpreter(i),
                    Ok(Step::Syscall { call_code: call_code as u32, resume_at: next }),
                ),
            }
        } else {
            (self, Err(VmError::InvalidOpcode { opcode: op }))
        }
    }

    /// Running from `ip`: while the pointer is inside `code` and the machine is
    /// active, charge the gas of the opcode at `ip`, then execute it. Ends at the
    /// first error, at the first system call, or when the loop condition fails.
    pub open spec fn run_outcome(self, code: Seq<u8>, ip: usize) -> (MachineView, Result<ExecutionStatus, VmError>)
        decreases self.gas.max_limit - self.gas.spent,
    {
        if ip < code.len() && self.active {
            let (g, rg) = self.gas.consume_outcome(code[ip as int]);
            match rg {
                Err(e) => (self, Err(e)),
                Ok(()) => {
                    let (m, rs) = self.with_gas(g).instruction_outcome(code, ip);
                    match rs {
                        Err(e) => (m, Err(e)),
                        Ok(Step::Syscall { call_code, resume_at }) => (
                            m,
                            Ok(ExecutionStatus::SyscallPending { call_code, resume_at }),
                        ),
                        Ok(Step::Continue(next)) => m.run_outcome(code, next),
                    }
                },
            }
        } else {
            (self, Ok(ExecutionStatus::Finished))
        }
    }
}

/// An instruction never touches the gas meter; charging is the loop's part.
pub proof fn lemma_instruction_keeps_gas(m: MachineView, code: Seq<u8>, ip: usize)
    requires
        ip < code.len(),
    ensures
        m.instruction_outcome(code, ip).0.gas == m.gas,
        m.instruction_outcome(code, ip).0.max_call_depth == m.max_call_depth,
{
}

/// A run that starts within its gas budget ends within it: the budget and the
/// opcode weights stay as they were and the spent gas only grows.
pub proof fn lemma_run_stays_within_budget(m: MachineView, code: Seq<u8>, ip: usize)
    requires
        m.gas.spent <= m.gas.max_limit,
    ensures
        m.run_outcome(code, ip).0.gas.spent <= m.gas.max_limit,
        m.run_outcome(code, ip).0.gas.spent >= m.gas.spent,
        m.run_outcome(code, ip).0.gas.max_limit == m.gas.max_limit,
        m.run_outcome(code, ip).0.gas.weights == m.gas.weights,
    decreases m.gas.max_limit - m.gas.spent,
{
    if ip < code.len() && m.active {
        let (g, rg) = m.gas.consume_outcome(code[ip as int]);
        if rg is Ok {
            lemma_instruction_keeps_gas(m.with_gas(g), code, ip);
            let (m2, rs) = m.with_gas(g).instruction_outcome(code, ip);
            if let Ok(Step::Continue(next)) = rs {
                lemma_run_stays_within_budget(m2, code, next);
            }
        }
    }
}

/// What a LOAD gives back of a STORE: after a successful STORE of `val` (second
/// from the top) at `addr` (the top), pushing `addr` again and executing a LOAD
/// leaves `val` on top of the stack the STORE left, and the memory as the STORE
/// left it.
pub proof fn lemma_load_returns_stored_word(
    m: MachineView,
    code: Seq<u8>,
    ip: usize,
    load_code: Seq<u8>,
    load_ip: usize,
)
    requires
        ip < code.len(),
        code[ip as int] == 0x31,
        load_ip < load_code.len(),
        load_code[load_ip as int] == 0x30,
        m.interpreter.within_depth(),
        m.instruction_outcome(code, ip).1 is Ok,
    ensures
        ({
            let addr = m.interpreter.from_top(0);
            let val = m.interpreter.from_top(1);
            let stored = m.instruction_outcome(code, ip).0;
            let (pushed, pr) = stored.interpreter.push_outcome(addr);
            let (loaded, lr) = stored.with_interpreter(pushed).instruction_outcome(load_code, load_ip);
            &&& pr is Ok
            &&& lr == Ok::<Step, VmError>(Step::Continue((load_ip + 1) as usize))
            &&& loaded.interpreter.stack == stored.interpreter.stack.push(val)
            &&& loaded.memory == stored.memory
        }),
{
    let addr = m.interpreter.from_top(0);
    let val = m.interpreter.from_top(1);
    let stored = m.instruction_outcome(code, ip).0;
    let (pushed, pr) = stored.interpreter.push_outcome(addr);
    crate::memory::lemma_read_after_write(m.memory, addr as usize, be_bytes(val));
    crate::word::lemma_word_of_bytes(val);
    assert(pushed.stack.drop_last() =~= stored.interpreter.stack);
}

/// A RET right after a successful CALL at `ip` returns to `ip + 1` and restores
/// the call frames.
pub proof fn lemma_ret_returns_after_call(m: MachineView, code: Seq<u8>, ip: usize, ret_code: Seq<u8>, ret_ip: usize)
    requires
        ip < code.len(),
        code[ip as int] == 0x40,
        ret_ip < ret_code.len(),
        ret_code[ret_ip as int] == 0x41,
        m.instruction_outcome(code, ip).1 is Ok,
    ensures
        ({
            let called = m.instruction_outcome(code, ip).0;
            let (returned, r) = called.instruction_outcome(ret_code, ret_ip);
            &&& r == Ok::<Step, VmError>(Step::Continue((ip + 1) as usize))
            &&& returned.frames == m.frames
        }),
{
    let called = m.instruction_outcome(code, ip).0;
    assert(called.frames.drop_last() =~= m.frames);
}

/// The arithmetic instructions, with `a` pushed first and `b` on top: ADD, SUB
/// and MUL replace the two by the sum, difference and product taken modulo 2^64;
/// DIV replaces them by the quotient rounded down, and with a zero divisor fails
/// with only `b` popped. Memory, gas and call frames stay as they were.
pub proof fn lemma_arithmetic_instructions(m: MachineView, code: Seq<u8>, ip: usize)
    requires
        ip < code.len(),
        0x10 <= code[ip as int] <= 0x13,
        2 <= m.interpreter.stack.len() <= m.interpreter.max_depth,
    ensures
        ({
            let op = code[ip as int];
            let n = m.interpreter.stack.len();
            let a = m.interpreter.stack[n - 2] as int;
            let b = m.interpreter.stack[n - 1] as int;
            let below = m.interpreter.stack.subrange(0, n - 2);
            let (t, r) = m.instruction_outcome(code, ip);
            let modulus: int = 0x1_0000_0000_0000_0000;
            &&& t.memory == m.memory
            &&& t.gas == m.gas
            &&& t.frames == m.frames
            &&& (op != 0x13 || b != 0) ==> r == Ok::<Step, VmError>(Step::Continue((ip + 1) as usize))
                && t.interpreter.stack.len() == n - 1 && t.interpreter.stack.drop_last() == below
            &&& op == 0x10 ==> t.interpreter.stack.last() as int == (a + b) % modulus
            &&& op == 0x11 ==> t.interpreter.stack.last() as int == (a - b + modulus) % modulus
            &&& op == 0x12 ==> t.interpreter.stack.last() as int == (a * b) % modulus
            &&& op == 0x13 && b != 0 ==> t.interpreter.stack.last() as int == a / b
            &&& op == 0x13 && b == 0 ==> r == Err::<Step, VmError>(VmError::DivisionByZero)
                && t.interpreter.stack == m.interpreter.stack.drop_last()
        }),
{
    let n = m.interpreter.stack.len();
    let below = m.interpreter.stack.subrange(0, n - 2);
    assert(m.interpreter.stack.drop_last().drop_last() =~= below);
    let op = code[ip as int];
    let b = m.interpreter.stack[n - 1];
    if op != 0x13 || b != 0 {
        let t = m.instruction_outcome(code, ip).0;
        assert(t.interpreter.stack.drop_last() =~= below);
    }
}

/// PUSH takes the eight bytes after the opcode as base-256 digits, most
/// significant first, pushes their value and goes on after them; with fewer than
/// eight bytes left it fails with a violation at the opcode's address.
pub proof fn lemma_push_reads_immediate(m: MachineView, code: Seq<u8>, ip: usize)
    requires
        ip < code.len(),
        code[ip as int] == 0x20,
        m.interpreter.stack.len() < m.interpreter.max_depth,
    ensures
        ({
            let (t, r) = m.instruction_outcome(code, ip);
            let k = ip as int;
            &&& code.len() - ip > 8 ==> r == Ok::<Step, VmError>(Step::Continue((ip + 9) as usize))
                && t.interpreter.stack.drop_last() == m.interpreter.stack
                && t.interpreter.stack.len() == m.interpreter.stack.len() + 1
                && t.interpreter.stack.last() as int == code[k + 1] * 0x100_0000_0000_0000 + code[k + 2]
                * 0x1_0000_0000_0000 + code[k + 3] * 0x100_0000_0000 + code[k + 4] * 0x1_0000_0000
                + code[k + 5] * 0x100_0000 + code[k + 6] * 0x1_0000 + code[k + 7] * 0x100 + code[k + 8]
            &&& code.len() - ip <= 8 ==> r == Err::<Step, VmError>(VmError::MemoryAccessViolation { address: ip })
                && t == m
            &&& t.memory == m.memory
        }),
{
    if code.len() - ip > 8 {
        let imm = code.subrange(ip + 1, ip + 9);
        crate::word::lemma_be_word_value(imm);
        let t = m.instruction_outcome(code, ip).0;
        assert(t.interpreter.stack.drop_last() =~= m.interpreter.stack);
    }
}

/// STORE writes the base-256 digits of the value below the top, most significant
/// first, at the address on top, and pops both.
pub proof fn lemma_store_writes_digits(m: MachineView, code: Seq<u8>, ip: usize)
    requires
        ip < code.len(),
        code[ip as int] == 0x31,
        m.instruction_outcome(code, ip).1 is Ok,
    ensures
        ({
            let n = m.interpreter.stack.len();
            let addr = m.interpreter.stack[n - 1] as usize;
            let val = m.interpreter.stack[n - 2] as int;
            let t = m.instruction_outcome(code, ip).0;
            &&& n >= 2
            &&& t.interpreter.stack == m.interpreter.stack.subrange(0, n - 2)
            &&& t.memory.bytes.len() == m.memory.bytes.len()
            &&& addr + 8 <= m.memory.bytes.len()
            &&& forall|j: int| 0 <= j < 8 ==> #[trigger] t.memory.bytes[addr + j] as int == (val / pow256(7 - j)) % 0x100
            &&& forall|i: int| 0 <= i < m.memory.bytes.len() && !(addr <= i < addr + 8)
                ==> #[trigger] t.memory.bytes[i] == m.memory.bytes[i]
        }),
{
    let n = m.interpreter.stack.len();
    let val = m.interpreter.stack[n - 2];
    crate::word::lemma_be_bytes_digits(val);
    assert(m.interpreter.stack.drop_last().drop_last() =~= m.interpreter.stack.subrange(0, n - 2));
    reveal_with_fuel(pow256, 8);
}

/// 256 to the power `e`.
pub open spec fn pow256(e: int) -> int
    decreases e,
{
    if e <= 0 {
        1
    } else {
        256 * pow256(e - 1)
    }
}

/// CALL pops the destination, pushes a frame that returns to the next
/// instruction, and jumps; with the frame stack full it fails and pops nothing.
pub proof fn lemma_call_jumps_and_records_return(m: MachineView, code: Seq<u8>, ip: usize)
    requires
        ip < code.len(),
        code[ip as int] == 0x40,
        m.interpreter.stack.len() >= 1,
    ensures
        ({
            let (t, r) = m.instruction_outcome(code, ip);
            &&& m.frames.len() < m.max_call_depth ==> r == Ok::<Step, VmError>(
                Step::Continue(m.interpreter.stack.last() as usize),
            ) && t.interpreter.stack == m.interpreter.stack.drop_last() && t.frames.len() == m.frames.len() + 1
                && t.frames.drop_last() == m.frames && t.frames.last().return_address == (ip + 1) as usize
            &&& m.frames.len() >= m.max_call_depth ==> r == Err::<Step, VmError>(VmError::CallStackOverflow) && t == m
        }),
{
    let t = m.instruction_outcome(code, ip).0;
    if m.frames.len() < m.max_call_depth {
        assert(t.frames.drop_last() =~= m.frames);
    }
}

/// HALT makes the machine inactive, after which a run does nothing more.
pub proof fn lemma_halt_ends_run(m: MachineView, code: Seq<u8>, ip: usize, next: usize)
    requires
        ip < code.len(),
        code[ip as int] == 0x00,
    ensures
        !m.instruction_outcome(code, ip).0.active,
        m.instruction_outcome(code, ip).1 == Ok::<Step, VmError>(Step::Continue((ip + 1) as usize)),
        m.instruction_outcome(code, ip).0.run_outcome(code, next) == (
            m.instruction_outcome(code, ip).0,
            Ok::<ExecutionStatus, VmError>(ExecutionStatus::Finished),
        ),
{
}

/// A machine: evaluation stack, linear memory, gas meter and call frames.
pub struct VirtualMachineIsolate {
    pub interpreter: VectorInterpreter,
    pub memory: LinearMemoryIsolate,
    pub gas_meter: GasMeterEngine,
    /// Call frames, the innermost last.
    pub call_stack: Vec<ExecutionFrameContext>,
    /// The greatest number of call frames.
    pub max_call_depth: usize,
    /// Cleared by HALT; the loop runs only while it is set.
    pub active: bool,
}

impl View for VirtualMachineIsolate {
    type V = MachineView;

    open spec fn view(&self) -> MachineView {
        MachineView {
            interpreter: self.interpreter@,
            memory: self.memory@,
            gas: self.gas_meter@,
            frames: self.call_stack@.map_values(|f: ExecutionFrameContext| f@),
            max_call_depth: self.max_call_depth,
            active: self.active,
        }
    }
}

impl VirtualMachineIsolate {
    /// A fresh active machine: empty stack, `memory_pages` zero-filled pages
    /// (capped at the ceiling), a meter with budget `gas_limit`, and no call frames
    /// with room for 512.
    pub fn new(gas_limit: u64, memory_pages: usize) -> (vm: Self)
        ensures
            vm@.interpreter == InterpreterView::initial(),
            vm@.memory == MemoryView::initial(memory_pages),
            vm@.gas == GasView::initial(gas_limit),
            vm@.frames == Seq::<FrameView>::empty(),
            vm@.max_call_depth == 512,
            vm@.active,
    {
        let vm = VirtualMachineIsolate {
            interpreter: VectorInterpreter::new(),
            memory: LinearMemoryIsolate::new(memory_pages),
            gas_meter: GasMeterEngine::new(gas_limit),
            call_stack: Vec::with_capacity(512),
            max_call_depth: 512,
            active: true,
        };
        proof {
            assert(vm@.frames =~= Seq::<FrameView>::empty());
        }
        vm
    }

    /// Pops two values: `b` first, then `a`.
    fn pop_operands(&mut self) -> (r: Result<(u64, u64), VmError>)
        ensures
            final(self)@ == old(self)@.with_interpreter(old(self)@.interpreter.pop_two_outcome().0),
            r == old(self)@.interpreter.pop_two_outcome().1,
    {
        let b = self.interpreter.pop_evaluation()?;
        let a = self.interpreter.pop_evaluation()?;
        Ok((a, b))
    }

    /// Executes the instruction at `ip`, whose gas has been charged.
    fn execute_instruction(&mut self, bytecode: &[u8], ip: usize) -> (r: Result<Step, VmError>)
        requires
            ip < bytecode@.len(),
        ensures
            final(self)@ == old(self)@.instruction_outcome(bytecode@, ip).0,
            r == old(self)@.instruction_outcome(bytecode@, ip).1,
    {
        let raw_opcode = bytecode[ip];
        let next = ip + 1;
        if raw_opcode == 0x00 {
            self.active = false;
            Ok(Step::Continue(next))
        } else if raw_opcode == 0x0F {
            Err(VmError::ExecutionTrap)
        } else if raw_opcode == 0x10 || raw_opcode == 0x11 || raw_opcode == 0x12 {
            let (a, b) = self.pop_operands()?;
            let value = if raw_opcode == 0x10 {
                a.wrapping_add(b)
            } else if raw_opcode == 0x11 {
                a.wrapping_sub(b)
            } else {
                a.wrapping_mul(b)
            };
            self.interpreter.push_evaluation(value)?;
            Ok(Step::Continue(next))
        } else if raw_opcode == 0x13 {
            let b = self.interpreter.pop_evaluation()?;
            if b == 0 {
                return Err(VmError::DivisionByZero);
            }
            let a = self.interpreter.pop_evaluation()?;
            self.interpreter.push_evaluation(a / b)?;
            Ok(Step::Continue(next))
        } else if raw_opcode == 0x20 {
            if bytecode.len() - ip <= 8 {
                return Err(VmError::MemoryAccessViolation { address: ip });
            }
            let immediate = slice_subrange(bytecode, ip + 1, ip + 9);
            let parsed_val = word_from_be_bytes(immediate);
            self.interpreter.push_evaluation(parsed_val)?;
            Ok(Step::Continue(ip + 9))
        } else if raw_opcode == 0x30 {
            let addr = self.interpreter.pop_evaluation()? as usize;
            let mut read_buf: Vec<u8> = vec![0u8; 8];
            self.memory.read_bytes(addr, read_buf.as_mut_slice())?;
            self.interpreter.push_evaluation(word_from_be_bytes(read_buf.as_slice()))?;
            Ok(Step::Continue(next))
        } else if raw_opcode == 0x31 {
            let addr = self.interpreter.pop_evaluation()? as usize;
            let val = self.interpreter.pop_evaluation()?;
            let encoded = word_to_be_bytes(val);
            self.memory.write_bytes(addr, encoded.as_slice())?;
            Ok(Step::Continue(next))
        } else if raw_opcode == 0x40 {
            if self.call_stack.len() >= self.max_call_depth {
                return Err(VmError::CallStackOverflow);
            }
            let dest_addr = self.interpreter.pop_evaluation()? as usize;
            let frame = ExecutionFrameContext { return_address: next, registers: vec![0u64; 16], memory_base: 0 };
            proof {
                assert(frame@ =~= call_frame(ip));
            }
            self.call_stack.push(frame);
            proof {
                assert(self@.frames =~= old(self)@.frames.push(call_frame(ip)));
            }
            Ok(Step::Continue(dest_addr))
        } else if raw_opcode == 0x41 {
            match self.call_stack.pop() {
                Some(frame) => {
                    proof {
                        assert(self@.frames =~= old(self)@.frames.drop_last());
                    }
                    Ok(Step::Continue(frame.return_address))
                },
                None => Err(VmError::CallStackUnderflow),
            }
        } else if raw_opcode == 0x50 {
            let call_code = self.interpreter.pop_evaluation()? as u32;
            Ok(Step::Syscall { call_code, resume_at: next })
        } else {
            Err(VmError::InvalidOpcode { opcode: raw_opcode })
        }
    }
    /// Runs `bytecode` from `start`: while the instruction pointer is inside the
    /// bytecode and the machine is active, charges the gas of the opcode there and
    /// executes it. Returns the first error, a pending system call with the
    /// address to resume at, or `Finished`.
    pub fn resume_program(&mut self, bytecode: &[u8], start: usize) -> (r: Result<ExecutionStatus, VmError>)
        ensures
            final(self)@ == old(self)@.run_outcome(bytecode@, start).0,
            r == old(self)@.run_outcome(bytecode@, start).1,
    {
        let mut instruction_pointer = start;
        loop
            invariant
                self@.run_outcome(bytecode@, instruction_pointer) == old(self)@.run_outcome(bytecode@, start),
            decreases self.gas_meter.max_limit - self.gas_meter.spent,
        {
            if !(instruction_pointer < bytecode.len() && self.active) {
                return Ok(ExecutionStatus::Finished);
            }
            let raw_opcode = bytecode[instruction_pointer];
            self.gas_meter.consume_resource(raw_opcode)?;
            match self.execute_instruction(bytecode, instruction_pointer)? {
                Step::Continue(next) => {
                    instruction_pointer = next;
                },
                Step::Syscall { call_code, resume_at } => {
                    return Ok(ExecutionStatus::SyscallPending { call_code, resume_at });
                },
            }
        }
    }

    /// Runs `bytecode` from its first byte; see [`Self::resume_program`].
    pub fn execute_program(&mut self, bytecode: &[u8]) -> (r: Result<ExecutionStatus, VmError>)
        ensures
            final(self)@ == old(self)@.run_outcome(bytecode@, 0).0,
            r == old(self)@.run_outcome(bytecode@, 0).1,
    {
        self.resume_program(bytecode, 0)
    }
}

} // verus!

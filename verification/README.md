# vm

A sandboxed stack virtual machine whose library code is verified with Verus.

- `src/interpreter.rs`: the bounded evaluation stack (push, pop, peek, swap,
  duplicate, bitwise and comparison primitives, batch loading).
- `src/memory.rs`: page-based linear memory with bounds-checked reads and writes,
  growth by zero-filled pages up to a 64 MiB ceiling, and clearing.
- `src/gas.rs`: opcode weight tiers, per-instruction charges and the quadratic
  memory-expansion charge.
- `src/word.rs`: big-endian encoding of 64-bit words.
- `src/lib.rs`: the machine, its instruction semantics (`MachineView::instruction_outcome`),
  the run semantics (`MachineView::run_outcome`) and the interpreter loop.

Every public operation's contract states its result and the new state as a spec
function of the old state; proof functions state the laws (a read gives back what
a write wrote, a pop undoes a push, charges never pass the budget, a LOAD gives
back what a STORE stored, a RET returns after its CALL, ...).

System calls are not served inside the library: the loop stops at a SYSCALL with
`ExecutionStatus::SyscallPending`, and `app/lib.rs` runs the loop that dispatches
the call and resumes. `app/` also holds the copies of the error and frame types
that carry `thiserror` and `serde` derives.

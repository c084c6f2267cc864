//! The evaluation stack of the machine: bounded pushes, pops, inspection,
//! stack shuffling, bitwise and comparison primitives, and batch loading.
use vstd::prelude::*;

use vstd::arithmetic::power2::pow2;

use crate::word::{bit, lemma_bitwise_bits, lemma_shl_wraps, lemma_shr_divides};
use crate::VmError;

verus! {

/// Abstract state of a [`VectorInterpreter`].
#[verifier::ext_equal]
pub struct InterpreterView {
    /// Stack contents, bottom first; the top is the last element.
    pub stack: Seq<u64>,
    /// The greatest number of values the stack may hold.
    pub max_depth: usize,
    /// Wrapping count of values pushed so far.
    pub ops: u64,
}

/// The value `op_type` selects among the bitwise primitives, applied to `a` (pushed
/// first) and `b` (the top), or `None` for an unknown selector.
pub open spec fn bitwise_value(op_type: u8, a: u64, b: u64) -> Option<u64> {
    if op_type == 1 {
        Some(a & b)
    } else if op_type == 2 {
        Some(a | b)
    } else if op_type == 3 {
        Some(a ^ b)
    } else if op_type == 4 {
        Some(a << (b % 64))
    } else if op_type == 5 {
        Some(a >> (b % 64))
    } else {
        None
    }
}

/// The predicate `comp_type` selects among the comparisons of `a` (pushed first)
/// with `b` (the top), or `None` for an unknown selector.
pub open spec fn comparison_value(comp_type: u8, a: u64, b: u64) -> Option<bool> {
    if comp_type == 1 {
        Some(a == b)
    } else if comp_type == 2 {
        Some(a != b)
    } else if comp_type == 3 {
        Some(a < b)
    } else if comp_type == 4 {
        Some(a <= b)
    } else if comp_type == 5 {
        Some(a > b)
    } else if comp_type == 6 {
        Some(a >= b)
    } else {
        None
    }
}

impl InterpreterView {
    /// A fresh stack: empty, with room for 1024 values, nothing pushed yet.
    pub open spec fn initial() -> InterpreterView {
        InterpreterView { stack: Seq::empty(), max_depth: 1024, ops: 0 }
    }

    /// The value `offset` places below the top.
    pub open spec fn from_top(self, offset: int) -> u64 {
        self.stack[self.stack.len() - 1 - offset]
    }

    /// Pushing `value`: refused when the stack is full, else appended and counted.
    pub open spec fn push_outcome(self, value: u64) -> (InterpreterView, Result<(), VmError>) {
        if self.stack.len() >= self.max_depth {
            (self, Err(VmError::StackOverflow { depth: self.max_depth }))
        } else {
            (
                InterpreterView {
                    stack: self.stack.push(value),
                    max_depth: self.max_depth,
                    ops: vstd::wrapping::u64_specs::wrapping_add(self.ops, 1),
                },
                Ok(()),
            )
        }
    }

    /// Popping: the top value and the stack without it, or an underflow.
    pub open spec fn pop_outcome(self) -> (InterpreterView, Result<u64, VmError>) {
        if self.stack.len() == 0 {
            (self, Err(VmError::StackUnderflow))
        } else {
            (
                InterpreterView {
                    stack: self.stack.drop_last(),
                    max_depth: self.max_depth,
                    ops: self.ops,
                },
                Ok(self.stack.last()),
            )
        }
    }

    /// Reading the value `offset` places below the top.
    pub open spec fn peek_outcome(self, offset: usize) -> Result<u64, VmError> {
        if offset >= self.stack.len() {
            Err(VmError::StackUnderflow)
        } else {
            Ok(self.from_top(offset as int))
        }
    }

    /// Exchanging the top with the value `depth` places below it.
    pub open spec fn swap_outcome(self, depth: usize) -> (InterpreterView, Result<(), VmError>) {
        let len = self.stack.len();
        if depth == 0 || depth >= len {
            (self, Err(VmError::StackUnderflow))
        } else {
            let top = len - 1;
            let other = len - 1 - depth;
            (
                InterpreterView {
                    stack: self.stack.update(top, self.stack[other]).update(other, self.stack[top]),
                    max_depth: self.max_depth,
                    ops: self.ops,
                },
                Ok(()),
            )
        }
    }

    /// Pushing a copy of the value `depth` places below the top.
    pub open spec fn duplicate_outcome(self, depth: usize) -> (InterpreterView, Result<(), VmError>) {
        if depth >= self.stack.len() {
            (self, Err(VmError::StackUnderflow))
        } else {
            self.push_outcome(self.from_top(depth as int))
        }
    }

    /// Pops `b` then `a`; the state after both pops and the two values, or the
    /// first failure with the state at that point.
    pub open spec fn pop_two_outcome(self) -> (InterpreterView, Result<(u64, u64), VmError>) {
        let (s1, rb) = self.pop_outcome();
        match rb {
            Err(e) => (s1, Err(e)),
            Ok(b) => {
                let (s2, ra) = s1.pop_outcome();
                match ra {
                    Err(e) => (s2, Err(e)),
                    Ok(a) => (s2, Ok((a, b))),
                }
            },
        }
    }

    /// Replacing the two top values by the bitwise combination `op_type` selects.
    pub open spec fn bitwise_outcome(self, op_type: u8) -> (InterpreterView, Result<(), VmError>) {
        let (s, r) = self.pop_two_outcome();
        match r {
            Err(e) => (s, Err(e)),
            Ok((a, b)) => match bitwise_value(op_type, a, b) {
                None => (s, Err(VmError::InvalidOpcode { opcode: op_type })),
                Some(v) => s.push_outcome(v),
            },
        }
    }

    /// Popping the two top values and comparing them as `comp_type` selects.
    pub open spec fn comparison_outcome(self, comp_type: u8) -> (InterpreterView, Result<bool, VmError>) {
        let (s, r) = self.pop_two_outcome();
        match r {
            Err(e) => (s, Err(e)),
            Ok((a, b)) => match comparison_value(comp_type, a, b) {
                None => (s, Err(VmError::InvalidOpcode { opcode: comp_type })),
                Some(c) => (s, Ok(c)),
            },
        }
    }

    /// Appending a whole batch at once: all or nothing against the depth limit.
    pub open spec fn batch_outcome(self, batch: Seq<u64>) -> (InterpreterView, Result<(), VmError>) {
        if self.stack.len() + batch.len() > self.max_depth {
            (self, Err(VmError::StackOverflow { depth: self.max_depth }))
        } else {
            (
                InterpreterView {
                    stack: self.stack + batch,
                    max_depth: self.max_depth,
                    ops: vstd::wrapping::u64_specs::wrapping_add(self.ops, batch.len() as u64),
                },
                Ok(()),
            )
        }
    }
}

impl InterpreterView {
    /// The stack holds no more values than its depth limit.
    pub open spec fn within_depth(self) -> bool {
        self.stack.len() <= self.max_depth
    }

    /// Pushing the values of `batch` one at a time, in order, stopping at the
    /// first refused push.
    pub open spec fn push_each_outcome(self, batch: Seq<u64>) -> (InterpreterView, Result<(), VmError>)
        decreases batch.len(),
    {
        if batch.len() == 0 {
            (self, Ok(()))
        } else {
            let (s, r) = self.push_each_outcome(batch.drop_last());
            match r {
                Err(e) => (s, Err(e)),
                Ok(()) => s.push_outcome(batch.last()),
            }
        }
    }
}

/// Loading a batch that fits is the same as pushing its values one at a time in
/// order: every push succeeds and the stack and counter end up the same.
pub proof fn lemma_batch_is_pushes_in_order(s: InterpreterView, batch: Seq<u64>)
    requires
        s.stack.len() + batch.len() <= s.max_depth,
    ensures
        s.push_each_outcome(batch).1 == Ok::<(), VmError>(()),
        s.push_each_outcome(batch).0 == s.batch_outcome(batch).0,
        s.batch_outcome(batch).1 == Ok::<(), VmError>(()),
    decreases batch.len(),
{
    if batch.len() > 0 {
        let prefix = batch.drop_last();
        lemma_batch_is_pushes_in_order(s, prefix);
        assert(s.stack + prefix + seq![batch.last()] =~= s.stack + batch);
        assert(prefix.push(batch.last()) =~= batch);
    } else {
        assert(s.stack + batch =~= s.stack);
    }
}

/// A pop right after a successful push gives back the pushed value and the
/// stack as it was before the push.
pub proof fn lemma_pop_undoes_push(s: InterpreterView, value: u64)
    requires
        s.push_outcome(value).1 is Ok,
    ensures
        s.push_outcome(value).0.pop_outcome().1 == Ok::<u64, VmError>(value),
        s.push_outcome(value).0.pop_outcome().0.stack == s.stack,
        s.push_outcome(value).0.pop_outcome().0.max_depth == s.max_depth,
{
    assert(s.stack.push(value).drop_last() =~= s.stack);
}

/// A peek at the top right after a successful push reads the pushed value.
pub proof fn lemma_peek_after_push(s: InterpreterView, value: u64)
    requires
        s.push_outcome(value).1 is Ok,
    ensures
        s.push_outcome(value).0.peek_outcome(0) == Ok::<u64, VmError>(value),
{
}

/// Swapping the same pair twice restores the stack.
pub proof fn lemma_swap_twice_restores(s: InterpreterView, depth: usize)
    requires
        s.swap_outcome(depth).1 is Ok,
    ensures
        s.swap_outcome(depth).0.swap_outcome(depth).1 is Ok,
        s.swap_outcome(depth).0.swap_outcome(depth).0 == s,
{
    let t = s.swap_outcome(depth).0;
    assert(t.swap_outcome(depth).0.stack =~= s.stack);
}

/// No operation takes the stack past its depth limit, and none changes the limit.
pub proof fn lemma_operations_keep_depth(s: InterpreterView, value: u64, depth: usize, selector: u8, batch: Seq<u64>)
    requires
        s.within_depth(),
    ensures
        s.push_outcome(value).0.within_depth(),
        s.pop_outcome().0.within_depth(),
        s.swap_outcome(depth).0.within_depth(),
        s.duplicate_outcome(depth).0.within_depth(),
        s.bitwise_outcome(selector).0.within_depth(),
        s.comparison_outcome(selector).0.within_depth(),
        s.batch_outcome(batch).0.within_depth(),
        s.push_outcome(value).0.max_depth == s.max_depth,
        s.pop_outcome().0.max_depth == s.max_depth,
        s.swap_outcome(depth).0.max_depth == s.max_depth,
        s.duplicate_outcome(depth).0.max_depth == s.max_depth,
        s.bitwise_outcome(selector).0.max_depth == s.max_depth,
        s.comparison_outcome(selector).0.max_depth == s.max_depth,
        s.batch_outcome(batch).0.max_depth == s.max_depth,
{
}

/// A peek reads the stack `offset` places below the top, and fails exactly when
/// the stack holds no more than `offset` values.
pub proof fn lemma_peek_reads_below_top(s: InterpreterView, offset: usize)
    ensures
        offset < s.stack.len() ==> s.peek_outcome(offset) == Ok::<u64, VmError>(
            s.stack[s.stack.len() - 1 - offset],
        ),
        offset >= s.stack.len() ==> s.peek_outcome(offset) == Err::<u64, VmError>(VmError::StackUnderflow),
{
}

/// A successful swap at depth `d` exchanges the top with the value `d` places
/// below it and leaves every other position as it was; peeks at 0 and at `d`
/// trade their answers.
pub proof fn lemma_swap_exchanges_two_positions(s: InterpreterView, d: usize)
    requires
        0 < d < s.stack.len(),
    ensures
        ({
            let (t, r) = s.swap_outcome(d);
            let n = s.stack.len();
            &&& r == Ok::<(), VmError>(())
            &&& t.stack.len() == n
            &&& t.stack[n - 1] == s.stack[n - 1 - d]
            &&& t.stack[n - 1 - d] == s.stack[n - 1]
            &&& forall|i: int| 0 <= i < n && i != n - 1 && i != n - 1 - d ==> #[trigger] t.stack[i] == s.stack[i]
            &&& t.peek_outcome(0) == s.peek_outcome(d)
            &&& t.peek_outcome(d) == s.peek_outcome(0)
            &&& t.max_depth == s.max_depth
            &&& t.ops == s.ops
        }),
{
}

/// A successful duplicate at depth `d` appends one value: the one `d` places
/// below the old top, which a peek at `d` read before the call.
pub proof fn lemma_duplicate_appends_copy(s: InterpreterView, d: usize)
    requires
        d < s.stack.len(),
        s.stack.len() < s.max_depth,
    ensures
        ({
            let (t, r) = s.duplicate_outcome(d);
            &&& r == Ok::<(), VmError>(())
            &&& t.stack == s.stack.push(s.stack[s.stack.len() - 1 - d])
            &&& s.peek_outcome(d) == Ok::<u64, VmError>(t.stack.last())
            &&& t.peek_outcome(0) == s.peek_outcome(d)
            &&& t.peek_outcome((d + 1) as usize) == s.peek_outcome(d)
        }),
{
}

/// The result of a successful bitwise step, with `a` pushed first and `b` on top:
/// 1, 2 and 3 combine the operands bit by bit (and, or, xor); 4 multiplies `a` by
/// 2^(b mod 64) and wraps at 2^64; 5 divides `a` by 2^(b mod 64). The two operands
/// are replaced by the one result; any other selector fails after both pops.
pub proof fn lemma_bitwise_results(s: InterpreterView, op_type: u8)
    requires
        2 <= s.stack.len() <= s.max_depth,
    ensures
        ({
            let n = s.stack.len();
            let a = s.stack[n - 2];
            let b = s.stack[n - 1];
            let (t, r) = s.bitwise_outcome(op_type);
            let v = t.stack.last();
            &&& 1 <= op_type <= 5 ==> r == Ok::<(), VmError>(()) && t.stack.len() == n - 1
                && t.stack.drop_last() == s.stack.subrange(0, n - 2)
            &&& op_type == 1 ==> forall|i: u64| i < 64 ==> #[trigger] bit(v, i) == (bit(a, i) && bit(b, i))
            &&& op_type == 2 ==> forall|i: u64| i < 64 ==> #[trigger] bit(v, i) == (bit(a, i) || bit(b, i))
            &&& op_type == 3 ==> forall|i: u64| i < 64 ==> #[trigger] bit(v, i) == (bit(a, i) != bit(b, i))
            &&& op_type == 4 ==> v as int == (a as int * pow2((b % 64) as nat)) % 0x1_0000_0000_0000_0000
            &&& op_type == 5 ==> v as int == a as int / (pow2((b % 64) as nat) as int)
            &&& !(1 <= op_type <= 5) ==> r == Err::<(), VmError>(VmError::InvalidOpcode { opcode: op_type })
                && t.stack == s.stack.subrange(0, n - 2)
        }),
{
    let n = s.stack.len();
    let a = s.stack[n - 2];
    let b = s.stack[n - 1];
    lemma_bitwise_bits(a, b);
    lemma_shl_wraps(a, b % 64);
    lemma_shr_divides(a, b % 64);
    assert(s.stack.drop_last().drop_last() =~= s.stack.subrange(0, n - 2));
    let t = s.bitwise_outcome(op_type).0;
    if 1 <= op_type <= 5 {
        assert(t.stack.drop_last() =~= s.stack.subrange(0, n - 2));
    }
}

/// The answer of a comparison step, with `a` pushed first and `b` on top, as the
/// integers compare; both operands are popped. Selector 2 negates 1, 6 negates 3,
/// 4 negates 5, and 5 on `(a, b)` answers as 3 on `(b, a)`.
pub proof fn lemma_comparison_results(s: InterpreterView, comp_type: u8)
    requires
        2 <= s.stack.len(),
    ensures
        ({
            let n = s.stack.len();
            let a = s.stack[n - 2] as int;
            let b = s.stack[n - 1] as int;
            let (t, r) = s.comparison_outcome(comp_type);
            &&& t.stack == s.stack.subrange(0, n - 2)
            &&& comp_type == 1 ==> r == Ok::<bool, VmError>(a == b)
            &&& comp_type == 2 ==> r == Ok::<bool, VmError>(a != b)
            &&& comp_type == 3 ==> r == Ok::<bool, VmError>(a < b)
            &&& comp_type == 4 ==> r == Ok::<bool, VmError>(a <= b)
            &&& comp_type == 5 ==> r == Ok::<bool, VmError>(a > b)
            &&& comp_type == 6 ==> r == Ok::<bool, VmError>(a >= b)
            &&& !(1 <= comp_type <= 6) ==> r == Err::<bool, VmError>(VmError::InvalidOpcode { opcode: comp_type })
        }),
        s.comparison_outcome(1).1 matches Ok(c) && s.comparison_outcome(2).1 == Ok::<bool, VmError>(!c),
        s.comparison_outcome(3).1 matches Ok(c) && s.comparison_outcome(6).1 == Ok::<bool, VmError>(!c),
        s.comparison_outcome(5).1 matches Ok(c) && s.comparison_outcome(4).1 == Ok::<bool, VmError>(!c),
{
    let n = s.stack.len();
    assert(s.stack.drop_last().drop_last() =~= s.stack.subrange(0, n - 2));
}

/// Comparison selector 5 on a stack ending `a, b` answers as selector 3 on the
/// same stack ending `b, a`.
pub proof fn lemma_greater_is_swapped_less(s: InterpreterView)
    requires
        2 <= s.stack.len(),
    ensures
        s.comparison_outcome(5).1 == s.swap_outcome(1).0.comparison_outcome(3).1,
{
    lemma_comparison_results(s, 5);
    lemma_swap_exchanges_two_positions(s, 1);
    lemma_comparison_results(s.swap_outcome(1).0, 3);
}

/// Bounded evaluation stack of 64-bit values.
#[derive(Debug, Clone)]
pub struct VectorInterpreter {
    /// Stack contents, bottom first.
    pub evaluation_stack: Vec<u64>,
    /// Depth limit of the stack.
    pub max_depth: usize,
    /// Wrapping count of values pushed.
    pub total_ops_processed: u64,
}

impl View for VectorInterpreter {
    type V = InterpreterView;

    open spec fn view(&self) -> InterpreterView {
        InterpreterView {
            stack: self.evaluation_stack@,
            max_depth: self.max_depth,
            ops: self.total_ops_processed,
        }
    }
}

impl VectorInterpreter {
    /// An empty stack with room for 1024 values.
    pub fn new() -> (interp: Self)
        ensures
            interp@ == InterpreterView::initial(),
    {
        VectorInterpreter { evaluation_stack: Vec::with_capacity(1024), max_depth: 1024, total_ops_processed: 0 }
    }

    /// Pushes `value`, failing with `StackOverflow` when the stack is full.
    pub fn push_evaluation(&mut self, value: u64) -> (r: Result<(), VmError>)
        ensures
            final(self)@ == old(self)@.push_outcome(value).0,
            r == old(self)@.push_outcome(value).1,
    {
        if self.evaluation_stack.len() >= self.max_depth {
            return Err(VmError::StackOverflow { depth: self.max_depth });
        }
        self.evaluation_stack.push(value);
        self.total_ops_processed = self.total_ops_processed.wrapping_add(1);
        Ok(())
    }

    /// Pops the top value, failing with `StackUnderflow` on an empty stack.
    pub fn pop_evaluation(&mut self) -> (r: Result<u64, VmError>)
        ensures
            final(self)@ == old(self)@.pop_outcome().0,
            r == old(self)@.pop_outcome().1,
    {
        match self.evaluation_stack.pop() {
            Some(v) => Ok(v),
            None => Err(VmError::StackUnderflow),
        }
    }

    /// Reads the value `offset` places below the top without changing the stack.
    pub fn peek_evaluation(&self, offset: usize) -> (r: Result<u64, VmError>)
        ensures
            r == self@.peek_outcome(offset),
    {
        let len = self.evaluation_stack.len();
        if offset >= len {
            return Err(VmError::StackUnderflow);
        }
        Ok(self.evaluation_stack[len - 1 - offset])
    }

    /// Exchanges the top with the value `depth` places below it; a `depth` of 0 or
    /// one that reaches past the bottom fails with `StackUnderflow`.
    pub fn swap_elements(&mut self, depth: usize) -> (r: Result<(), VmError>)
        ensures
            final(self)@ == old(self)@.swap_outcome(depth).0,
            r == old(self)@.swap_outcome(depth).1,
    {
        let len = self.evaluation_stack.len();
        if depth == 0 || depth >= len {
            return Err(VmError::StackUnderflow);
        }
        let top = len - 1;
        let other = len - 1 - depth;
        let top_value = self.evaluation_stack[top];
        let other_value = self.evaluation_stack[other];
        self.evaluation_stack[top] = other_value;
        self.evaluation_stack[other] = top_value;
        Ok(())
    }

    /// Pushes a copy of the value `depth` places below the top.
    pub fn duplicate_element(&mut self, depth: usize) -> (r: Result<(), VmError>)
        ensures
            final(self)@ == old(self)@.duplicate_outcome(depth).0,
            r == old(self)@.duplicate_outcome(depth).1,
    {
        let len = self.evaluation_stack.len();
        if depth >= len {
            return Err(VmError::StackUnderflow);
        }
        let val = self.evaluation_stack[len - 1 - depth];
        self.push_evaluation(val)
    }

    /// Pops `b` then `a` and pushes the bitwise combination selected by `op_type`:
    /// 1 and, 2 or, 3 xor, 4 shift left and 5 shift right by `b % 64`. An unknown
    /// selector fails with `InvalidOpcode` after both pops.
    pub fn process_bitwise_op(&mut self, op_type: u8) -> (r: Result<(), VmError>)
        ensures
            final(self)@ == old(self)@.bitwise_outcome(op_type).0,
            r == old(self)@.bitwise_outcome(op_type).1,
    {
        let b = self.pop_evaluation()?;
        let a = self.pop_evaluation()?;
        let result = if op_type == 1 {
            a & b
        } else if op_type == 2 {
            a | b
        } else if op_type == 3 {
            a ^ b
        } else if op_type == 4 {
            a << (b % 64)
        } else if op_type == 5 {
            a >> (b % 64)
        } else {
            return Err(VmError::InvalidOpcode { opcode: op_type });
        };
        self.push_evaluation(result)
    }

    /// Pops `b` then `a` and compares them as `comp_type` selects: 1 `==`, 2 `!=`,
    /// 3 `<`, 4 `<=`, 5 `>`, 6 `>=`. An unknown selector fails with `InvalidOpcode`
    /// after both pops.
    pub fn process_logical_comparison(&mut self, comp_type: u8) -> (r: Result<bool, VmError>)
        ensures
            final(self)@ == old(self)@.comparison_outcome(comp_type).0,
            r == old(self)@.comparison_outcome(comp_type).1,
    {
        let b = self.pop_evaluation()?;
        let a = self.pop_evaluation()?;
        let condition = if comp_type == 1 {
            a == b
        } else if comp_type == 2 {
            a != b
        } else if comp_type == 3 {
            a < b
        } else if comp_type == 4 {
            a <= b
        } else if comp_type == 5 {
            a > b
        } else if comp_type == 6 {
            a >= b
        } else {
            return Err(VmError::InvalidOpcode { opcode: comp_type });
        };
        Ok(condition)
    }

    /// Appends all of `batch`, or nothing when it would pass the depth limit.
    pub fn load_register_batch(&mut self, batch: &[u64]) -> (r: Result<(), VmError>)
        ensures
            final(self)@ == old(self)@.batch_outcome(batch@).0,
            r == old(self)@.batch_outcome(batch@).1,
    {
        let fits = match self.evaluation_stack.len().checked_add(batch.len()) {
            Some(total) => total <= self.max_depth,
            None => false,
        };
        if !fits {
            return Err(VmError::StackOverflow { depth: self.max_depth });
        }
        self.evaluation_stack.extend_from_slice(batch);
        proof {
            assert(self.evaluation_stack@ =~= old(self).evaluation_stack@ + batch@);
        }
        self.total_ops_processed = self.total_ops_processed.wrapping_add(batch.len() as u64);
        Ok(())
    }

    /// Overwrites every value with zero, then empties the stack.
    pub fn zeroize_stack(&mut self)
        ensures
            final(self)@.stack == Seq::<u64>::empty(),
            final(self)@.max_depth == old(self)@.max_depth,
            final(self)@.ops == old(self)@.ops,
    {
        let len = self.evaluation_stack.len();
        let mut i: usize = 0;
        while i < len
            invariant
                i <= len,
                len == self.evaluation_stack.len(),
                self.max_depth == old(self).max_depth,
                self.total_ops_processed == old(self).total_ops_processed,
                forall|j: int| 0 <= j < i ==> self.evaluation_stack@[j] == 0,
            decreases len - i,
        {
            self.evaluation_stack[i] = 0;
            i = i + 1;
        }
        self.evaluation_stack.clear();
    }
}

impl Default for VectorInterpreter {
    fn default() -> (interp: Self)
        ensures
            interp@ == InterpreterView::initial(),
    {
        Self::new()
    }
}

} // verus!

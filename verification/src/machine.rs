//! What the machine does, as mathematics: the state of a run, the effect of
//! one instruction on it, and the runs that lead from a state to a result.
//!
//! The arithmetic on numbers is not part of this description. It enters as
//! a relation between an operation, its two operands and an outcome. Where
//! an instruction combines two numbers, the description says which
//! operation is asked for and on which operands, and goes on with any
//! outcome that the relation allows for them.

use crate::chunk::ChunkView;
use crate::opcodes::OpCode;
use crate::value::{computes_one_way, negated, ValueView};
use vstd::prelude::*;

verus! {

/// The kinds of fault that halt a run.
#[derive(Debug, PartialEq, Eq, Copy, Clone)]
pub enum FaultKind {
    /// A byte that is no opcode, an operand that is missing or that names no
    /// constant, or a fetch past the end of the code.
    DecodeError,
    /// A pop from the empty stack.
    StackUnderflow,
    /// An arithmetic instruction applied to a value that is no number.
    TypeError,
}

/// A fault, with what locates it.
#[derive(Debug, PartialEq, Eq, Copy, Clone)]
pub struct Fault {
    /// The kind of fault.
    pub kind: FaultKind,
    /// The opcode of the faulting instruction, where its byte decoded.
    pub opcode: Option<OpCode>,
    /// The offset of the faulting instruction's first byte.
    pub offset: usize,
    /// The line marker of that byte, where the offset is within the code.
    pub line: Option<u8>,
}

/// What a run ends with, over the views of values.
pub enum ResultView {
    Success(ValueView),
    CompileError,
    RuntimeError(Fault),
}

/// The part of the machine that a run changes.
pub struct MachineState {
    /// The offset of the next byte to fetch.
    pub ip: int,
    /// The operand stack, bottom first.
    pub stack: Seq<ValueView>,
    /// The values traced so far, oldest first.
    pub log: Seq<ValueView>,
}

/// The effect of one instruction.
pub enum Step {
    /// The run ends with this result, in this state.
    Halt(ResultView, MachineState),
    /// The run goes on from this state.
    Continue(MachineState),
    /// The run goes on from this state with one more number on the stack:
    /// the outcome of the operation on the left and the right operand.
    Compute(OpCode, u64, u64, MachineState),
}

impl MachineState {
    /// The state in which every run starts: at the first byte, with an
    /// empty stack and nothing traced.
    pub open spec fn initial() -> MachineState {
        MachineState { ip: 0, stack: Seq::empty(), log: Seq::empty() }
    }

    /// The state with `value` pushed.
    pub open spec fn push(self, value: ValueView) -> MachineState {
        MachineState { ip: self.ip, stack: self.stack.push(value), log: self.log }
    }

    /// The state with the top of the stack removed.
    pub open spec fn drop_top(self) -> MachineState {
        MachineState { ip: self.ip, stack: self.stack.drop_last(), log: self.log }
    }

    /// The state with the instruction pointer moved on by `bytes`.
    pub open spec fn advance(self, bytes: int) -> MachineState {
        MachineState { ip: self.ip + bytes, stack: self.stack, log: self.log }
    }

    /// The state with an empty log.
    pub open spec fn without_log(self) -> MachineState {
        MachineState { ip: self.ip, stack: self.stack, log: Seq::empty() }
    }

    /// The state after the stack was traced: each value of the stack, bottom
    /// to top, is added to the log.
    pub open spec fn traced(self) -> MachineState {
        MachineState { ip: self.ip, stack: self.stack, log: self.log + self.stack }
    }
}

/// The fault of the given kind at the instruction at `offset`.
pub open spec fn fault_at(
    chunk: ChunkView,
    kind: FaultKind,
    opcode: Option<OpCode>,
    offset: int,
) -> ResultView {
    ResultView::RuntimeError(
        Fault {
            kind,
            opcode,
            offset: offset as usize,
            line: if 0 <= offset < chunk.lines.len() {
                Some(chunk.lines[offset])
            } else {
                None
            },
        },
    )
}

/// The effect of a return instruction at `offset`: the top of the stack is
/// popped and is the result. `s` is the state after the fetch.
pub open spec fn step_return(chunk: ChunkView, offset: int, s: MachineState) -> Step {
    if s.stack.len() == 0 {
        Step::Halt(
            fault_at(chunk, FaultKind::StackUnderflow, Some(OpCode::OP_RETURN), offset),
            s,
        )
    } else {
        Step::Halt(ResultView::Success(s.stack.last()), s.drop_top())
    }
}

/// The effect of a constant instruction at `offset`: the operand byte is
/// read as an index into the pool, and that constant is pushed. A missing
/// operand or an index past the pool is a decode error, and leaves the
/// stack as it was.
pub open spec fn step_constant(chunk: ChunkView, offset: int, s: MachineState) -> Step {
    if s.ip >= chunk.code.len() {
        Step::Halt(
            fault_at(chunk, FaultKind::DecodeError, Some(OpCode::OP_CONSTANT), offset),
            s,
        )
    } else {
        let index = chunk.code[s.ip] as int;
        if index >= chunk.constants.len() {
            Step::Halt(
                fault_at(chunk, FaultKind::DecodeError, Some(OpCode::OP_CONSTANT), offset),
                s.advance(1),
            )
        } else {
            Step::Continue(s.advance(1).push(chunk.constants[index]))
        }
    }
}

/// The effect of a negate instruction at `offset`: the top of the stack is
/// popped; it must be a number, and its negation is pushed.
pub open spec fn step_negate(chunk: ChunkView, offset: int, s: MachineState) -> Step {
    if s.stack.len() == 0 {
        Step::Halt(
            fault_at(chunk, FaultKind::StackUnderflow, Some(OpCode::OP_NEGATE), offset),
            s,
        )
    } else {
        match s.stack.last() {
            ValueView::Number(bits) => Step::Continue(
                s.drop_top().push(ValueView::Number(negated(bits))),
            ),
            _ => Step::Halt(
                fault_at(chunk, FaultKind::TypeError, Some(OpCode::OP_NEGATE), offset),
                s.drop_top(),
            ),
        }
    }
}

/// The effect of the binary arithmetic instruction `op` at `offset`: the
/// right operand is popped, then the left one; both must be numbers. What
/// was popped stays popped when the instruction faults.
pub open spec fn step_binary(chunk: ChunkView, op: OpCode, offset: int, s: MachineState) -> Step {
    if s.stack.len() == 0 {
        Step::Halt(fault_at(chunk, FaultKind::StackUnderflow, Some(op), offset), s)
    } else if s.stack.len() == 1 {
        Step::Halt(fault_at(chunk, FaultKind::StackUnderflow, Some(op), offset), s.drop_top())
    } else {
        let right = s.stack.last();
        let left = s.stack.drop_last().last();
        let popped = s.drop_top().drop_top();
        match (left, right) {
            (ValueView::Number(a), ValueView::Number(b)) => Step::Compute(op, a, b, popped),
            _ => Step::Halt(fault_at(chunk, FaultKind::TypeError, Some(op), offset), popped),
        }
    }
}

/// The effect of the instruction at the instruction pointer. The byte there
/// is fetched; with tracing on, the stack is traced; then the byte is
/// decoded and the instruction takes its effect.
pub open spec fn step(chunk: ChunkView, trace: bool, s: MachineState) -> Step {
    if !(0 <= s.ip < chunk.code.len()) {
        Step::Halt(fault_at(chunk, FaultKind::DecodeError, None, s.ip), s)
    } else {
        let offset = s.ip;
        let fetched = if trace {
            s.advance(1).traced()
        } else {
            s.advance(1)
        };
        match OpCode::decoding(chunk.code[offset]) {
            None => Step::Halt(fault_at(chunk, FaultKind::DecodeError, None, offset), fetched),
            Some(OpCode::OP_RETURN) => step_return(chunk, offset, fetched),
            Some(OpCode::OP_CONSTANT) => step_constant(chunk, offset, fetched),
            Some(OpCode::OP_NEGATE) => step_negate(chunk, offset, fetched),
            Some(op) => step_binary(chunk, op, offset, fetched),
        }
    }
}

/// Whether `to` is the state `s` with one more number on the stack: an
/// outcome of the operation `op` on the operands `left` and `right`.
pub open spec fn is_computed(
    outcomes: spec_fn(OpCode, u64, u64, u64) -> bool,
    op: OpCode,
    left: u64,
    right: u64,
    s: MachineState,
    to: MachineState,
) -> bool {
    exists|outcome: u64| #[trigger]
        outcomes(op, left, right, outcome) && to == s.push(ValueView::Number(outcome))
}

/// Whether the effect `step` leads to the state `to`, halting with `halt`
/// or going on, where `outcomes` relates each arithmetic operation and its
/// operands to its outcomes.
pub open spec fn leads_to(
    outcomes: spec_fn(OpCode, u64, u64, u64) -> bool,
    step: Step,
    to: MachineState,
    halt: Option<ResultView>,
) -> bool {
    match step {
        Step::Halt(result, s) => halt == Some(result) && to == s,
        Step::Continue(s) => halt is None && to == s,
        Step::Compute(op, left, right, s) => halt is None && is_computed(
            outcomes,
            op,
            left,
            right,
            s,
            to,
        ),
    }
}

/// Whether one instruction may lead from the state `from` to the state
/// `to`, halting with `halt` or going on.
pub open spec fn is_step(
    outcomes: spec_fn(OpCode, u64, u64, u64) -> bool,
    chunk: ChunkView,
    trace: bool,
    from: MachineState,
    to: MachineState,
    halt: Option<ResultView>,
) -> bool {
    leads_to(outcomes, step(chunk, trace, from), to, halt)
}

/// Whether a run from the state `from` may end in the state `to` with
/// `result`: instruction after instruction, up to the first one that halts.
pub open spec fn is_run(
    outcomes: spec_fn(OpCode, u64, u64, u64) -> bool,
    chunk: ChunkView,
    trace: bool,
    from: MachineState,
    to: MachineState,
    result: ResultView,
) -> bool
    decreases chunk.code.len() - from.ip,
{
    ||| is_step(outcomes, chunk, trace, from, to, Some(result))
    ||| exists|mid: MachineState| #[trigger]
        is_step(outcomes, chunk, trace, from, mid, None) && is_run(
            outcomes,
            chunk,
            trace,
            mid,
            to,
            result,
        )
}

/// The state of a run after its first instruction, where the run goes on
/// after that instruction.
pub open spec fn second_state(
    outcomes: spec_fn(OpCode, u64, u64, u64) -> bool,
    chunk: ChunkView,
    trace: bool,
    from: MachineState,
    to: MachineState,
    result: ResultView,
) -> MachineState {
    choose|mid: MachineState| #[trigger]
        is_step(outcomes, chunk, trace, from, mid, None) && is_run(
            outcomes,
            chunk,
            trace,
            mid,
            to,
            result,
        )
}

/// What the run from the state `from` ends with, where `outcome` computes
/// each arithmetic operation: the result, and the state at the end.
pub open spec fn run_with(
    outcome: spec_fn(OpCode, u64, u64) -> u64,
    chunk: ChunkView,
    trace: bool,
    from: MachineState,
) -> (ResultView, MachineState)
    decreases chunk.code.len() - from.ip,
{
    match step(chunk, trace, from) {
        Step::Halt(result, to) => (result, to),
        Step::Continue(next) => run_with(outcome, chunk, trace, next),
        Step::Compute(op, left, right, next) => run_with(
            outcome,
            chunk,
            trace,
            next.push(ValueView::Number(outcome(op, left, right))),
        ),
    }
}

/// Where each arithmetic operation has the one outcome that `outcome`
/// computes, a run ends as `run_with` says: with that result, in that
/// state.
pub proof fn lemma_run_is_run_with(
    outcomes: spec_fn(OpCode, u64, u64, u64) -> bool,
    outcome: spec_fn(OpCode, u64, u64) -> u64,
    chunk: ChunkView,
    trace: bool,
    from: MachineState,
    to: MachineState,
    result: ResultView,
)
    requires
        forall|op: OpCode, left: u64, right: u64, o: u64| #[trigger]
            outcomes(op, left, right, o) ==> o == outcome(op, left, right),
        is_run(outcomes, chunk, trace, from, to, result),
    ensures
        run_with(outcome, chunk, trace, from) == (result, to),
    decreases chunk.code.len() - from.ip,
{
    if !is_step(outcomes, chunk, trace, from, to, Some(result)) {
        let mid = second_state(outcomes, chunk, trace, from, to, result);
        lemma_run_is_run_with(outcomes, outcome, chunk, trace, mid, to, result);
    }
}

/// A run from a state in which the instruction halts ends with that
/// instruction: with its result, in the state it leaves.
pub proof fn lemma_run_of_halt(
    outcomes: spec_fn(OpCode, u64, u64, u64) -> bool,
    chunk: ChunkView,
    trace: bool,
    from: MachineState,
    to: MachineState,
    result: ResultView,
)
    requires
        is_run(outcomes, chunk, trace, from, to, result),
        step(chunk, trace, from) is Halt,
    ensures
        step(chunk, trace, from) == Step::Halt(result, to),
{
}

/// A run from a state in which the instruction goes on to the state `next`
/// is, after that instruction, a run from `next`.
pub proof fn lemma_run_of_continue(
    outcomes: spec_fn(OpCode, u64, u64, u64) -> bool,
    chunk: ChunkView,
    trace: bool,
    from: MachineState,
    next: MachineState,
    to: MachineState,
    result: ResultView,
)
    requires
        is_run(outcomes, chunk, trace, from, to, result),
        step(chunk, trace, from) == Step::Continue(next),
    ensures
        is_run(outcomes, chunk, trace, next, to, result),
{
}

/// A run from a state in which the instruction computes is, after that
/// instruction, a run from the state `next` with an outcome of the
/// operation pushed.
pub proof fn lemma_run_of_compute(
    outcomes: spec_fn(OpCode, u64, u64, u64) -> bool,
    chunk: ChunkView,
    trace: bool,
    from: MachineState,
    op: OpCode,
    left: u64,
    right: u64,
    next: MachineState,
    to: MachineState,
    result: ResultView,
)
    requires
        is_run(outcomes, chunk, trace, from, to, result),
        step(chunk, trace, from) == Step::Compute(op, left, right, next),
    ensures
        exists|outcome: u64| #[trigger]
            outcomes(op, left, right, outcome) && is_run(
                outcomes,
                chunk,
                trace,
                next.push(ValueView::Number(outcome)),
                to,
                result,
            ),
{
    let mid = second_state(outcomes, chunk, trace, from, to, result);
    let outcome = choose|outcome: u64| #[trigger]
        outcomes(op, left, right, outcome) && mid == next.push(ValueView::Number(outcome));
    assert(outcomes(op, left, right, outcome));
}

/// An instruction that does not halt moves the instruction pointer on, and
/// not past the end of the code.
pub proof fn lemma_step_advances(
    outcomes: spec_fn(OpCode, u64, u64, u64) -> bool,
    chunk: ChunkView,
    trace: bool,
    from: MachineState,
    to: MachineState,
)
    requires
        is_step(outcomes, chunk, trace, from, to, None),
    ensures
        from.ip < to.ip <= chunk.code.len(),
        to.ip <= from.ip + 2,
{
}

/// Where each operation has one outcome only, an instruction has one
/// effect only.
pub proof fn lemma_step_unique(
    outcomes: spec_fn(OpCode, u64, u64, u64) -> bool,
    chunk: ChunkView,
    trace: bool,
    from: MachineState,
    to_a: MachineState,
    halt_a: Option<ResultView>,
    to_b: MachineState,
    halt_b: Option<ResultView>,
)
    requires
        computes_one_way(outcomes),
        is_step(outcomes, chunk, trace, from, to_a, halt_a),
        is_step(outcomes, chunk, trace, from, to_b, halt_b),
    ensures
        to_a == to_b,
        halt_a == halt_b,
{
}

/// Where each operation has one outcome only, a run from a given state has
/// one end only: one result, in one state.
pub proof fn lemma_run_unique(
    outcomes: spec_fn(OpCode, u64, u64, u64) -> bool,
    chunk: ChunkView,
    trace: bool,
    from: MachineState,
    to_a: MachineState,
    result_a: ResultView,
    to_b: MachineState,
    result_b: ResultView,
)
    requires
        computes_one_way(outcomes),
        is_run(outcomes, chunk, trace, from, to_a, result_a),
        is_run(outcomes, chunk, trace, from, to_b, result_b),
    ensures
        to_a == to_b,
        result_a == result_b,
    decreases chunk.code.len() - from.ip,
{
    if is_step(outcomes, chunk, trace, from, to_a, Some(result_a)) {
        if !is_step(outcomes, chunk, trace, from, to_b, Some(result_b)) {
            let mid = second_state(outcomes, chunk, trace, from, to_b, result_b);
            lemma_step_unique(outcomes, chunk, trace, from, to_a, Some(result_a), mid, None);
        } else {
            lemma_step_unique(
                outcomes,
                chunk,
                trace,
                from,
                to_a,
                Some(result_a),
                to_b,
                Some(result_b),
            );
        }
    } else {
        let mid_a = second_state(outcomes, chunk, trace, from, to_a, result_a);
        if is_step(outcomes, chunk, trace, from, to_b, Some(result_b)) {
            lemma_step_unique(outcomes, chunk, trace, from, mid_a, None, to_b, Some(result_b));
        } else {
            let mid_b = second_state(outcomes, chunk, trace, from, to_b, result_b);
            lemma_step_unique(outcomes, chunk, trace, from, mid_a, None, mid_b, None);
            lemma_run_unique(outcomes, chunk, trace, mid_a, to_a, result_a, to_b, result_b);
        }
    }
}

/// A run ends with a value or with a fault: the machine never reports a
/// compile error of its own accord.
pub proof fn lemma_run_never_compile_error(
    outcomes: spec_fn(OpCode, u64, u64, u64) -> bool,
    chunk: ChunkView,
    trace: bool,
    from: MachineState,
    to: MachineState,
    result: ResultView,
)
    requires
        is_run(outcomes, chunk, trace, from, to, result),
    ensures
        !(result is CompileError),
    decreases chunk.code.len() - from.ip,
{
    if !is_step(outcomes, chunk, trace, from, to, Some(result)) {
        let mid = second_state(outcomes, chunk, trace, from, to, result);
        lemma_run_never_compile_error(outcomes, chunk, trace, mid, to, result);
    }
}

/// A decode error is found before the instruction has touched the stack:
/// an instruction that halts with one leaves the stack as it was.
pub proof fn lemma_decode_error_keeps_stack(chunk: ChunkView, trace: bool, from: MachineState)
    ensures
        match step(chunk, trace, from) {
            Step::Halt(ResultView::RuntimeError(fault), to) => fault.kind
                == FaultKind::DecodeError ==> to.stack == from.stack,
            _ => true,
        },
{
}

/// A run that ends with a value ends on a return instruction: the byte
/// before the instruction pointer is the one that encodes it.
pub proof fn lemma_success_follows_return(
    outcomes: spec_fn(OpCode, u64, u64, u64) -> bool,
    chunk: ChunkView,
    trace: bool,
    from: MachineState,
    to: MachineState,
    value: ValueView,
)
    requires
        is_run(outcomes, chunk, trace, from, to, ResultView::Success(value)),
    ensures
        0 < to.ip <= chunk.code.len(),
        OpCode::decoding(chunk.code[to.ip - 1]) == Some(OpCode::OP_RETURN),
    decreases chunk.code.len() - from.ip,
{
    let result = ResultView::Success(value);
    if !is_step(outcomes, chunk, trace, from, to, Some(result)) {
        let mid = second_state(outcomes, chunk, trace, from, to, result);
        lemma_success_follows_return(outcomes, chunk, trace, mid, to, value);
    }
}

/// Tracing changes nothing but the log: what an instruction does with
/// tracing on or off, it does with tracing off, to the same stack and
/// instruction pointer and with the same outcome.
pub proof fn lemma_step_ignores_trace(
    outcomes: spec_fn(OpCode, u64, u64, u64) -> bool,
    chunk: ChunkView,
    trace: bool,
    from: MachineState,
    to: MachineState,
    halt: Option<ResultView>,
)
    requires
        is_step(outcomes, chunk, trace, from, to, halt),
    ensures
        is_step(outcomes, chunk, false, from.without_log(), to.without_log(), halt),
{
    let plain = from.without_log();
    match step(chunk, trace, from) {
        Step::Halt(result, s) => {
            assert(step(chunk, false, plain) == Step::Halt(result, s.without_log()));
        },
        Step::Continue(s) => {
            assert(step(chunk, false, plain) == Step::Continue(s.without_log()));
        },
        Step::Compute(op, left, right, s) => {
            assert(step(chunk, false, plain) == Step::Compute(op, left, right, s.without_log()));
            let outcome = choose|outcome: u64| #[trigger]
                outcomes(op, left, right, outcome) && to == s.push(ValueView::Number(outcome));
            assert(outcomes(op, left, right, outcome));
            assert(to.without_log() == s.without_log().push(ValueView::Number(outcome)));
            assert(is_computed(outcomes, op, left, right, s.without_log(), to.without_log()));
        },
    }
}

/// Tracing never changes what a run does: a run with tracing on or off is
/// also a run with tracing off, with the same result, the same stack and
/// the same instruction pointer at its end.
pub proof fn lemma_run_ignores_trace(
    outcomes: spec_fn(OpCode, u64, u64, u64) -> bool,
    chunk: ChunkView,
    trace: bool,
    from: MachineState,
    to: MachineState,
    result: ResultView,
)
    requires
        is_run(outcomes, chunk, trace, from, to, result),
    ensures
        is_run(outcomes, chunk, false, from.without_log(), to.without_log(), result),
    decreases chunk.code.len() - from.ip,
{
    if is_step(outcomes, chunk, trace, from, to, Some(result)) {
        lemma_step_ignores_trace(outcomes, chunk, trace, from, to, Some(result));
    } else {
        let mid = second_state(outcomes, chunk, trace, from, to, result);
        lemma_step_ignores_trace(outcomes, chunk, trace, from, mid, None);
        lemma_run_ignores_trace(outcomes, chunk, trace, mid, to, result);
        assert(is_step(outcomes, chunk, false, from.without_log(), mid.without_log(), None));
    }
}

} // verus!

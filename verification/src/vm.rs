//! The virtual machine: a chunk, an instruction pointer and an operand
//! stack, and the fetch-decode-execute loop over them.

use crate::chunk::{Chunk, ChunkView};
use crate::machine::{
    fault_at, is_computed, is_run, is_step, leads_to, step_binary, step_constant, step_negate,
    step_return, Fault, FaultKind, MachineState, ResultView, Step,
};
use crate::opcodes::OpCode;
use crate::text::followed_by;
use crate::value::{is_text_of, outcomes_of, renderings, views, Value, ValueView};
use vstd::prelude::*;

verus! {

/// How a run ended.
#[derive(Debug, PartialEq)]
pub enum InterpretResult {
    /// The program returned this value.
    Success(Value),
    /// No chunk could be built. The machine passes this category on and
    /// never reports it of its own accord.
    CompileError,
    /// The run halted on this fault.
    RuntimeError(Fault),
}

impl View for InterpretResult {
    type V = ResultView;

    open spec fn view(&self) -> ResultView {
        match self {
            InterpretResult::Success(value) => ResultView::Success(value@),
            InterpretResult::CompileError => ResultView::CompileError,
            InterpretResult::RuntimeError(fault) => ResultView::RuntimeError(*fault),
        }
    }
}

/// The view of what an instruction halted with, if it halted.
pub open spec fn halt_view(halt: Option<InterpretResult>) -> Option<ResultView> {
    match halt {
        Some(result) => Some(result@),
        None => None,
    }
}

/// A virtual machine. It can run one chunk after another; every run starts
/// at the first byte with an empty stack.
#[derive(Debug)]
pub struct VirtualMachine {
    chunk: Chunk,
    ip: usize,
    stack: Vec<Value>,
    trace: bool,
    log: Vec<Value>,
}

/// What a machine holds: its chunk, whether it traces, and the state of its
/// run.
pub struct MachineView {
    pub chunk: ChunkView,
    pub trace: bool,
    pub state: MachineState,
}

impl View for VirtualMachine {
    type V = MachineView;

    closed spec fn view(&self) -> MachineView {
        MachineView {
            chunk: self.chunk@,
            trace: self.trace,
            state: MachineState {
                ip: self.ip as int,
                stack: views(self.stack@),
                log: views(self.log@),
            },
        }
    }
}

/// Whether `alu` can be asked for each of the four arithmetic operations on
/// every pair of operands.
pub open spec fn is_total<F: Fn(OpCode, u64, u64) -> u64>(alu: F) -> bool {
    forall|op: OpCode, left: u64, right: u64|
        op.is_arithmetic() ==> #[trigger] call_requires(alu, (op, left, right))
}

/// Whether `line` is the line of a trace for `value`: its text between
/// square brackets, newline included.
pub open spec fn is_trace_line(
    number_texts: spec_fn(u64, Seq<char>) -> bool,
    value: ValueView,
    line: Seq<char>,
) -> bool {
    exists|text: Seq<char>| #[trigger]
        is_text_of(number_texts, value, text) && line == "[ "@ + text + " ]\n"@
}

/// Whether `text` holds one line for each value of `log`, in order.
pub open spec fn is_trace_text(
    number_texts: spec_fn(u64, Seq<char>) -> bool,
    log: Seq<ValueView>,
    text: Seq<char>,
) -> bool
    decreases log.len(),
{
    if log.len() == 0 {
        text == Seq::<char>::empty()
    } else {
        exists|before: Seq<char>, line: Seq<char>|
            is_trace_text(number_texts, log.drop_last(), before) && is_trace_line(
                number_texts,
                log.last(),
                line,
            ) && text == #[trigger] followed_by(before, line)
    }
}

impl VirtualMachine {
    /// A machine for `chunk`, ready to run it from the first byte. With
    /// `trace` set, every run keeps a log of the stack before each
    /// instruction.
    pub fn new(chunk: Chunk, trace: bool) -> (vm: VirtualMachine)
        ensures
            vm@ == (MachineView { chunk: chunk@, trace, state: MachineState::initial() }),
    {
        let vm = VirtualMachine { chunk, ip: 0, stack: Vec::new(), trace, log: Vec::new() };
        assert(vm@.state.stack =~= Seq::empty());
        assert(vm@.state.log =~= Seq::empty());
        vm
    }

    /// Takes `chunk` as the machine's chunk and runs it from the first byte
    /// with an empty stack, `alu` doing the arithmetic on numbers.
    pub fn interpret<F: Fn(OpCode, u64, u64) -> u64>(
        &mut self,
        chunk: Chunk,
        alu: &F,
    ) -> (result: InterpretResult)
        requires
            is_total(*alu),
        ensures
            final(self)@.chunk == chunk@,
            final(self)@.trace == old(self)@.trace,
            is_run(
                outcomes_of(*alu),
                chunk@,
                old(self)@.trace,
                MachineState::initial(),
                final(self)@.state,
                result@,
            ),
            !(result is CompileError),
    {
        self.chunk = chunk;
        self.run(alu)
    }

    /// Runs the machine's chunk from the first byte with an empty stack and
    /// an empty log: instruction after instruction, until one of them
    /// halts.
    pub fn run<F: Fn(OpCode, u64, u64) -> u64>(&mut self, alu: &F) -> (result: InterpretResult)
        requires
            is_total(*alu),
        ensures
            final(self)@.chunk == old(self)@.chunk,
            final(self)@.trace == old(self)@.trace,
            is_run(
                outcomes_of(*alu),
                old(self)@.chunk,
                old(self)@.trace,
                MachineState::initial(),
                final(self)@.state,
                result@,
            ),
            !(result is CompileError),
    {
        self.ip = 0;
        self.stack = Vec::new();
        self.log = Vec::new();
        assert(self@.state.stack =~= Seq::empty());
        assert(self@.state.log =~= Seq::empty());
        let ghost outcomes = outcomes_of(*alu);
        let ghost chunk = self@.chunk;
        let ghost trace = self@.trace;
        let ghost initial = MachineState::initial();
        loop
            invariant
                is_total(*alu),
                outcomes == outcomes_of(*alu),
                chunk == old(self)@.chunk,
                trace == old(self)@.trace,
                initial == MachineState::initial(),
                self@.chunk == chunk,
                self@.trace == trace,
                forall|to: MachineState, result: ResultView| #[trigger]
                    is_run(outcomes, chunk, trace, self@.state, to, result) ==> is_run(
                        outcomes,
                        chunk,
                        trace,
                        initial,
                        to,
                        result,
                    ),
            decreases chunk.code.len() - self@.state.ip,
        {
            let ghost before = self@.state;
            match self.step(alu) {
                Some(result) => {
                    assert(is_step(outcomes, chunk, trace, before, self@.state, Some(result@)));
                    assert(is_run(outcomes, chunk, trace, before, self@.state, result@));
                    return result;
                },
                None => {
                    assert forall|to: MachineState, result: ResultView| #[trigger]
                        is_run(outcomes, chunk, trace, self@.state, to, result) implies is_run(
                        outcomes,
                        chunk,
                        trace,
                        initial,
                        to,
                        result,
                    ) by {
                        assert(is_run(outcomes, chunk, trace, before, to, result));
                    }
                },
            }
        }
    }

    /// Executes the instruction at the instruction pointer: fetches its
    /// byte, traces the stack if the machine traces, decodes the byte and
    /// applies the instruction to the stack. Returns the result if the
    /// instruction halted the run, and `None` if the run goes on.
    pub fn step<F: Fn(OpCode, u64, u64) -> u64>(
        &mut self,
        alu: &F,
    ) -> (halt: Option<InterpretResult>)
        requires
            is_total(*alu),
        ensures
            final(self)@.chunk == old(self)@.chunk,
            final(self)@.trace == old(self)@.trace,
            is_step(
                outcomes_of(*alu),
                old(self)@.chunk,
                old(self)@.trace,
                old(self)@.state,
                final(self)@.state,
                halt_view(halt),
            ),
            halt is None ==> old(self)@.state.ip < final(self)@.state.ip <= old(
                self,
            )@.chunk.code.len(),
            !(halt matches Some(InterpretResult::CompileError)),
    {
        let offset = self.ip;
        let byte = match self.read_byte() {
            Some(byte) => byte,
            None => {
                return Some(self.fault(FaultKind::DecodeError, None, offset));
            },
        };
        if self.trace {
            self.record_stack();
        }
        match OpCode::decode(byte) {
            None => Some(self.fault(FaultKind::DecodeError, None, offset)),
            Some(OpCode::OP_RETURN) => Some(self.return_op(offset)),
            Some(OpCode::OP_CONSTANT) => self.constant_op(offset),
            Some(OpCode::OP_NEGATE) => self.negate_op(offset),
            Some(op) => self.binary_op(op, offset, alu),
        }
    }

    /// The machine's chunk.
    pub fn chunk(&self) -> (chunk: &Chunk)
        ensures
            chunk@ == self@.chunk,
    {
        &self.chunk
    }

    /// The offset of the next byte to fetch.
    pub fn ip(&self) -> (ip: usize)
        ensures
            ip == self@.state.ip,
    {
        self.ip
    }

    /// The operand stack, bottom first.
    pub fn stack(&self) -> (stack: &Vec<Value>)
        ensures
            views(stack@) == self@.state.stack,
    {
        &self.stack
    }

    /// Whether the machine traces its runs.
    pub fn trace(&self) -> (trace: bool)
        ensures
            trace == self@.trace,
    {
        self.trace
    }

    /// The log of the last run: for each instruction that was fetched, the
    /// values that the stack held before it, bottom to top. It is empty if
    /// the machine does not trace.
    pub fn trace_log(&self) -> (log: &Vec<Value>)
        ensures
            views(log@) == self@.state.log,
    {
        &self.log
    }

    /// Appends to `out` the text of the log: one line for each value, in
    /// the order in which they were traced, with `number_text` rendering
    /// numbers.
    pub fn trace_text<F: Fn(u64) -> String>(&self, number_text: &F, out: &mut String)
        requires
            forall|bits: u64| call_requires(*number_text, (bits,)),
        ensures
            exists|text: Seq<char>| #[trigger]
                is_trace_text(renderings(*number_text), self@.state.log, text) && final(out)@
                    == old(out)@ + text,
    {
        let ghost number_texts = renderings(*number_text);
        let ghost text = Seq::<char>::empty();
        let ghost log = views(self.log@);
        let mut i: usize = 0;
        assert(log.take(0) =~= Seq::empty());
        assert(out@ =~= old(out)@ + text);
        while i < self.log.len()
            invariant
                i <= self.log@.len(),
                log == views(self.log@),
                number_texts == renderings(*number_text),
                forall|bits: u64| call_requires(*number_text, (bits,)),
                is_trace_text(number_texts, log.take(i as int), text),
                out@ == old(out)@ + text,
            decreases self.log@.len() - i,
        {
            let rendered = self.log[i].text(number_text);
            out.append("[ ");
            out.append(rendered.as_str());
            out.append(" ]\n");
            proof {
                let line = "[ "@ + rendered@ + " ]\n"@;
                let logged = log.take(i + 1);
                assert(logged.drop_last() =~= log.take(i as int));
                assert(logged.last() == self.log@[i as int]@);
                assert(is_trace_line(number_texts, logged.last(), line));
                assert(text + line == followed_by(text, line));
                assert(is_trace_text(number_texts, logged, text + line));
                assert(out@ =~= old(out)@ + (text + line));
                text = text + line;
            }
            i += 1;
        }
        assert(log.take(i as int) =~= log);
        assert(is_trace_text(number_texts, self@.state.log, text));
    }

    fn read_byte(&mut self) -> (fetched: Option<u8>)
        ensures
            final(self)@.chunk == old(self)@.chunk,
            final(self)@.trace == old(self)@.trace,
            match fetched {
                Some(byte) => old(self)@.state.ip < old(self)@.chunk.code.len() && byte == old(
                    self,
                )@.chunk.code[old(self)@.state.ip] && final(self)@.state == old(
                    self,
                )@.state.advance(1),
                None => old(self)@.state.ip >= old(self)@.chunk.code.len() && final(self)@.state
                    == old(self)@.state,
            },
    {
        let code = self.chunk.code();
        if self.ip < code.len() {
            let byte = code[self.ip];
            self.ip += 1;
            Some(byte)
        } else {
            None
        }
    }

    fn pop(&mut self) -> (popped: Option<Value>)
        ensures
            final(self)@.chunk == old(self)@.chunk,
            final(self)@.trace == old(self)@.trace,
            match popped {
                Some(value) => old(self)@.state.stack.len() > 0 && value@ == old(
                    self,
                )@.state.stack.last() && final(self)@.state == old(self)@.state.drop_top(),
                None => old(self)@.state.stack.len() == 0 && final(self)@.state == old(
                    self,
                )@.state,
            },
    {
        let popped = self.stack.pop();
        proof {
            if popped is Some {
                assert(views(self.stack@) =~= views(old(self).stack@).drop_last());
            }
        }
        popped
    }

    fn push(&mut self, value: Value)
        ensures
            final(self)@.chunk == old(self)@.chunk,
            final(self)@.trace == old(self)@.trace,
            final(self)@.state == old(self)@.state.push(value@),
    {
        self.stack.push(value);
        assert(views(self.stack@) =~= views(old(self).stack@).push(value@));
    }

    fn record_stack(&mut self)
        ensures
            final(self)@.chunk == old(self)@.chunk,
            final(self)@.trace == old(self)@.trace,
            final(self)@.state == old(self)@.state.traced(),
    {
        let mut i: usize = 0;
        while i < self.stack.len()
            invariant
                i <= self.stack@.len(),
                self.chunk == old(self).chunk,
                self.trace == old(self).trace,
                self.ip == old(self).ip,
                self.stack == old(self).stack,
                views(self.log@) == views(old(self).log@) + views(self.stack@).take(i as int),
            decreases self.stack@.len() - i,
        {
            let ghost logged = self.log@;
            let value = self.stack[i].clone();
            self.log.push(value);
            proof {
                assert(views(self.log@) =~= views(logged).push(value@));
                assert(views(self.stack@).take(i + 1) =~= views(self.stack@).take(i as int).push(
                    value@,
                ));
            }
            i += 1;
        }
        assert(views(self.stack@).take(i as int) =~= views(self.stack@));
    }

    fn fault(
        &self,
        kind: FaultKind,
        opcode: Option<OpCode>,
        offset: usize,
    ) -> (result: InterpretResult)
        ensures
            result@ == fault_at(self@.chunk, kind, opcode, offset as int),
    {
        let lines = self.chunk.lines();
        let line = if offset < lines.len() {
            Some(lines[offset])
        } else {
            None
        };
        InterpretResult::RuntimeError(Fault { kind, opcode, offset, line })
    }

    fn return_op(&mut self, offset: usize) -> (result: InterpretResult)
        ensures
            final(self)@.chunk == old(self)@.chunk,
            final(self)@.trace == old(self)@.trace,
            step_return(old(self)@.chunk, offset as int, old(self)@.state) == Step::Halt(
                result@,
                final(self)@.state,
            ),
    {
        match self.pop() {
            Some(value) => InterpretResult::Success(value),
            None => self.fault(FaultKind::StackUnderflow, Some(OpCode::OP_RETURN), offset),
        }
    }

    fn constant_op(&mut self, offset: usize) -> (halt: Option<InterpretResult>)
        ensures
            final(self)@.chunk == old(self)@.chunk,
            final(self)@.trace == old(self)@.trace,
            step_constant(old(self)@.chunk, offset as int, old(self)@.state) == match halt {
                Some(result) => Step::Halt(result@, final(self)@.state),
                None => Step::Continue(final(self)@.state),
            },
    {
        let index = match self.read_byte() {
            Some(index) => index,
            None => {
                return Some(
                    self.fault(FaultKind::DecodeError, Some(OpCode::OP_CONSTANT), offset),
                );
            },
        };
        match self.chunk.read_constant(index as usize) {
            Ok(constant) => {
                self.push(constant);
                None
            },
            Err(_) => Some(self.fault(FaultKind::DecodeError, Some(OpCode::OP_CONSTANT), offset)),
        }
    }

    fn negate_op(&mut self, offset: usize) -> (halt: Option<InterpretResult>)
        ensures
            final(self)@.chunk == old(self)@.chunk,
            final(self)@.trace == old(self)@.trace,
            step_negate(old(self)@.chunk, offset as int, old(self)@.state) == match halt {
                Some(result) => Step::Halt(result@, final(self)@.state),
                None => Step::Continue(final(self)@.state),
            },
    {
        let operand = match self.pop() {
            Some(operand) => operand,
            None => {
                return Some(
                    self.fault(FaultKind::StackUnderflow, Some(OpCode::OP_NEGATE), offset),
                );
            },
        };
        match operand.negate() {
            Some(negation) => {
                self.push(negation);
                None
            },
            None => Some(self.fault(FaultKind::TypeError, Some(OpCode::OP_NEGATE), offset)),
        }
    }

    fn binary_op<F: Fn(OpCode, u64, u64) -> u64>(
        &mut self,
        op: OpCode,
        offset: usize,
        alu: &F,
    ) -> (halt: Option<InterpretResult>)
        requires
            op.is_arithmetic(),
            is_total(*alu),
        ensures
            final(self)@.chunk == old(self)@.chunk,
            final(self)@.trace == old(self)@.trace,
            leads_to(
                outcomes_of(*alu),
                step_binary(old(self)@.chunk, op, offset as int, old(self)@.state),
                final(self)@.state,
                halt_view(halt),
            ),
    {
        let right = match self.pop() {
            Some(right) => right,
            None => {
                return Some(self.fault(FaultKind::StackUnderflow, Some(op), offset));
            },
        };
        let left = match self.pop() {
            Some(left) => left,
            None => {
                return Some(self.fault(FaultKind::StackUnderflow, Some(op), offset));
            },
        };
        match Value::combine(op, &left, &right, alu) {
            Some(outcome) => {
                let ghost popped = self@.state;
                let ghost bits = outcome@->Number_0;
                self.push(outcome);
                proof {
                    let outcomes = outcomes_of(*alu);
                    assert(is_computed(
                        outcomes,
                        op,
                        left@->Number_0,
                        right@->Number_0,
                        popped,
                        self@.state,
                    ));
                }
                None
            },
            None => Some(self.fault(FaultKind::TypeError, Some(op), offset)),
        }
    }
}

} // verus!

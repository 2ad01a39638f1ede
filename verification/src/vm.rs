//! The stack machine that executes a chunk. One step reads one instruction
//! and is a function of the machine's state and of the memo of float work; a
//! step that needs float work the memo lacks changes nothing and names the
//! task, so that the run can go on from the same instruction later.
use vstd::prelude::*;
use vstd::string::*;
use crate::arith::{
    Answers, Comparison, Evaluation, EvaluationView, Pow, arith, compared, joined, negated,
};
use crate::chunk::{Chunk, ChunkView};
use crate::compiler::{CompileFailed, compile};
use crate::compiler::spec::{CompileFailedView, compile as compile_spec};
use crate::parser::{Diagnostic, DiagnosticView, diagnostic_views};
use crate::float::{ArithOp, FloatMemo, FloatTask, FloatTaskView};
use crate::globals::{Assignment, Globals};
use crate::opcodes::OpCode;
use crate::text::concat;
use crate::value::{Value, ValueType, ValueView, Variable, VariableView, views};

verus! {

/// How an interpretation ended.
#[derive(Debug, PartialEq)]
pub enum InterpretResult {
    /// The program ran to its end without a runtime error.
    Success,
    /// The source did not compile; nothing was executed.
    CompileError,
    /// The program ran to its end and reported a runtime error on the way.
    RuntimeError,
    /// The program ran to its end in a debug run; the value is the last one
    /// that a statement discarded.
    Debug(Value),
}

/// An `InterpretResult` with its texts as sequences of characters.
pub enum InterpretResultView {
    Success,
    CompileError,
    RuntimeError,
    Debug(ValueView),
}

impl View for InterpretResult {
    type V = InterpretResultView;

    open spec fn view(&self) -> InterpretResultView {
        match self {
            InterpretResult::Success => InterpretResultView::Success,
            InterpretResult::CompileError => InterpretResultView::CompileError,
            InterpretResult::RuntimeError => InterpretResultView::RuntimeError,
            InterpretResult::Debug(v) => InterpretResultView::Debug(v@),
        }
    }
}

/// Something for the world outside: a line that the program printed, or the
/// report of an error.
#[derive(Debug, PartialEq)]
pub enum Output {
    /// A line that the program printed.
    Printed(String),
    /// A runtime error, with the source line of the instruction.
    Error(usize, String),
    /// An error in the source, with the line of the token, where there was
    /// one.
    Syntax(Option<usize>, String),
}

/// An `Output` with its text as a sequence of characters.
pub enum OutputView {
    Printed(Seq<char>),
    Error(usize, Seq<char>),
    Syntax(Option<usize>, Seq<char>),
}

impl View for Output {
    type V = OutputView;

    open spec fn view(&self) -> OutputView {
        match self {
            Output::Printed(s) => OutputView::Printed(s@),
            Output::Error(line, s) => OutputView::Error(*line, s@),
            Output::Syntax(line, s) => OutputView::Syntax(*line, s@),
        }
    }
}

/// Where a run stands when the machine hands control back.
#[derive(Debug, PartialEq)]
pub enum Progress {
    /// The run is over.
    Done(InterpretResult),
    /// The run waits for the answer to the task.
    Float(FloatTask),
}

/// A `Progress` with its texts as sequences of characters.
pub enum ProgressView {
    Done(InterpretResultView),
    Float(FloatTaskView),
}

impl View for Progress {
    type V = ProgressView;

    open spec fn view(&self) -> ProgressView {
        match self {
            Progress::Done(r) => ProgressView::Done(r@),
            Progress::Float(t) => ProgressView::Float(t@),
        }
    }
}

/// The state of a machine.
pub struct VMView {
    /// The chunk that is being executed, if one is installed.
    pub chunk: Option<ChunkView>,
    /// The offset of the next byte of code to read.
    pub ip: int,
    /// The operand stack, its top last.
    pub stack: Seq<ValueView>,
    /// Whether a runtime error was reported in the current run.
    pub had_runtime_error: bool,
    /// The global variables.
    pub globals: Map<Seq<char>, VariableView>,
    /// What the program has printed and reported and nobody has taken yet.
    pub output: Seq<OutputView>,
    /// The value that the last `OpPop` discarded in the current run.
    pub last_popped: ValueView,
    /// Whether the current run is a debug run.
    pub debug: bool,
}

/// What one step of the machine does.
pub enum StepView {
    /// The machine goes on in this state.
    Next(VMView),
    /// The machine stays as it is and waits for the answer to the task.
    Float(FloatTaskView),
    /// The run is over in this state.
    Halt(VMView),
}

/// The message for an instruction that finds the stack empty.
pub open spec fn underflow_one() -> Seq<char> {
    "Expected an operand, but the stack is empty."@
}

/// The message for a binary instruction that finds fewer than two operands.
pub open spec fn underflow_two() -> Seq<char> {
    "Expected two operands for binary operation, but got only one."@
}

impl VMView {
    /// The code of the installed chunk; empty if none is installed.
    pub open spec fn code(self) -> Seq<u8> {
        match self.chunk {
            Some(c) => c.code,
            None => Seq::empty(),
        }
    }

    /// The constants of the installed chunk; empty if none is installed.
    pub open spec fn constants(self) -> Seq<ValueView> {
        match self.chunk {
            Some(c) => c.constants,
            None => Seq::empty(),
        }
    }

    /// The source line of an offset of the installed chunk; 0 if none is
    /// installed.
    pub open spec fn line_of(self, offset: int) -> usize {
        match self.chunk {
            Some(c) => c.get_line(offset),
            None => 0,
        }
    }

    /// The top of the stack.
    pub open spec fn top(self) -> ValueView
        recommends
            self.stack.len() > 0,
    {
        self.stack.last()
    }

    /// The machine with one more value on the stack.
    pub open spec fn pushed(self, value: ValueView) -> VMView {
        VMView { stack: self.stack.push(value), ..self }
    }

    /// The machine without the top `n` values of the stack.
    pub open spec fn popped(self, n: int) -> VMView
        recommends
            0 <= n <= self.stack.len(),
    {
        VMView { stack: self.stack.take(self.stack.len() - n), ..self }
    }

    /// The machine after a runtime error at an offset: the error is reported
    /// with the line of the offset, the flag is set and the stack is empty.
    pub open spec fn failed(self, offset: int, message: Seq<char>) -> VMView {
        VMView {
            had_runtime_error: true,
            stack: Seq::empty(),
            output: self.output.push(OutputView::Error(self.line_of(offset), message)),
            ..self
        }
    }

    /// The machine after a runtime error in the instruction that it has just
    /// read: the offset of the report is that of the last byte read.
    pub open spec fn fail(self, message: Seq<char>) -> VMView {
        self.failed(
            if self.ip > 0 {
                self.ip - 1
            } else {
                0
            },
            message,
        )
    }

    /// The index that the next `width` bytes of code make, the lowest byte
    /// first, if the code has that many.
    pub open spec fn operand(self, width: int) -> Option<int>
        recommends
            width == 1 || width == 3,
    {
        let code = self.code();
        if self.ip + width > code.len() {
            None
        } else if width == 1 {
            Some(code[self.ip] as int)
        } else {
            Some(
                code[self.ip] + 256 * code[self.ip + 1] + 65536 * code[self.ip + 2],
            )
        }
    }

    /// Reading the constant that the next `width` bytes of code index: the
    /// constant and the machine after the bytes. Where the code ends before
    /// them, or the pool has no such index, the result is the machine after
    /// that error.
    pub open spec fn constant(self, width: int) -> Result<(ValueView, VMView), VMView> {
        match self.operand(width) {
            None => Err(
                VMView { ip: self.code().len() as int, ..self }.fail(
                    "Could not get operand"@,
                ),
            ),
            Some(index) => {
                let after = VMView { ip: self.ip + width, ..self };
                if index < self.constants().len() {
                    Ok((self.constants()[index], after))
                } else {
                    Err(after.fail("Constant index out of range"@))
                }
            },
        }
    }

    /// An instruction that takes the two values on top of the stack and puts
    /// the result of an operator in their place.
    pub open spec fn binary(self, evaluation: EvaluationView) -> StepView {
        if self.stack.len() < 2 {
            StepView::Next(self.fail(underflow_two()))
        } else {
            match evaluation {
                EvaluationView::Done(v) => StepView::Next(self.popped(2).pushed(v)),
                EvaluationView::Float(t) => StepView::Float(t),
                EvaluationView::Failed(m) => StepView::Next(self.fail(m)),
            }
        }
    }

    /// What the operator of a binary instruction gives for the two values on
    /// top of the stack, the lower one on its left.
    pub open spec fn evaluation(self, op: OpCode, memo: Answers) -> EvaluationView
        recommends
            self.stack.len() >= 2,
    {
        match op {
            OpCode::OpAdd => arith(ArithOp::Add, self.left(), self.top(), memo),
            OpCode::OpSubtract => arith(ArithOp::Subtract, self.left(), self.top(), memo),
            OpCode::OpMultiply => arith(ArithOp::Multiply, self.left(), self.top(), memo),
            OpCode::OpDivide => arith(ArithOp::Divide, self.left(), self.top(), memo),
            OpCode::OpPower => arith(ArithOp::Power, self.left(), self.top(), memo),
            OpCode::OpEqualEqual => compared(Comparison::EqualEqual, self.left(), self.top(), memo),
            OpCode::OpBangEqual => compared(Comparison::BangEqual, self.left(), self.top(), memo),
            OpCode::OpGreater => compared(Comparison::Greater, self.left(), self.top(), memo),
            OpCode::OpGreaterEqual => compared(
                Comparison::GreaterEqual,
                self.left(),
                self.top(),
                memo,
            ),
            OpCode::OpLess => compared(Comparison::Less, self.left(), self.top(), memo),
            OpCode::OpLessEqual => compared(Comparison::LessEqual, self.left(), self.top(), memo),
            _ => joined(self.left(), self.top(), memo),
        }
    }

    /// The operand below the top of the stack.
    pub open spec fn left(self) -> ValueView
        recommends
            self.stack.len() >= 2,
    {
        self.stack[self.stack.len() - 2]
    }

    /// `OpDefineGlobal` with the constant that it names.
    pub open spec fn define_global(self, constant: ValueView) -> VMView {
        match constant {
            ValueView::VariableDefinition(definition) => if self.stack.len() == 0 {
                self.fail(underflow_one())
            } else if definition.value_type == ValueType::Dynamic {
                VMView {
                    globals: self.globals.insert(
                        definition.name,
                        VariableView {
                            name: definition.name,
                            value: self.top(),
                            value_type: self.top().value_type(),
                            mutable: definition.mutable,
                        },
                    ),
                    ..self.popped(1)
                }
            } else {
                self.fail("Could not determine the type of the variable"@)
            },
            _ => self.fail("Expected a variable to define"@),
        }
    }

    /// `OpGetGlobal` with the constant that it names.
    pub open spec fn get_global(self, constant: ValueView) -> VMView {
        match constant {
            ValueView::VariableLookup(name) => if self.globals.contains_key(name) {
                self.pushed(self.globals[name].value)
            } else {
                self.fail("Undefined variable"@)
            },
            _ => self.fail("Expected a variable to get"@),
        }
    }

    /// `OpSetGlobal` with the constant that it names. The new value is the
    /// top of the stack, which stays there.
    pub open spec fn set_global(self, constant: ValueView) -> VMView {
        match constant {
            ValueView::VariableLookup(name) => if self.stack.len() == 0 {
                self.fail(underflow_one())
            } else if !self.globals.contains_key(name) {
                self.fail("Undefined variable '"@ + name + "'"@)
            } else if !self.globals[name].mutable {
                self.fail("Cannot reassign immutable variable: "@ + name)
            } else {
                VMView {
                    globals: self.globals.insert(
                        name,
                        VariableView { value: self.top(), ..self.globals[name] },
                    ),
                    ..self
                }
            },
            _ => self.fail("Expected a variable to set"@),
        }
    }

    /// An instruction that reads a constant and then works with it.
    pub open spec fn with_constant(self, op: OpCode) -> VMView {
        match self.constant(if op == OpCode::OpConstantLong { 3 } else { 1 }) {
            Err(e) => e,
            Ok((constant, after)) => match op {
                OpCode::OpDefineGlobal => after.define_global(constant),
                OpCode::OpGetGlobal => after.get_global(constant),
                OpCode::OpSetGlobal => after.set_global(constant),
                _ => after.pushed(constant),
            },
        }
    }

    /// The instruction `op`, in the machine that has just read its first byte.
    pub open spec fn execute(self, op: OpCode, memo: Answers) -> StepView {
        match op {
            OpCode::OpReturn => StepView::Halt(self),
            OpCode::OpConstant
            | OpCode::OpConstantLong
            | OpCode::OpDefineGlobal
            | OpCode::OpGetGlobal
            | OpCode::OpSetGlobal => StepView::Next(
                self.with_constant(op),
            ),
            OpCode::OpNull => StepView::Next(self.pushed(ValueView::Null)),
            OpCode::OpTrue => StepView::Next(self.pushed(ValueView::Bool(true))),
            OpCode::OpFalse => StepView::Next(self.pushed(ValueView::Bool(false))),
            OpCode::OpNegate => if self.stack.len() == 0 {
                StepView::Next(self.fail(underflow_one()))
            } else {
                match negated(self.top(), memo) {
                    EvaluationView::Done(v) => StepView::Next(self.popped(1).pushed(v)),
                    EvaluationView::Float(t) => StepView::Float(t),
                    EvaluationView::Failed(m) => StepView::Next(self.fail(m)),
                }
            },
            OpCode::OpNot => if self.stack.len() == 0 {
                StepView::Next(self.fail(underflow_one()))
            } else {
                StepView::Next(self.popped(1).pushed(ValueView::Bool(self.top().is_falsey())))
            },
            OpCode::OpAdd
            | OpCode::OpSubtract
            | OpCode::OpMultiply
            | OpCode::OpDivide
            | OpCode::OpPower
            | OpCode::OpEqualEqual
            | OpCode::OpBangEqual
            | OpCode::OpGreater
            | OpCode::OpGreaterEqual
            | OpCode::OpLess
            | OpCode::OpLessEqual
            | OpCode::OpInterpolate => self.binary(
                self.evaluation(op, memo),
            ),
            OpCode::OpPrint => if self.stack.len() == 0 {
                StepView::Next(self.fail(underflow_one()))
            } else {
                match self.top().display(memo) {
                    Ok(text) => StepView::Next(
                        VMView {
                            output: self.output.push(OutputView::Printed(text)),
                            ..self.popped(1)
                        },
                    ),
                    Err(t) => StepView::Float(t),
                }
            },
            OpCode::OpPop => if self.stack.len() == 0 {
                StepView::Next(self)
            } else {
                StepView::Next(VMView { last_popped: self.top(), ..self.popped(1) })
            },
        }
    }

    /// One step: read a byte of code and execute the instruction that it
    /// encodes. Without a chunk the run is over at once; at the end of the
    /// code it is over with an error; a byte that encodes no instruction is an
    /// error and the machine goes on.
    pub open spec fn step(self, memo: Answers) -> StepView {
        if self.chunk is None {
            StepView::Halt(self)
        } else if self.ip < 0 || self.ip >= self.code().len() {
            StepView::Halt(self.failed(self.ip, "Could not get operation (OPCODE)"@))
        } else {
            let fetched = VMView { ip: self.ip + 1, ..self };
            match OpCode::decode(self.code()[self.ip]) {
                None => StepView::Next(fetched.fail("Unknown operation (OPCODE)"@)),
                Some(op) => fetched.execute(op, memo),
            }
        }
    }

    /// How many bytes of code are left to read.
    pub open spec fn remaining(self) -> int {
        self.code().len() - self.ip
    }

    /// How a run that is over ends: a debug run with the value that was
    /// discarded last, another run with `RuntimeError` if an error was
    /// reported and with `Success` if none was.
    pub open spec fn result(self) -> InterpretResultView {
        if self.debug {
            InterpretResultView::Debug(self.last_popped)
        } else if self.had_runtime_error {
            InterpretResultView::RuntimeError
        } else {
            InterpretResultView::Success
        }
    }

    /// The machine without its chunk, ready for the next one.
    pub open spec fn freed(self) -> VMView {
        VMView { chunk: None, ip: 0, ..self }
    }

    /// Steps until the run is over or waits for float work. When it is over
    /// the chunk is released; while it waits the machine stays at the
    /// instruction that asked.
    pub open spec fn run(self, memo: Answers) -> (VMView, ProgressView)
        decreases self.remaining(),
    {
        match self.step(memo) {
            StepView::Next(next) => next.run(memo),
            StepView::Float(task) => (self, ProgressView::Float(task)),
            StepView::Halt(end) => (end.freed(), ProgressView::Done(end.result())),
        }
    }

    /// The machine after the errors of a source went to its output.
    pub open spec fn rejected(self, errors: Seq<DiagnosticView>) -> VMView {
        VMView {
            output: self.output + errors.map_values(
                |d: DiagnosticView| OutputView::Syntax(d.line, d.message),
            ),
            ..self.freed()
        }
    }

    /// Compiling a source and executing its chunk. A source with errors is
    /// not executed: the errors go to the output, the stack and the globals
    /// stay as they are, and the result is `CompileError`. Where the memo
    /// lacks the value of a number literal, the machine stays as it is and
    /// the task is that of reading the literal.
    pub open spec fn interpret(self, source: Seq<u8>, debug: bool, memo: Answers) -> (
        VMView,
        ProgressView,
    ) {
        match compile_spec(source, memo) {
            Err(CompileFailedView::Float(task)) => (self, ProgressView::Float(task)),
            Err(CompileFailedView::Syntax(errors)) => (
                self.rejected(errors),
                ProgressView::Done(InterpretResultView::CompileError),
            ),
            Ok(chunk) => self.begun(chunk, debug).run(memo),
        }
    }

    /// The machine at the start of a run of a chunk: the chunk is installed,
    /// and the error flag and the value discarded last are those of a new
    /// run. The stack, the globals and the output are as they were.
    pub open spec fn begun(self, chunk: ChunkView, debug: bool) -> VMView {
        VMView {
            chunk: Some(chunk),
            ip: 0,
            had_runtime_error: false,
            last_popped: ValueView::Null,
            debug,
            ..self
        }
    }
}

/// A step that goes on has read at least one byte of code, so that a run has
/// at most as many steps as the code has bytes, and one more.
pub proof fn lemma_step_advances(vm: VMView, memo: Answers)
    ensures
        match vm.step(memo) {
            StepView::Next(next) => next.remaining() < vm.remaining() && next.chunk == vm.chunk
                && next.debug == vm.debug,
            StepView::Float(_) => true,
            StepView::Halt(end) => end.chunk == vm.chunk && end.debug == vm.debug,
        },
{
}

/// A runtime error sets the flag, empties the stack and adds one report; it
/// changes nothing else, and the run goes on from the same place.
pub proof fn lemma_fail(vm: VMView, message: Seq<char>)
    ensures
        vm.fail(message).had_runtime_error,
        vm.fail(message).stack.len() == 0,
        vm.fail(message).output.len() == vm.output.len() + 1,
        vm.fail(message).output.last() is Error,
        vm.fail(message).ip == vm.ip,
        vm.fail(message).globals == vm.globals,
        vm.fail(message).chunk == vm.chunk,
        !vm.fail(message).debug ==> vm.fail(message).result() == InterpretResultView::RuntimeError,
{
}

/// Assigning to a global: an immutable variable keeps its value and the
/// assignment is a runtime error, as is one to a name without a variable; a
/// mutable variable gets the value on top of the stack, which stays there.
pub proof fn lemma_set_global(vm: VMView, name: Seq<char>)
    requires
        vm.stack.len() > 0,
    ensures
        vm.globals.contains_key(name) && !vm.globals[name].mutable ==> vm.set_global(
            ValueView::VariableLookup(name),
        ) == vm.fail("Cannot reassign immutable variable: "@ + name),
        !vm.globals.contains_key(name) ==> vm.set_global(ValueView::VariableLookup(name))
            == vm.fail("Undefined variable '"@ + name + "'"@),
        vm.globals.contains_key(name) && vm.globals[name].mutable ==> {
            let after = vm.set_global(ValueView::VariableLookup(name));
            &&& after.globals[name].value == vm.top()
            &&& after.globals[name].mutable
            &&& after.stack == vm.stack
            &&& after.had_runtime_error == vm.had_runtime_error
        },
{
}

/// A source with errors is not executed: the stack and the globals stay as
/// they are, no chunk is installed, and the result is `CompileError`.
pub proof fn lemma_compile_error(vm: VMView, source: Seq<u8>, debug: bool, memo: Answers)
    requires
        compile_spec(source, memo) is Err,
        compile_spec(source, memo)->Err_0 is Syntax,
    ensures
        vm.interpret(source, debug, memo).1 == ProgressView::Done(
            InterpretResultView::CompileError,
        ),
        vm.interpret(source, debug, memo).0.stack == vm.stack,
        vm.interpret(source, debug, memo).0.globals == vm.globals,
        vm.interpret(source, debug, memo).0.had_runtime_error == vm.had_runtime_error,
        vm.interpret(source, debug, memo).0.chunk is None,
{
}

/// A run never ends with `CompileError`; a run that is no debug run ends
/// with `RuntimeError` exactly if an error was reported in it, and a debug
/// run ends with `Debug`. After a run that is over no chunk is installed.
pub proof fn lemma_run_result(vm: VMView, memo: Answers)
    ensures
        vm.run(memo).1 is Done ==> {
            let end = vm.run(memo).0;
            let result = vm.run(memo).1->Done_0;
            &&& result != InterpretResultView::CompileError
            &&& end.debug == vm.debug
            &&& end.chunk is None
            &&& (vm.debug <==> result is Debug)
            &&& (!vm.debug ==> (result == InterpretResultView::RuntimeError
                <==> end.had_runtime_error))
        },
        vm.run(memo).1 is Float ==> vm.run(memo).0.chunk == vm.chunk && vm.chunk is Some,
    decreases vm.remaining(),
{
    lemma_step_advances(vm, memo);
    match vm.step(memo) {
        StepView::Next(next) => {
            lemma_run_result(next, memo);
        },
        StepView::Float(task) => {},
        StepView::Halt(end) => {},
    }
}

/// What one step of the machine did.
pub enum Step {
    /// The machine goes on.
    Next,
    /// The machine is as it was and waits for the answer to the task.
    Float(FloatTask),
    /// The run is over.
    Halt,
}

impl Step {
    /// Whether the step is the one that a state stands for, with the machine
    /// that it left.
    pub open spec fn matches(self, step: StepView, before: VMView, after: VMView) -> bool {
        match step {
            StepView::Next(next) => self is Next && after == next,
            StepView::Float(task) => self is Float && self->Float_0@ == task && after == before,
            StepView::Halt(end) => self is Halt && after == end,
        }
    }
}

/// A stack machine with its globals and the output that it has gathered.
#[derive(Debug)]
pub struct VM {
    chunk: Option<Chunk>,
    ip: usize,
    stack: Vec<Value>,
    had_runtime_error: bool,
    globals: Globals,
    output: Vec<Output>,
    last_popped: Value,
    debug: bool,
}

impl View for VM {
    type V = VMView;

    closed spec fn view(&self) -> VMView {
        VMView {
            chunk: match self.chunk {
                Some(c) => Some(c@),
                None => None,
            },
            ip: self.ip as int,
            stack: views(self.stack@),
            had_runtime_error: self.had_runtime_error,
            globals: self.globals@,
            output: self.output@.map_values(|o: Output| o@),
            last_popped: self.last_popped@,
            debug: self.debug,
        }
    }
}

impl VM {
    /// A machine without a chunk, with an empty stack and no globals.
    pub fn new() -> (vm: VM)
        ensures
            vm@ == (VMView {
                chunk: None,
                ip: 0,
                stack: Seq::empty(),
                had_runtime_error: false,
                globals: Map::empty(),
                output: Seq::empty(),
                last_popped: ValueView::Null,
                debug: false,
            }),
    {
        let vm = VM {
            chunk: None,
            ip: 0,
            stack: Vec::new(),
            had_runtime_error: false,
            globals: Globals::new(),
            output: Vec::new(),
            last_popped: Value::Null,
            debug: false,
        };
        assert(vm@.stack =~= Seq::empty());
        assert(vm@.output =~= Seq::empty());
        vm
    }

    pub fn get_stack(&self) -> (stack: &Vec<Value>)
        ensures
            views(stack@) == self@.stack,
    {
        &self.stack
    }

    /// The global variables.
    pub fn get_globals(&self) -> (globals: &Globals)
        ensures
            globals@ == self@.globals,
    {
        &self.globals
    }

    /// Whether a chunk is installed: a run is under way and waits.
    pub fn is_suspended(&self) -> (r: bool)
        ensures
            r == self@.chunk is Some,
    {
        self.chunk.is_some()
    }

    /// Hands over what the program has printed and reported since the output
    /// was last taken, in order.
    pub fn take_output(&mut self) -> (output: Vec<Output>)
        ensures
            output@.map_values(|o: Output| o@) == old(self)@.output,
            final(self)@ == (VMView { output: Seq::empty(), ..old(self)@ }),
    {
        let mut output: Vec<Output> = Vec::new();
        std::mem::swap(&mut output, &mut self.output);
        assert(self@.output =~= Seq::empty());
        output
    }

    pub fn reset_stack(&mut self)
        ensures
            final(self)@ == (VMView { stack: Seq::empty(), ..old(self)@ }),
    {
        self.stack.clear();
        assert(self@.stack =~= Seq::empty());
    }

    /// Releases the chunk and empties the stack; the globals stay.
    pub fn free_vm(&mut self)
        ensures
            final(self)@ == (VMView { stack: Seq::empty(), ..old(self)@.freed() }),
    {
        self.chunk = None;
        self.ip = 0;
        self.stack.clear();
        assert(self@.stack =~= Seq::empty());
    }

    /// Installs a chunk, to be executed from its first byte.
    pub fn init_chunk(&mut self, chunk: Chunk)
        ensures
            final(self)@ == (VMView { chunk: Some(chunk@), ip: 0, ..old(self)@ }),
    {
        self.chunk = Some(chunk);
        self.ip = 0;
    }

    /// Releases the chunk.
    pub fn free_chunk(&mut self)
        ensures
            final(self)@ == old(self)@.freed(),
    {
        self.chunk = None;
        self.ip = 0;
    }

    fn push(&mut self, value: Value)
        ensures
            final(self)@ == old(self)@.pushed(value@),
    {
        self.stack.push(value);
        assert(self@.stack =~= old(self)@.stack.push(value@));
    }

    fn pop(&mut self) -> (value: Value)
        requires
            old(self)@.stack.len() > 0,
        ensures
            final(self)@ == old(self)@.popped(1),
            value@ == old(self)@.top(),
    {
        let value = self.stack.pop().unwrap();
        assert(self@.stack =~= old(self)@.stack.take(old(self)@.stack.len() - 1));
        value
    }

    fn fail_at(&mut self, offset: usize, message: String)
        ensures
            final(self)@ == old(self)@.failed(offset as int, message@),
    {
        let line = match &self.chunk {
            Some(chunk) => chunk.get_line(offset),
            None => 0,
        };
        self.had_runtime_error = true;
        self.output.push(Output::Error(line, message));
        self.stack.clear();
        assert(self@.stack =~= Seq::empty());
        assert(self@.output =~= old(self)@.output.push(
            OutputView::Error(old(self)@.line_of(offset as int), message@),
        ));
    }

    fn fail(&mut self, message: String)
        ensures
            final(self)@ == old(self)@.fail(message@),
    {
        let offset = if self.ip > 0 {
            self.ip - 1
        } else {
            0
        };
        self.fail_at(offset, message)
    }

    /// Reports a runtime error in the instruction that was read last: the
    /// message goes to the output with its source line, the error flag is set
    /// and the stack is emptied. The run goes on.
    pub fn runtime_error(&mut self, message: &str)
        ensures
            final(self)@ == old(self)@.fail(message@),
    {
        self.fail(String::from_str(message))
    }

    fn read_operand(&self, width: usize) -> (r: Option<usize>)
        requires
            width == 1 || width == 3,
        ensures
            r is Some <==> self@.operand(width as int) is Some,
            r is Some ==> r->0 == self@.operand(width as int)->0,
            r is Some ==> self@.ip + width <= usize::MAX,
    {
        match &self.chunk {
            Some(chunk) => {
                let code = chunk.get_code();
                let len = code.len();
                if self.ip > len || len - self.ip < width {
                    None
                } else if width == 1 {
                    Some(code[self.ip] as usize)
                } else {
                    let b0: usize = code[self.ip] as usize;
                    let b1: usize = code[self.ip + 1] as usize;
                    let b2: usize = code[self.ip + 2] as usize;
                    Some(b0 + 256 * b1 + 65536 * b2)
                }
            },
            None => None,
        }
    }

    fn read_constant(&mut self, width: usize) -> (r: Option<Value>)
        requires
            width == 1 || width == 3,
        ensures
            match old(self)@.constant(width as int) {
                Ok((constant, after)) => r is Some && r->0@ == constant && final(self)@ == after,
                Err(e) => r is None && final(self)@ == e,
            },
    {
        match self.read_operand(width) {
            None => {
                let len = match &self.chunk {
                    Some(chunk) => chunk.get_code().len(),
                    None => 0,
                };
                self.ip = len;
                self.fail(String::from_str("Could not get operand"));
                None
            },
            Some(index) => {
                self.ip = self.ip + width;
                let constant = match &self.chunk {
                    Some(chunk) => chunk.constant_at(index),
                    None => None,
                };
                match constant {
                    Some(value) => Some(value),
                    None => {
                        self.fail(String::from_str("Constant index out of range"));
                        None
                    },
                }
            },
        }
    }

    fn define_global(&mut self, constant: Value)
        ensures
            final(self)@ == old(self)@.define_global(constant@),
    {
        match constant {
            Value::VariableDefinition(definition) => {
                if self.stack.len() == 0 {
                    self.fail(String::from_str("Expected an operand, but the stack is empty."));
                } else if definition.get_value_type() == ValueType::Dynamic {
                    let value = self.pop();
                    let value_type = value.to_value_type();
                    let variable = Variable::new(
                        definition.get_name(),
                        value,
                        value_type,
                        definition.is_mutable(),
                    );
                    self.globals.insert(variable);
                } else {
                    self.fail(String::from_str("Could not determine the type of the variable"));
                }
            },
            _ => {
                self.fail(String::from_str("Expected a variable to define"));
            },
        }
    }

    fn get_global(&mut self, constant: Value)
        ensures
            final(self)@ == old(self)@.get_global(constant@),
    {
        match constant {
            Value::VariableLookup(name) => {
                let found = match self.globals.get(&name) {
                    Some(variable) => Some(variable.get_value()),
                    None => None,
                };
                match found {
                    Some(value) => self.push(value),
                    None => self.fail(String::from_str("Undefined variable")),
                }
            },
            _ => {
                self.fail(String::from_str("Expected a variable to get"));
            },
        }
    }

    fn set_global(&mut self, constant: Value)
        ensures
            final(self)@ == old(self)@.set_global(constant@),
    {
        match constant {
            Value::VariableLookup(name) => {
                let n = self.stack.len();
                if n == 0 {
                    self.fail(String::from_str("Expected an operand, but the stack is empty."));
                } else {
                    let value = self.stack[n - 1].clone();
                    assert(value@ == self@.top());
                    match self.globals.assign(&name, value) {
                        Assignment::Stored => {},
                        Assignment::Immutable => {
                            self.fail(
                                concat("Cannot reassign immutable variable: ", name.as_str()),
                            );
                        },
                        Assignment::Undefined => {
                            let mut message = concat("Undefined variable '", name.as_str());
                            message.append("'");
                            self.fail(message);
                        },
                    }
                }
            },
            _ => {
                self.fail(String::from_str("Expected a variable to set"));
            },
        }
    }

    fn with_constant(&mut self, op: OpCode)
        requires
            op == OpCode::OpConstant || op == OpCode::OpConstantLong || op == OpCode::OpDefineGlobal
                || op == OpCode::OpGetGlobal || op == OpCode::OpSetGlobal,
        ensures
            final(self)@ == old(self)@.with_constant(op),
    {
        let width: usize = if op == OpCode::OpConstantLong {
            3
        } else {
            1
        };
        match self.read_constant(width) {
            None => {},
            Some(constant) => match op {
                OpCode::OpDefineGlobal => self.define_global(constant),
                OpCode::OpGetGlobal => self.get_global(constant),
                OpCode::OpSetGlobal => self.set_global(constant),
                _ => self.push(constant),
            },
        }
    }

    fn evaluate(&self, op: OpCode, memo: &FloatMemo) -> (r: Evaluation)
        requires
            self@.stack.len() >= 2,
        ensures
            r@ == self@.evaluation(op, memo@),
    {
        let n = self.stack.len();
        let a = &self.stack[n - 2];
        let b = &self.stack[n - 1];
        assert(a@ == self@.left());
        assert(b@ == self@.top());
        match op {
            OpCode::OpAdd => a.add(b, memo),
            OpCode::OpSubtract => a.sub(b, memo),
            OpCode::OpMultiply => a.mul(b, memo),
            OpCode::OpDivide => a.div(b, memo),
            OpCode::OpPower => a.pow(b, memo),
            OpCode::OpEqualEqual => a.compare(Comparison::EqualEqual, b, memo),
            OpCode::OpBangEqual => a.compare(Comparison::BangEqual, b, memo),
            OpCode::OpGreater => a.compare(Comparison::Greater, b, memo),
            OpCode::OpGreaterEqual => a.compare(Comparison::GreaterEqual, b, memo),
            OpCode::OpLess => a.compare(Comparison::Less, b, memo),
            OpCode::OpLessEqual => a.compare(Comparison::LessEqual, b, memo),
            _ => a.join(b, memo),
        }
    }

    fn binary_op(&mut self, op: OpCode, memo: &FloatMemo) -> (r: Step)
        ensures
            r.matches(
                old(self)@.binary(old(self)@.evaluation(op, memo@)),
                old(self)@,
                final(self)@,
            ),
    {
        if self.stack.len() < 2 {
            self.fail(
                String::from_str("Expected two operands for binary operation, but got only one."),
            );
            return Step::Next;
        }
        match self.evaluate(op, memo) {
            Evaluation::Done(value) => {
                let _ = self.pop();
                let _ = self.pop();
                self.push(value);
                assert(self@.stack =~= old(self)@.popped(2).pushed(value@).stack);
                Step::Next
            },
            Evaluation::Float(task) => Step::Float(task),
            Evaluation::Failed(message) => {
                self.fail(message);
                Step::Next
            },
        }
    }

    fn negate(&mut self, memo: &FloatMemo) -> (r: Step)
        ensures
            r.matches(old(self)@.execute(OpCode::OpNegate, memo@), old(self)@, final(self)@),
    {
        let n = self.stack.len();
        if n == 0 {
            self.fail(String::from_str("Expected an operand, but the stack is empty."));
            return Step::Next;
        }
        assert(self.stack@[n - 1]@ == self@.top());
        match self.stack[n - 1].neg(memo) {
            Evaluation::Done(value) => {
                let _ = self.pop();
                self.push(value);
                Step::Next
            },
            Evaluation::Float(task) => Step::Float(task),
            Evaluation::Failed(message) => {
                self.fail(message);
                Step::Next
            },
        }
    }

    fn print(&mut self, memo: &FloatMemo) -> (r: Step)
        ensures
            r.matches(old(self)@.execute(OpCode::OpPrint, memo@), old(self)@, final(self)@),
    {
        let n = self.stack.len();
        if n == 0 {
            self.fail(String::from_str("Expected an operand, but the stack is empty."));
            return Step::Next;
        }
        assert(self.stack@[n - 1]@ == self@.top());
        match self.stack[n - 1].to_string(memo) {
            Ok(text) => {
                let _ = self.pop();
                self.output.push(Output::Printed(text));
                assert(self@.output =~= old(self)@.output.push(OutputView::Printed(text@)));
                Step::Next
            },
            Err(task) => Step::Float(task),
        }
    }

    fn execute(&mut self, op: OpCode, memo: &FloatMemo) -> (r: Step)
        ensures
            r.matches(old(self)@.execute(op, memo@), old(self)@, final(self)@),
    {
        match op {
            OpCode::OpReturn => Step::Halt,
            OpCode::OpConstant
            | OpCode::OpConstantLong
            | OpCode::OpDefineGlobal
            | OpCode::OpGetGlobal
            | OpCode::OpSetGlobal => {
                self.with_constant(op);
                Step::Next
            },
            OpCode::OpNull => {
                self.push(Value::Null);
                Step::Next
            },
            OpCode::OpTrue => {
                self.push(Value::Bool(true));
                Step::Next
            },
            OpCode::OpFalse => {
                self.push(Value::Bool(false));
                Step::Next
            },
            OpCode::OpNegate => self.negate(memo),
            OpCode::OpNot => {
                if self.stack.len() == 0 {
                    self.fail(String::from_str("Expected an operand, but the stack is empty."));
                } else {
                    let value = self.pop();
                    self.push(Value::Bool(value.is_falsey()));
                }
                Step::Next
            },
            OpCode::OpAdd
            | OpCode::OpSubtract
            | OpCode::OpMultiply
            | OpCode::OpDivide
            | OpCode::OpPower
            | OpCode::OpEqualEqual
            | OpCode::OpBangEqual
            | OpCode::OpGreater
            | OpCode::OpGreaterEqual
            | OpCode::OpLess
            | OpCode::OpLessEqual
            | OpCode::OpInterpolate => self.binary_op(
                op,
                memo,
            ),
            OpCode::OpPrint => self.print(memo),
            OpCode::OpPop => {
                if self.stack.len() > 0 {
                    let value = self.pop();
                    self.last_popped = value;
                }
                Step::Next
            },
        }
    }

    /// Reads one instruction and executes it.
    pub fn step(&mut self, memo: &FloatMemo) -> (r: Step)
        ensures
            r.matches(old(self)@.step(memo@), old(self)@, final(self)@),
    {
        let byte: Option<u8> = match &self.chunk {
            None => {
                return Step::Halt;
            },
            Some(chunk) => {
                let code = chunk.get_code();
                if self.ip >= code.len() {
                    None
                } else {
                    Some(code[self.ip])
                }
            },
        };
        match byte {
            None => {
                self.fail_at(self.ip, String::from_str("Could not get operation (OPCODE)"));
                Step::Halt
            },
            Some(byte) => {
                let start = self.ip;
                self.ip = start + 1;
                match OpCode::from_byte(byte) {
                    None => {
                        self.fail(String::from_str("Unknown operation (OPCODE)"));
                        Step::Next
                    },
                    Some(op) => {
                        let r = self.execute(op, memo);
                        if let Step::Float(_) = &r {
                            self.ip = start;
                        }
                        r
                    },
                }
            },
        }
    }

    fn finish(&mut self) -> (result: InterpretResult)
        ensures
            result@ == old(self)@.result(),
            final(self)@ == old(self)@.freed(),
    {
        let result = if self.debug {
            InterpretResult::Debug(self.last_popped.clone())
        } else if self.had_runtime_error {
            InterpretResult::RuntimeError
        } else {
            InterpretResult::Success
        };
        self.free_chunk();
        result
    }

    /// Executes the installed chunk from where the machine stands, until the
    /// run is over or an instruction needs float work that the memo lacks.
    pub fn run(&mut self, memo: &FloatMemo) -> (progress: Progress)
        ensures
            (final(self)@, progress@) == old(self)@.run(memo@),
    {
        loop
            invariant
                self@.run(memo@) == old(self)@.run(memo@),
            decreases self@.remaining(),
        {
            let ghost before = self@;
            proof {
                lemma_step_advances(before, memo@);
            }
            match self.step(memo) {
                Step::Next => {},
                Step::Float(task) => {
                    return Progress::Float(task);
                },
                Step::Halt => {
                    let result = self.finish();
                    return Progress::Done(result);
                },
            }
        }
    }

    /// Goes on with a run that waited for float work.
    pub fn resume(&mut self, memo: &FloatMemo) -> (progress: Progress)
        ensures
            (final(self)@, progress@) == old(self)@.run(memo@),
    {
        self.run(memo)
    }

    fn begin(&mut self, chunk: Chunk, debug: bool)
        ensures
            final(self)@ == old(self)@.begun(chunk@, debug),
    {
        self.chunk = Some(chunk);
        self.ip = 0;
        self.had_runtime_error = false;
        self.last_popped = Value::Null;
        self.debug = debug;
    }

    /// Executes a chunk from its first byte. With `debug` the run ends with
    /// the value that the program discarded last.
    pub fn interpret_chunk(&mut self, chunk: Chunk, debug: bool, memo: &FloatMemo) -> (progress:
        Progress)
        ensures
            (final(self)@, progress@) == old(self)@.begun(chunk@, debug).run(memo@),
    {
        self.begin(chunk, debug);
        self.run(memo)
    }

    fn reject(&mut self, errors: Vec<Diagnostic>)
        ensures
            final(self)@ == old(self)@.rejected(diagnostic_views(errors@)),
    {
        let ghost list = diagnostic_views(errors@);
        let ghost mapped = list.map_values(
            |d: DiagnosticView| OutputView::Syntax(d.line, d.message),
        );
        let mut i: usize = 0;
        while i < errors.len()
            invariant
                i <= errors@.len(),
                list == diagnostic_views(errors@),
                mapped == list.map_values(
                    |d: DiagnosticView| OutputView::Syntax(d.line, d.message),
                ),
                self@ == (VMView {
                    output: old(self)@.output + mapped.take(i as int),
                    ..old(self)@
                }),
            decreases errors@.len() - i,
        {
            let error = errors[i].clone();
            let ghost prior = self@.output;
            let ghost entry = OutputView::Syntax(error.line, error.message@);
            self.output.push(Output::Syntax(error.line, error.message));
            assert(self@.output =~= prior.push(entry));
            assert(mapped.take(i + 1) =~= mapped.take(i as int).push(mapped[i as int]));
            assert(mapped[i as int] == OutputView::Syntax(
                list[i as int].line,
                list[i as int].message,
            ));
            assert(list[i as int] == errors@[i as int]@);
            assert(self@.output =~= old(self)@.output + mapped.take(i + 1));
            i += 1;
        }
        assert(mapped.take(i as int) =~= mapped);
        self.free_chunk();
    }

    fn interpret_with(&mut self, source: &str, debug: bool, memo: &FloatMemo) -> (progress:
        Progress)
        requires
            source.spec_bytes().len() < usize::MAX,
        ensures
            (final(self)@, progress@) == old(self)@.interpret(source.spec_bytes(), debug, memo@),
    {
        match compile(source, memo) {
            Err(CompileFailed::Float(task)) => Progress::Float(task),
            Err(CompileFailed::Syntax(errors)) => {
                self.reject(errors);
                Progress::Done(InterpretResult::CompileError)
            },
            Ok(chunk) => self.interpret_chunk(chunk, debug, memo),
        }
    }

    /// Compiles a source and executes it. The result is `CompileError` for a
    /// source with errors, which is not executed; else `RuntimeError` if a
    /// runtime error was reported on the way, and `Success` if none was.
    /// Where float work is needed that the memo lacks, the result is its
    /// task: for the task of reading a literal the host is to call
    /// `interpret` again, for any other task `resume`.
    pub fn interpret(&mut self, source: &str, memo: &FloatMemo) -> (progress: Progress)
        requires
            source.spec_bytes().len() < usize::MAX,
        ensures
            (final(self)@, progress@) == old(self)@.interpret(source.spec_bytes(), false, memo@),
    {
        self.interpret_with(source, false, memo)
    }

    /// As `interpret`, in a debug run: a program that ran to its end gives
    /// `Debug` with the value that it discarded last.
    pub fn interpret_debug(&mut self, source: &str, memo: &FloatMemo) -> (progress: Progress)
        requires
            source.spec_bytes().len() < usize::MAX,
        ensures
            (final(self)@, progress@) == old(self)@.interpret(source.spec_bytes(), true, memo@),
    {
        self.interpret_with(source, true, memo)
    }
}

} // verus!

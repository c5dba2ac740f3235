//! The execution engine: a stack machine that runs a program one instruction at a
//! time. Native functions are the host's: the engine hands the host the name and the
//! arguments of each native call and takes the result back.

pub mod frame;
pub mod laws;
pub mod model;
pub mod safety;
pub mod termination;
pub mod typing;

use vstd::prelude::*;
use vstd::string::*;
use crate::bytecode::{Opcode, PushOperand};
use crate::engine::frame::{zeros, Frame, FrameView, Locals};
use crate::engine::model::{EngineView, RuntimeErrorKind, SignalView, StepView};
use crate::engine::safety::{ended_well, lemma_resume_is_safe, lemma_run_is_safe};
use crate::engine::termination::{
    bound,
    calls_back,
    jumps_forward,
    lemma_run_comes_to_an_end,
};
use crate::engine::typing::{engine_typed, program_typed, ProgramTyping};
use crate::object::{Object, Type};
use crate::pool::Pool;
use crate::program::{function_index, NamedFn, Program};
use crate::stack::Stack;
use crate::stdlib::{native_index, natives_view, NativeFn};

verus! {

broadcast use vstd::std_specs::vec::group_vec_axioms;

/// Why the engine cannot go on, and in which function.
#[derive(Debug, PartialEq, Eq)]
pub struct RuntimeError {
    pub kind: RuntimeErrorKind,
    pub function: String,
}

/// What a step tells the host.
#[derive(Debug)]
pub enum Signal {
    /// The step is done and the next one can follow.
    Continue,
    /// The program has ended.
    Halted,
    /// The host is to call the native function with the arguments, in the order of the
    /// parameters, and to hand the result back with `resume`.
    Native { name: String, arguments: Vec<Object> },
    /// The engine cannot go on.
    Fault(RuntimeError),
}

impl View for Signal {
    type V = SignalView;

    open spec fn view(&self) -> SignalView {
        match self {
            Signal::Continue => SignalView::Continue,
            Signal::Halted => SignalView::Halted,
            Signal::Native { name, arguments } => SignalView::Native {
                name: name@,
                arguments: arguments@,
            },
            Signal::Fault(error) => SignalView::Fault {
                kind: error.kind,
                function: error.function@,
            },
        }
    }
}

/// The engine: the program, the native functions, the frame of the function that is
/// running and the frames of its callers.
#[derive(Debug)]
pub struct Engine {
    pub pool: Pool,
    pub frame: Frame,
    pub should_halt: bool,
    pub frame_stack: Stack<Frame>,
    pub natives: Vec<NativeFn>,
    pub functions: Vec<NamedFn>,
}

impl View for Engine {
    type V = EngineView;

    open spec fn view(&self) -> EngineView {
        EngineView {
            pool: self.pool@,
            frame: self.frame@,
            halted: self.should_halt,
            frames: self.frame_stack@.map_values(|f: Frame| f@),
            natives: natives_view(self.natives@),
            functions: self.functions@.map_values(|f: NamedFn| f@),
        }
    }
}

impl Engine {
    /// An engine over the program and the native functions. It runs nothing yet: its
    /// frame is that of no function.
    pub fn bootstrap(program: Program, natives: Vec<NativeFn>) -> (engine: Self)
        ensures
            engine@ == (EngineView {
                pool: program@.pool,
                frame: FrameView::fresh(Seq::empty(), program@.fns.len() as usize, 0),
                halted: false,
                frames: Seq::empty(),
                natives: natives_view(natives@),
                functions: program@.fns,
            }),
    {
        let count = program.fns.len();
        let engine = Self {
            pool: program.pool,
            functions: program.fns,
            frame: Frame::new(String::new(), count, 0),
            frame_stack: Stack::new(),
            natives,
            should_halt: false,
        };
        assert(engine@.frames =~= Seq::empty());
        engine
    }

    /// An engine over the program and the native functions, ready to run the program
    /// from the start: in the frame of `main`, with no caller waiting. Fails when the
    /// program has no function `main`.
    pub fn start(program: Program, natives: Vec<NativeFn>) -> (result: Result<Self, RuntimeError>)
        ensures
            match function_index(program@.fns, "main"@) {
                Some(m) => result matches Ok(engine) && engine@ == EngineView::started(
                    program@.pool,
                    program@.fns,
                    natives_view(natives@),
                    m,
                ),
                None => result matches Err(error) && error.kind
                    == RuntimeErrorKind::UndefinedCallee && error.function@ == Seq::<char>::empty(),
            },
    {
        let mut engine = Self::bootstrap(program, natives);
        match engine.setup_main_frame() {
            Ok(()) => Ok(engine),
            Err(error) => Err(error),
        }
    }

    /// Makes the engine ready to run the program from the start: the current frame
    /// becomes that of `main`, no caller waits and the engine is not halted. Fails, and
    /// changes nothing, when the program has no function `main`.
    pub fn setup_main_frame(&mut self) -> (result: Result<(), RuntimeError>)
        ensures
            match function_index(old(self)@.functions, "main"@) {
                Some(k) => result.is_ok() && final(self)@ == (EngineView {
                    frame: FrameView::fresh(
                        "main"@,
                        k as usize,
                        old(self)@.functions[k].function.max_locals as nat,
                    ),
                    halted: false,
                    frames: Seq::empty(),
                    ..old(self)@
                }),
                None => final(self)@ == old(self)@ && (result matches Err(error) && error.kind
                    == RuntimeErrorKind::UndefinedCallee && error.function@ == old(
                    self,
                )@.frame.name),
            },
    {
        let name = String::from_str("main");
        match self.find_function(&name) {
            Some(k) => {
                assert(self@.functions[k as int] == self.functions@[k as int]@);
                self.frame = Frame::new(name, k, self.functions[k].function.max_locals);
                self.frame_stack = Stack::new();
                self.should_halt = false;
                assert(self@.frames =~= Seq::empty());
                Ok(())
            },
            None => Err(
                RuntimeError {
                    kind: RuntimeErrorKind::UndefinedCallee,
                    function: self.frame.name.clone(),
                },
            ),
        }
    }

    /// Executes one instruction.
    pub fn step(&mut self) -> (signal: Signal)
        ensures
            final(self)@ == old(self)@.step().engine,
            signal@ == old(self)@.step().signal,
            old(self)@.wf() ==> final(self)@.wf(),
    {
        proof {
            if self@.wf() {
                crate::engine::laws::lemma_step_keeps_wf(self@);
            }
        }
        if self.should_halt {
            return Signal::Halted;
        }
        let op = match self.fetch() {
            Some(op) => op,
            None => {
                return self.fault(RuntimeErrorKind::FetchOutOfRange);
            },
        };
        match op {
            Opcode::Nop => self.nop(),
            Opcode::Push(operand) => self.ipush(operand),
            Opcode::Ldc(index) => self.ldc(index),
            Opcode::LLoad(index) => self.lload(index),
            Opcode::LStore(index) => self.lstore(index),
            Opcode::IAdd => self.iadd(),
            Opcode::ISub => self.isub(),
            Opcode::ICmpGT => self.icmpgt(),
            Opcode::Jump(offset) => self.jump(offset),
            Opcode::JumpIfFalse(offset) => self.jumpnotif(offset),
            Opcode::Invoke(name) => self.invoke(name),
            Opcode::Return => self.return_(),
            Opcode::IReturn => self.ireturn(),
        }
    }

    /// Executes instructions until one does not tell the engine to continue, but at
    /// most `fuel` of them. Returns what the last step told, or `Continue` when the
    /// fuel has run out. An engine that agrees with the types of its well-typed program
    /// never ends a run with a fault; and where the program is without recursion and
    /// the fuel is more than the bound of the engine, the run does not end because the
    /// fuel has run out.
    pub fn run(&mut self, fuel: usize) -> (signal: Signal)
        ensures
            final(self)@ == old(self)@.run(fuel as nat).engine,
            signal@ == old(self)@.run(fuel as nat).signal,
            old(self)@.wf() ==> final(self)@.wf(),
            old(self)@.wf() && signal@ is Halted ==> final(self)@.frames.len() == 0,
            forall|typing: ProgramTyping|
                #![trigger engine_typed(typing, old(self)@, Type::Void)]
                program_typed(old(self)@.pool, old(self)@.functions, old(self)@.natives, typing)
                    && engine_typed(typing, old(self)@, Type::Void) ==> ended_well(
                    typing,
                    StepView { engine: final(self)@, signal: signal@ },
                ) && (jumps_forward(old(self)@.functions) && calls_back(
                    old(self)@.functions,
                    old(self)@.natives,
                ) && fuel > bound(old(self)@) ==> !(signal@ is Continue)),
    {
        proof {
            if self@.wf() {
                crate::engine::laws::lemma_run_keeps_wf(self@, fuel as nat);
            }
            assert forall|typing: ProgramTyping|
                #![trigger engine_typed(typing, self@, Type::Void)]
                program_typed(self@.pool, self@.functions, self@.natives, typing)
                    && engine_typed(typing, self@, Type::Void) implies ended_well(
                typing,
                self@.run(fuel as nat),
            ) && (jumps_forward(self@.functions) && calls_back(self@.functions, self@.natives)
                && fuel > bound(self@) ==> !(self@.run(fuel as nat).signal is Continue)) by {
                lemma_run_is_safe(typing, self@, fuel as nat);
                if jumps_forward(self@.functions) && calls_back(self@.functions, self@.natives)
                    && fuel > bound(self@) {
                    lemma_run_comes_to_an_end(typing, self@, fuel as nat);
                }
            }
        }
        let mut left = fuel;
        while left > 0
            invariant
                self@.run(left as nat) == old(self)@.run(fuel as nat),
                old(self)@.wf() ==> old(self)@.run(fuel as nat).engine.wf(),
                old(self)@.wf() && old(self)@.run(fuel as nat).signal is Halted ==> old(
                    self,
                )@.run(fuel as nat).engine.halted,
                forall|typing: ProgramTyping|
                    #![trigger engine_typed(typing, old(self)@, Type::Void)]
                    program_typed(
                        old(self)@.pool,
                        old(self)@.functions,
                        old(self)@.natives,
                        typing,
                    ) && engine_typed(typing, old(self)@, Type::Void) ==> ended_well(
                        typing,
                        old(self)@.run(fuel as nat),
                    ) && (jumps_forward(old(self)@.functions) && calls_back(
                        old(self)@.functions,
                        old(self)@.natives,
                    ) && fuel > bound(old(self)@) ==> !(old(self)@.run(
                        fuel as nat,
                    ).signal is Continue)),
            decreases left,
        {
            let signal = self.step();
            match signal {
                Signal::Continue => {},
                _ => {
                    return signal;
                },
            }
            left -= 1;
        }
        Signal::Continue
    }

    /// Hands the result of a native function back to the program. An engine that
    /// agrees with the types of its program once a value of the native function's
    /// return type has come back agrees with them after such a value was handed back.
    pub fn resume(&mut self, result: Option<Object>)
        ensures
            final(self)@ == old(self)@.resume(result),
            forall|typing: ProgramTyping, incoming: Type|
                #![trigger engine_typed(typing, old(self)@, incoming)]
                engine_typed(typing, old(self)@, incoming) && (match result {
                    Some(value) => value.spec_kind() == incoming,
                    None => incoming == Type::Void,
                }) ==> engine_typed(typing, final(self)@, Type::Void),
    {
        proof {
            assert forall|typing: ProgramTyping, incoming: Type|
                #![trigger engine_typed(typing, self@, incoming)]
                engine_typed(typing, self@, incoming) && (match result {
                    Some(value) => value.spec_kind() == incoming,
                    None => incoming == Type::Void,
                }) implies engine_typed(typing, self@.resume(result), Type::Void) by {
                lemma_resume_is_safe(typing, self@, incoming, result);
            }
        }
        match result {
            Some(value) => {
                self.frame.push(value);
            },
            None => {},
        }
    }

    /// Whether the engine still has a step to make.
    pub fn engine_should_run(&self) -> (running: bool)
        ensures
            running == !self@.halted,
    {
        !self.should_halt
    }

    /// The next instruction of the current function.
    fn fetch(&self) -> (op: Option<Opcode>)
        ensures
            op == (if self@.frame.ip < self@.code().len() {
                Some(self@.code()[self@.frame.ip as int])
            } else {
                None
            }),
            op.is_some() ==> self@.frame.ip < usize::MAX,
    {
        if self.frame.function < self.functions.len() {
            let code = &self.functions[self.frame.function].function.code;
            assert(self@.functions[self.frame.function as int]
                == self.functions@[self.frame.function as int]@);
            if self.frame.ip < code.code.len() {
                Some(code.code[self.frame.ip].clone())
            } else {
                None
            }
        } else {
            None
        }
    }

    fn fault(&self, kind: RuntimeErrorKind) -> (signal: Signal)
        ensures
            signal@ == self@.fault(kind).signal,
    {
        Signal::Fault(RuntimeError { kind, function: self.frame.name.clone() })
    }

    /// The place of the native function called `name`.
    fn find_native(&self, name: &String) -> (index: Option<usize>)
        ensures
            match native_index(self@.natives, name@) {
                Some(k) => index == Some(k as usize) && 0 <= k < self.natives@.len() && k <= usize::MAX,
                None => index.is_none(),
            },
    {
        let ghost natives = self@.natives;
        let mut i: usize = self.natives.len();
        assert(natives.subrange(0, i as int) =~= natives);
        while i > 0
            invariant
                i <= self.natives@.len(),
                natives == self@.natives,
                native_index(natives, name@) == native_index(
                    natives.subrange(0, i as int),
                    name@,
                ),
            decreases i,
        {
            i -= 1;
            let ghost prefix = natives.subrange(0, i + 1);
            assert(prefix.last() == self.natives@[i as int]@);
            assert(prefix.drop_last() =~= natives.subrange(0, i as int));
            if self.natives[i].name == *name {
                return Some(i);
            }
        }
        assert(natives.subrange(0, 0).len() == 0);
        None
    }

    /// The place of the function called `name`.
    fn find_function(&self, name: &String) -> (index: Option<usize>)
        ensures
            match function_index(self@.functions, name@) {
                Some(k) => index == Some(k as usize) && 0 <= k < self.functions@.len() && k <= usize::MAX,
                None => index.is_none(),
            },
    {
        let ghost functions = self@.functions;
        let mut i: usize = self.functions.len();
        assert(functions.subrange(0, i as int) =~= functions);
        while i > 0
            invariant
                i <= self.functions@.len(),
                functions == self@.functions,
                function_index(functions, name@) == function_index(
                    functions.subrange(0, i as int),
                    name@,
                ),
            decreases i,
        {
            i -= 1;
            let ghost prefix = functions.subrange(0, i + 1);
            assert(prefix.last() == self.functions@[i as int]@);
            assert(prefix.drop_last() =~= functions.subrange(0, i as int));
            if self.functions[i].name == *name {
                return Some(i);
            }
        }
        assert(functions.subrange(0, 0).len() == 0);
        None
    }

    fn nop(&mut self) -> (signal: Signal)
        requires
            old(self)@.frame.ip < usize::MAX,
        ensures
            final(self)@ == old(self)@.proceed(old(self)@.frame.stack).engine,
            signal@ == SignalView::Continue,
    {
        self.frame.ip += 1;
        Signal::Continue
    }

    fn ipush(&mut self, operand: PushOperand) -> (signal: Signal)
        requires
            old(self)@.frame.ip < usize::MAX,
        ensures
            final(self)@ == old(self)@.execute(Opcode::Push(operand)).engine,
            signal@ == old(self)@.execute(Opcode::Push(operand)).signal,
    {
        let value = match operand {
            PushOperand::Integer(n) => Object::Integer(n),
            PushOperand::Boolean(b) => Object::Boolean(b),
        };
        self.frame.push(value);
        self.frame.ip += 1;
        Signal::Continue
    }

    fn ldc(&mut self, idx: usize) -> (signal: Signal)
        requires
            old(self)@.frame.ip < usize::MAX,
        ensures
            final(self)@ == old(self)@.load_constant(idx).engine,
            signal@ == old(self)@.load_constant(idx).signal,
    {
        let value = match self.pool.get_by_index(idx) {
            Some(o) => o.clone(),
            None => {
                return self.fault(RuntimeErrorKind::PoolOutOfRange);
            },
        };
        self.frame.push(value);
        self.frame.ip += 1;
        Signal::Continue
    }

    fn lload(&mut self, idx: usize) -> (signal: Signal)
        requires
            old(self)@.frame.ip < usize::MAX,
        ensures
            final(self)@ == old(self)@.load_local(idx).engine,
            signal@ == old(self)@.load_local(idx).signal,
    {
        let value = match self.frame.load(idx) {
            Some(o) => o.clone(),
            None => {
                return self.fault(RuntimeErrorKind::LocalsOutOfRange);
            },
        };
        self.frame.push(value);
        self.frame.ip += 1;
        Signal::Continue
    }

    fn lstore(&mut self, idx: usize) -> (signal: Signal)
        requires
            old(self)@.frame.ip < usize::MAX,
        ensures
            final(self)@ == old(self)@.store_local(idx).engine,
            signal@ == old(self)@.store_local(idx).signal,
    {
        if self.frame.stack.len() == 0 {
            return self.fault(RuntimeErrorKind::StackUnderflow);
        }
        if idx >= self.frame.locals.len() {
            return self.fault(RuntimeErrorKind::LocalsOutOfRange);
        }
        let value = self.frame.pop().unwrap();
        self.frame.store(idx, value);
        self.frame.ip += 1;
        Signal::Continue
    }

    /// Takes two integers off the operand stack, the right operand first. Returns
    /// `Err` with the signal of the fault, and changes nothing, when the stack does not
    /// hold two integers on top.
    fn ipop_two(&mut self) -> (operands: Result<(i32, i32), Signal>)
        ensures
            match operands {
                Ok((lhs, rhs)) => {
                    let stack = old(self)@.frame.stack;
                    let n = stack.len() as int;
                    &&& n >= 2
                    &&& stack[n - 2] == Object::Integer(lhs)
                    &&& stack[n - 1] == Object::Integer(rhs)
                    &&& final(self)@ == (EngineView {
                        frame: FrameView { stack: stack.subrange(0, n - 2), ..old(self)@.frame },
                        ..old(self)@
                    })
                },
                Err(signal) => {
                    &&& final(self)@ == old(self)@
                    &&& forall|result: spec_fn(i32, i32) -> Object|
                        #![all_triggers]
                        old(self)@.integers(result) == (StepView {
                            engine: old(self)@,
                            signal: signal@,
                        })
                },
            },
    {
        let n = self.frame.stack.len();
        if n < 2 {
            return Err(self.fault(RuntimeErrorKind::StackUnderflow));
        }
        let rhs = match &self.frame.stack.inner[n - 1] {
            Object::Integer(x) => *x,
            _ => {
                return Err(self.fault(RuntimeErrorKind::TypeMismatch));
            },
        };
        let lhs = match &self.frame.stack.inner[n - 2] {
            Object::Integer(x) => *x,
            _ => {
                return Err(self.fault(RuntimeErrorKind::TypeMismatch));
            },
        };
        self.frame.stack.inner.truncate(n - 2);
        Ok((lhs, rhs))
    }

    fn iadd(&mut self) -> (signal: Signal)
        requires
            old(self)@.frame.ip < usize::MAX,
        ensures
            final(self)@ == old(self)@.execute(Opcode::IAdd).engine,
            signal@ == old(self)@.execute(Opcode::IAdd).signal,
    {
        match self.ipop_two() {
            Err(signal) => signal,
            Ok((lhs, rhs)) => {
                self.frame.push(Object::Integer(lhs.wrapping_add(rhs)));
                self.frame.ip += 1;
                Signal::Continue
            },
        }
    }

    fn isub(&mut self) -> (signal: Signal)
        requires
            old(self)@.frame.ip < usize::MAX,
        ensures
            final(self)@ == old(self)@.execute(Opcode::ISub).engine,
            signal@ == old(self)@.execute(Opcode::ISub).signal,
    {
        match self.ipop_two() {
            Err(signal) => signal,
            Ok((lhs, rhs)) => {
                self.frame.push(Object::Integer(lhs.wrapping_sub(rhs)));
                self.frame.ip += 1;
                Signal::Continue
            },
        }
    }

    fn icmpgt(&mut self) -> (signal: Signal)
        requires
            old(self)@.frame.ip < usize::MAX,
        ensures
            final(self)@ == old(self)@.execute(Opcode::ICmpGT).engine,
            signal@ == old(self)@.execute(Opcode::ICmpGT).signal,
    {
        match self.ipop_two() {
            Err(signal) => signal,
            Ok((lhs, rhs)) => {
                self.frame.push(Object::Boolean(lhs > rhs));
                self.frame.ip += 1;
                Signal::Continue
            },
        }
    }

    fn jump(&mut self, offset: usize) -> (signal: Signal)
        ensures
            final(self)@ == old(self)@.jump(offset, old(self)@.frame.stack).engine,
            signal@ == SignalView::Continue,
    {
        self.frame.ip = offset;
        Signal::Continue
    }

    fn jumpnotif(&mut self, offset: usize) -> (signal: Signal)
        requires
            old(self)@.frame.ip < usize::MAX,
        ensures
            final(self)@ == old(self)@.jump_if_false(offset).engine,
            signal@ == old(self)@.jump_if_false(offset).signal,
    {
        let n = self.frame.stack.len();
        if n == 0 {
            return self.fault(RuntimeErrorKind::StackUnderflow);
        }
        let condition = match &self.frame.stack.inner[n - 1] {
            Object::Boolean(b) => *b,
            _ => {
                return self.fault(RuntimeErrorKind::TypeMismatch);
            },
        };
        self.frame.pop();
        if condition {
            self.frame.ip += 1;
        } else {
            self.frame.ip = offset;
        }
        Signal::Continue
    }

    fn invoke(&mut self, name: String) -> (signal: Signal)
        requires
            old(self)@.frame.ip < usize::MAX,
        ensures
            final(self)@ == old(self)@.invoke(name@).engine,
            signal@ == old(self)@.invoke(name@).signal,
    {
        let n = self.frame.stack.len();
        if let Some(k) = self.find_native(&name) {
            let arity = self.natives[k].prototype.arity;
            assert(self@.natives[k as int] == self.natives@[k as int]@);
            if n < arity {
                return self.fault(RuntimeErrorKind::StackUnderflow);
            }
            let arguments = self.frame.stack.inner.split_off(n - arity);
            self.frame.ip += 1;
            return Signal::Native { name: self.natives[k].name.clone(), arguments };
        }
        let k = match self.find_function(&name) {
            Some(k) => k,
            None => {
                return self.fault(RuntimeErrorKind::UndefinedCallee);
            },
        };
        assert(self@.functions[k as int] == self.functions@[k as int]@);
        let arity = self.functions[k].function.arity;
        let max_locals = self.functions[k].function.max_locals;
        if n < arity {
            return self.fault(RuntimeErrorKind::StackUnderflow);
        }
        if arity > max_locals {
            return self.fault(RuntimeErrorKind::LocalsOutOfRange);
        }
        let mut locals = self.frame.stack.inner.split_off(n - arity);
        let ghost arguments = locals@;
        let mut i: usize = arity;
        while i < max_locals
            invariant
                arity <= i <= max_locals,
                locals@ == arguments + zeros((i - arity) as nat),
            decreases max_locals - i,
        {
            locals.push(Object::Integer(0));
            i += 1;
            assert(locals@ =~= arguments + zeros((i - arity) as nat));
        }
        self.frame.ip += 1;
        let mut frame = Frame {
            ip: 0,
            locals: Locals { inner: locals },
            name: self.functions[k].name.clone(),
            function: k,
            stack: Stack::new(),
        };
        core::mem::swap(&mut self.frame, &mut frame);
        let ghost before = self.frame_stack@;
        self.frame_stack.push(frame);
        assert(self@.frames =~= before.map_values(|f: Frame| f@).push(frame@));
        Signal::Continue
    }

    fn return_(&mut self) -> (signal: Signal)
        requires
            old(self)@.frame.ip < usize::MAX,
        ensures
            final(self)@ == old(self)@.leave().engine,
            signal@ == old(self)@.leave().signal,
    {
        match self.frame_stack.pop() {
            Some(caller) => {
                self.frame = caller;
                assert(self@.frames =~= old(self)@.frames.drop_last());
                Signal::Continue
            },
            None => {
                self.frame.ip += 1;
                self.should_halt = true;
                Signal::Halted
            },
        }
    }

    fn ireturn(&mut self) -> (signal: Signal)
        requires
            old(self)@.frame.ip < usize::MAX,
        ensures
            final(self)@ == old(self)@.leave_with_value().engine,
            signal@ == old(self)@.leave_with_value().signal,
    {
        if self.frame.stack.len() == 0 || self.frame_stack.len() == 0 {
            return self.fault(RuntimeErrorKind::StackUnderflow);
        }
        let value = self.frame.pop().unwrap();
        let mut caller = self.frame_stack.pop().unwrap();
        caller.push(value);
        self.frame = caller;
        assert(self@.frames =~= old(self)@.frames.drop_last());
        Signal::Continue
    }
}

} // verus!

//! The engine as a function on mathematical states: what one step does.

use vstd::prelude::*;
use crate::bytecode::{Opcode, PushOperand};
use crate::engine::frame::FrameView;
use crate::object::Object;
use crate::program::{function_index, NamedFnView};
use crate::stdlib::{native_index, NativeFnView};

verus! {

/// Why the engine cannot go on.
#[derive(Debug, Clone, Copy, PartialEq, Eq, Structural)]
pub enum RuntimeErrorKind {
    /// An instruction needs more values than the operand stack holds, or returns a
    /// value where no caller waits.
    StackUnderflow,
    /// The name that is called is that of no function.
    UndefinedCallee,
    /// An index is beyond the locals of the frame.
    LocalsOutOfRange,
    /// An index is beyond the constant pool.
    PoolOutOfRange,
    /// The next instruction is beyond the code of the function.
    FetchOutOfRange,
    /// A value is not of the kind that the instruction works on.
    TypeMismatch,
}

/// What a step tells the host.
pub enum SignalView {
    /// The step is done and the next one can follow.
    Continue,
    /// The program has ended.
    Halted,
    /// The host is to call the native function with the arguments, in the order of the
    /// parameters, and to hand the result back.
    Native { name: Seq<char>, arguments: Seq<Object> },
    /// The engine cannot go on; `function` names the function that was running.
    Fault { kind: RuntimeErrorKind, function: Seq<char> },
}

/// The state of the engine.
pub struct EngineView {
    pub pool: Seq<Object>,
    /// The frame of the function that is running.
    pub frame: FrameView,
    pub halted: bool,
    /// The frames of the callers that wait, the immediate caller last.
    pub frames: Seq<FrameView>,
    pub natives: Seq<NativeFnView>,
    pub functions: Seq<NamedFnView>,
}

/// What a step ends in.
pub struct StepView {
    pub engine: EngineView,
    pub signal: SignalView,
}

/// The value that a `Push` instruction pushes.
pub open spec fn immediate(operand: PushOperand) -> Object {
    match operand {
        PushOperand::Integer(n) => Object::Integer(n),
        PushOperand::Boolean(b) => Object::Boolean(b),
    }
}

impl EngineView {
    /// The engine at the start of a program: in the frame of `main`, which stands at
    /// place `m` of the table, with no caller waiting.
    pub open spec fn started(
        pool: Seq<Object>,
        functions: Seq<NamedFnView>,
        natives: Seq<NativeFnView>,
        m: int,
    ) -> EngineView {
        EngineView {
            pool,
            frame: FrameView::fresh("main"@, m as usize, functions[m].function.max_locals as nat),
            halted: false,
            frames: Seq::empty(),
            natives,
            functions,
        }
    }

    /// A halted engine has no caller left.
    pub open spec fn wf(self) -> bool {
        self.halted ==> self.frames.len() == 0
    }

    /// The code of the function that is running.
    pub open spec fn code(self) -> Seq<Opcode> {
        if self.frame.function < self.functions.len() {
            self.functions[self.frame.function as int].function.code
        } else {
            Seq::empty()
        }
    }

    /// A step that fails: the state stays as it is.
    pub open spec fn fault(self, kind: RuntimeErrorKind) -> StepView {
        StepView { engine: self, signal: SignalView::Fault { kind, function: self.frame.name } }
    }

    /// A step that goes on to the next instruction with the given operand stack.
    pub open spec fn proceed(self, stack: Seq<Object>) -> StepView {
        StepView {
            engine: EngineView {
                frame: FrameView { ip: (self.frame.ip + 1) as usize, stack, ..self.frame },
                ..self
            },
            signal: SignalView::Continue,
        }
    }

    /// A step that goes on at the given offset with the given operand stack.
    pub open spec fn jump(self, offset: usize, stack: Seq<Object>) -> StepView {
        StepView {
            engine: EngineView { frame: FrameView { ip: offset, stack, ..self.frame }, ..self },
            signal: SignalView::Continue,
        }
    }

    pub open spec fn load_constant(self, index: usize) -> StepView {
        if index < self.pool.len() {
            self.proceed(self.frame.stack.push(self.pool[index as int]))
        } else {
            self.fault(RuntimeErrorKind::PoolOutOfRange)
        }
    }

    pub open spec fn load_local(self, index: usize) -> StepView {
        if index < self.frame.locals.len() {
            self.proceed(self.frame.stack.push(self.frame.locals[index as int]))
        } else {
            self.fault(RuntimeErrorKind::LocalsOutOfRange)
        }
    }

    pub open spec fn store_local(self, index: usize) -> StepView {
        let stack = self.frame.stack;
        if stack.len() == 0 {
            self.fault(RuntimeErrorKind::StackUnderflow)
        } else if index >= self.frame.locals.len() {
            self.fault(RuntimeErrorKind::LocalsOutOfRange)
        } else {
            StepView {
                engine: EngineView {
                    frame: FrameView {
                        ip: (self.frame.ip + 1) as usize,
                        stack: stack.drop_last(),
                        locals: self.frame.locals.update(index as int, stack.last()),
                        ..self.frame
                    },
                    ..self
                },
                signal: SignalView::Continue,
            }
        }
    }

    /// An instruction on two integers: the right operand is on top, the left one below.
    pub open spec fn integers(self, result: spec_fn(i32, i32) -> Object) -> StepView {
        let stack = self.frame.stack;
        let n = stack.len() as int;
        if n < 2 {
            self.fault(RuntimeErrorKind::StackUnderflow)
        } else {
            match (stack[n - 2], stack[n - 1]) {
                (Object::Integer(lhs), Object::Integer(rhs)) => self.proceed(
                    stack.subrange(0, n - 2).push(result(lhs, rhs)),
                ),
                _ => self.fault(RuntimeErrorKind::TypeMismatch),
            }
        }
    }

    pub open spec fn jump_if_false(self, offset: usize) -> StepView {
        let stack = self.frame.stack;
        if stack.len() == 0 {
            self.fault(RuntimeErrorKind::StackUnderflow)
        } else {
            match stack.last() {
                Object::Boolean(condition) => if condition {
                    self.proceed(stack.drop_last())
                } else {
                    self.jump(offset, stack.drop_last())
                },
                _ => self.fault(RuntimeErrorKind::TypeMismatch),
            }
        }
    }

    /// A call of a native function: the arguments leave the operand stack and go to the
    /// host in the order in which they were pushed.
    pub open spec fn invoke_native(self, native: NativeFnView) -> StepView {
        let stack = self.frame.stack;
        let n = stack.len() as int;
        let arity = native.prototype.arity as int;
        if n < arity {
            self.fault(RuntimeErrorKind::StackUnderflow)
        } else {
            StepView {
                engine: self.proceed(stack.subrange(0, n - arity)).engine,
                signal: SignalView::Native {
                    name: native.name,
                    arguments: stack.subrange(n - arity, n),
                },
            }
        }
    }

    /// A call of the function at `index` of the table: the arguments leave the operand
    /// stack and become the first locals of a new frame, in the order in which they
    /// were pushed; the caller's frame waits.
    pub open spec fn invoke_function(self, index: int) -> StepView {
        let callee = self.functions[index];
        let stack = self.frame.stack;
        let n = stack.len() as int;
        let arity = callee.function.arity as int;
        let max_locals = callee.function.max_locals as int;
        if n < arity {
            self.fault(RuntimeErrorKind::StackUnderflow)
        } else if arity > max_locals {
            self.fault(RuntimeErrorKind::LocalsOutOfRange)
        } else {
            StepView {
                engine: EngineView {
                    frame: FrameView {
                        ip: 0,
                        locals: stack.subrange(n - arity, n) + crate::engine::frame::zeros(
                            (max_locals - arity) as nat,
                        ),
                        name: callee.name,
                        function: index as usize,
                        stack: Seq::empty(),
                    },
                    frames: self.frames.push(self.proceed(stack.subrange(0, n - arity)).engine.frame),
                    ..self
                },
                signal: SignalView::Continue,
            }
        }
    }

    /// A call: of the native function of that name if there is one, else of the
    /// function of that name.
    pub open spec fn invoke(self, name: Seq<char>) -> StepView {
        match native_index(self.natives, name) {
            Some(k) => self.invoke_native(self.natives[k]),
            None => match function_index(self.functions, name) {
                Some(k) => self.invoke_function(k),
                None => self.fault(RuntimeErrorKind::UndefinedCallee),
            },
        }
    }

    /// The end of a function without a value: the caller goes on, or, where there is
    /// none, the program ends.
    pub open spec fn leave(self) -> StepView {
        if self.frames.len() == 0 {
            StepView {
                engine: EngineView { halted: true, ..self.proceed(self.frame.stack).engine },
                signal: SignalView::Halted,
            }
        } else {
            StepView {
                engine: EngineView {
                    frame: self.frames.last(),
                    frames: self.frames.drop_last(),
                    ..self
                },
                signal: SignalView::Continue,
            }
        }
    }

    /// The end of a function with a value: the caller goes on with the value on top of
    /// its operand stack.
    pub open spec fn leave_with_value(self) -> StepView {
        let stack = self.frame.stack;
        if stack.len() == 0 || self.frames.len() == 0 {
            self.fault(RuntimeErrorKind::StackUnderflow)
        } else {
            let caller = self.frames.last();
            StepView {
                engine: EngineView {
                    frame: FrameView { stack: caller.stack.push(stack.last()), ..caller },
                    frames: self.frames.drop_last(),
                    ..self
                },
                signal: SignalView::Continue,
            }
        }
    }

    /// What the instruction does to a running engine.
    pub open spec fn execute(self, op: Opcode) -> StepView {
        match op {
            Opcode::Nop => self.proceed(self.frame.stack),
            Opcode::Push(operand) => self.proceed(self.frame.stack.push(immediate(operand))),
            Opcode::Ldc(index) => self.load_constant(index),
            Opcode::LLoad(index) => self.load_local(index),
            Opcode::LStore(index) => self.store_local(index),
            Opcode::IAdd => self.integers(
                |lhs: i32, rhs: i32| Object::Integer(lhs.wrapping_add(rhs)),
            ),
            Opcode::ISub => self.integers(
                |lhs: i32, rhs: i32| Object::Integer(lhs.wrapping_sub(rhs)),
            ),
            Opcode::ICmpGT => self.integers(|lhs: i32, rhs: i32| Object::Boolean(lhs > rhs)),
            Opcode::Jump(offset) => self.jump(offset, self.frame.stack),
            Opcode::JumpIfFalse(offset) => self.jump_if_false(offset),
            Opcode::Invoke(name) => self.invoke(name@),
            Opcode::Return => self.leave(),
            Opcode::IReturn => self.leave_with_value(),
        }
    }

    /// One step: a halted engine stays as it is; a running one fetches the next
    /// instruction of the current function and executes it.
    pub open spec fn step(self) -> StepView {
        if self.halted {
            StepView { engine: self, signal: SignalView::Halted }
        } else if self.frame.ip >= self.code().len() {
            self.fault(RuntimeErrorKind::FetchOutOfRange)
        } else {
            self.execute(self.code()[self.frame.ip as int])
        }
    }

    /// At most `fuel` steps: the engine stops at the first step that does not tell it
    /// to continue.
    pub open spec fn run(self, fuel: nat) -> StepView
        decreases fuel,
    {
        if fuel == 0 {
            StepView { engine: self, signal: SignalView::Continue }
        } else {
            let next = self.step();
            if next.signal is Continue {
                next.engine.run((fuel - 1) as nat)
            } else {
                next
            }
        }
    }

    /// What handing the result of a native function back does: the value, if there is
    /// one, goes on top of the operand stack.
    pub open spec fn resume(self, result: Option<Object>) -> EngineView {
        match result {
            Some(value) => EngineView {
                frame: FrameView { stack: self.frame.stack.push(value), ..self.frame },
                ..self
            },
            None => self,
        }
    }
}

} // verus!

//! Static types for programs: which kinds of values each instruction finds on the
//! operand stack and in the locals, and what it means for a running engine to agree
//! with them.

use vstd::prelude::*;
use crate::bytecode::Opcode;
use crate::engine::frame::FrameView;
use crate::engine::model::{immediate, EngineView};
use crate::object::{Object, Type};
use crate::program::{function_index, NamedFnView};
use crate::stdlib::{native_index, NativeFnView};

verus! {

/// The static types of one function.
pub struct FunctionTyping {
    /// The types of the parameters.
    pub parameters: Seq<Type>,
    pub return_type: Type,
    /// The types of the locals, the parameters first.
    pub locals: Seq<Type>,
    /// For each instruction, what it finds when control reaches it.
    pub points: Seq<Point>,
}

/// What an instruction finds when control reaches it.
pub struct Point {
    /// The kinds of the topmost values of the operand stack, the top last.
    pub stack: Seq<Type>,
    /// The locals that hold a value of their type because they were written. A local
    /// of type integer always holds an integer: it starts as zero.
    pub ready: Set<int>,
}

/// The static types of the functions of a program, in the order of the table.
pub struct ProgramTyping {
    pub functions: Seq<FunctionTyping>,
}

/// The kinds of the values, in order.
pub open spec fn kinds(values: Seq<Object>) -> Seq<Type> {
    values.map_values(|o: Object| o.spec_kind())
}

/// Whether `stack` ends with `top`.
pub open spec fn ends_with(stack: Seq<Type>, top: Seq<Type>) -> bool {
    top.len() <= stack.len() && stack.subrange(stack.len() - top.len(), stack.len() as int) == top
}

/// What is on the operand stack after a call that takes `arity` arguments and returns
/// a value of type `return_type`, or nothing for `Void`.
pub open spec fn after_call(stack: Seq<Type>, arity: int, return_type: Type) -> Seq<Type> {
    let rest = stack.subrange(0, stack.len() - arity);
    if return_type == Type::Void {
        rest
    } else {
        rest.push(return_type)
    }
}

/// Whether control can pass to the instruction at `target` with `stack` on the operand
/// stack and the locals `held` written: there is such an instruction, what it expects
/// is on top, and the locals that it expects to be written are.
pub open spec fn flows(
    typing: FunctionTyping,
    stack: Seq<Type>,
    held: Set<int>,
    target: int,
) -> bool {
    &&& 0 <= target < typing.points.len()
    &&& ends_with(stack, typing.points[target].stack)
    &&& typing.points[target].ready.subset_of(held)
}

/// Whether the local at `index` holds a value of its type where the locals `held`
/// were written.
pub open spec fn holds(own: FunctionTyping, held: Set<int>, index: int) -> bool {
    held.contains(index) || own.locals[index] == Type::Integer
}

/// Whether the locals have the kinds of their types, as far as they hold a value of
/// their type where the locals `held` were written.
pub open spec fn locals_typed(locals: Seq<Object>, own: FunctionTyping, held: Set<int>) -> bool {
    &&& locals.len() == own.locals.len()
    &&& forall|i: int|
        0 <= i < locals.len() && holds(own, held, i) ==> (#[trigger] locals[i]).spec_kind()
            == own.locals[i]
}

/// Whether an instruction other than a call, at `ip` of a function with the types
/// `own`, finds what it needs and leaves what its successors expect.
pub open spec fn local_typed(op: Opcode, pool: Seq<Object>, own: FunctionTyping, ip: int) -> bool {
    let stack = own.points[ip].stack;
    let held = own.points[ip].ready;
    let n = stack.len() as int;
    match op {
        Opcode::Nop => flows(own, stack, held, ip + 1),
        Opcode::Push(operand) => flows(
            own,
            stack.push(immediate(operand).spec_kind()),
            held,
            ip + 1,
        ),
        Opcode::Ldc(index) => index < pool.len() && flows(
            own,
            stack.push(pool[index as int].spec_kind()),
            held,
            ip + 1,
        ),
        Opcode::LLoad(index) => index < own.locals.len() && holds(own, held, index as int)
            && flows(own, stack.push(own.locals[index as int]), held, ip + 1),
        Opcode::LStore(index) => n >= 1 && index < own.locals.len() && stack[n - 1]
            == own.locals[index as int] && flows(
            own,
            stack.subrange(0, n - 1),
            held.insert(index as int),
            ip + 1,
        ),
        Opcode::IAdd => n >= 2 && stack[n - 1] == Type::Integer && stack[n - 2] == Type::Integer
            && flows(own, stack.subrange(0, n - 2).push(Type::Integer), held, ip + 1),
        Opcode::ISub => n >= 2 && stack[n - 1] == Type::Integer && stack[n - 2] == Type::Integer
            && flows(own, stack.subrange(0, n - 2).push(Type::Integer), held, ip + 1),
        Opcode::ICmpGT => n >= 2 && stack[n - 1] == Type::Integer && stack[n - 2]
            == Type::Integer && flows(
            own,
            stack.subrange(0, n - 2).push(Type::Boolean),
            held,
            ip + 1,
        ),
        Opcode::Jump(offset) => flows(own, stack, held, offset as int),
        Opcode::JumpIfFalse(offset) => n >= 1 && stack[n - 1] == Type::Boolean && flows(
            own,
            stack.subrange(0, n - 1),
            held,
            ip + 1,
        ) && flows(own, stack.subrange(0, n - 1), held, offset as int),
        Opcode::Invoke(_) => true,
        Opcode::Return => own.return_type == Type::Void,
        Opcode::IReturn => own.return_type != Type::Void && n >= 1 && stack[n - 1]
            == own.return_type,
    }
}

/// Whether a call of a function with `arity` parameters, at `ip` of a function with
/// the types `own`, finds its arguments and leaves what its successor expects. The
/// arguments must have the types `parameters`, if these are given.
pub open spec fn call_typed(
    own: FunctionTyping,
    ip: int,
    arity: int,
    parameters: Option<Seq<Type>>,
    return_type: Type,
) -> bool {
    let stack = own.points[ip].stack;
    let n = stack.len() as int;
    &&& 0 <= arity <= n
    &&& (parameters matches Some(types) ==> stack.subrange(n - arity, n) == types)
    &&& flows(own, after_call(stack, arity, return_type), own.points[ip].ready, ip + 1)
}

/// Whether the instruction at `ip` of the function at `f` finds what it needs and
/// leaves what its successors expect. A call is a call of the native function of its
/// name if there is one, else of the function of its name.
pub open spec fn instruction_typed(
    pool: Seq<Object>,
    functions: Seq<NamedFnView>,
    natives: Seq<NativeFnView>,
    typing: ProgramTyping,
    f: int,
    ip: int,
) -> bool {
    let own = typing.functions[f];
    match functions[f].function.code[ip] {
        Opcode::Invoke(name) => match native_index(natives, name@) {
            Some(k) => call_typed(
                own,
                ip,
                natives[k].prototype.arity as int,
                None,
                natives[k].prototype.return_type,
            ),
            None => match function_index(functions, name@) {
                None => false,
                Some(k) => call_typed(
                    own,
                    ip,
                    typing.functions[k].parameters.len() as int,
                    Some(typing.functions[k].parameters),
                    typing.functions[k].return_type,
                ),
            },
        },
        op => local_typed(op, pool, own, ip),
    }
}

/// Whether the types `own` fit the function: it has code, which starts on an empty
/// operand stack with no local written but the parameters; and its parameters are its
/// first locals.
pub open spec fn signature_typed(function: crate::program::DefinedFnView, own: FunctionTyping) -> bool {
    &&& function.code.len() > 0
    &&& own.points.len() == function.code.len()
    &&& own.points[0].stack.len() == 0
    &&& forall|i: int| own.points[0].ready.contains(i) ==> 0 <= i < function.arity
    &&& own.parameters.len() == function.arity
    &&& own.locals.len() == function.max_locals
    &&& function.arity <= function.max_locals
    &&& forall|i: int| 0 <= i < function.arity ==> #[trigger] own.locals[i] == own.parameters[i]
}

/// Whether the function at `f` is well typed: its types fit it, and each of its
/// instructions is well typed.
pub open spec fn function_typed(
    pool: Seq<Object>,
    functions: Seq<NamedFnView>,
    natives: Seq<NativeFnView>,
    typing: ProgramTyping,
    f: int,
) -> bool {
    &&& signature_typed(functions[f].function, typing.functions[f])
    &&& forall|ip: int|
        0 <= ip < functions[f].function.code.len() ==> #[trigger] instruction_typed(
            pool,
            functions,
            natives,
            typing,
            f,
            ip,
        )
}

/// Whether the machine can index the functions of the table and the instructions of
/// each of them.
pub open spec fn indexable(functions: Seq<NamedFnView>) -> bool {
    &&& functions.len() <= usize::MAX
    &&& forall|f: int|
        0 <= f < functions.len() ==> (#[trigger] functions[f]).function.code.len() <= usize::MAX
}

/// Whether each function of the program is well typed.
pub open spec fn functions_typed(
    pool: Seq<Object>,
    functions: Seq<NamedFnView>,
    natives: Seq<NativeFnView>,
    typing: ProgramTyping,
) -> bool {
    &&& typing.functions.len() == functions.len()
    &&& forall|f: int|
        0 <= f < functions.len() ==> #[trigger] function_typed(
            pool,
            functions,
            natives,
            typing,
            f,
        )
}

/// Whether the program is well typed: the machine can index it, and each of its
/// functions is well typed.
pub open spec fn program_typed(
    pool: Seq<Object>,
    functions: Seq<NamedFnView>,
    natives: Seq<NativeFnView>,
    typing: ProgramTyping,
) -> bool {
    indexable(functions) && functions_typed(pool, functions, natives, typing)
}

/// Whether a frame agrees with the types of its function at the instruction at which
/// it goes on, once a value of type `incoming` has come on top of its operand stack
/// (nothing for `Void`).
pub open spec fn frame_typed(
    functions: Seq<NamedFnView>,
    typing: ProgramTyping,
    frame: FrameView,
    incoming: Type,
) -> bool {
    let own = typing.functions[frame.function as int];
    &&& frame.function < functions.len()
    &&& frame.ip < own.points.len()
    &&& locals_typed(frame.locals, own, own.points[frame.ip as int].ready)
    &&& ends_with(
        if incoming == Type::Void {
            kinds(frame.stack)
        } else {
            kinds(frame.stack).push(incoming)
        },
        own.points[frame.ip as int].stack,
    )
}

/// The type of what the function of the frame above the `i`-th waiting frame returns:
/// that of the next waiting frame or, for the last one, of the running frame.
pub open spec fn awaited(typing: ProgramTyping, e: EngineView, i: int) -> Type {
    let callee = if i + 1 < e.frames.len() {
        e.frames[i + 1].function
    } else {
        e.frame.function
    };
    typing.functions[callee as int].return_type
}

/// Whether an engine that is not halted agrees with the types of its program, a value
/// of type `incoming` being on its way to the running frame (none for `Void`): the
/// running frame and every waiting frame agree with the types of their functions, and
/// the function that was called first returns nothing.
pub open spec fn engine_typed(typing: ProgramTyping, e: EngineView, incoming: Type) -> bool {
    &&& !e.halted
    &&& frame_typed(e.functions, typing, e.frame, incoming)
    &&& forall|i: int|
        0 <= i < e.frames.len() ==> frame_typed(
            e.functions,
            typing,
            #[trigger] e.frames[i],
            awaited(typing, e, i),
        )
    &&& typing.functions[(if e.frames.len() > 0 {
        e.frames[0].function
    } else {
        e.frame.function
    }) as int].return_type == Type::Void
}

} // verus!

//! A well-typed program does not go wrong: the engine never faults on it, and every
//! instruction finds values of the kinds that the types say.

use vstd::prelude::*;
use crate::bytecode::Opcode;
use crate::engine::frame::{zero, zeros, FrameView};
use crate::engine::model::{immediate, EngineView, SignalView, StepView};
use crate::engine::typing::{
    awaited,
    ends_with,
    engine_typed,
    flows,
    frame_typed,
    holds,
    locals_typed,
    function_typed,
    instruction_typed,
    kinds,
    program_typed,
    ProgramTyping,
};
use crate::object::{Object, Type};
use crate::program::{function_index, lemma_function_index};
use crate::stdlib::native_index;

verus! {

/// A stack that ends with a stack that ends with `c` ends with `c`.
pub proof fn lemma_ends_with_trans(a: Seq<Type>, b: Seq<Type>, c: Seq<Type>)
    requires
        ends_with(a, b),
        ends_with(b, c),
    ensures
        ends_with(a, c),
{
    let x = a.subrange(a.len() - b.len(), a.len() as int);
    assert(x == b);
    assert(a.subrange(a.len() - c.len(), a.len() as int) =~= x.subrange(
        b.len() - c.len(),
        b.len() as int,
    ));
}

/// One more value on both keeps the one ending with the other.
pub proof fn lemma_ends_with_push(a: Seq<Type>, b: Seq<Type>, x: Type)
    requires
        ends_with(a, b),
    ensures
        ends_with(a.push(x), b.push(x)),
{
    let top = a.subrange(a.len() - b.len(), a.len() as int);
    assert(a.push(x).subrange(a.len() + 1 - (b.len() + 1), a.len() as int + 1) =~= top.push(x));
}

/// The `i`-th value of a stack, counted from the top.
pub open spec fn from_top(stack: Seq<Type>, i: int) -> Type {
    stack[stack.len() - 1 - i]
}

/// Where a stack ends with another, the topmost `n` values of both are the same, and
/// without them the one still ends with the other.
pub proof fn lemma_ends_with_take(a: Seq<Type>, b: Seq<Type>, n: int)
    requires
        ends_with(a, b),
        0 <= n <= b.len(),
    ensures
        ends_with(a.subrange(0, a.len() - n), b.subrange(0, b.len() - n)),
        a.subrange(a.len() - n, a.len() as int) == b.subrange(b.len() - n, b.len() as int),
        forall|i: int| 0 <= i < n ==> #[trigger] from_top(a, i) == from_top(b, i),
{
    let top = a.subrange(a.len() - b.len(), a.len() as int);
    assert(top == b);
    assert(a.subrange(0, a.len() - n).subrange(
        a.len() - n - (b.len() - n),
        a.len() - n,
    ) =~= top.subrange(0, b.len() - n));
    assert(a.subrange(a.len() - n, a.len() as int) =~= top.subrange(
        b.len() - n,
        b.len() as int,
    ));
    assert forall|i: int| 0 <= i < n implies #[trigger] from_top(a, i) == from_top(b, i) by {
        assert(top[b.len() - 1 - i] == a[a.len() - b.len() + (b.len() - 1 - i)]);
    }
}

/// Every stack ends with itself.
pub proof fn lemma_ends_with_self(a: Seq<Type>)
    ensures
        ends_with(a, a),
{
    assert(a.subrange(0, a.len() as int) =~= a);
}

/// The kinds of values with one more value are the kinds of the values with the kind
/// of that value.
pub proof fn lemma_kinds_push(values: Seq<Object>, value: Object)
    ensures
        kinds(values.push(value)) == kinds(values).push(value.spec_kind()),
{
    assert(kinds(values.push(value)) =~= kinds(values).push(value.spec_kind()));
}

/// The kinds of a part of the values are that part of the kinds of the values.
pub proof fn lemma_kinds_subrange(values: Seq<Object>, from: int, to: int)
    requires
        0 <= from <= to <= values.len(),
    ensures
        kinds(values.subrange(from, to)) == kinds(values).subrange(from, to),
{
    assert(kinds(values.subrange(from, to)) =~= kinds(values).subrange(from, to));
}

/// What holds of the running frame of a well-typed engine: its function is well
/// typed, its next instruction exists and is well typed, and the operand stack ends
/// with what that instruction expects.
pub proof fn lemma_running_frame(typing: ProgramTyping, e: EngineView)
    requires
        program_typed(e.pool, e.functions, e.natives, typing),
        engine_typed(typing, e, Type::Void),
    ensures
        e.frame.function < e.functions.len(),
        function_typed(e.pool, e.functions, e.natives, typing, e.frame.function as int),
        e.frame.ip < e.code().len(),
        instruction_typed(
            e.pool,
            e.functions,
            e.natives,
            typing,
            e.frame.function as int,
            e.frame.ip as int,
        ),
        ends_with(
            kinds(e.frame.stack),
            typing.functions[e.frame.function as int].points[e.frame.ip as int].stack,
        ),
        locals_typed(
            e.frame.locals,
            typing.functions[e.frame.function as int],
            typing.functions[e.frame.function as int].points[e.frame.ip as int].ready,
        ),
{
    let f = e.frame.function as int;
    assert(function_typed(e.pool, e.functions, e.natives, typing, f));
    assert(instruction_typed(e.pool, e.functions, e.natives, typing, f, e.frame.ip as int));
}

/// What holds after an instruction that goes on in the running frame with the operand
/// stack `stack`, where what the types say is then on the stack can pass to the target:
/// the engine still agrees with the types, a value of type `incoming` being on its way.
pub proof fn lemma_goes_on(
    typing: ProgramTyping,
    e: EngineView,
    stack: Seq<Object>,
    locals: Seq<Object>,
    expected: Seq<Type>,
    held: Set<int>,
    target: int,
    incoming: Type,
)
    requires
        engine_typed(typing, e, Type::Void),
        0 <= target <= usize::MAX,
        flows(
            typing.functions[e.frame.function as int],
            if incoming == Type::Void {
                expected
            } else {
                expected.push(incoming)
            },
            held,
            target,
        ),
        ends_with(kinds(stack), expected),
        locals_typed(locals, typing.functions[e.frame.function as int], held),
    ensures
        engine_typed(
            typing,
            EngineView {
                frame: FrameView { ip: target as usize, stack, locals, ..e.frame },
                ..e
            },
            incoming,
        ),
{
    let own = typing.functions[e.frame.function as int];
    let after = EngineView {
        frame: FrameView { ip: target as usize, stack, locals, ..e.frame },
        ..e
    };
    assert(locals_typed(locals, own, own.points[target].ready)) by {
        assert forall|i: int|
            0 <= i < locals.len() && holds(own, own.points[target].ready, i) implies (#[trigger] locals[i]).spec_kind()
                == own.locals[i] by {
            assert(holds(own, held, i));
        }
    }
    if incoming == Type::Void {
        lemma_ends_with_trans(kinds(stack), expected, own.points[target].stack);
    } else {
        lemma_ends_with_push(kinds(stack), expected, incoming);
        lemma_ends_with_trans(
            kinds(stack).push(incoming),
            expected.push(incoming),
            own.points[target].stack,
        );
    }
    assert forall|i: int| 0 <= i < after.frames.len() implies frame_typed(
        after.functions,
        typing,
        #[trigger] after.frames[i],
        awaited(typing, after, i),
    ) by {
        assert(frame_typed(e.functions, typing, e.frames[i], awaited(typing, e, i)));
    }
}

/// The engine does not fault on a well-typed program, and it goes on agreeing with the
/// types. One step of an engine that agrees with the types of its well-typed program
/// ends in one of three ways: the engine goes on and agrees with the types; or the
/// program has ended; or a native function is called with as many arguments as its
/// arity, and the engine agrees with the types once a value of the native function's
/// return type has come back.
pub proof fn lemma_step_is_safe(typing: ProgramTyping, e: EngineView)
    requires
        program_typed(e.pool, e.functions, e.natives, typing),
        engine_typed(typing, e, Type::Void),
    ensures
        e.step().engine.pool == e.pool,
        e.step().engine.functions == e.functions,
        e.step().engine.natives == e.natives,
        match e.step().signal {
            SignalView::Continue => engine_typed(typing, e.step().engine, Type::Void),
            SignalView::Halted => e.step().engine.halted && e.step().engine.frames.len() == 0,
            SignalView::Native { name, arguments } => {
                &&& native_index(e.natives, name) matches Some(k)
                &&& arguments.len() == e.natives[k].prototype.arity
                &&& engine_typed(typing, e.step().engine, e.natives[k].prototype.return_type)
            },
            SignalView::Fault { .. } => false,
        },
{
    lemma_running_frame(typing, e);
    let f = e.frame.function as int;
    let ip = e.frame.ip as int;
    let own = typing.functions[f];
    let expected = own.points[ip].stack;
    let held = own.points[ip].ready;
    let n = expected.len() as int;
    let stack = e.frame.stack;
    let m = stack.len() as int;
    let op = e.code()[ip];
    assert(e.step() == e.execute(op));
    assert(op == e.functions[f].function.code[ip]);
    match op {
        Opcode::Nop => {
            lemma_goes_on(typing, e, stack, e.frame.locals, expected, held, ip + 1, Type::Void);
        },
        Opcode::Push(operand) => {
            let value = immediate(operand);
            lemma_kinds_push(stack, value);
            lemma_ends_with_push(kinds(stack), expected, value.spec_kind());
            lemma_goes_on(typing, e, stack.push(value), e.frame.locals, expected.push(value.spec_kind()), held, ip + 1, Type::Void);
        },
        Opcode::Ldc(index) => {
            let value = e.pool[index as int];
            lemma_kinds_push(stack, value);
            lemma_ends_with_push(kinds(stack), expected, value.spec_kind());
            lemma_goes_on(typing, e, stack.push(value), e.frame.locals, expected.push(value.spec_kind()), held, ip + 1, Type::Void);
        },
        Opcode::LLoad(index) => {
            let value = e.frame.locals[index as int];
            assert(holds(own, held, index as int));
            assert(value.spec_kind() == own.locals[index as int]);
            lemma_kinds_push(stack, value);
            lemma_ends_with_push(kinds(stack), expected, value.spec_kind());
            lemma_goes_on(typing, e, stack.push(value), e.frame.locals, expected.push(value.spec_kind()), held, ip + 1, Type::Void);
        },
        Opcode::LStore(index) => {
            assert(kinds(stack).len() == m);
            lemma_ends_with_take(kinds(stack), expected, 1);
            lemma_kinds_subrange(stack, 0, m - 1);
            assert(stack.drop_last() =~= stack.subrange(0, m - 1));
            let locals = e.frame.locals.update(index as int, stack.last());
            assert(from_top(kinds(stack), 0) == from_top(expected, 0));
            assert(kinds(stack)[m - 1] == stack.last().spec_kind());
            assert(locals_typed(locals, own, held.insert(index as int))) by {
                assert forall|i: int|
                    0 <= i < locals.len() && holds(
                        own,
                        held.insert(index as int),
                        i,
                    ) implies (#[trigger] locals[i]).spec_kind() == own.locals[i] by {
                    if i != index {
                        assert(locals[i] == e.frame.locals[i]);
                        assert(holds(own, held, i));
                    }
                }
            }
            lemma_goes_on(typing, e, stack.drop_last(), locals, expected.subrange(0, n - 1), held.insert(index as int), ip + 1, Type::Void);
        },
        Opcode::IAdd => {
            lemma_integers(typing, e, Type::Integer);
        },
        Opcode::ISub => {
            lemma_integers(typing, e, Type::Integer);
        },
        Opcode::ICmpGT => {
            lemma_integers(typing, e, Type::Boolean);
        },
        Opcode::Jump(offset) => {
            lemma_goes_on(typing, e, stack, e.frame.locals, expected, held, offset as int, Type::Void);
        },
        Opcode::JumpIfFalse(offset) => {
            assert(kinds(stack).len() == m);
            lemma_ends_with_take(kinds(stack), expected, 1);
            lemma_kinds_subrange(stack, 0, m - 1);
            assert(stack.drop_last() =~= stack.subrange(0, m - 1));
            assert(from_top(kinds(stack), 0) == from_top(expected, 0));
            assert(kinds(stack)[m - 1] == stack.last().spec_kind());
            lemma_goes_on(typing, e, stack.drop_last(), e.frame.locals, expected.subrange(0, n - 1), held, ip + 1, Type::Void);
            lemma_goes_on(typing, e, stack.drop_last(), e.frame.locals, expected.subrange(0, n - 1), held, offset as int, Type::Void);
        },
        Opcode::Invoke(name) => {
            lemma_invoke(typing, e, name@);
        },
        Opcode::Return => {
            lemma_leave(typing, e);
        },
        Opcode::IReturn => {
            lemma_leave_with_value(typing, e);
        },
    }
}

/// An instruction on two integers that is well typed finds two integers and goes on
/// with its result in their place.
proof fn lemma_integers(typing: ProgramTyping, e: EngineView, result: Type)
    requires
        program_typed(e.pool, e.functions, e.natives, typing),
        engine_typed(typing, e, Type::Void),
        ({
            let expected = typing.functions[e.frame.function as int].points[e.frame.ip as int].stack;
            let n = expected.len() as int;
            &&& n >= 2
            &&& expected[n - 1] == Type::Integer
            &&& expected[n - 2] == Type::Integer
            &&& flows(
                typing.functions[e.frame.function as int],
                expected.subrange(0, n - 2).push(result),
                typing.functions[e.frame.function as int].points[e.frame.ip as int].ready,
                e.frame.ip + 1,
            )
        }),
    ensures
        forall|operation: spec_fn(i32, i32) -> Object|
            (forall|lhs: i32, rhs: i32| (#[trigger] operation(lhs, rhs)).spec_kind() == result)
                ==> {
                &&& (#[trigger] e.integers(operation)).signal is Continue
                &&& engine_typed(typing, e.integers(operation).engine, Type::Void)
                &&& e.integers(operation).engine.pool == e.pool
                &&& e.integers(operation).engine.functions == e.functions
                &&& e.integers(operation).engine.natives == e.natives
            },
{
    lemma_running_frame(typing, e);
    let own = typing.functions[e.frame.function as int];
    let ip = e.frame.ip as int;
    let expected = own.points[ip].stack;
    let held = own.points[ip].ready;
    let n = expected.len() as int;
    let stack = e.frame.stack;
    let m = stack.len() as int;
    assert(kinds(stack).len() == m);
    lemma_ends_with_take(kinds(stack), expected, 2);
    lemma_kinds_subrange(stack, 0, m - 2);
    assert(kinds(stack)[m - 1] == stack[m - 1].spec_kind());
    assert(kinds(stack)[m - 2] == stack[m - 2].spec_kind());
    assert(from_top(kinds(stack), 0) == from_top(expected, 0));
    assert(from_top(kinds(stack), 1) == from_top(expected, 1));
    assert forall|operation: spec_fn(i32, i32) -> Object|
        (forall|lhs: i32, rhs: i32|
            (#[trigger] operation(lhs, rhs)).spec_kind() == result) implies {
        &&& (#[trigger] e.integers(operation)).signal is Continue
        &&& engine_typed(typing, e.integers(operation).engine, Type::Void)
        &&& e.integers(operation).engine.pool == e.pool
        &&& e.integers(operation).engine.functions == e.functions
        &&& e.integers(operation).engine.natives == e.natives
    } by {
        let lhs = stack[m - 2]->Integer_0;
        let rhs = stack[m - 1]->Integer_0;
        let value = operation(lhs, rhs);
        lemma_kinds_push(stack.subrange(0, m - 2), value);
        lemma_ends_with_push(
            kinds(stack.subrange(0, m - 2)),
            expected.subrange(0, n - 2),
            result,
        );
        lemma_goes_on(typing, e, stack.subrange(0, m - 2).push(value), e.frame.locals, expected.subrange(0, n - 2).push(result), held, ip + 1, Type::Void);
    }
}

/// A call that is well typed finds its arguments. A native call hands them to the
/// host; a call of a function starts the function in a frame that agrees with its
/// types, and the caller waits for its result.
proof fn lemma_invoke(typing: ProgramTyping, e: EngineView, name: Seq<char>)
    requires
        program_typed(e.pool, e.functions, e.natives, typing),
        engine_typed(typing, e, Type::Void),
        e.frame.ip < e.code().len(),
        e.code()[e.frame.ip as int] matches Opcode::Invoke(called) && called@ == name,
    ensures
        e.invoke(name).engine.pool == e.pool,
        e.invoke(name).engine.functions == e.functions,
        e.invoke(name).engine.natives == e.natives,
        match e.invoke(name).signal {
            SignalView::Continue => engine_typed(typing, e.invoke(name).engine, Type::Void),
            SignalView::Halted => false,
            SignalView::Native { name: called, arguments } => {
                &&& native_index(e.natives, called) matches Some(k)
                &&& arguments.len() == e.natives[k].prototype.arity
                &&& engine_typed(typing, e.invoke(name).engine, e.natives[k].prototype.return_type)
            },
            SignalView::Fault { .. } => false,
        },
{
    lemma_running_frame(typing, e);
    let f = e.frame.function as int;
    let ip = e.frame.ip as int;
    let own = typing.functions[f];
    let expected = own.points[ip].stack;
    let held = own.points[ip].ready;
    let n = expected.len() as int;
    let stack = e.frame.stack;
    let m = stack.len() as int;
    assert(kinds(stack).len() == m);
    assert(e.code()[ip] == e.functions[f].function.code[ip]);
    match native_index(e.natives, name) {
        Some(k) => {
            lemma_native_index(e.natives, name);
            let prototype = e.natives[k].prototype;
            let arity = prototype.arity as int;
            lemma_ends_with_take(kinds(stack), expected, arity);
            lemma_kinds_subrange(stack, 0, m - arity);
            lemma_goes_on(typing, e, stack.subrange(0, m - arity), e.frame.locals, expected.subrange(0, n - arity), held, ip + 1, prototype.return_type);
        },
        None => {
            let k = function_index(e.functions, name)->Some_0;
            lemma_function_index(e.functions, name);
            assert(function_typed(e.pool, e.functions, e.natives, typing, k));
            let callee = typing.functions[k];
            let arity = callee.parameters.len() as int;
            lemma_ends_with_take(kinds(stack), expected, arity);
            lemma_kinds_subrange(stack, 0, m - arity);
            lemma_kinds_subrange(stack, m - arity, m);
            lemma_goes_on(typing, e, stack.subrange(0, m - arity), e.frame.locals, expected.subrange(0, n - arity), held, ip + 1, callee.return_type);
            lemma_enter(typing, e, k);
        },
    }
}

/// What holds when a function is entered with well-typed arguments while the caller,
/// already behind the call, agrees with the types once the result has come: the
/// engine agrees with the types.
proof fn lemma_enter(typing: ProgramTyping, e: EngineView, k: int)
    requires
        program_typed(e.pool, e.functions, e.natives, typing),
        engine_typed(typing, e, Type::Void),
        0 <= k < e.functions.len(),
        e.frame.stack.len() >= e.functions[k].function.arity,
        kinds(
            e.frame.stack.subrange(
                e.frame.stack.len() - e.functions[k].function.arity,
                e.frame.stack.len() as int,
            ),
        ) == typing.functions[k].parameters,
        engine_typed(
            typing,
            e.proceed(
                e.frame.stack.subrange(0, e.frame.stack.len() - e.functions[k].function.arity),
            ).engine,
            typing.functions[k].return_type,
        ),
    ensures
        e.invoke_function(k).signal is Continue,
        engine_typed(typing, e.invoke_function(k).engine, Type::Void),
{
    assert(function_typed(e.pool, e.functions, e.natives, typing, k));
    let callee = typing.functions[k];
    let target = e.functions[k].function;
    let arity = target.arity as int;
    let stack = e.frame.stack;
    let m = stack.len() as int;
    let caller = e.proceed(stack.subrange(0, m - arity)).engine;
    let waiting = caller.frame;
    let after = e.invoke_function(k).engine;
    let locals = stack.subrange(m - arity, m) + zeros((target.max_locals - arity) as nat);
    assert(after.frame.locals == locals);
    assert(locals_typed(locals, callee, callee.points[0].ready)) by {
        assert forall|i: int|
            0 <= i < locals.len() && holds(callee, callee.points[0].ready, i) implies (#[trigger] locals[i]).spec_kind()
                == callee.locals[i] by {
            if i < arity {
                assert(locals[i] == stack.subrange(m - arity, m)[i]);
                assert(kinds(stack.subrange(m - arity, m))[i] == callee.parameters[i]);
                assert(kinds(stack.subrange(m - arity, m))[i] == locals[i].spec_kind());
            } else {
                assert(locals[i] == zero());
                assert(!callee.points[0].ready.contains(i));
            }
        }
    }
    lemma_ends_with_self(Seq::<Type>::empty());
    assert(kinds(after.frame.stack) =~= Seq::<Type>::empty());
    assert(callee.points[0].stack =~= Seq::<Type>::empty());
    assert(after.frame.function == k);
    assert(after.frame.ip == 0);
    assert(frame_typed(after.functions, typing, after.frame, Type::Void));
    assert(after.frames == e.frames.push(waiting));
    assert(frame_typed(e.functions, typing, waiting, callee.return_type));
    assert forall|i: int| 0 <= i < after.frames.len() implies frame_typed(
        after.functions,
        typing,
        #[trigger] after.frames[i],
        awaited(typing, after, i),
    ) by {
        if i < e.frames.len() {
            assert(after.frames[i] == e.frames[i]);
            assert(frame_typed(e.functions, typing, e.frames[i], awaited(typing, e, i)));
            if i + 1 < e.frames.len() {
                assert(after.frames[i + 1] == e.frames[i + 1]);
            } else {
                assert(after.frames[i + 1] == waiting);
            }
            assert(awaited(typing, after, i) == awaited(typing, e, i));
        } else {
            assert(after.frames[i] == waiting);
            assert(awaited(typing, after, i) == callee.return_type);
        }
    }
    if e.frames.len() > 0 {
        assert(after.frames[0] == e.frames[0]);
    } else {
        assert(after.frames[0] == waiting);
    }
}

/// The place that a name has in the table of native functions is a place of the table,
/// and the native function there has that name.
pub proof fn lemma_native_index(natives: Seq<crate::stdlib::NativeFnView>, name: Seq<char>)
    requires
        native_index(natives, name).is_some(),
    ensures
        0 <= native_index(natives, name).unwrap() < natives.len(),
        natives[native_index(natives, name).unwrap()].name == name,
    decreases natives.len(),
{
    if natives.last().name != name {
        lemma_native_index(natives.drop_last(), name);
    }
}

/// A `Return` that is well typed ends the program or lets the caller go on.
proof fn lemma_leave(typing: ProgramTyping, e: EngineView)
    requires
        program_typed(e.pool, e.functions, e.natives, typing),
        engine_typed(typing, e, Type::Void),
        typing.functions[e.frame.function as int].return_type == Type::Void,
    ensures
        e.leave().engine.pool == e.pool,
        e.leave().engine.functions == e.functions,
        e.leave().engine.natives == e.natives,
        match e.leave().signal {
            SignalView::Continue => engine_typed(typing, e.leave().engine, Type::Void),
            SignalView::Halted => e.leave().engine.halted && e.leave().engine.frames.len() == 0,
            _ => false,
        },
{
    if e.frames.len() > 0 {
        let after = e.leave().engine;
        let last = e.frames.len() - 1;
        assert(frame_typed(e.functions, typing, e.frames[last], awaited(typing, e, last)));
        lemma_frames_stay(typing, e, after);
    }
}

/// What holds of the waiting frames when the running frame has left and its caller
/// runs: they agree with the types as before.
proof fn lemma_frames_stay(typing: ProgramTyping, e: EngineView, after: EngineView)
    requires
        engine_typed(typing, e, Type::Void),
        e.frames.len() > 0,
        after.frames == e.frames.drop_last(),
        after.frame.function == e.frames.last().function,
        after.functions == e.functions,
    ensures
        forall|i: int|
            0 <= i < after.frames.len() ==> frame_typed(
                after.functions,
                typing,
                #[trigger] after.frames[i],
                awaited(typing, after, i),
            ),
        typing.functions[(if after.frames.len() > 0 {
            after.frames[0].function
        } else {
            after.frame.function
        }) as int].return_type == Type::Void,
{
    assert forall|i: int| 0 <= i < after.frames.len() implies frame_typed(
        after.functions,
        typing,
        #[trigger] after.frames[i],
        awaited(typing, after, i),
    ) by {
        assert(after.frames[i] == e.frames[i]);
        assert(frame_typed(e.functions, typing, e.frames[i], awaited(typing, e, i)));
        if i + 1 < after.frames.len() {
            assert(after.frames[i + 1] == e.frames[i + 1]);
        }
    }
    if after.frames.len() > 0 {
        assert(after.frames[0] == e.frames[0]);
    }
}

/// An `IReturn` that is well typed finds the value and a caller, and the caller goes
/// on with the value.
proof fn lemma_leave_with_value(typing: ProgramTyping, e: EngineView)
    requires
        program_typed(e.pool, e.functions, e.natives, typing),
        engine_typed(typing, e, Type::Void),
        ({
            let own = typing.functions[e.frame.function as int];
            let expected = own.points[e.frame.ip as int].stack;
            &&& own.return_type != Type::Void
            &&& expected.len() >= 1
            &&& expected[expected.len() - 1] == own.return_type
        }),
    ensures
        e.leave_with_value().engine.pool == e.pool,
        e.leave_with_value().engine.functions == e.functions,
        e.leave_with_value().engine.natives == e.natives,
        e.leave_with_value().signal is Continue,
        engine_typed(typing, e.leave_with_value().engine, Type::Void),
{
    lemma_running_frame(typing, e);
    let own = typing.functions[e.frame.function as int];
    let expected = own.points[e.frame.ip as int].stack;
    let stack = e.frame.stack;
    let m = stack.len() as int;
    assert(kinds(stack).len() == m);
    lemma_ends_with_take(kinds(stack), expected, 1);
    assert(kinds(stack)[m - 1] == stack.last().spec_kind());
    assert(from_top(kinds(stack), 0) == from_top(expected, 0));
    let after = e.leave_with_value().engine;
    let last = e.frames.len() - 1;
    assert(frame_typed(e.functions, typing, e.frames[last], awaited(typing, e, last)));
    lemma_kinds_push(e.frames[last].stack, stack.last());
    lemma_frames_stay(typing, e, after);
}

/// Handing back a value of the awaited type lets the engine go on in agreement with
/// the types.
pub proof fn lemma_resume_is_safe(
    typing: ProgramTyping,
    e: EngineView,
    incoming: Type,
    result: Option<Object>,
)
    requires
        engine_typed(typing, e, incoming),
        match result {
            Some(value) => value.spec_kind() == incoming,
            None => incoming == Type::Void,
        },
    ensures
        engine_typed(typing, e.resume(result), Type::Void),
{
    let after = e.resume(result);
    match result {
        Some(value) => {
            lemma_kinds_push(e.frame.stack, value);
        },
        None => {},
    }
    assert forall|i: int| 0 <= i < after.frames.len() implies frame_typed(
        after.functions,
        typing,
        #[trigger] after.frames[i],
        awaited(typing, after, i),
    ) by {
        assert(frame_typed(e.functions, typing, e.frames[i], awaited(typing, e, i)));
    }
}

/// Whether a run ended as a well-typed program can end: in agreement with the types
/// and with steps left to make; or with the program ended and no caller left; or with
/// a well-typed call of a native function, the engine agreeing with the types once a
/// value of the native function's return type has come back.
pub open spec fn ended_well(typing: ProgramTyping, end: StepView) -> bool {
    match end.signal {
        SignalView::Continue => engine_typed(typing, end.engine, Type::Void),
        SignalView::Halted => end.engine.halted && end.engine.frames.len() == 0,
        SignalView::Native { name, arguments } => {
            &&& native_index(end.engine.natives, name) matches Some(k)
            &&& arguments.len() == end.engine.natives[k].prototype.arity
            &&& engine_typed(typing, end.engine, end.engine.natives[k].prototype.return_type)
        },
        SignalView::Fault { .. } => false,
    }
}

/// A well-typed program does not go wrong. A run of an engine that agrees with the
/// types of its well-typed program never ends with a fault, however many steps it
/// makes: it ends as a well-typed program can end.
pub proof fn lemma_run_is_safe(typing: ProgramTyping, e: EngineView, fuel: nat)
    requires
        program_typed(e.pool, e.functions, e.natives, typing),
        engine_typed(typing, e, Type::Void),
    ensures
        ended_well(typing, e.run(fuel)),
        e.run(fuel).engine.pool == e.pool,
        e.run(fuel).engine.functions == e.functions,
        e.run(fuel).engine.natives == e.natives,
    decreases fuel,
{
    if fuel > 0 {
        lemma_step_is_safe(typing, e);
        if e.step().signal is Continue {
            lemma_run_is_safe(typing, e.step().engine, (fuel - 1) as nat);
        }
    }
}

/// The frame in which `main` starts agrees with the types of a well-typed program in
/// which `main` takes no parameter and returns nothing.
pub proof fn lemma_start_is_typed(typing: ProgramTyping, e: EngineView, k: int)
    requires
        program_typed(e.pool, e.functions, e.natives, typing),
        0 <= k < e.functions.len(),
        e.functions[k].function.arity == 0,
        typing.functions[k].return_type == Type::Void,
    ensures
        engine_typed(
            typing,
            EngineView {
                frame: FrameView::fresh(
                    e.functions[k].name,
                    k as usize,
                    e.functions[k].function.max_locals as nat,
                ),
                halted: false,
                frames: Seq::empty(),
                ..e
            },
            Type::Void,
        ),
{
    assert(function_typed(e.pool, e.functions, e.natives, typing, k));
    let own = typing.functions[k];
    let frame = FrameView::fresh(
        e.functions[k].name,
        k as usize,
        e.functions[k].function.max_locals as nat,
    );
    assert(locals_typed(frame.locals, own, own.points[0].ready)) by {
        assert forall|i: int|
            0 <= i < frame.locals.len() && holds(own, own.points[0].ready, i) implies (#[trigger] frame.locals[i]).spec_kind()
                == own.locals[i] by {
            assert(frame.locals[i] == zero());
            assert(!own.points[0].ready.contains(i));
        }
    }
    assert(kinds(frame.stack) =~= Seq::<Type>::empty());
    assert(own.points[0].stack =~= Seq::<Type>::empty());
    lemma_ends_with_self(Seq::<Type>::empty());
}

/// Every instruction finds values of the kinds that the types say. In an engine that
/// agrees with the types of its well-typed program, the topmost values of the operand
/// stack have the kinds that the types give for the next instruction, and every local
/// that is an integer or was written has the kind that the types give it.
pub proof fn lemma_values_have_their_kinds(typing: ProgramTyping, e: EngineView, i: int)
    requires
        program_typed(e.pool, e.functions, e.natives, typing),
        engine_typed(typing, e, Type::Void),
        0 <= i < typing.functions[e.frame.function as int].points[e.frame.ip as int].stack.len(),
    ensures
        i < e.frame.stack.len(),
        e.frame.stack[e.frame.stack.len() - 1 - i].spec_kind() == from_top(
            typing.functions[e.frame.function as int].points[e.frame.ip as int].stack,
            i,
        ),
        forall|j: int|
            0 <= j < e.frame.locals.len() && holds(
                typing.functions[e.frame.function as int],
                typing.functions[e.frame.function as int].points[e.frame.ip as int].ready,
                j,
            ) ==> (#[trigger] e.frame.locals[j]).spec_kind()
                == typing.functions[e.frame.function as int].locals[j],
{
    lemma_running_frame(typing, e);
    let expected = typing.functions[e.frame.function as int].points[e.frame.ip as int].stack;
    let stack = e.frame.stack;
    assert(kinds(stack).len() == stack.len());
    lemma_ends_with_take(kinds(stack), expected, expected.len() as int);
    assert(from_top(kinds(stack), i) == from_top(expected, i));
}

/// Every instruction finds operands of its kind. In an engine that agrees with the
/// types of its well-typed program, an instruction on two integers finds two integers
/// on top of the operand stack, a conditional jump finds a boolean, and a return with
/// a value finds a value of the kind that the function returns.
pub proof fn lemma_instruction_finds_its_operands(typing: ProgramTyping, e: EngineView)
    requires
        program_typed(e.pool, e.functions, e.natives, typing),
        engine_typed(typing, e, Type::Void),
    ensures
        e.frame.ip < e.code().len(),
        match e.code()[e.frame.ip as int] {
            Opcode::IAdd | Opcode::ISub | Opcode::ICmpGT => {
                let n = e.frame.stack.len() as int;
                n >= 2 && e.frame.stack[n - 1] is Integer && e.frame.stack[n - 2] is Integer
            },
            Opcode::JumpIfFalse(_) => e.frame.stack.len() >= 1 && e.frame.stack.last() is Boolean,
            Opcode::IReturn => e.frame.stack.len() >= 1 && e.frame.stack.last().spec_kind()
                == typing.functions[e.frame.function as int].return_type,
            _ => true,
        },
{
    lemma_running_frame(typing, e);
    let expected = typing.functions[e.frame.function as int].points[e.frame.ip as int].stack;
    let op = e.code()[e.frame.ip as int];
    assert(op == e.functions[e.frame.function as int].function.code[e.frame.ip as int]);
    match op {
        Opcode::IAdd | Opcode::ISub | Opcode::ICmpGT => {
            lemma_values_have_their_kinds(typing, e, 0);
            lemma_values_have_their_kinds(typing, e, 1);
        },
        Opcode::JumpIfFalse(_) => {
            lemma_values_have_their_kinds(typing, e, 0);
        },
        Opcode::IReturn => {
            lemma_values_have_their_kinds(typing, e, 0);
        },
        _ => {},
    }
}

} // verus!

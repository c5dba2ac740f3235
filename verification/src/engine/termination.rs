//! A well-typed program without recursion comes to an end: the number of steps that
//! the engine can still make is bounded, and every step lowers the bound.

use vstd::prelude::*;
use crate::bytecode::Opcode;
use crate::engine::frame::FrameView;
use crate::engine::model::EngineView;
use crate::engine::safety::{ended_well, lemma_step_is_safe};
use crate::engine::typing::{engine_typed, indexable, program_typed, ProgramTyping};
use crate::object::Type;
use crate::program::{function_index, lemma_function_index, NamedFnView};
use crate::stdlib::{native_index, NativeFnView};

verus! {

/// The place in the table of the function that an instruction calls, if it calls one
/// that is no native function.
pub open spec fn callee(
    functions: Seq<NamedFnView>,
    natives: Seq<NativeFnView>,
    op: Opcode,
) -> Option<int> {
    match op {
        Opcode::Invoke(name) => if native_index(natives, name@) is Some {
            None
        } else {
            function_index(functions, name@)
        },
        _ => None,
    }
}

/// Whether every jump goes forward.
pub open spec fn jumps_forward(functions: Seq<NamedFnView>) -> bool {
    forall|k: int, ip: int|
        0 <= k < functions.len() && 0 <= ip < functions[k].function.code.len() ==> (match #[trigger] functions[k].function.code[ip] {
            Opcode::Jump(offset) => offset > ip,
            Opcode::JumpIfFalse(offset) => offset > ip,
            _ => true,
        })
}

/// Whether every function calls only native functions and functions that stand before
/// it in the table, so that no function calls itself, directly or through others.
pub open spec fn calls_back(functions: Seq<NamedFnView>, natives: Seq<NativeFnView>) -> bool {
    forall|k: int, ip: int|
        0 <= k < functions.len() && 0 <= ip < functions[k].function.code.len() ==> (callee(
            functions,
            natives,
            #[trigger] functions[k].function.code[ip],
        ) matches Some(j) ==> j < k)
}

/// Whether no function calls a function that stands behind it in the table.
pub open spec fn calls_no_later(functions: Seq<NamedFnView>, natives: Seq<NativeFnView>) -> bool {
    forall|k: int, ip: int|
        0 <= k < functions.len() && 0 <= ip < functions[k].function.code.len() ==> (callee(
            functions,
            natives,
            #[trigger] functions[k].function.code[ip],
        ) matches Some(j) ==> j <= k)
}

/// Whether no function calls a function of its own name.
pub open spec fn calls_no_self(functions: Seq<NamedFnView>) -> bool {
    forall|k: int, ip: int|
        0 <= k < functions.len() && 0 <= ip < functions[k].function.code.len() ==> ((
        #[trigger] functions[k].function.code[ip]) matches Opcode::Invoke(name) ==> name@
            != functions[k].name)
}

/// A program in which no function calls a later one or one of its own name is without
/// recursion.
pub proof fn lemma_calls_back(functions: Seq<NamedFnView>, natives: Seq<NativeFnView>)
    requires
        calls_no_later(functions, natives),
        calls_no_self(functions),
    ensures
        calls_back(functions, natives),
{
    assert forall|k: int, ip: int|
        0 <= k < functions.len() && 0 <= ip < functions[k].function.code.len() implies (callee(
        functions,
        natives,
        #[trigger] functions[k].function.code[ip],
    ) matches Some(j) ==> j < k) by {
        let op = functions[k].function.code[ip];
        if let Opcode::Invoke(name) = op {
            lemma_function_index(functions, name@);
        }
    }
}

/// A bound on the steps that the function at `k` can still make from the instruction
/// at `ip` on: one for each instruction, and for each call those of the called
/// function.
pub open spec fn steps_left(
    functions: Seq<NamedFnView>,
    natives: Seq<NativeFnView>,
    k: nat,
    ip: nat,
) -> nat
    decreases k, functions[k as int].function.code.len() - ip,
{
    if k >= functions.len() || ip >= functions[k as int].function.code.len() {
        0
    } else {
        let called: nat = match callee(functions, natives, functions[k as int].function.code[ip as int]) {
            Some(j) => if 0 <= j < k {
                steps_left(functions, natives, j as nat, 0)
            } else {
                0
            },
            None => 0,
        };
        1 + called + steps_left(functions, natives, k, ip + 1)
    }
}

/// A bound on the steps that the waiting frames can still make.
pub open spec fn frames_left(
    functions: Seq<NamedFnView>,
    natives: Seq<NativeFnView>,
    frames: Seq<FrameView>,
) -> nat
    decreases frames.len(),
{
    if frames.len() == 0 {
        0
    } else {
        frames_left(functions, natives, frames.drop_last()) + steps_left(
            functions,
            natives,
            frames.last().function as nat,
            frames.last().ip as nat,
        )
    }
}

/// A bound on the steps that the engine can still make.
pub open spec fn bound(e: EngineView) -> nat {
    steps_left(e.functions, e.natives, e.frame.function as nat, e.frame.ip as nat) + frames_left(
        e.functions,
        e.natives,
        e.frames,
    )
}

/// From a later instruction on a function can make at most as many steps as from an
/// earlier one on.
pub proof fn lemma_steps_left_falls(
    functions: Seq<NamedFnView>,
    natives: Seq<NativeFnView>,
    k: nat,
    ip: nat,
    later: nat,
)
    requires
        ip <= later,
    ensures
        steps_left(functions, natives, k, later) <= steps_left(functions, natives, k, ip),
    decreases later - ip,
{
    if ip < later {
        lemma_steps_left_falls(functions, natives, k, ip + 1, later);
    }
}

/// Going on at a later instruction of the running function lowers the bound.
proof fn lemma_later_lowers(e: EngineView, after: EngineView)
    requires
        after.functions == e.functions,
        after.natives == e.natives,
        after.frames == e.frames,
        after.frame.function == e.frame.function,
        e.frame.function < e.functions.len(),
        e.frame.ip < e.code().len(),
        after.frame.ip > e.frame.ip,
    ensures
        bound(after) < bound(e),
{
    let k = e.frame.function as nat;
    let ip = e.frame.ip as nat;
    lemma_steps_left_falls(e.functions, e.natives, k, ip + 1, after.frame.ip as nat);
}

/// Entering a function that stands before the running one lowers the bound.
proof fn lemma_call_lowers(e: EngineView, after: EngineView, j: int)
    requires
        after.functions == e.functions,
        after.natives == e.natives,
        e.frame.function < e.functions.len(),
        e.frame.ip < e.code().len(),
        callee(e.functions, e.natives, e.code()[e.frame.ip as int]) == Some(j),
        0 <= j < e.frame.function,
        after.frame.function == j,
        after.frame.ip == 0,
        after.frames.len() == e.frames.len() + 1,
        after.frames.drop_last() == e.frames,
        after.frames.last().function == e.frame.function,
        after.frames.last().ip == e.frame.ip + 1,
    ensures
        bound(after) < bound(e),
{
}

/// Leaving the running function lowers the bound.
proof fn lemma_leave_lowers(e: EngineView, after: EngineView)
    requires
        after.functions == e.functions,
        after.natives == e.natives,
        e.frame.function < e.functions.len(),
        e.frame.ip < e.code().len(),
        e.frames.len() > 0,
        after.frame.function == e.frames.last().function,
        after.frame.ip == e.frames.last().ip,
        after.frames == e.frames.drop_last(),
    ensures
        bound(after) < bound(e),
{
}

/// Every step of a program without recursion after which the engine goes on lowers
/// the bound on the steps that are left.
pub proof fn lemma_step_lowers_bound(e: EngineView)
    requires
        indexable(e.functions),
        jumps_forward(e.functions),
        calls_back(e.functions, e.natives),
    ensures
        e.step().signal is Continue || e.step().signal is Native ==> bound(e.step().engine)
            < bound(e),
{
    let after = e.step().engine;
    if !e.halted && e.frame.ip < e.code().len() {
        let k = e.frame.function as int;
        let ip = e.frame.ip as int;
        let op = e.code()[ip];
        assert(op == e.functions[k].function.code[ip]);
        if e.step().signal is Continue || e.step().signal is Native {
            match op {
                Opcode::Invoke(name) => {
                    lemma_invoke_lowers(e, name@);
                },
                Opcode::Return => {
                    lemma_leave_lowers(e, after);
                },
                Opcode::IReturn => {
                    lemma_leave_lowers(e, after);
                },
                _ => {
                    lemma_later_lowers(e, after);
                },
            }
        }
    }
}

/// A call after which the engine goes on lowers the bound.
proof fn lemma_invoke_lowers(e: EngineView, name: Seq<char>)
    requires
        indexable(e.functions),
        calls_back(e.functions, e.natives),
        !e.halted,
        e.frame.ip < e.code().len(),
        e.code()[e.frame.ip as int] matches Opcode::Invoke(called) && called@ == name,
        e.invoke(name).signal is Continue || e.invoke(name).signal is Native,
    ensures
        bound(e.invoke(name).engine) < bound(e),
{
    let after = e.invoke(name).engine;
    let k = e.frame.function as int;
    let ip = e.frame.ip as int;
    assert(e.code()[ip] == e.functions[k].function.code[ip]);
    if native_index(e.natives, name) is Some {
        lemma_later_lowers(e, after);
    } else {
        lemma_function_index(e.functions, name);
        let j = function_index(e.functions, name)->Some_0;
        assert(callee(e.functions, e.natives, e.code()[ip]) == Some(j));
        let waiting = e.proceed(
            e.frame.stack.subrange(0, e.frame.stack.len() - e.functions[j].function.arity),
        ).engine.frame;
        assert(after.frames == e.frames.push(waiting));
        assert(after.frames.drop_last() =~= e.frames);
        lemma_call_lowers(e, after, j);
    }
}

/// A well-typed program without recursion comes to an end. Let an engine agree with
/// the types of its well-typed program, in which every jump goes forward and every
/// function calls only native functions and functions that stand before it in the
/// table. Then a run of more steps than the bound of the engine does not end because
/// the steps have run out: it ends with the program ended and no caller left, or with
/// the call of a native function.
pub proof fn lemma_run_comes_to_an_end(typing: ProgramTyping, e: EngineView, fuel: nat)
    requires
        program_typed(e.pool, e.functions, e.natives, typing),
        engine_typed(typing, e, Type::Void),
        jumps_forward(e.functions),
        calls_back(e.functions, e.natives),
        fuel > bound(e),
    ensures
        !(e.run(fuel).signal is Continue),
        ended_well(typing, e.run(fuel)),
    decreases fuel,
{
    lemma_step_is_safe(typing, e);
    lemma_step_lowers_bound(e);
    crate::engine::safety::lemma_run_is_safe(typing, e, fuel);
    if e.step().signal is Continue {
        lemma_run_comes_to_an_end(typing, e.step().engine, (fuel - 1) as nat);
    }
}

} // verus!

//! What holds of every run of the engine.

use vstd::prelude::*;
use crate::engine::model::EngineView;

verus! {

/// A step keeps the engine well formed, and an engine that a step tells to have halted
/// is halted.
pub proof fn lemma_step_keeps_wf(e: EngineView)
    requires
        e.wf(),
    ensures
        e.step().engine.wf(),
        e.step().signal is Halted ==> e.step().engine.halted,
{
}

/// A run keeps the engine well formed, and an engine that a run tells to have halted
/// is halted.
pub proof fn lemma_run_keeps_wf(e: EngineView, fuel: nat)
    requires
        e.wf(),
    ensures
        e.run(fuel).engine.wf(),
        e.run(fuel).signal is Halted ==> e.run(fuel).engine.halted,
    decreases fuel,
{
    if fuel > 0 {
        lemma_step_keeps_wf(e);
        if e.step().signal is Continue {
            lemma_run_keeps_wf(e.step().engine, (fuel - 1) as nat);
        }
    }
}

/// A program ends with no caller left. Whenever a run from a well-formed state ends
/// with the signal that the program has halted, the engine is halted and its stack of
/// waiting frames is empty.
pub proof fn lemma_halts_with_empty_frame_stack(e: EngineView, fuel: nat)
    requires
        e.wf(),
        e.run(fuel).signal is Halted,
    ensures
        e.run(fuel).engine.halted,
        e.run(fuel).engine.frames.len() == 0,
{
    lemma_run_keeps_wf(e, fuel);
}

} // verus!

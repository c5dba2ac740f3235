//! The compiler as a whole: checking, then generating.

pub mod entry;
pub mod frames;
pub mod halting;
pub mod laws;
pub mod relation;
pub mod soundness;
pub mod typed;

use vstd::prelude::*;
use crate::analysis::errorhandler::{errors_view, AnalyserErrors};
use crate::analysis::model::{annotated_all, AnalyserView};
use crate::analysis::Analyser;
use crate::ast::Ast;
use crate::codegen::model::{GeneratorError, GeneratorView};
use crate::codegen::CodeGenerator;
use crate::compiler::entry::{has_main, lemma_accepted_program_has_main};
use crate::compiler::halting::lemma_accepted_program_is_layered;
use crate::compiler::laws::lemma_accepted_program_is_well_formed;
use crate::compiler::relation::{regular_all, well_formed, Place};
use crate::compiler::soundness::{
    lemma_sound_program_is_well_typed,
    soundly_checked,
    types_program,
};
use crate::engine::termination::{calls_no_later, jumps_forward};
use crate::engine::typing::{indexable, ProgramTyping};
use crate::program::{unique_names, Program};
use crate::stdlib::{native_index, natives_view, NativeFn};

verus! {

/// Why a tree was not compiled.
#[derive(Debug, PartialEq, Eq)]
pub enum CompileError {
    /// The checker rejected the tree, with these diagnostics.
    Rejected(AnalyserErrors),
    /// The checker accepted the tree, but the code generator cannot handle it.
    Generator(GeneratorError),
}

/// Checks the tree and, if the checker accepts it, generates its program. The tree
/// keeps the annotations of the check.
///
/// No program comes out of a tree with a diagnostic. A program always comes out of an
/// accepted tree in which every function is declared at the top level and every
/// variable inside a function; that program is well formed, jumps forward only, calls
/// no function that is declared later, and has its entry point, the function `main`.
/// The program of an
/// accepted tree that was checked soundly is moreover well typed, so that the engine
/// does not fault on it.
pub fn compile(ast: &mut Ast, natives: &Vec<NativeFn>) -> (result: Result<Program, CompileError>)
    ensures
        annotated_all(AnalyserView::initial(natives_view(natives@)), old(ast)@, final(ast)@),
        ({
            let checked = AnalyserView::initial(natives_view(natives@)).program(old(ast)@);
            let generated = GeneratorView::initial().statements(final(ast)@, final(ast)@.len());
            if checked.errors.len() > 0 {
                result matches Err(CompileError::Rejected(errors)) && errors_view(errors@)
                    == checked.errors
            } else {
                match generated {
                    Ok(g) => result matches Ok(program) && program@ == g.program()
                        && unique_names(program@.fns),
                    Err(e) => result matches Err(CompileError::Generator(error)) && error == e,
                }
            }
        }),
        AnalyserView::initial(natives_view(natives@)).program(old(ast)@).errors.len() == 0
            && regular_all(old(ast)@, Place::Top) ==> (result matches Ok(program) && well_formed(
            program@,
            natives_view(natives@),
        ) && jumps_forward(program@.fns) && calls_no_later(
            program@.fns,
            natives_view(natives@),
        )),
        AnalyserView::initial(natives_view(natives@)).program(old(ast)@).errors.len() == 0
            && regular_all(old(ast)@, Place::Top) && native_index(
            natives_view(natives@),
            "main"@,
        ) is None ==> (result matches Ok(program) && has_main(program@.fns)),
        AnalyserView::initial(natives_view(natives@)).program(old(ast)@).errors.len() == 0
            && soundly_checked(natives_view(natives@), old(ast)@) ==> (result matches Ok(
            program,
        ) && indexable(program@.fns) && exists|typing: ProgramTyping| #[trigger]
            types_program(program@.pool, program@.fns, natives_view(natives@), typing)),
{
    let mut analyser = Analyser::with_natives(natives);
    match analyser.analyse(ast) {
        Err(errors) => Err(CompileError::Rejected(errors)),
        Ok(()) => {
            proof {
                if regular_all(old(ast)@, Place::Top) {
                    lemma_accepted_program_is_well_formed(
                        natives_view(natives@),
                        old(ast)@,
                        ast@,
                    );
                    if native_index(natives_view(natives@), "main"@) is None {
                        lemma_accepted_program_has_main(natives_view(natives@), old(ast)@, ast@);
                    }
                }
            }
            let mut generator = CodeGenerator::make();
            match generator.gen_from(ast) {
                Ok(program) => {
                    proof {
                        lemma_indexable(&program);
                        if regular_all(old(ast)@, Place::Top) {
                            lemma_accepted_program_is_layered(
                                natives_view(natives@),
                                old(ast)@,
                                ast@,
                            );
                        }
                        if soundly_checked(natives_view(natives@), old(ast)@) {
                            let typing = lemma_sound_program_is_well_typed(
                                natives_view(natives@),
                                old(ast)@,
                                ast@,
                            );
                            assert(types_program(
                                program@.pool,
                                program@.fns,
                                natives_view(natives@),
                                typing,
                            ));
                        }
                    }
                    Ok(program)
                },
                Err(e) => Err(CompileError::Generator(e)),
            }
        },
    }
}

/// The machine can index the functions of a program and the instructions of each of
/// them.
pub proof fn lemma_indexable(program: &Program)
    ensures
        indexable(program@.fns),
{
    assert(program.fns.len() == program@.fns.len());
    assert forall|f: int| 0 <= f < program@.fns.len() implies (#[trigger] program@.fns[f]).function.code.len()
        <= usize::MAX by {
        let code = program.fns@[f].function.code.code;
        assert(code.len() == code@.len());
    }
}

} // verus!

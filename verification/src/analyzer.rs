//! The semantic analyzer: name resolution followed by type checking
//! over one shared symbol table.

use vstd::prelude::*;
use crate::ast::{Program, program_calls_wf};
use crate::symbol::SymbolModel;
use crate::semantic_error::{SemanticError, SemanticErrorModel};
use crate::resolver::{Resolver, Scopes, resolve_program_m};
use crate::type_checker::{TypeChecker, check_program_m};

verus! {

pub type AnalyzeResult<T> = Result<T, SemanticError>;

/// The scope stack a fresh analysis starts from: one empty global
/// frame.
pub open spec fn initial_scopes() -> Scopes {
    seq![Map::<Seq<char>, SymbolModel>::empty()]
}

/// Runs both semantic passes over one program.
pub struct Analyzer<'a> {
    pub program: &'a Program,
}

impl<'a> Analyzer<'a> {
    /// Prepares an analysis of `program`.
    pub fn new(program: &'a Program) -> (r: Analyzer<'a>)
        ensures
            r.program == program,
    {
        Analyzer { program }
    }

    /// Resolves and then type-checks the program. Succeeds exactly
    /// when resolution succeeds from a fresh table and the type
    /// checker accepts the resolved table; otherwise yields the first
    /// error of the failing pass.
    pub fn analyze(&mut self) -> (r: AnalyzeResult<()>)
        requires
            program_calls_wf(*old(self).program),
        ensures
            *final(self) == *old(self),
            match r {
                Ok(()) => ({
                    &&& resolve_program_m(initial_scopes(), 0, *old(self).program) is Ok
                    &&& check_program_m(
                        resolve_program_m(initial_scopes(), 0, *old(self).program)->Ok_0,
                        *old(self).program,
                    ) is Ok
                }),
                Err(e) => ({
                    ||| resolve_program_m(initial_scopes(), 0, *old(self).program) == Err::<
                        Scopes,
                        SemanticErrorModel,
                    >(e@)
                    ||| (resolve_program_m(initial_scopes(), 0, *old(self).program) is Ok
                        && check_program_m(
                        resolve_program_m(initial_scopes(), 0, *old(self).program)->Ok_0,
                        *old(self).program,
                    ) == Err::<Scopes, SemanticErrorModel>(e@))
                }),
            },
    {
        let mut resolver = Resolver::new();
        resolver.resolve_program(self.program)?;
        let mut tc = TypeChecker::new(resolver);
        tc.check_program(self.program)?;
        Ok(())
    }
}

} // verus!

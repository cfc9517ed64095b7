//! The decisions of a compilation, taken between the stages of the compiler.
//!
//! A compilation runs: tokenize and parse (with the grammar, if any);
//! constant-fold, lower to IR, SSA round-trip, liveness analysis, register
//! allocation and spill insertion; peephole cleanup; codegen and
//! serialization. The caller performs the stages named by each
//! [`Directive`] and reports what came of them as a [`StageEvent`]; the
//! peephole cleanup and the handling of a parse failure happen here.

use vstd::prelude::*;

use crate::diagnostic::CompileError;
use crate::error::{Error, Span};
use crate::peephole::{peephole, run, IrInstr};

verus! {

/// Where a compilation stands.
pub enum CompileState {
    /// The source is with the parser.
    Parsing { source: String, name: String },
    /// The parsed program is being lowered, optimized and register-allocated.
    Allocating { name: String },
    /// Nothing is left to decide.
    Finished,
}

/// What came of the stages last directed.
pub enum StageEvent {
    /// The source parsed.
    Parsed,
    /// The parser failed with `error`, at `span` when it names a position.
    ParseFailed { error: Error, span: Option<Span> },
    /// The instruction stream after register allocation and spill insertion.
    Allocated(Vec<IrInstr>),
}

/// What to do next.
pub enum Directive {
    /// Constant-fold, lower, run the SSA round-trip, analyze liveness,
    /// allocate registers and insert spills; report `Allocated`.
    LowerAndAllocate,
    /// Generate code from `instrs` and serialize the script under `name`:
    /// that script is the compilation's result.
    Emit { instrs: Vec<IrInstr>, name: String },
    /// The compilation fails with this error.
    Fail(CompileError),
}

impl CompileState {
    /// A compilation of `source` under `name`, about to parse.
    pub fn new(source: String, name: String) -> (state: CompileState)
        ensures
            state matches CompileState::Parsing { source: s, name: n } && s@ == source@ && n@
                == name@,
    {
        CompileState::Parsing { source, name }
    }

    /// `event` is what the stages directed in this state report.
    pub open spec fn accepts(&self, event: &StageEvent) -> bool {
        match self {
            CompileState::Parsing { .. } => event is Parsed || event is ParseFailed,
            CompileState::Allocating { .. } => event is Allocated,
            CompileState::Finished => false,
        }
    }
}

/// Takes the compilation one step on from `state`, given what the stages
/// it directed reported: a parse failure ends it with an error that keeps
/// the source's lines for rendering; a parsed source goes on to lowering
/// and allocation; an allocated instruction stream is cleaned by the
/// peephole pass and handed to codegen under the compilation's name.
pub fn compile_with_grammar(state: CompileState, event: StageEvent) -> (next: (
    CompileState,
    Directive,
))
    requires
        state.accepts(&event),
    ensures
        match (state, event) {
            (CompileState::Parsing { source, .. }, StageEvent::ParseFailed { error, span }) => {
                &&& next.0 is Finished
                &&& next.1 matches Directive::Fail(e) && e.is_parse_failure(error, span, source@)
            },
            (CompileState::Parsing { name, .. }, StageEvent::Parsed) => {
                &&& next.0 matches CompileState::Allocating { name: n } && n@ == name@
                &&& next.1 is LowerAndAllocate
            },
            (CompileState::Allocating { name }, StageEvent::Allocated(instrs)) => {
                &&& next.0 is Finished
                &&& next.1 matches Directive::Emit { instrs: out, name: n } && out@ == peephole(
                    instrs@,
                ) && n@ == name@
            },
            _ => false,
        },
{
    match state {
        CompileState::Parsing { source, name } => match event {
            StageEvent::ParseFailed { error, span } => {
                let failure = CompileError::from_parse_error(&error, span, source.as_str());
                (CompileState::Finished, Directive::Fail(failure))
            },
            // The precondition leaves `Parsed` as the only other event here.
            _ => (CompileState::Allocating { name }, Directive::LowerAndAllocate),
        },
        CompileState::Allocating { name } => match event {
            StageEvent::Allocated(instrs) => {
                let cleaned = run(instrs);
                (CompileState::Finished, Directive::Emit { instrs: cleaned, name })
            },
            // Excluded by the precondition.
            _ => (CompileState::Finished, Directive::LowerAndAllocate),
        },
        // Excluded by the precondition.
        CompileState::Finished => (CompileState::Finished, Directive::LowerAndAllocate),
    }
}

} // verus!

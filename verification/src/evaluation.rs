//! One evaluation, step by step: the bridge decides, the caller does the
//! engine's work and reports what came of it.

use crate::ast::Expr;
use crate::bridge::{host_value, to_host};
use crate::context::{merged, named_models, Context, ContextModel};
use crate::diagnostics::{
    failure_kind, failure_message, map_execution_error_to_python, ExecutionError,
};
use crate::error::{ErrorKind, Failure, FailureModel};
use crate::host::{host_pairs, HostCallable, HostModel, HostValue};
use crate::mode::EvaluationMode;
use crate::promotion::{
    holds_float, promote_integers_in_context, promoted, should_promote_integers_to_floats,
};
use crate::rewrite::{
    expression_has_mixed_numeric_literals, has_decimal_point,
    preprocess_expression_for_mixed_arithmetic_always, preprocessed,
};
use crate::value::{Value, ValueModel};
use vstd::prelude::*;

verus! {

/// What a caller hands over as the context of an evaluation.
#[derive(Clone, Copy, Debug, PartialEq)]
pub enum EvaluationContext<'a> {
    /// A reusable context.
    Reusable(&'a Context),
    /// A host mapping of names to values and callables.
    Mapping(&'a Vec<(HostValue, HostValue)>),
    /// Anything else.
    Other,
}

/// What the host is told of a context that is neither a reusable context
/// nor a mapping.
pub open spec fn bad_context() -> FailureModel {
    FailureModel {
        kind: ErrorKind::Context,
        message: "evaluation_context must be a Context object or a dict"@,
    }
}

/// The working context of an evaluation: empty where none was given, the
/// variables and functions of a reusable context, or a mapping merged
/// into an empty context.
pub open spec fn assembled(context: Option<EvaluationContext<'_>>) -> Result<
    ContextModel,
    FailureModel,
> {
    match context {
        None => Ok(ContextModel::empty()),
        Some(EvaluationContext::Reusable(c)) => Ok(c@),
        Some(EvaluationContext::Mapping(entries)) => match merged(
            ContextModel::empty(),
            host_pairs(*entries),
        ).1 {
            Some(failure) => Err(failure),
            None => Ok(merged(ContextModel::empty(), host_pairs(*entries)).0),
        },
        Some(EvaluationContext::Other) => Err(bad_context()),
    }
}

/// Builds the working context of an evaluation from what the caller
/// handed over.
pub fn assemble(context: Option<EvaluationContext<'_>>) -> (result: Result<Context, Failure>)
    ensures
        match result {
            Ok(c) => assembled(context) == Ok::<ContextModel, FailureModel>(c@),
            Err(failure) => assembled(context) == Err::<ContextModel, FailureModel>(failure@),
        },
{
    match context {
        None => Ok(Context::empty()),
        Some(EvaluationContext::Reusable(c)) => Ok(c.share()),
        Some(EvaluationContext::Mapping(entries)) => {
            let mut working = Context::empty();
            match working.update(entries) {
                Ok(()) => Ok(working),
                Err(failure) => Err(failure),
            }
        },
        Some(EvaluationContext::Other) => Err(
            Failure {
                kind: ErrorKind::Context,
                message: String::from_str("evaluation_context must be a Context object or a dict"),
            },
        ),
    }
}

/// Whether the context's integers are promoted before they are installed:
/// in permissive mode, where one of the variables is a floating-point
/// number.
pub open spec fn promotes_context(
    mode: EvaluationMode,
    variables: Seq<(Seq<char>, ValueModel)>,
) -> bool {
    mode == EvaluationMode::PythonCompatible && holds_float(variables)
}

/// Whether rewriting of the source is attempted: in permissive mode, where
/// the source holds a decimal point next to a digit or the context's
/// integers are promoted.
pub open spec fn attempts_rewrite(
    mode: EvaluationMode,
    source: Seq<char>,
    variables: Seq<(Seq<char>, ValueModel)>,
) -> bool {
    mode == EvaluationMode::PythonCompatible && (has_decimal_point(source) || holds_float(
        variables,
    ))
}

/// The variables as they are installed.
pub open spec fn installed(mode: EvaluationMode, variables: Seq<(Seq<char>, ValueModel)>) -> Seq<
    (Seq<char>, ValueModel),
> {
    if promotes_context(mode, variables) {
        promoted(variables)
    } else {
        variables
    }
}

/// Where an evaluation stands.
#[derive(Clone, Copy, Debug, PartialEq, Eq, Structural)]
pub enum Phase {
    /// The source is with the parser, to be rewritten.
    Parsing,
    /// The source that is evaluated is with the compiler.
    Compiling,
    /// The program is being executed.
    Executing,
    /// The evaluation has ended.
    Finished,
}

/// What the caller is to do next.
#[derive(Debug, PartialEq)]
pub enum Action {
    /// Parse the evaluation's `source` and report the tree.
    Parse,
    /// Compile the evaluation's `processed` source and report how that
    /// went.
    Compile,
    /// Install the evaluation's variables and functions, execute the
    /// program and report what came of it.
    Execute,
    /// Hand the result to the host.
    Finish(Result<HostValue, Failure>),
}

/// How compiling went.
#[derive(Clone, Debug, PartialEq)]
pub enum CompileOutcome {
    /// There is a program.
    Compiled,
    /// The compiler refused the source, for the reason given.
    Rejected(String),
    /// The compiler broke down.
    Panicked,
}

/// What came of executing the program.
#[derive(Debug, PartialEq)]
pub enum ExecutionOutcome {
    /// The program returned a value.
    Returned(Value),
    /// The program failed.
    Failed(ExecutionError),
    /// The engine refused the variable `name`, for the reason given.
    VariableRefused { name: String, reason: String },
    /// The engine broke down.
    Panicked,
}

/// What the caller reports.
#[derive(Debug, PartialEq)]
pub enum Event {
    /// The parser's tree for the source, or `None` where it gave none.
    Parsed(Option<Expr>),
    Compiled(CompileOutcome),
    Executed(ExecutionOutcome),
}

/// One evaluation of an expression.
#[derive(Debug, PartialEq)]
pub struct Evaluation {
    /// The source as the host gave it.
    pub source: String,
    /// The source that is compiled.
    pub processed: String,
    /// The variables that are installed.
    pub variables: Vec<(String, Value)>,
    /// The functions that are installed.
    pub functions: Vec<(String, HostCallable)>,
    pub phase: Phase,
}

/// The mathematical content of an [`Evaluation`].
pub ghost struct EvaluationModel {
    pub source: Seq<char>,
    pub processed: Seq<char>,
    pub variables: Seq<(Seq<char>, ValueModel)>,
    pub functions: Seq<(Seq<char>, HostCallable)>,
    pub phase: Phase,
}

impl View for Evaluation {
    type V = EvaluationModel;

    open spec fn view(&self) -> EvaluationModel {
        EvaluationModel {
            source: self.source@,
            processed: self.processed@,
            variables: named_models(self.variables),
            functions: named_models(self.functions),
            phase: self.phase,
        }
    }
}

/// The mathematical content of an [`Action`].
pub ghost enum ActionModel {
    Parse,
    Compile,
    Execute,
    Finish(Result<HostModel, FailureModel>),
}

impl View for Action {
    type V = ActionModel;

    open spec fn view(&self) -> ActionModel {
        match self {
            Action::Parse => ActionModel::Parse,
            Action::Compile => ActionModel::Compile,
            Action::Execute => ActionModel::Execute,
            Action::Finish(Ok(value)) => ActionModel::Finish(Ok(value@)),
            Action::Finish(Err(failure)) => ActionModel::Finish(Err(failure@)),
        }
    }
}

/// How an evaluation of `source` begins: with a failure where the context
/// cannot be assembled; else with the variables as they are installed,
/// and with the parser where rewriting is attempted, with the compiler
/// where it is not.
pub open spec fn begun(
    source: Seq<char>,
    context: Option<EvaluationContext<'_>>,
    mode: EvaluationMode,
) -> (EvaluationModel, ActionModel) {
    match assembled(context) {
        Err(failure) => (
            EvaluationModel {
                source,
                processed: source,
                variables: Seq::empty(),
                functions: Seq::empty(),
                phase: Phase::Finished,
            },
            ActionModel::Finish(Err(failure)),
        ),
        Ok(c) => if attempts_rewrite(mode, source, c.variables) {
            (
                EvaluationModel {
                    source,
                    processed: source,
                    variables: installed(mode, c.variables),
                    functions: c.functions,
                    phase: Phase::Parsing,
                },
                ActionModel::Parse,
            )
        } else {
            (
                EvaluationModel {
                    source,
                    processed: source,
                    variables: installed(mode, c.variables),
                    functions: c.functions,
                    phase: Phase::Compiling,
                },
                ActionModel::Compile,
            )
        },
    }
}

/// What the host is told where compiling gave no program: a parse
/// failure that quotes the source as the host gave it.
pub open spec fn compile_failure(source: Seq<char>, outcome: CompileOutcome) -> Option<
    FailureModel,
> {
    match outcome {
        CompileOutcome::Compiled => None,
        CompileOutcome::Rejected(reason) => Some(
            FailureModel {
                kind: ErrorKind::Parse,
                message: "Failed to compile expression '"@ + source + "': "@ + reason@,
            },
        ),
        CompileOutcome::Panicked => Some(
            FailureModel {
                kind: ErrorKind::Parse,
                message: "Failed to parse expression '"@ + source
                    + "': Invalid syntax or malformed string"@,
            },
        ),
    }
}

/// What the host is given once the program was executed: the value,
/// converted, or the failure, as the host is told of it.
pub open spec fn concluded(source: Seq<char>, outcome: ExecutionOutcome) -> Result<
    HostModel,
    FailureModel,
> {
    match outcome {
        ExecutionOutcome::Returned(value) => Ok(host_value(value@)),
        ExecutionOutcome::Failed(error) => Err(
            FailureModel { kind: failure_kind(error), message: failure_message(error) },
        ),
        ExecutionOutcome::VariableRefused { name, reason } => Err(
            FailureModel {
                kind: ErrorKind::Conversion,
                message: "Failed to add variable '"@ + name@ + "': "@ + reason@,
            },
        ),
        ExecutionOutcome::Panicked => Err(
            FailureModel {
                kind: ErrorKind::EngineFault,
                message: "Failed to execute expression '"@ + source + "': Internal parser error"@,
            },
        ),
    }
}

/// What the host is told of a report that the evaluation did not ask for.
pub open spec fn out_of_turn() -> FailureModel {
    FailureModel {
        kind: ErrorKind::InvalidOperation,
        message: "The evaluation did not ask for this report"@,
    }
}

/// The evaluation after `event`, and what the caller is to do next.
pub open spec fn stepped(state: EvaluationModel, event: Event) -> (EvaluationModel, ActionModel) {
    match (state.phase, event) {
        (Phase::Parsing, Event::Parsed(tree)) => (
            EvaluationModel {
                processed: preprocessed(state.source, tree),
                phase: Phase::Compiling,
                ..state
            },
            ActionModel::Compile,
        ),
        (Phase::Compiling, Event::Compiled(outcome)) => match compile_failure(
            state.source,
            outcome,
        ) {
            None => (EvaluationModel { phase: Phase::Executing, ..state }, ActionModel::Execute),
            Some(failure) => (
                EvaluationModel { phase: Phase::Finished, ..state },
                ActionModel::Finish(Err(failure)),
            ),
        },
        (Phase::Executing, Event::Executed(outcome)) => (
            EvaluationModel { phase: Phase::Finished, ..state },
            ActionModel::Finish(concluded(state.source, outcome)),
        ),
        _ => (
            EvaluationModel { phase: Phase::Finished, ..state },
            ActionModel::Finish(Err(out_of_turn())),
        ),
    }
}

/// What the host is told where compiling `source` gave no program;
/// `None` where it gave one. Whatever the compiler did with the source,
/// short of giving a program, the host is told of a parse failure.
pub fn check_compiled(source: &str, outcome: &CompileOutcome) -> (failure: Option<Failure>)
    ensures
        match failure {
            Some(f) => compile_failure(source@, *outcome) == Some(f@),
            None => compile_failure(source@, *outcome) is None,
        },
        !(outcome is Compiled) ==> failure is Some && failure->0.kind == ErrorKind::Parse,
        outcome is Compiled ==> failure is None,
{
    match outcome {
        CompileOutcome::Compiled => None,
        CompileOutcome::Rejected(reason) => {
            let mut text = String::from_str("Failed to compile expression '");
            text.append(source);
            text.append("': ");
            text.append(reason.as_str());
            Some(Failure { kind: ErrorKind::Parse, message: text })
        },
        CompileOutcome::Panicked => {
            let mut text = String::from_str("Failed to parse expression '");
            text.append(source);
            text.append("': Invalid syntax or malformed string");
            Some(Failure { kind: ErrorKind::Parse, message: text })
        },
    }
}

/// What the host is given once the program for `source` was executed.
pub fn conclude(source: &str, outcome: &ExecutionOutcome) -> (result: Result<HostValue, Failure>)
    ensures
        match result {
            Ok(value) => concluded(source@, *outcome) == Ok::<HostModel, FailureModel>(value@),
            Err(failure) => concluded(source@, *outcome) == Err::<HostModel, FailureModel>(
                failure@,
            ),
        },
{
    match outcome {
        ExecutionOutcome::Returned(value) => Ok(to_host(value)),
        ExecutionOutcome::Failed(error) => Err(map_execution_error_to_python(error)),
        ExecutionOutcome::VariableRefused { name, reason } => {
            let mut text = String::from_str("Failed to add variable '");
            text.append(name.as_str());
            text.append("': ");
            text.append(reason.as_str());
            Err(Failure { kind: ErrorKind::Conversion, message: text })
        },
        ExecutionOutcome::Panicked => {
            let mut text = String::from_str("Failed to execute expression '");
            text.append(source);
            text.append("': Internal parser error");
            Err(Failure { kind: ErrorKind::EngineFault, message: text })
        },
    }
}

impl Evaluation {
    /// Begins an evaluation of `source` against `context`, in the mode
    /// given or in permissive mode where none is given. Returns the
    /// evaluation and what the caller is to do first.
    pub fn begin(
        source: String,
        context: Option<EvaluationContext<'_>>,
        mode: Option<EvaluationMode>,
    ) -> (started: (Evaluation, Action))
        ensures
            (started.0@, started.1@) == begun(
                source@,
                context,
                match mode {
                    Some(m) => m,
                    None => EvaluationMode::PythonCompatible,
                },
            ),
    {
        let mode = EvaluationMode::or_default(mode);
        let processed = source.clone();
        match assemble(context) {
            Err(failure) => {
                let evaluation = Evaluation {
                    source,
                    processed,
                    variables: Vec::new(),
                    functions: Vec::new(),
                    phase: Phase::Finished,
                };
                proof {
                    assert(evaluation@.variables =~= Seq::empty());
                    assert(evaluation@.functions =~= Seq::empty());
                }
                (evaluation, Action::Finish(Err(failure)))
            },
            Ok(working) => {
                let Context { mut variables, functions } = working;
                let permissive = match mode {
                    EvaluationMode::PythonCompatible => true,
                    EvaluationMode::Strict => false,
                };
                let floats = should_promote_integers_to_floats(&variables);
                let mixed = expression_has_mixed_numeric_literals(source.as_str());
                if permissive && floats {
                    promote_integers_in_context(&mut variables);
                }
                if permissive && (mixed || floats) {
                    (
                        Evaluation { source, processed, variables, functions, phase: Phase::Parsing },
                        Action::Parse,
                    )
                } else {
                    (
                        Evaluation {
                            source,
                            processed,
                            variables,
                            functions,
                            phase: Phase::Compiling,
                        },
                        Action::Compile,
                    )
                }
            },
        }
    }

    /// Takes the caller's report and says what the caller is to do next.
    ///
    /// The parser's tree decides the source that is compiled; a program
    /// leads on to execution, and anything else that the compiler did ends
    /// the evaluation with a parse failure; what came of the execution
    /// ends it with the value or the failure for the host. A report that
    /// the evaluation did not ask for ends it with a failure.
    pub fn step(&mut self, event: Event) -> (action: Action)
        ensures
            (final(self)@, action@) == stepped(old(self)@, event),
    {
        match (self.phase, event) {
            (Phase::Parsing, Event::Parsed(tree)) => {
                self.processed = preprocess_expression_for_mixed_arithmetic_always(
                    self.source.as_str(),
                    &tree,
                );
                self.phase = Phase::Compiling;
                Action::Compile
            },
            (Phase::Compiling, Event::Compiled(outcome)) => {
                match check_compiled(self.source.as_str(), &outcome) {
                    None => {
                        self.phase = Phase::Executing;
                        Action::Execute
                    },
                    Some(failure) => {
                        self.phase = Phase::Finished;
                        Action::Finish(Err(failure))
                    },
                }
            },
            (Phase::Executing, Event::Executed(outcome)) => {
                self.phase = Phase::Finished;
                Action::Finish(conclude(self.source.as_str(), &outcome))
            },
            _ => {
                self.phase = Phase::Finished;
                Action::Finish(
                    Err(
                        Failure {
                            kind: ErrorKind::InvalidOperation,
                            message: String::from_str("The evaluation did not ask for this report"),
                        },
                    ),
                )
            },
        }
    }
}

/// Malformed input: whatever the compiler does with a source, short of
/// giving a program, the evaluation ends there, and the host is told of a
/// parse failure.
pub proof fn lemma_failed_compile_is_parse_failure(state: EvaluationModel, outcome: CompileOutcome)
    requires
        state.phase == Phase::Compiling,
        !(outcome is Compiled),
    ensures
        stepped(state, Event::Compiled(outcome)).0.phase == Phase::Finished,
        stepped(state, Event::Compiled(outcome)).1 matches ActionModel::Finish(Err(failure))
            && failure.kind == ErrorKind::Parse,
{
}

/// Strict mode: the source is compiled as the host gave it, without a
/// parse for rewriting, and the variables are installed as the context
/// holds them.
pub proof fn lemma_strict_mode_changes_nothing(
    source: Seq<char>,
    context: Option<EvaluationContext<'_>>,
)
    requires
        assembled(context) is Ok,
    ensures
        begun(source, context, EvaluationMode::Strict).1 == ActionModel::Compile,
        begun(source, context, EvaluationMode::Strict).0.processed == source,
        begun(source, context, EvaluationMode::Strict).0.variables == assembled(
            context,
        )->Ok_0.variables,
{
}

/// An evaluation that has ended stays ended: every further report is
/// answered with a failure.
pub proof fn lemma_finished_stays_finished(state: EvaluationModel, event: Event)
    requires
        state.phase == Phase::Finished,
    ensures
        stepped(state, event).0 == state,
        stepped(state, event).1 == ActionModel::Finish(Err(out_of_turn())),
{
}

} // verus!

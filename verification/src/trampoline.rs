//! The two halves of a call from the engine into a host function: the
//! arguments on the way in, the result on the way back.

use crate::bridge::{engine_value, host_values, to_engine, to_host_list};
use crate::context::conversion_text;
use crate::diagnostics::ExecutionError;
use crate::host::{host_models, HostValue};
use crate::value::{value_models, Value, ValueModel};
use vstd::prelude::*;

verus! {

/// What came of calling a host function.
#[derive(Debug, PartialEq)]
pub enum CallOutcome {
    /// The function returned a value.
    Returned(HostValue),
    /// The function raised; the text is the host's account of it.
    Raised(String),
    /// The host took no account of an argument, for the reason given.
    ArgumentRefused(String),
    /// The host could not put the arguments together, for the reason
    /// given.
    ArgumentsRefused(String),
}

/// The cause that a failed call is reported with, or `None` where the call
/// returned a value that converts.
pub open spec fn call_failure(outcome: CallOutcome) -> Option<Seq<char>> {
    match outcome {
        CallOutcome::Returned(value) => match engine_value(value@) {
            Ok(_) => None,
            Err(e) => Some(
                "Failed to convert Python result to CEL value: "@ + conversion_text(e),
            ),
        },
        CallOutcome::Raised(cause) => Some("Python function call failed: "@ + cause@),
        CallOutcome::ArgumentRefused(cause) => Some(
            "Failed to convert argument to Python: "@ + cause@,
        ),
        CallOutcome::ArgumentsRefused(cause) => Some(
            "Failed to create arguments tuple: "@ + cause@,
        ),
    }
}

/// The engine's arguments as host values, in order.
pub fn trampoline_arguments(arguments: &Vec<Value>) -> (converted: Vec<HostValue>)
    ensures
        host_models(converted) == host_values(value_models(*arguments)),
{
    to_host_list(arguments)
}

fn function_error(function: &str, prefix: &str, cause: &str) -> (error: ExecutionError)
    ensures
        error matches ExecutionError::FunctionError { function: f, message: m } && f@ == function@
            && m@ == prefix@ + cause@,
{
    let mut message = String::from_str(prefix);
    message.append(cause);
    ExecutionError::FunctionError { function: String::from_str(function), message }
}

/// What the engine is given for a call of the host function `function`:
/// the returned value, converted, or a function error that names the
/// function and gives the cause. Nothing that the host did comes back as
/// anything but one of the two.
pub fn trampoline_result(function: &str, outcome: &CallOutcome) -> (result: Result<
    Value,
    ExecutionError,
>)
    ensures
        match result {
            Ok(value) => outcome matches CallOutcome::Returned(returned) && engine_value(
                returned@,
            ) == Ok::<ValueModel, Seq<char>>(value@),
            Err(error) => error matches ExecutionError::FunctionError { function: f, message: m }
                && f@ == function@ && call_failure(*outcome) == Some(m@),
        },
{
    match outcome {
        CallOutcome::Returned(value) => match to_engine(value) {
            Ok(converted) => Ok(converted),
            Err(e) => Err(
                function_error(
                    function,
                    "Failed to convert Python result to CEL value: ",
                    e.message().as_str(),
                ),
            ),
        },
        CallOutcome::Raised(cause) => Err(
            function_error(function, "Python function call failed: ", cause.as_str()),
        ),
        CallOutcome::ArgumentRefused(cause) => Err(
            function_error(function, "Failed to convert argument to Python: ", cause.as_str()),
        ),
        CallOutcome::ArgumentsRefused(cause) => Err(
            function_error(function, "Failed to create arguments tuple: ", cause.as_str()),
        ),
    }
}

} // verus!

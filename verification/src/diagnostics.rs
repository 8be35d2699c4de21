//! The engine's execution failures, and what the host is
//! told.

use crate::error::{ErrorKind, Failure};
use crate::text::{contains, contains_text, same_text};
use vstd::prelude::*;

verus! {

/// The kinds of engine value.
#[derive(Clone, Copy, Debug, PartialEq, Eq, Structural)]
pub enum ValueKind {
    Null,
    Bool,
    Int,
    UInt,
    Float,
    Str,
    Bytes,
    Timestamp,
    Duration,
    List,
    Mapping,
    Optional,
    Opaque,
}

/// An operand that an operator refused: its kind and its debug text.
#[derive(Clone, Debug, PartialEq)]
pub struct Operand {
    pub kind: ValueKind,
    pub debug: String,
}

/// A failure of the engine while it executed an expression.
#[derive(Clone, Debug, PartialEq)]
pub enum ExecutionError {
    /// The expression names a variable or function that is not declared.
    UndeclaredReference(String),
    /// The operator `op` (`add`, `sub`, `mul`, `div`, ...) does not take
    /// these two operands.
    UnsupportedBinaryOperator { op: String, left: Operand, right: Operand },
    /// The function `function` failed.
    FunctionError { function: String, message: String },
    /// Any other failure, by its debug text and its display text.
    Other { debug: String, display: String },
}

/// Whether one operand is a signed and the other an unsigned integer.
pub open spec fn mixes_signs(left: ValueKind, right: ValueKind) -> bool {
    (left == ValueKind::Int && right == ValueKind::UInt) || (left == ValueKind::UInt && right
        == ValueKind::Int)
}

/// The kind of failure that the host is told of.
pub open spec fn failure_kind(error: ExecutionError) -> ErrorKind {
    match error {
        ExecutionError::UndeclaredReference(_) => ErrorKind::UndefinedReference,
        ExecutionError::UnsupportedBinaryOperator { .. } => ErrorKind::TypeMismatch,
        ExecutionError::FunctionError { .. } => ErrorKind::FunctionCall,
        ExecutionError::Other { debug, display } => if contains_text(
            debug@,
            "UndeclaredReference"@,
        ) {
            ErrorKind::UndefinedReference
        } else if contains_text(debug@, "UnsupportedBinaryOperator"@) {
            ErrorKind::TypeMismatch
        } else {
            ErrorKind::Evaluation
        },
    }
}

/// The message for an operator that refused its operands.
pub open spec fn operator_message(
    op: Seq<char>,
    left: ValueKind,
    left_text: Seq<char>,
    right: ValueKind,
    right_text: Seq<char>,
) -> Seq<char> {
    if op == "add"@ {
        if mixes_signs(left, right) {
            "Cannot mix signed and unsigned integers in arithmetic: "@ + left_text + " + "@
                + right_text + ". Use explicit conversion: int(value) or uint(value)"@
        } else {
            "Unsupported addition operation: "@ + left_text + " + "@ + right_text
                + ". Check that both operands are compatible types (int+int, double+double, string+string, etc.)"@
        }
    } else if op == "mul"@ {
        "Unsupported multiplication operation: "@ + left_text + " * "@ + right_text
            + ". Ensure both operands are numeric and of compatible types. Use explicit conversion if needed: double(value)*double(value)"@
    } else if op == "sub"@ {
        "Unsupported subtraction operation: "@ + left_text + " - "@ + right_text
            + ". Ensure both operands are numeric and of compatible types."@
    } else if op == "div"@ {
        "Unsupported division operation: "@ + left_text + " / "@ + right_text
            + ". Ensure both operands are numeric and of compatible types."@
    } else {
        "Unsupported operation '"@ + op + "' between "@ + left_text + " and "@ + right_text
            + ". Check the CEL specification for supported operations between these types."@
    }
}

/// The message that the host is given.
pub open spec fn failure_message(error: ExecutionError) -> Seq<char> {
    match error {
        ExecutionError::UndeclaredReference(name) => "Undefined variable or function: '"@ + name@
            + "'. Check that the variable is defined in the context or that the function name is spelled correctly."@,
        ExecutionError::UnsupportedBinaryOperator { op, left, right } => operator_message(
            op@,
            left.kind,
            left.debug@,
            right.kind,
            right.debug@,
        ),
        ExecutionError::FunctionError { function, message } => "Function '"@ + function@
            + "' error: "@ + message@ + ". Check function arguments and their types."@,
        ExecutionError::Other { debug, display } => if contains_text(
            debug@,
            "UndeclaredReference"@,
        ) {
            "Undefined variable or function. Check that all variables are defined in the context and function names are spelled correctly. Error: "@
                + display@
        } else if contains_text(debug@, "UnsupportedBinaryOperator"@) {
            "Unsupported operation between incompatible types. Check the CEL specification for supported operations. Error: "@
                + display@
        } else {
            "CEL execution error: "@ + display@
                + ". This may indicate an unsupported operation or invalid expression."@
        },
    }
}

fn operator_failure(op: &str, left: &Operand, right: &Operand) -> (text: String)
    ensures
        text@ == operator_message(op@, left.kind, left.debug@, right.kind, right.debug@),
{
    let mut text = String::new();
    if same_text(op, "add") {
        let mixed = match (left.kind, right.kind) {
            (ValueKind::Int, ValueKind::UInt) => true,
            (ValueKind::UInt, ValueKind::Int) => true,
            _ => false,
        };
        if mixed {
            text.append("Cannot mix signed and unsigned integers in arithmetic: ");
            text.append(left.debug.as_str());
            text.append(" + ");
            text.append(right.debug.as_str());
            text.append(". Use explicit conversion: int(value) or uint(value)");
        } else {
            text.append("Unsupported addition operation: ");
            text.append(left.debug.as_str());
            text.append(" + ");
            text.append(right.debug.as_str());
            text.append(
                ". Check that both operands are compatible types (int+int, double+double, string+string, etc.)",
            );
        }
    } else if same_text(op, "mul") {
        text.append("Unsupported multiplication operation: ");
        text.append(left.debug.as_str());
        text.append(" * ");
        text.append(right.debug.as_str());
        text.append(
            ". Ensure both operands are numeric and of compatible types. Use explicit conversion if needed: double(value)*double(value)",
        );
    } else if same_text(op, "sub") {
        text.append("Unsupported subtraction operation: ");
        text.append(left.debug.as_str());
        text.append(" - ");
        text.append(right.debug.as_str());
        text.append(". Ensure both operands are numeric and of compatible types.");
    } else if same_text(op, "div") {
        text.append("Unsupported division operation: ");
        text.append(left.debug.as_str());
        text.append(" / ");
        text.append(right.debug.as_str());
        text.append(". Ensure both operands are numeric and of compatible types.");
    } else {
        text.append("Unsupported operation '");
        text.append(op);
        text.append("' between ");
        text.append(left.debug.as_str());
        text.append(" and ");
        text.append(right.debug.as_str());
        text.append(". Check the CEL specification for supported operations between these types.");
    }
    proof {
        assert(text@ =~= operator_message(op@, left.kind, left.debug@, right.kind, right.debug@));
    }
    text
}

/// What the host is told of a failure of the engine.
///
/// An undeclared name is an undefined reference, and the message names it.
/// An operator that refused its operands is a type mismatch; the message
/// is particular to addition, subtraction, multiplication and division,
/// and for an addition of a signed and an unsigned integer it recommends
/// an explicit conversion. A failed function call names the function and
/// gives the cause. Any other failure is sorted by what its debug text
/// mentions, and is else a plain evaluation failure.
pub fn map_execution_error_to_python(error: &ExecutionError) -> (failure: Failure)
    ensures
        failure.kind == failure_kind(*error),
        failure.message@ == failure_message(*error),
{
    let mut text = String::new();
    match error {
        ExecutionError::UndeclaredReference(name) => {
            text.append("Undefined variable or function: '");
            text.append(name.as_str());
            text.append(
                "'. Check that the variable is defined in the context or that the function name is spelled correctly.",
            );
            proof {
                assert(text@ =~= failure_message(*error));
            }
            Failure { kind: ErrorKind::UndefinedReference, message: text }
        },
        ExecutionError::UnsupportedBinaryOperator { op, left, right } => Failure {
            kind: ErrorKind::TypeMismatch,
            message: operator_failure(op.as_str(), left, right),
        },
        ExecutionError::FunctionError { function, message } => {
            text.append("Function '");
            text.append(function.as_str());
            text.append("' error: ");
            text.append(message.as_str());
            text.append(". Check function arguments and their types.");
            proof {
                assert(text@ =~= failure_message(*error));
            }
            Failure { kind: ErrorKind::FunctionCall, message: text }
        },
        ExecutionError::Other { debug, display } => {
            if contains(debug.as_str(), "UndeclaredReference") {
                text.append(
                    "Undefined variable or function. Check that all variables are defined in the context and function names are spelled correctly. Error: ",
                );
                text.append(display.as_str());
                proof {
                    assert(text@ =~= failure_message(*error));
                }
                Failure { kind: ErrorKind::UndefinedReference, message: text }
            } else if contains(debug.as_str(), "UnsupportedBinaryOperator") {
                text.append(
                    "Unsupported operation between incompatible types. Check the CEL specification for supported operations. Error: ",
                );
                text.append(display.as_str());
                proof {
                    assert(text@ =~= failure_message(*error));
                }
                Failure { kind: ErrorKind::TypeMismatch, message: text }
            } else {
                text.append("CEL execution error: ");
                text.append(display.as_str());
                text.append(". This may indicate an unsupported operation or invalid expression.");
                proof {
                    assert(text@ =~= failure_message(*error));
                }
                Failure { kind: ErrorKind::Evaluation, message: text }
            }
        },
    }
}

} // verus!

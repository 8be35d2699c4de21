//! Evaluation modes and how a host names them.

use crate::error::{ErrorKind, Failure, FailureModel};
use crate::text::same_text;
use vstd::prelude::*;

verus! {

/// How numeric types are reconciled before an expression is compiled.
#[derive(Clone, Copy, Debug, PartialEq, Eq, Structural)]
pub enum EvaluationMode {
    /// Integer literals and integer variables are promoted to floating point
    /// where mixed arithmetic would otherwise be rejected.
    PythonCompatible,
    /// The expression and its variables are used exactly as given.
    Strict,
}

/// The mode that a host names by `name`, or what the host is told where
/// the name is neither `permissive` nor `strict`.
pub open spec fn mode_named(name: Seq<char>) -> Result<EvaluationMode, FailureModel> {
    if name == "permissive"@ {
        Ok(EvaluationMode::PythonCompatible)
    } else if name == "strict"@ {
        Ok(EvaluationMode::Strict)
    } else {
        Err(
            FailureModel {
                kind: ErrorKind::TypeMismatch,
                message: "Invalid EvaluationMode: expected 'permissive' or 'strict', got '"@
                    + name + "'"@,
            },
        )
    }
}

impl EvaluationMode {
    /// Reads a mode from the name that a host gives it: `permissive` or
    /// `strict`.
    pub fn from_name(name: &str) -> (result: Result<EvaluationMode, Failure>)
        ensures
            match result {
                Ok(mode) => mode_named(name@) == Ok::<EvaluationMode, FailureModel>(mode),
                Err(failure) => mode_named(name@) == Err::<EvaluationMode, FailureModel>(failure@),
            },
    {
        if same_text(name, "permissive") {
            Ok(EvaluationMode::PythonCompatible)
        } else if same_text(name, "strict") {
            Ok(EvaluationMode::Strict)
        } else {
            let mut text = String::from_str(
                "Invalid EvaluationMode: expected 'permissive' or 'strict', got '",
            );
            text.append(name);
            text.append("'");
            Err(Failure { kind: ErrorKind::TypeMismatch, message: text })
        }
    }

    /// The mode of an evaluation that was given `mode`: permissive where
    /// none was given.
    pub fn or_default(mode: Option<EvaluationMode>) -> (chosen: EvaluationMode)
        ensures
            chosen == match mode {
                Some(m) => m,
                None => EvaluationMode::PythonCompatible,
            },
    {
        match mode {
            Some(m) => m,
            None => EvaluationMode::PythonCompatible,
        }
    }
}

} // verus!

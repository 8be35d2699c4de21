use cel_bridge::bridge::to_engine;
use cel_bridge::diagnostics::{map_execution_error_to_python, ExecutionError, Operand, ValueKind};
use cel_bridge::error::{ErrorKind, Failure};
use cel_bridge::host::{HostCallable, HostValue, NaiveTimestamp, OptionalValue};
use cel_bridge::trampoline::{trampoline_arguments, trampoline_result, CallOutcome};
use cel_bridge::value::Value;

fn s(text: &str) -> String {
    text.to_string()
}

fn operand(kind: ValueKind, debug: &str) -> Operand {
    Operand { kind, debug: s(debug) }
}

fn unsupported(op: &str, left: Operand, right: Operand) -> ExecutionError {
    ExecutionError::UnsupportedBinaryOperator { op: s(op), left, right }
}

fn mapped(error: ExecutionError) -> Failure {
    map_execution_error_to_python(&error)
}

#[test]
fn an_undeclared_reference_names_the_symbol() {
    let failure = mapped(ExecutionError::UndeclaredReference(s("undefined_var")));
    assert_eq!(failure.kind, ErrorKind::UndefinedReference);
    assert_eq!(
        failure.message,
        "Undefined variable or function: 'undefined_var'. Check that the variable is defined in the context or that the function name is spelled correctly."
    );
}

#[test]
fn a_refused_addition_is_a_type_mismatch() {
    let failure = mapped(unsupported(
        "add",
        operand(ValueKind::Int, "Int(1)"),
        operand(ValueKind::Float, "Float(2.5)"),
    ));
    assert_eq!(failure.kind, ErrorKind::TypeMismatch);
    assert_eq!(
        failure.message,
        "Unsupported addition operation: Int(1) + Float(2.5). Check that both operands are compatible types (int+int, double+double, string+string, etc.)"
    );
}

#[test]
fn signed_and_unsigned_addition_recommends_a_conversion() {
    let failure = mapped(unsupported(
        "add",
        operand(ValueKind::Int, "Int(1)"),
        operand(ValueKind::UInt, "UInt(2)"),
    ));
    assert_eq!(failure.kind, ErrorKind::TypeMismatch);
    assert_eq!(
        failure.message,
        "Cannot mix signed and unsigned integers in arithmetic: Int(1) + UInt(2). Use explicit conversion: int(value) or uint(value)"
    );
    let failure = mapped(unsupported(
        "add",
        operand(ValueKind::UInt, "UInt(2)"),
        operand(ValueKind::Int, "Int(1)"),
    ));
    assert_eq!(
        failure.message,
        "Cannot mix signed and unsigned integers in arithmetic: UInt(2) + Int(1). Use explicit conversion: int(value) or uint(value)"
    );
}

#[test]
fn a_string_that_mentions_an_integer_kind_is_no_integer() {
    let failure = mapped(unsupported(
        "add",
        operand(ValueKind::Str, "String(\"UInt\")"),
        operand(ValueKind::Int, "Int(1)"),
    ));
    assert_eq!(
        failure.message,
        "Unsupported addition operation: String(\"UInt\") + Int(1). Check that both operands are compatible types (int+int, double+double, string+string, etc.)"
    );
}

#[test]
fn the_other_arithmetic_operators_have_their_own_messages() {
    let l = || operand(ValueKind::Str, "String(\"a\")");
    let r = || operand(ValueKind::Int, "Int(1)");
    assert_eq!(
        mapped(unsupported("mul", l(), r())).message,
        "Unsupported multiplication operation: String(\"a\") * Int(1). Ensure both operands are numeric and of compatible types. Use explicit conversion if needed: double(value)*double(value)"
    );
    assert_eq!(
        mapped(unsupported("sub", l(), r())).message,
        "Unsupported subtraction operation: String(\"a\") - Int(1). Ensure both operands are numeric and of compatible types."
    );
    assert_eq!(
        mapped(unsupported("div", l(), r())).message,
        "Unsupported division operation: String(\"a\") / Int(1). Ensure both operands are numeric and of compatible types."
    );
    let failure = mapped(unsupported("rem", l(), r()));
    assert_eq!(failure.kind, ErrorKind::TypeMismatch);
    assert_eq!(
        failure.message,
        "Unsupported operation 'rem' between String(\"a\") and Int(1). Check the CEL specification for supported operations between these types."
    );
    let mixed = mapped(unsupported(
        "mul",
        operand(ValueKind::Int, "Int(1)"),
        operand(ValueKind::UInt, "UInt(2)"),
    ));
    assert_eq!(
        mixed.message,
        "Unsupported multiplication operation: Int(1) * UInt(2). Ensure both operands are numeric and of compatible types. Use explicit conversion if needed: double(value)*double(value)"
    );
}

#[test]
fn a_function_error_names_the_function_and_the_cause() {
    let failure = mapped(ExecutionError::FunctionError {
        function: s("double"),
        message: s("Python function call failed: boom"),
    });
    assert_eq!(failure.kind, ErrorKind::FunctionCall);
    assert_eq!(
        failure.message,
        "Function 'double' error: Python function call failed: boom. Check function arguments and their types."
    );
}

#[test]
fn other_errors_are_sorted_by_their_debug_text() {
    let failure = mapped(ExecutionError::Other {
        debug: s("Wrapped(UndeclaredReference(\"x\"))"),
        display: s("undeclared x"),
    });
    assert_eq!(failure.kind, ErrorKind::UndefinedReference);
    assert_eq!(
        failure.message,
        "Undefined variable or function. Check that all variables are defined in the context and function names are spelled correctly. Error: undeclared x"
    );
    let failure = mapped(ExecutionError::Other {
        debug: s("Wrapped(UnsupportedBinaryOperator(..))"),
        display: s("bad operands"),
    });
    assert_eq!(failure.kind, ErrorKind::TypeMismatch);
    assert_eq!(
        failure.message,
        "Unsupported operation between incompatible types. Check the CEL specification for supported operations. Error: bad operands"
    );
    let failure = mapped(ExecutionError::Other {
        debug: s("NoSuchKey(\"k\")"),
        display: s("No such key: k"),
    });
    assert_eq!(failure.kind, ErrorKind::Evaluation);
    assert_eq!(
        failure.message,
        "CEL execution error: No such key: k. This may indicate an unsupported operation or invalid expression."
    );
}

#[test]
fn trampoline_arguments_are_host_values_in_order() {
    let arguments = vec![Value::Int(21), Value::Str(s("a")), Value::List(vec![Value::UInt(1)])];
    assert_eq!(
        trampoline_arguments(&arguments),
        vec![
            HostValue::Integer(21),
            HostValue::Str(s("a")),
            HostValue::List(vec![HostValue::Integer(1)]),
        ]
    );
    assert_eq!(trampoline_arguments(&vec![]), vec![]);
}

#[test]
fn a_returned_value_goes_back_converted() {
    let outcome = CallOutcome::Returned(HostValue::Integer(42));
    assert_eq!(trampoline_result("double", &outcome), Ok(Value::Int(42)));
}

#[test]
fn a_raising_function_is_a_function_error_that_names_it() {
    let outcome = CallOutcome::Raised(s("ValueError: boom"));
    let error = trampoline_result("double", &outcome).expect_err("fails");
    assert_eq!(
        error,
        ExecutionError::FunctionError {
            function: s("double"),
            message: s("Python function call failed: ValueError: boom"),
        }
    );
    let failure = map_execution_error_to_python(&error);
    assert_eq!(failure.kind, ErrorKind::FunctionCall);
    assert_eq!(
        failure.message,
        "Function 'double' error: Python function call failed: ValueError: boom. Check function arguments and their types."
    );
}

#[test]
fn a_result_that_does_not_convert_is_a_function_error() {
    let outcome = CallOutcome::Returned(HostValue::Callable {
        handle: HostCallable { id: 1 },
        kind_name: s("function"),
    });
    assert_eq!(
        trampoline_result("f", &outcome),
        Err(ExecutionError::FunctionError {
            function: s("f"),
            message: s(
                "Failed to convert Python result to CEL value: Conversion Error: Failed to convert Python object of type function to Value"
            ),
        })
    );
}

#[test]
fn refused_arguments_are_function_errors() {
    assert_eq!(
        trampoline_result("f", &CallOutcome::ArgumentRefused(s("no"))),
        Err(ExecutionError::FunctionError {
            function: s("f"),
            message: s("Failed to convert argument to Python: no"),
        })
    );
    assert_eq!(
        trampoline_result("f", &CallOutcome::ArgumentsRefused(s("no"))),
        Err(ExecutionError::FunctionError {
            function: s("f"),
            message: s("Failed to create arguments tuple: no"),
        })
    );
}

#[test]
fn optional_none_or_value_is_the_default() {
    assert_eq!(OptionalValue::none().or_value(HostValue::Integer(5)), HostValue::Integer(5));
}

#[test]
fn optional_of_three_holds_three() {
    let three = OptionalValue::of(&HostValue::Integer(3)).expect("converts");
    assert!(three.has_value());
    assert_eq!(three.value(), Ok(HostValue::Integer(3)));
    assert_eq!(three.or_value(HostValue::Integer(5)), HostValue::Integer(3));
}

#[test]
fn optional_none_has_no_value() {
    let none = OptionalValue::none();
    assert!(!none.has_value());
    assert_eq!(
        none.value(),
        Err(Failure { kind: ErrorKind::InvalidOperation, message: s("optional value is absent") })
    );
}

#[test]
fn optional_of_what_does_not_convert_fails() {
    assert!(OptionalValue::of(&HostValue::Other(s("set"))).is_err());
}

#[test]
fn a_shared_optional_holds_the_same() {
    let one = OptionalValue::of(&HostValue::Integer(1)).expect("converts");
    assert_eq!(one.share(), one);
    assert_eq!(OptionalValue::none().share(), OptionalValue::none());
}

#[test]
fn or_optional_prefers_the_left() {
    let one = OptionalValue::of(&HostValue::Integer(1)).expect("converts");
    let two = OptionalValue::of(&HostValue::Integer(2)).expect("converts");
    let none = OptionalValue::none();
    assert_eq!(one.or_optional(&two).value(), Ok(HostValue::Integer(1)));
    assert_eq!(none.or_optional(&two).value(), Ok(HostValue::Integer(2)));
    assert_eq!(one.or_optional(&none).value(), Ok(HostValue::Integer(1)));
    assert!(!none.or_optional(&OptionalValue::none()).has_value());
}

#[test]
fn a_local_timestamp_is_resolved_by_subtracting_an_offset() {
    let naive = NaiveTimestamp { seconds: 1_700_000_000, nanos: 123 };
    match HostValue::local_timestamp(naive) {
        HostValue::LocalTimestamp { naive: reading, resolved } => {
            assert_eq!(reading, naive);
            if let Some(t) = resolved {
                assert!(-86_400 < t.offset_seconds && t.offset_seconds < 86_400);
                assert_eq!(t.seconds + t.offset_seconds as i64, naive.seconds);
                assert_eq!(t.nanos, 123);
                let local = HostValue::LocalTimestamp { naive, resolved: Some(t) };
                assert_eq!(to_engine(&local), Ok(Value::Timestamp(t)));
            }
        }
        other => panic!("not a local timestamp: {:?}", other),
    }
}

#[test]
fn a_reading_outside_the_calendar_is_not_resolved() {
    let naive = NaiveTimestamp { seconds: i64::MAX, nanos: 0 };
    assert_eq!(
        HostValue::local_timestamp(naive),
        HostValue::LocalTimestamp { naive, resolved: None }
    );
    let bad_nanos = NaiveTimestamp { seconds: 0, nanos: 2_000_000_000 };
    assert_eq!(
        HostValue::local_timestamp(bad_nanos),
        HostValue::LocalTimestamp { naive: bad_nanos, resolved: None }
    );
}

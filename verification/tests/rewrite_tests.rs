use cel_bridge::ast::{Expr, Operator};
use cel_bridge::rewrite::{
    ast_to_string_preserve_integers, ast_to_string_with_promotion,
    expression_has_mixed_numeric_literals, integral_text, operator_of,
    preprocess_expression_for_mixed_arithmetic_always, promote_integers_in_ast,
};
use cel_bridge::text::{contains, escape_bytes, escape_string, identifier, same_text};

fn lit(v: i64) -> Expr {
    Expr::Int(v)
}

fn double(text: &str) -> Expr {
    Expr::Double(text.to_string())
}

fn ident(name: &str) -> Expr {
    Expr::Ident(name.to_string())
}

fn call(name: &str, args: Vec<Expr>) -> Expr {
    Expr::Call { func_name: name.to_string(), target: None, args }
}

fn method(target: Expr, name: &str, args: Vec<Expr>) -> Expr {
    Expr::Call { func_name: name.to_string(), target: Some(Box::new(target)), args }
}

fn text_of(e: &Expr) -> Option<String> {
    ast_to_string_with_promotion(e)
}

fn some(text: &str) -> Option<String> {
    Some(text.to_string())
}

#[test]
fn addition_of_integer_and_double_is_promoted() {
    let e = call("_+_", vec![lit(1), double("2.5")]);
    assert_eq!(text_of(&e), some("(1.0 + 2.5)"));
}

#[test]
fn index_keeps_its_integer() {
    let list = Expr::NewList(vec![lit(10), lit(20), lit(30)]);
    let e = call("_[_]", vec![list, lit(1)]);
    assert_eq!(text_of(&e), some("[10.0, 20.0, 30.0][1]"));
}

#[test]
fn index_keeps_only_a_literal_at_its_top() {
    let inner = call("_+_", vec![ident("i"), lit(1)]);
    let e = call("_[_]", vec![ident("xs"), inner]);
    assert_eq!(text_of(&e), some("xs[(i + 1.0)]"));
}

#[test]
fn integer_literals_become_doubles() {
    assert_eq!(text_of(&lit(0)), some("0.0"));
    assert_eq!(text_of(&lit(42)), some("42.0"));
    assert_eq!(text_of(&lit(-7)), some("-7.0"));
    assert_eq!(text_of(&lit(i64::MAX)), some("9223372036854775807.0"));
    assert_eq!(text_of(&lit(i64::MIN)), some("-9223372036854775808.0"));
}

#[test]
fn preserved_integers_stay_integers() {
    assert_eq!(ast_to_string_preserve_integers(&lit(3)), some("3"));
    assert_eq!(ast_to_string_preserve_integers(&lit(-3)), some("-3"));
    assert_eq!(ast_to_string_preserve_integers(&lit(i64::MIN)), some("-9223372036854775808"));
    assert_eq!(ast_to_string_preserve_integers(&double("3")), some("3.0"));
    let sum = call("_+_", vec![lit(1), lit(2)]);
    assert_eq!(ast_to_string_preserve_integers(&sum), some("(1.0 + 2.0)"));
    let equal = call("_==_", vec![lit(1), lit(2)]);
    assert_eq!(ast_to_string_preserve_integers(&equal), some("1.0 == 2.0"));
}

#[test]
fn whole_doubles_gain_a_decimal_point() {
    assert_eq!(text_of(&double("3")), some("3.0"));
    assert_eq!(text_of(&double("-0")), some("-0.0"));
    assert_eq!(text_of(&double("2.5")), some("2.5"));
    assert_eq!(text_of(&double("0.1")), some("0.1"));
    assert_eq!(text_of(&double("100000000000000000000")), some("100000000000000000000.0"));
    assert_eq!(text_of(&double("inf")), some("inf"));
    assert_eq!(text_of(&double("NaN")), some("NaN"));
    assert_eq!(text_of(&double("-")), some("-"));
    assert_eq!(text_of(&double("")), some(""));
}

#[test]
fn integral_text_is_a_sign_and_digits() {
    assert!(integral_text("3"));
    assert!(integral_text("-12"));
    assert!(!integral_text("1.5"));
    assert!(!integral_text(""));
    assert!(!integral_text("-"));
    assert!(!integral_text("1e5"));
    assert!(!integral_text("--1"));
}

#[test]
fn other_literals_keep_their_value() {
    assert_eq!(text_of(&Expr::Bool(true)), some("true"));
    assert_eq!(text_of(&Expr::Bool(false)), some("false"));
    assert_eq!(text_of(&Expr::Null), some("null"));
    assert_eq!(text_of(&Expr::Str("hi".to_string())), some("\"hi\""));
    assert_eq!(text_of(&Expr::Bytes(vec![0x61, 0x62])), some("b\"ab\""));
    assert_eq!(text_of(&ident("x")), some("x"));
}

#[test]
fn string_literals_are_escaped() {
    assert_eq!(escape_string("a\"b"), "a\\\"b");
    assert_eq!(escape_string("a\\b"), "a\\\\b");
    assert_eq!(escape_string("line\nfeed"), "line\\nfeed");
    assert_eq!(escape_string("cr\rtab\t"), "cr\\rtab\\t");
    assert_eq!(escape_string(""), "");
    assert_eq!(escape_string("h\u{e9}llo 1.5"), "h\u{e9}llo 1.5");
    let e = Expr::Str("say \"1\"\n".to_string());
    assert_eq!(text_of(&e), some("\"say \\\"1\\\"\\n\""));
}

#[test]
fn byte_literals_are_escaped() {
    assert_eq!(escape_bytes(&[0x41, 0x7e, 0x21]), "A~!");
    assert_eq!(escape_bytes(&[0x00, 0x0a, 0xff]), "\\x00\\x0a\\xff");
    assert_eq!(escape_bytes(&[0x22, 0x5c]), "\\x22\\x5c");
    assert_eq!(escape_bytes(&[0x20, 0x7f]), "\\x20\\x7f");
    assert_eq!(escape_bytes(&[]), "");
    let e = Expr::Bytes(vec![0x61, 0x00, 0x22]);
    assert_eq!(text_of(&e), some("b\"a\\x00\\x22\""));
}

#[test]
fn arithmetic_is_written_in_parentheses() {
    let cases = [
        ("_+_", "(a + 1.0)"),
        ("_-_", "(a - 1.0)"),
        ("_*_", "(a * 1.0)"),
        ("_/_", "(a / 1.0)"),
        ("_%_", "(a % 1.0)"),
    ];
    for (name, expected) in cases {
        let e = call(name, vec![ident("a"), lit(1)]);
        assert_eq!(text_of(&e), some(expected), "operator {}", name);
    }
}

#[test]
fn comparisons_and_logical_operators_are_written_bare() {
    let cases = [
        ("_==_", "a == 1.0"),
        ("_!=_", "a != 1.0"),
        ("_<_", "a < 1.0"),
        ("_<=_", "a <= 1.0"),
        ("_>_", "a > 1.0"),
        ("_>=_", "a >= 1.0"),
        ("_&&_", "a && 1.0"),
        ("_||_", "a || 1.0"),
    ];
    for (name, expected) in cases {
        let e = call(name, vec![ident("a"), lit(1)]);
        assert_eq!(text_of(&e), some(expected), "operator {}", name);
    }
}

#[test]
fn operator_names_are_recognised() {
    assert_eq!(operator_of("_+_"), Some(Operator::Add));
    assert_eq!(operator_of("_-_"), Some(Operator::Subtract));
    assert_eq!(operator_of("-_"), Some(Operator::Negate));
    assert_eq!(operator_of("!_"), Some(Operator::Not));
    assert_eq!(operator_of("_?_:_"), Some(Operator::Conditional));
    assert_eq!(operator_of("_[_]"), Some(Operator::Index));
    assert_eq!(operator_of("_>=_"), Some(Operator::GreaterEquals));
    assert_eq!(operator_of("size"), None);
    assert_eq!(operator_of("@in"), None);
    assert_eq!(operator_of(""), None);
    assert_eq!(operator_of("_+"), None);
}

#[test]
fn unary_and_conditional_operators_are_written_bare() {
    assert_eq!(text_of(&call("!_", vec![ident("a")])), some("!a"));
    assert_eq!(text_of(&call("-_", vec![lit(2)])), some("-2.0"));
    assert_eq!(text_of(&call("-_", vec![ident("x")])), some("-x"));
    let e = call("_?_:_", vec![ident("c"), lit(1), double("2.5")]);
    assert_eq!(text_of(&e), some("c ? 1.0 : 2.5"));
}

#[test]
fn nesting_keeps_the_structure_of_the_tree() {
    let or = call("_||_", vec![ident("a"), ident("b")]);
    let and = call("_&&_", vec![or, ident("c")]);
    assert_eq!(text_of(&and), some("(a || b) && c"));
    let sum = call("_+_", vec![lit(1), lit(2)]);
    let product = call("_*_", vec![sum, lit(3)]);
    assert_eq!(text_of(&product), some("((1.0 + 2.0) * 3.0)"));
    let negated = call("-_", vec![ident("x")]);
    let selected = Expr::Select { operand: Box::new(negated), field: "y".to_string(), test: false };
    assert_eq!(text_of(&selected), some("(-x).y"));
}

#[test]
fn an_operand_that_binds_tighter_stays_bare() {
    let and = call("_&&_", vec![ident("a"), ident("b")]);
    let or = call("_||_", vec![and, ident("c")]);
    assert_eq!(text_of(&or), some("a && b || c"));
    let less = call("_<_", vec![ident("a"), ident("b")]);
    let both = call("_&&_", vec![less, call("!_", vec![ident("c")])]);
    assert_eq!(text_of(&both), some("a < b && !c"));
    let sum = call("_+_", vec![call("-_", vec![ident("a")]), ident("b")]);
    assert_eq!(text_of(&sum), some("(-a + b)"));
    let compared = call("_==_", vec![call("_+_", vec![ident("a"), lit(1)]), ident("b")]);
    assert_eq!(text_of(&compared), some("(a + 1.0) == b"));
    let chosen = call(
        "_?_:_",
        vec![call("_||_", vec![ident("p"), ident("q")]), ident("a"), ident("b")],
    );
    assert_eq!(text_of(&chosen), some("p || q ? a : b"));
}

#[test]
fn chains_of_one_logical_operator_stay_bare() {
    let left = call("_&&_", vec![call("_&&_", vec![ident("a"), ident("b")]), ident("c")]);
    assert_eq!(text_of(&left), some("a && b && c"));
    let right = call("_||_", vec![ident("a"), call("_||_", vec![ident("b"), ident("c")])]);
    assert_eq!(text_of(&right), some("a || b || c"));
}

#[test]
fn comparisons_group_to_the_left() {
    let less = call("_<_", vec![ident("a"), ident("b")]);
    let left = call("_==_", vec![less, ident("c")]);
    assert_eq!(text_of(&left), some("a < b == c"));
    let less = call("_<_", vec![ident("b"), ident("c")]);
    let right = call("_==_", vec![ident("a"), less]);
    assert_eq!(text_of(&right), some("a == (b < c)"));
}

#[test]
fn an_operand_that_binds_more_loosely_is_enclosed() {
    let and = call("_&&_", vec![ident("a"), ident("b")]);
    assert_eq!(text_of(&call("!_", vec![and])), some("!(a && b)"));
    let not = call("!_", vec![ident("a")]);
    assert_eq!(text_of(&call("!_", vec![not])), some("!(!a)"));
    let negated = call("-_", vec![call("-_", vec![ident("a")])]);
    assert_eq!(text_of(&negated), some("-(-a)"));
    let equal = call("_==_", vec![ident("a"), ident("b")]);
    assert_eq!(text_of(&call("_+_", vec![equal, lit(1)])), some("((a == b) + 1.0)"));
    let or = call("_||_", vec![ident("a"), ident("b")]);
    assert_eq!(text_of(&call("_<_", vec![ident("x"), or])), some("x < (a || b)"));
    let inner = call("_?_:_", vec![ident("p"), ident("q"), ident("r")]);
    let outer = call("_?_:_", vec![inner, ident("a"), ident("b")]);
    assert_eq!(text_of(&outer), some("(p ? q : r) ? a : b"));
    let inner = call("_?_:_", vec![ident("p"), ident("q"), ident("r")]);
    let outer = call("_?_:_", vec![ident("c"), inner, ident("b")]);
    assert_eq!(text_of(&outer), some("c ? (p ? q : r) : b"));
    let inner = call("_?_:_", vec![ident("p"), ident("q"), ident("r")]);
    let outer = call("_&&_", vec![ident("c"), inner]);
    assert_eq!(text_of(&outer), some("c && (p ? q : r)"));
}

#[test]
fn the_last_branch_of_a_conditional_stays_bare() {
    let inner = call("_?_:_", vec![ident("d"), ident("e"), ident("f")]);
    let outer = call("_?_:_", vec![ident("c"), ident("a"), inner]);
    assert_eq!(text_of(&outer), some("c ? a : d ? e : f"));
}

#[test]
fn receivers_and_indexed_operands_are_enclosed_where_they_are_applications() {
    let chosen = call("_?_:_", vec![ident("a"), ident("b"), ident("c")]);
    assert_eq!(text_of(&call("_[_]", vec![chosen, lit(0)])), some("(a ? b : c)[0]"));
    let equal = call("_==_", vec![ident("a"), ident("b")]);
    assert_eq!(text_of(&method(equal, "size", vec![])), some("(a == b).size()"));
    let sum = call("_+_", vec![ident("a"), ident("b")]);
    assert_eq!(text_of(&method(sum, "size", vec![])), some("(a + b).size()"));
    let not = call("!_", vec![ident("a")]);
    let tested = Expr::Select { operand: Box::new(not), field: "f".to_string(), test: true };
    assert_eq!(text_of(&tested), some("has((!a).f)"));
    let indexed = call("_[_]", vec![ident("xs"), lit(0)]);
    assert_eq!(text_of(&method(indexed, "size", vec![])), some("xs[0].size()"));
}

#[test]
fn what_is_delimited_needs_no_parentheses() {
    let equal = call("_==_", vec![ident("b"), ident("c")]);
    assert_eq!(text_of(&call("_[_]", vec![ident("a"), equal])), some("a[b == c]"));
    let equal = call("_==_", vec![ident("a"), ident("b")]);
    assert_eq!(text_of(&call("f", vec![equal, lit(1)])), some("f(a == b, 1.0)"));
    let or = call("_||_", vec![ident("a"), ident("b")]);
    assert_eq!(text_of(&Expr::NewList(vec![or])), some("[a || b]"));
    let not = call("!_", vec![ident("a")]);
    let entries = Expr::NewMap(vec![(Expr::Str("k".to_string()), not)]);
    assert_eq!(text_of(&entries), some("{\"k\": !a}"));
}

#[test]
fn function_and_method_calls_keep_receiver_and_order() {
    assert_eq!(text_of(&call("double", vec![lit(21)])), some("double(21.0)"));
    assert_eq!(text_of(&call("max", vec![lit(1), lit(2), lit(3)])), some("max(1.0, 2.0, 3.0)"));
    assert_eq!(text_of(&call("now", vec![])), some("now()"));
    let m = method(ident("xs"), "size", vec![]);
    assert_eq!(text_of(&m), some("xs.size()"));
    let m = method(Expr::Str("abc".to_string()), "startsWith", vec![Expr::Str("a".to_string())]);
    assert_eq!(text_of(&m), some("\"abc\".startsWith(\"a\")"));
}

#[test]
fn selects_lists_and_maps() {
    let s = Expr::Select { operand: Box::new(ident("a")), field: "b".to_string(), test: false };
    assert_eq!(text_of(&s), some("a.b"));
    let h = Expr::Select { operand: Box::new(ident("a")), field: "b".to_string(), test: true };
    assert_eq!(text_of(&h), some("has(a.b)"));
    assert_eq!(text_of(&Expr::NewList(vec![])), some("[]"));
    assert_eq!(text_of(&Expr::NewList(vec![lit(1)])), some("[1.0]"));
    assert_eq!(text_of(&Expr::NewMap(vec![])), some("{}"));
    let m = Expr::NewMap(vec![
        (Expr::Str("a".to_string()), lit(1)),
        (lit(2), double("2.5")),
    ]);
    assert_eq!(text_of(&m), some("{\"a\": 1.0, 2.0: 2.5}"));
}

#[test]
fn nodes_that_cannot_be_written_back_give_nothing() {
    assert_eq!(text_of(&Expr::Comprehension), None);
    assert_eq!(text_of(&Expr::Unsupported), None);
    assert_eq!(text_of(&call("_+_", vec![lit(1), Expr::Comprehension])), None);
    assert_eq!(text_of(&call("_+_", vec![Expr::Unsupported, lit(1)])), None);
    assert_eq!(text_of(&Expr::NewList(vec![lit(1), Expr::Comprehension, lit(2)])), None);
    assert_eq!(text_of(&Expr::NewMap(vec![(lit(1), Expr::Unsupported)])), None);
    assert_eq!(text_of(&Expr::NewMap(vec![(Expr::Unsupported, lit(1))])), None);
    assert_eq!(text_of(&method(Expr::Comprehension, "size", vec![])), None);
    assert_eq!(text_of(&call("f", vec![Expr::Comprehension])), None);
    let s = Expr::Select { operand: Box::new(Expr::Unsupported), field: "b".to_string(), test: false };
    assert_eq!(text_of(&s), None);
    assert_eq!(ast_to_string_preserve_integers(&Expr::Comprehension), None);
}

#[test]
fn operators_with_the_wrong_shape_give_nothing() {
    assert_eq!(text_of(&call("_+_", vec![lit(1)])), None);
    assert_eq!(text_of(&call("_+_", vec![lit(1), lit(2), lit(3)])), None);
    assert_eq!(text_of(&call("!_", vec![])), None);
    assert_eq!(text_of(&call("_?_:_", vec![lit(1), lit(2)])), None);
    assert_eq!(text_of(&call("_[_]", vec![ident("a")])), None);
    assert_eq!(text_of(&method(ident("a"), "_+_", vec![lit(1), lit(2)])), None);
}

#[test]
fn calls_under_names_that_are_no_identifiers_give_nothing() {
    assert_eq!(text_of(&call("@in", vec![lit(1), ident("xs")])), None);
    assert_eq!(text_of(&call("", vec![])), None);
    assert_eq!(text_of(&call("1f", vec![])), None);
    assert_eq!(text_of(&call("a-b", vec![])), None);
    assert_eq!(text_of(&call("_f9", vec![])), some("_f9()"));
}

#[test]
fn identifiers() {
    assert!(identifier("x"));
    assert!(identifier("_"));
    assert!(identifier("user_name2"));
    assert!(identifier("A9"));
    assert!(!identifier(""));
    assert!(!identifier("9a"));
    assert!(!identifier("a b"));
    assert!(!identifier("a.b"));
    assert!(!identifier("h\u{e9}"));
}

#[test]
fn promote_integers_in_ast_is_the_promoted_text() {
    let e = call("_+_", vec![lit(1), double("2.5")]);
    assert_eq!(promote_integers_in_ast(&e), some("(1.0 + 2.5)"));
    assert_eq!(promote_integers_in_ast(&Expr::Comprehension), None);
}

#[test]
fn preprocessing_rewrites_or_falls_back_to_the_source() {
    let parsed = Some(call("_+_", vec![lit(1), double("2.5")]));
    assert_eq!(
        preprocess_expression_for_mixed_arithmetic_always("1 + 2.5", &parsed),
        "(1.0 + 2.5)"
    );
    assert_eq!(preprocess_expression_for_mixed_arithmetic_always("1 + 2.5", &None), "1 + 2.5");
    let comprehension = Some(call("_+_", vec![Expr::Comprehension, double("2.5")]));
    assert_eq!(
        preprocess_expression_for_mixed_arithmetic_always("[1].map(x, x)[0] + 2.5", &comprehension),
        "[1].map(x, x)[0] + 2.5"
    );
}

#[test]
fn a_string_that_looks_like_a_marker_is_still_rewritten() {
    let parsed = Some(call(
        "_+_",
        vec![Expr::Str("/* comprehension fallback */".to_string()), Expr::Str("1.5".to_string())],
    ));
    assert_eq!(
        preprocess_expression_for_mixed_arithmetic_always("unused", &parsed),
        "(\"/* comprehension fallback */\" + \"1.5\")"
    );
}

#[test]
fn mixed_literals_need_a_point_next_to_a_digit() {
    assert!(expression_has_mixed_numeric_literals("1 + 2.5"));
    assert!(expression_has_mixed_numeric_literals("x + .5"));
    assert!(expression_has_mixed_numeric_literals("x + 5."));
    assert!(expression_has_mixed_numeric_literals("2.5"));
    assert!(!expression_has_mixed_numeric_literals("1 + 2"));
    assert!(!expression_has_mixed_numeric_literals("a.b + 1"));
    assert!(!expression_has_mixed_numeric_literals("a.b"));
    assert!(!expression_has_mixed_numeric_literals(""));
    assert!(!expression_has_mixed_numeric_literals("."));
    assert!(expression_has_mixed_numeric_literals("a.b1.c2.d"));
    assert!(expression_has_mixed_numeric_literals("v1.x"));
}

#[test]
fn text_search_and_comparison() {
    assert!(contains("UndeclaredReference(\"x\")", "UndeclaredReference"));
    assert!(contains("abc", ""));
    assert!(contains("", ""));
    assert!(contains("abc", "c"));
    assert!(contains("aab", "ab"));
    assert!(!contains("abc", "abcd"));
    assert!(!contains("abc", "ac"));
    assert!(!contains("", "a"));
    assert!(same_text("abc", "abc"));
    assert!(same_text("", ""));
    assert!(!same_text("abc", "abd"));
    assert!(!same_text("abc", "ab"));
    assert!(!same_text("ab", "abc"));
}

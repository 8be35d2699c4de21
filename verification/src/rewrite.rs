//! Numeric-compatibility rewriting: a parsed expression is written back as
//! source text in which every integer literal has become a floating-point
//! literal, except directly inside an index operator.

use crate::ast::{Expr, Operator};
use crate::text::{
    chars_of, digit, escaped_bytes, escaped_text, identifier, int_decimal, is_digit,
    is_identifier, push_escaped_bytes, push_escaped_text, push_int_decimal,
};
use vstd::prelude::*;

verus! {

/// The operator that a call's reserved function name stands for, if any.
pub open spec fn operator_named(name: Seq<char>) -> Option<Operator> {
    if name == "_+_"@ {
        Some(Operator::Add)
    } else if name == "_-_"@ {
        Some(Operator::Subtract)
    } else if name == "_*_"@ {
        Some(Operator::Multiply)
    } else if name == "_/_"@ {
        Some(Operator::Divide)
    } else if name == "_%_"@ {
        Some(Operator::Remainder)
    } else if name == "_==_"@ {
        Some(Operator::Equals)
    } else if name == "_!=_"@ {
        Some(Operator::NotEquals)
    } else if name == "_<_"@ {
        Some(Operator::Less)
    } else if name == "_<=_"@ {
        Some(Operator::LessEquals)
    } else if name == "_>_"@ {
        Some(Operator::Greater)
    } else if name == "_>=_"@ {
        Some(Operator::GreaterEquals)
    } else if name == "_&&_"@ {
        Some(Operator::And)
    } else if name == "_||_"@ {
        Some(Operator::Or)
    } else if name == "!_"@ {
        Some(Operator::Not)
    } else if name == "-_"@ {
        Some(Operator::Negate)
    } else if name == "_?_:_"@ {
        Some(Operator::Conditional)
    } else if name == "_[_]"@ {
        Some(Operator::Index)
    } else {
        None
    }
}

/// How a binary operator is written between its operands.
pub open spec fn infix_symbol(op: Operator) -> Option<Seq<char>> {
    match op {
        Operator::Add => Some(" + "@),
        Operator::Subtract => Some(" - "@),
        Operator::Multiply => Some(" * "@),
        Operator::Divide => Some(" / "@),
        Operator::Remainder => Some(" % "@),
        Operator::Equals => Some(" == "@),
        Operator::NotEquals => Some(" != "@),
        Operator::Less => Some(" < "@),
        Operator::LessEquals => Some(" <= "@),
        Operator::Greater => Some(" > "@),
        Operator::GreaterEquals => Some(" >= "@),
        Operator::And => Some(" && "@),
        Operator::Or => Some(" || "@),
        _ => None,
    }
}

/// How a unary operator is written before its operand.
pub open spec fn prefix_symbol(op: Operator) -> Option<Seq<char>> {
    match op {
        Operator::Not => Some("!"@),
        Operator::Negate => Some("-"@),
        _ => None,
    }
}

/// Whether `text` is one decimal digit or more, and nothing else.
pub open spec fn is_digits(text: Seq<char>) -> bool {
    &&& text.len() > 0
    &&& forall|i: int| 0 <= i < text.len() ==> is_digit(#[trigger] text[i])
}

/// Whether the text of a floating-point literal shows a whole number
/// without a decimal point: an optional minus sign, then digits only.
pub open spec fn is_integral_text(text: Seq<char>) -> bool {
    if text.len() > 0 && text[0] == '-' {
        is_digits(text.drop_first())
    } else {
        is_digits(text)
    }
}

/// A floating-point literal with a visible decimal point: a whole number
/// gains `.0`, any other text stays as it is.
pub open spec fn double_text(text: Seq<char>) -> Seq<char> {
    if is_integral_text(text) {
        text + ".0"@
    } else {
        text
    }
}

/// The source text of an integer literal: its decimal digits, and `.0`
/// after them unless the integer is to be kept.
pub open spec fn int_text(value: int, keep_integer: bool) -> Seq<char> {
    if keep_integer {
        int_decimal(value)
    } else {
        int_decimal(value) + ".0"@
    }
}

/// Whether the operator is one of the five of arithmetic.
pub open spec fn is_arithmetic(op: Operator) -> bool {
    op == Operator::Add || op == Operator::Subtract || op == Operator::Multiply || op
        == Operator::Divide || op == Operator::Remainder
}

/// How loosely the text of an application of `op` holds together, from 0
/// for a text that stands by itself: arithmetic (in its own parentheses)
/// and indexing 0, the unary operators 1, comparisons 2, `&&` 3, `||` 4
/// and the conditional 5.
pub open spec fn operator_looseness(op: Operator) -> nat {
    match op {
        Operator::Not => 1,
        Operator::Negate => 1,
        Operator::Equals => 2,
        Operator::NotEquals => 2,
        Operator::Less => 2,
        Operator::LessEquals => 2,
        Operator::Greater => 2,
        Operator::GreaterEquals => 2,
        Operator::And => 3,
        Operator::Or => 4,
        Operator::Conditional => 5,
        _ => 0,
    }
}

/// How loosely the text of `e` holds together: as its operator says where
/// `e` applies one, and 0 for every other node.
pub open spec fn looseness(e: Expr) -> nat {
    match e {
        Expr::Call { func_name, target, args } => match operator_named(func_name@) {
            Some(op) => operator_looseness(op),
            None => 0,
        },
        _ => 0,
    }
}

/// The loosest text that may stand bare to the left of the binary operator
/// `op`: up to a unary application for arithmetic, up to a comparison for
/// a comparison, and up to the operator itself for `&&` and `||`.
pub open spec fn left_limit(op: Operator) -> nat {
    if is_arithmetic(op) {
        1
    } else {
        operator_looseness(op)
    }
}

/// The loosest text that may stand bare to the right of the binary
/// operator `op`: up to a unary application for arithmetic and for a
/// comparison, and up to the operator itself for `&&` and `||`.
pub open spec fn right_limit(op: Operator) -> nat {
    if is_arithmetic(op) || operator_looseness(op) == 2 {
        1
    } else {
        operator_looseness(op)
    }
}

/// A binary operator between the texts of its operands; arithmetic is
/// enclosed in parentheses, every other application is written bare.
pub open spec fn infix_text(op: Operator, left: Seq<char>, right: Seq<char>) -> Seq<char> {
    if is_arithmetic(op) {
        "("@ + left + infix_symbol(op)->0 + right + ")"@
    } else {
        left + infix_symbol(op)->0 + right
    }
}

/// The source text of `e` with integer literals promoted, or `None` where
/// `e` holds a node that cannot be written back.
///
/// With `keep_integer`, an integer literal at the top of `e` stays an
/// integer; literals below the top are promoted either way. Arithmetic is
/// written in parentheses. Comparisons, `&&`, `||`, the unary operators
/// and the conditional are written bare; one of them that is an operand or
/// a receiver is enclosed in parentheses where it holds together more
/// loosely than its place allows.
pub open spec fn rendered(e: Expr, keep_integer: bool) -> Option<Seq<char>>
    decreases e, 1nat,
{
    match e {
        Expr::Int(value) => Some(int_text(value as int, keep_integer)),
        Expr::Double(text) => Some(double_text(text@)),
        Expr::Str(value) => Some("\""@ + escaped_text(value@) + "\""@),
        Expr::Bool(value) => Some(
            if value {
                "true"@
            } else {
                "false"@
            },
        ),
        Expr::Null => Some("null"@),
        Expr::Bytes(value) => Some("b\""@ + escaped_bytes(value@) + "\""@),
        Expr::Ident(name) => Some(name@),
        Expr::Call { .. } => rendered_call(e),
        Expr::Select { operand, field, test } => match enclosed(*operand, 0) {
            Some(text) => Some(
                if test {
                    "has("@ + text + "."@ + field@ + ")"@
                } else {
                    text + "."@ + field@
                },
            ),
            None => None,
        },
        Expr::NewList(elements) => match rendered_items(elements@) {
            Some(text) => Some("["@ + text + "]"@),
            None => None,
        },
        Expr::NewMap(entries) => match rendered_entries(entries@) {
            Some(text) => Some("{"@ + text + "}"@),
            None => None,
        },
        Expr::Comprehension => None,
        Expr::Unsupported => None,
    }
}

/// The text of `e` as an operand or a receiver: its promoted text, in
/// parentheses where it holds together more loosely than `limit`.
pub open spec fn enclosed(e: Expr, limit: nat) -> Option<Seq<char>>
    decreases e, 2nat,
{
    match rendered(e, false) {
        Some(text) => Some(
            if looseness(e) > limit {
                "("@ + text + ")"@
            } else {
                text
            },
        ),
        None => None,
    }
}

/// The source text of a call: an operator application where the function
/// name is an operator's and the call has no target, else
/// `target.name(arguments)` where the name can be written as one.
pub open spec fn rendered_call(e: Expr) -> Option<Seq<char>>
    decreases e, 0nat,
{
    match e {
        Expr::Call { func_name, target, args } => match operator_named(func_name@) {
            Some(op) => if target is Some {
                None
            } else {
                rendered_operator(op, args@)
            },
            None => if is_identifier(func_name@) {
                let receiver = match target {
                    Some(t) => match enclosed(*t, 0) {
                        Some(text) => Some(text + "."@),
                        None => None,
                    },
                    None => Some(Seq::<char>::empty()),
                };
                match (receiver, rendered_items(args@)) {
                    (Some(prefix), Some(arguments)) => Some(
                        prefix + func_name@ + "("@ + arguments + ")"@,
                    ),
                    _ => None,
                }
            } else {
                None
            },
        },
        _ => None,
    }
}

/// The source text of `op` applied to `operands`, or `None` where their
/// number is not the operator's or one of them cannot be written back.
///
/// The branches of a conditional and the operand inside the brackets of
/// an index are delimited by what stands round them; only a conditional
/// as the condition or as the first branch needs parentheses. The operand
/// inside the brackets keeps an integer literal.
pub open spec fn rendered_operator(op: Operator, operands: Seq<Expr>) -> Option<Seq<char>>
    decreases operands,
{
    if infix_symbol(op) is Some {
        if operands.len() == 2 {
            match (enclosed(operands[0], left_limit(op)), enclosed(operands[1], right_limit(op))) {
                (Some(left), Some(right)) => Some(infix_text(op, left, right)),
                _ => None,
            }
        } else {
            None
        }
    } else if prefix_symbol(op) is Some {
        if operands.len() == 1 {
            match enclosed(operands[0], 0) {
                Some(operand) => Some(prefix_symbol(op)->0 + operand),
                None => None,
            }
        } else {
            None
        }
    } else if op == Operator::Conditional {
        if operands.len() == 3 {
            match (enclosed(operands[0], 4), enclosed(operands[1], 4), enclosed(operands[2], 5)) {
                (Some(condition), Some(first), Some(second)) => Some(
                    condition + " ? "@ + first + " : "@ + second,
                ),
                _ => None,
            }
        } else {
            None
        }
    } else {
        if operands.len() == 2 {
            match (enclosed(operands[0], 0), rendered(operands[1], true)) {
                (Some(operand), Some(index)) => Some(operand + "["@ + index + "]"@),
                _ => None,
            }
        } else {
            None
        }
    }
}

/// The texts of `items`, promoted, separated by `", "`.
pub open spec fn rendered_items(items: Seq<Expr>) -> Option<Seq<char>>
    decreases items,
{
    if items.len() == 0 {
        Some(Seq::empty())
    } else {
        match (rendered_items(items.drop_last()), rendered(items.last(), false)) {
            (Some(before), Some(item)) => Some(
                if items.len() == 1 {
                    item
                } else {
                    before + ", "@ + item
                },
            ),
            _ => None,
        }
    }
}

/// The texts of `entries`, each as `key: value`, promoted, separated by
/// `", "`.
pub open spec fn rendered_entries(entries: Seq<(Expr, Expr)>) -> Option<Seq<char>>
    decreases entries,
{
    if entries.len() == 0 {
        Some(Seq::empty())
    } else {
        match (
            rendered_entries(entries.drop_last()),
            rendered(entries.last().0, false),
            rendered(entries.last().1, false),
        ) {
            (Some(before), Some(key), Some(value)) => Some(
                if entries.len() == 1 {
                    key + ": "@ + value
                } else {
                    before + ", "@ + key + ": "@ + value
                },
            ),
            _ => None,
        }
    }
}

/// Whether `chars` spells `text`.
fn spells(chars: &Vec<char>, text: &str) -> (same: bool)
    ensures
        same == (chars@ == text@),
{
    let mut i: usize = 0;
    for c in it: text.chars()
        invariant
            it.seq() == text@,
            i == it.index(),
            i <= chars.len(),
            chars@.take(i as int) == text@.take(i as int),
    {
        if i >= chars.len() || chars[i] != c {
            return false;
        }
        proof {
            assert(chars@.take(i + 1) == chars@.take(i as int).push(chars@[i as int]));
            assert(text@.take(i + 1) == text@.take(i as int).push(text@[i as int]));
        }
        i += 1;
    }
    proof {
        assert(text@.take(text@.len() as int) == text@);
        if i == chars.len() {
            assert(chars@.take(chars@.len() as int) == chars@);
        }
    }
    i == chars.len()
}

/// The operator that a call's function name stands for, if any.
pub fn operator_of(name: &str) -> (op: Option<Operator>)
    ensures
        op == operator_named(name@),
{
    let chars = chars_of(name);
    if spells(&chars, "_+_") {
        Some(Operator::Add)
    } else if spells(&chars, "_-_") {
        Some(Operator::Subtract)
    } else if spells(&chars, "_*_") {
        Some(Operator::Multiply)
    } else if spells(&chars, "_/_") {
        Some(Operator::Divide)
    } else if spells(&chars, "_%_") {
        Some(Operator::Remainder)
    } else if spells(&chars, "_==_") {
        Some(Operator::Equals)
    } else if spells(&chars, "_!=_") {
        Some(Operator::NotEquals)
    } else if spells(&chars, "_<_") {
        Some(Operator::Less)
    } else if spells(&chars, "_<=_") {
        Some(Operator::LessEquals)
    } else if spells(&chars, "_>_") {
        Some(Operator::Greater)
    } else if spells(&chars, "_>=_") {
        Some(Operator::GreaterEquals)
    } else if spells(&chars, "_&&_") {
        Some(Operator::And)
    } else if spells(&chars, "_||_") {
        Some(Operator::Or)
    } else if spells(&chars, "!_") {
        Some(Operator::Not)
    } else if spells(&chars, "-_") {
        Some(Operator::Negate)
    } else if spells(&chars, "_?_:_") {
        Some(Operator::Conditional)
    } else if spells(&chars, "_[_]") {
        Some(Operator::Index)
    } else {
        None
    }
}

fn infix_of(op: Operator) -> (symbol: Option<&'static str>)
    ensures
        symbol is Some == infix_symbol(op) is Some,
        symbol is Some ==> symbol->0@ == infix_symbol(op)->0,
{
    match op {
        Operator::Add => Some(" + "),
        Operator::Subtract => Some(" - "),
        Operator::Multiply => Some(" * "),
        Operator::Divide => Some(" / "),
        Operator::Remainder => Some(" % "),
        Operator::Equals => Some(" == "),
        Operator::NotEquals => Some(" != "),
        Operator::Less => Some(" < "),
        Operator::LessEquals => Some(" <= "),
        Operator::Greater => Some(" > "),
        Operator::GreaterEquals => Some(" >= "),
        Operator::And => Some(" && "),
        Operator::Or => Some(" || "),
        _ => None,
    }
}

fn prefix_of(op: Operator) -> (symbol: Option<&'static str>)
    ensures
        symbol is Some == prefix_symbol(op) is Some,
        symbol is Some ==> symbol->0@ == prefix_symbol(op)->0,
{
    match op {
        Operator::Not => Some("!"),
        Operator::Negate => Some("-"),
        _ => None,
    }
}

/// Whether the text of a floating-point literal shows a whole number
/// without a decimal point.
pub fn integral_text(text: &str) -> (yes: bool)
    ensures
        yes == is_integral_text(text@),
{
    let chars = chars_of(text);
    let start: usize = if chars.len() > 0 && chars[0] == '-' {
        1
    } else {
        0
    };
    let ghost digits = if start == 1 {
        text@.drop_first()
    } else {
        text@
    };
    if chars.len() == start {
        return false;
    }
    let mut i: usize = start;
    while i < chars.len()
        invariant
            start <= i <= chars.len(),
            chars@ == text@,
            digits == if text@.len() > 0 && text@[0] == '-' {
                text@.drop_first()
            } else {
                text@
            },
            start == if text@.len() > 0 && text@[0] == '-' {
                1int
            } else {
                0int
            },
            forall|j: int| 0 <= j < i - start ==> is_digit(#[trigger] digits[j]),
        decreases chars.len() - i,
    {
        if !digit(chars[i]) {
            proof {
                assert(digits[i - start] == text@[i as int]);
            }
            return false;
        }
        i += 1;
    }
    true
}

/// Appends the text of `items`, separated by `", "`, to `out`. Returns
/// whether every item could be written; if not, `out` holds no more than
/// a part of the text.
fn write_items(items: &Vec<Expr>, out: &mut String) -> (ok: bool)
    ensures
        ok == rendered_items(items@) is Some,
        ok ==> final(out)@ == old(out)@ + rendered_items(items@)->0,
    decreases items, 1nat,
{
    let ghost before = out@;
    let mut i: usize = 0;
    while i < items.len()
        invariant
            i <= items.len(),
            rendered_items(items@.take(i as int)) is Some,
            out@ == before + rendered_items(items@.take(i as int))->0,
        decreases items.len() - i,
    {
        proof {
            assert(items@.take(i + 1).drop_last() == items@.take(i as int));
            assert(items@.take(i + 1).last() == items@[i as int]);
        }
        if i > 0 {
            out.append(", ");
        }
        if !write_expr(&items[i], false, out) {
            proof {
                lemma_items_fail(items@, i as int);
            }
            return false;
        }
        i += 1;
    }
    proof {
        assert(items@.take(items@.len() as int) == items@);
    }
    true
}

/// Appends the text of `entries`, each as `key: value`, separated by
/// `", "`, to `out`. Returns whether every entry could be written.
fn write_entries(entries: &Vec<(Expr, Expr)>, out: &mut String) -> (ok: bool)
    ensures
        ok == rendered_entries(entries@) is Some,
        ok ==> final(out)@ == old(out)@ + rendered_entries(entries@)->0,
    decreases entries, 1nat,
{
    let ghost before = out@;
    let mut i: usize = 0;
    while i < entries.len()
        invariant
            i <= entries.len(),
            rendered_entries(entries@.take(i as int)) is Some,
            out@ == before + rendered_entries(entries@.take(i as int))->0,
        decreases entries.len() - i,
    {
        proof {
            assert(entries@.take(i + 1).drop_last() == entries@.take(i as int));
            assert(entries@.take(i + 1).last() == entries@[i as int]);
        }
        if i > 0 {
            out.append(", ");
        }
        if !write_expr(&entries[i].0, false, out) {
            proof {
                lemma_entries_fail(entries@, i as int);
            }
            return false;
        }
        out.append(": ");
        if !write_expr(&entries[i].1, false, out) {
            proof {
                lemma_entries_fail(entries@, i as int);
            }
            return false;
        }
        i += 1;
    }
    proof {
        assert(entries@.take(entries@.len() as int) == entries@);
    }
    true
}

/// A list with an item that cannot be written cannot be written.
proof fn lemma_items_fail(items: Seq<Expr>, at: int)
    requires
        0 <= at < items.len(),
        rendered(items[at], false) is None,
    ensures
        rendered_items(items) is None,
    decreases items.len(),
{
    if at < items.len() - 1 {
        lemma_items_fail(items.drop_last(), at);
    }
}

/// A map with a key or a value that cannot be written cannot be written.
proof fn lemma_entries_fail(entries: Seq<(Expr, Expr)>, at: int)
    requires
        0 <= at < entries.len(),
        rendered(entries[at].0, false) is None || rendered(entries[at].1, false) is None,
    ensures
        rendered_entries(entries) is None,
    decreases entries.len(),
{
    if at < entries.len() - 1 {
        lemma_entries_fail(entries.drop_last(), at);
    }
}

fn arithmetic(op: Operator) -> (yes: bool)
    ensures
        yes == is_arithmetic(op),
{
    match op {
        Operator::Add => true,
        Operator::Subtract => true,
        Operator::Multiply => true,
        Operator::Divide => true,
        Operator::Remainder => true,
        _ => false,
    }
}

fn looseness_of_operator(op: Operator) -> (level: u8)
    ensures
        level == operator_looseness(op),
{
    match op {
        Operator::Not => 1,
        Operator::Negate => 1,
        Operator::Equals => 2,
        Operator::NotEquals => 2,
        Operator::Less => 2,
        Operator::LessEquals => 2,
        Operator::Greater => 2,
        Operator::GreaterEquals => 2,
        Operator::And => 3,
        Operator::Or => 4,
        Operator::Conditional => 5,
        _ => 0,
    }
}

/// How loosely the text of `e` holds together.
fn looseness_of(e: &Expr) -> (level: u8)
    ensures
        level == looseness(*e),
{
    match e {
        Expr::Call { func_name, target, args } => match operator_of(func_name.as_str()) {
            Some(op) => looseness_of_operator(op),
            None => 0,
        },
        _ => 0,
    }
}

/// Appends the text of `e` as an operand or a receiver to `out`: in
/// parentheses where it holds together more loosely than `limit`.
fn write_enclosed(e: &Expr, limit: u8, out: &mut String) -> (ok: bool)
    ensures
        ok == enclosed(*e, limit as nat) is Some,
        ok ==> final(out)@ == old(out)@ + enclosed(*e, limit as nat)->0,
    decreases e, 3nat,
{
    let ghost before = out@;
    let wrap = looseness_of(e) > limit;
    if wrap {
        out.append("(");
    }
    if !write_expr(e, false, out) {
        return false;
    }
    if wrap {
        out.append(")");
    }
    proof {
        assert(out@ =~= before + enclosed(*e, limit as nat)->0);
    }
    true
}

/// Appends a binary operator between its operands to `out`.
fn write_infix(op: Operator, symbol: &str, operands: &Vec<Expr>, out: &mut String) -> (ok: bool)
    requires
        operands.len() == 2,
        infix_symbol(op) == Some(symbol@),
    ensures
        ok == (enclosed(operands[0], left_limit(op)) is Some && enclosed(
            operands[1],
            right_limit(op),
        ) is Some),
        ok ==> final(out)@ == old(out)@ + infix_text(
            op,
            enclosed(operands[0], left_limit(op))->0,
            enclosed(operands[1], right_limit(op))->0,
        ),
    decreases operands, 0nat,
{
    let ghost before = out@;
    let in_parentheses = arithmetic(op);
    let level = looseness_of_operator(op);
    let left: u8 = if in_parentheses {
        1
    } else {
        level
    };
    let right: u8 = if in_parentheses || level == 2 {
        1
    } else {
        level
    };
    if in_parentheses {
        out.append("(");
    }
    if !write_enclosed(&operands[0], left, out) {
        return false;
    }
    out.append(symbol);
    if !write_enclosed(&operands[1], right, out) {
        return false;
    }
    if in_parentheses {
        out.append(")");
    }
    proof {
        assert(out@ =~= before + infix_text(
            op,
            enclosed(operands[0], left_limit(op))->0,
            enclosed(operands[1], right_limit(op))->0,
        ));
    }
    true
}

/// Appends a unary operator and its operand to `out`.
fn write_prefix(symbol: &str, operands: &Vec<Expr>, out: &mut String) -> (ok: bool)
    requires
        operands.len() == 1,
    ensures
        ok == enclosed(operands[0], 0) is Some,
        ok ==> final(out)@ == old(out)@ + (symbol@ + enclosed(operands[0], 0)->0),
    decreases operands, 0nat,
{
    let ghost before = out@;
    out.append(symbol);
    if !write_enclosed(&operands[0], 0, out) {
        return false;
    }
    proof {
        assert(out@ =~= before + (symbol@ + enclosed(operands[0], 0)->0));
    }
    true
}

/// Appends `condition ? first : second` to `out`.
fn write_conditional(operands: &Vec<Expr>, out: &mut String) -> (ok: bool)
    requires
        operands.len() == 3,
    ensures
        ok == (enclosed(operands[0], 4) is Some && enclosed(operands[1], 4) is Some && enclosed(
            operands[2],
            5,
        ) is Some),
        ok ==> final(out)@ == old(out)@ + (enclosed(operands[0], 4)->0 + " ? "@ + enclosed(
            operands[1],
            4,
        )->0 + " : "@ + enclosed(operands[2], 5)->0),
    decreases operands, 0nat,
{
    let ghost before = out@;
    if !write_enclosed(&operands[0], 4, out) {
        return false;
    }
    out.append(" ? ");
    if !write_enclosed(&operands[1], 4, out) {
        return false;
    }
    out.append(" : ");
    if !write_enclosed(&operands[2], 5, out) {
        return false;
    }
    proof {
        assert(out@ =~= before + (enclosed(operands[0], 4)->0 + " ? "@ + enclosed(
            operands[1],
            4,
        )->0 + " : "@ + enclosed(operands[2], 5)->0));
    }
    true
}

/// Appends `operand[index]` to `out`; an integer literal as the index stays
/// an integer.
fn write_index(operands: &Vec<Expr>, out: &mut String) -> (ok: bool)
    requires
        operands.len() == 2,
    ensures
        ok == (enclosed(operands[0], 0) is Some && rendered(operands[1], true) is Some),
        ok ==> final(out)@ == old(out)@ + (enclosed(operands[0], 0)->0 + "["@ + rendered(
            operands[1],
            true,
        )->0 + "]"@),
    decreases operands, 0nat,
{
    let ghost before = out@;
    if !write_enclosed(&operands[0], 0, out) {
        return false;
    }
    out.append("[");
    if !write_expr(&operands[1], true, out) {
        return false;
    }
    out.append("]");
    proof {
        assert(out@ =~= before + (enclosed(operands[0], 0)->0 + "["@ + rendered(
            operands[1],
            true,
        )->0 + "]"@));
    }
    true
}

/// Appends the text of `op` applied to `operands` to `out`. Returns
/// whether it could be written.
fn write_operator(op: Operator, operands: &Vec<Expr>, out: &mut String) -> (ok: bool)
    ensures
        ok == rendered_operator(op, operands@) is Some,
        ok ==> final(out)@ == old(out)@ + rendered_operator(op, operands@)->0,
    decreases operands, 1nat,
{
    if let Some(symbol) = infix_of(op) {
        if operands.len() != 2 {
            return false;
        }
        write_infix(op, symbol, operands, out)
    } else if let Some(symbol) = prefix_of(op) {
        if operands.len() != 1 {
            return false;
        }
        write_prefix(symbol, operands, out)
    } else if op == Operator::Conditional {
        if operands.len() != 3 {
            return false;
        }
        write_conditional(operands, out)
    } else {
        if operands.len() != 2 {
            return false;
        }
        write_index(operands, out)
    }
}

/// Appends the text of the call `e` to `out`. Returns whether it could be
/// written; a node that is no call cannot.
fn write_call(e: &Expr, out: &mut String) -> (ok: bool)
    ensures
        ok == rendered_call(*e) is Some,
        ok ==> final(out)@ == old(out)@ + rendered_call(*e)->0,
    decreases e, 1nat,
{
    match e {
        Expr::Call { func_name, target, args } => {
            match operator_of(func_name.as_str()) {
                Some(op) => {
                    if target.is_some() {
                        return false;
                    }
                    write_operator(op, args, out)
                },
                None => {
                    if !identifier(func_name.as_str()) {
                        return false;
                    }
                    match target {
                        Some(receiver) => {
                            if !write_enclosed(receiver, 0, out) {
                                return false;
                            }
                            out.append(".");
                        },
                        None => {},
                    }
                    out.append(func_name.as_str());
                    out.append("(");
                    if !write_items(args, out) {
                        return false;
                    }
                    out.append(")");
                    true
                },
            }
        },
        _ => false,
    }
}

/// Appends the text of `e` to `out`, with integer literals promoted; with
/// `keep_integer`, an integer literal at the top of `e` stays an integer.
/// Returns whether `e` could be written; if not, `out` holds no more than
/// a part of the text.
pub fn write_expr(e: &Expr, keep_integer: bool, out: &mut String) -> (ok: bool)
    ensures
        ok == rendered(*e, keep_integer) is Some,
        ok ==> final(out)@ == old(out)@ + rendered(*e, keep_integer)->0,
    decreases e, 2nat,
{
    match e {
        Expr::Int(value) => {
            push_int_decimal(out, *value);
            if !keep_integer {
                out.append(".0");
            }
            true
        },
        Expr::Double(text) => {
            out.append(text.as_str());
            if integral_text(text.as_str()) {
                out.append(".0");
            }
            true
        },
        Expr::Str(value) => {
            out.append("\"");
            push_escaped_text(out, value.as_str());
            out.append("\"");
            true
        },
        Expr::Bool(value) => {
            if *value {
                out.append("true");
            } else {
                out.append("false");
            }
            true
        },
        Expr::Null => {
            out.append("null");
            true
        },
        Expr::Bytes(value) => {
            out.append("b\"");
            push_escaped_bytes(out, value.as_slice());
            out.append("\"");
            true
        },
        Expr::Ident(name) => {
            out.append(name.as_str());
            true
        },
        Expr::Call { .. } => write_call(e, out),
        Expr::Select { operand, field, test } => {
            if *test {
                out.append("has(");
            }
            if !write_enclosed(operand, 0, out) {
                return false;
            }
            out.append(".");
            out.append(field.as_str());
            if *test {
                out.append(")");
            }
            true
        },
        Expr::NewList(elements) => {
            out.append("[");
            if !write_items(elements, out) {
                return false;
            }
            out.append("]");
            true
        },
        Expr::NewMap(entries) => {
            out.append("{");
            if !write_entries(entries, out) {
                return false;
            }
            out.append("}");
            true
        },
        Expr::Comprehension => false,
        Expr::Unsupported => false,
    }
}

/// The source text of `expr` with every integer literal promoted to a
/// floating-point literal, except an integer literal directly inside the
/// brackets of an index; `None` where `expr` holds a comprehension or any
/// other node that cannot be written back.
pub fn ast_to_string_with_promotion(expr: &Expr) -> (text: Option<String>)
    ensures
        text is Some == rendered(*expr, false) is Some,
        text is Some ==> text->0@ == rendered(*expr, false)->0,
{
    let mut out = String::new();
    if write_expr(expr, false, &mut out) {
        Some(out)
    } else {
        None
    }
}

/// As [`ast_to_string_with_promotion`], but an integer literal at the top
/// of `expr` stays an integer: the form used for the operand inside the
/// brackets of an index.
pub fn ast_to_string_preserve_integers(expr: &Expr) -> (text: Option<String>)
    ensures
        text is Some == rendered(*expr, true) is Some,
        text is Some ==> text->0@ == rendered(*expr, true)->0,
{
    let mut out = String::new();
    if write_expr(expr, true, &mut out) {
        Some(out)
    } else {
        None
    }
}

/// The rewritten source of a parsed expression; see
/// [`ast_to_string_with_promotion`].
pub fn promote_integers_in_ast(expr: &Expr) -> (text: Option<String>)
    ensures
        text is Some == rendered(*expr, false) is Some,
        text is Some ==> text->0@ == rendered(*expr, false)->0,
{
    ast_to_string_with_promotion(expr)
}

/// The source that is compiled in place of `source`: the rewritten text of
/// its parse where there is one and it can be written back, else `source`
/// itself.
pub open spec fn preprocessed(source: Seq<char>, parsed: Option<Expr>) -> Seq<char> {
    match parsed {
        Some(expr) => match rendered(expr, false) {
            Some(text) => text,
            None => source,
        },
        None => source,
    }
}

/// Prepares `expr` for mixed arithmetic. `parsed` is what the engine's
/// parser made of `expr`, or `None` where it failed. The result is the
/// rewritten text, or `expr` unchanged where there is no parse or the
/// parse holds a node that cannot be written back.
pub fn preprocess_expression_for_mixed_arithmetic_always(
    expr: &str,
    parsed: &Option<Expr>,
) -> (text: String)
    ensures
        text@ == preprocessed(expr@, *parsed),
{
    match parsed {
        Some(tree) => match promote_integers_in_ast(tree) {
            Some(text) => text,
            None => String::from_str(expr),
        },
        None => String::from_str(expr),
    }
}

/// Whether `text` holds a decimal point next to a digit.
pub open spec fn has_decimal_point(text: Seq<char>) -> bool {
    exists|i: int| point_at(text, i)
}

/// Whether `text` holds a decimal point at `i` with a digit directly
/// before or after it.
pub open spec fn point_at(text: Seq<char>, i: int) -> bool {
    &&& 0 <= i < text.len()
    &&& text[i] == '.'
    &&& ((i > 0 && is_digit(text[i - 1])) || (i + 1 < text.len() && is_digit(text[i + 1])))
}

/// Whether the expression text suggests mixed arithmetic: it holds a
/// decimal point next to a digit.
pub fn expression_has_mixed_numeric_literals(expr: &str) -> (mixed: bool)
    ensures
        mixed == has_decimal_point(expr@),
{
    let chars = chars_of(expr);
    let mut i: usize = 0;
    while i < chars.len()
        invariant
            i <= chars.len(),
            chars@ == expr@,
            forall|j: int| 0 <= j < i ==> !point_at(expr@, j),
        decreases chars.len() - i,
    {
        if chars[i] == '.' && ((i > 0 && digit(chars[i - 1])) || (i + 1 < chars.len() && digit(
            chars[i + 1],
        ))) {
            assert(point_at(expr@, i as int));
            return true;
        }
        i += 1;
    }
    false
}

/// Index preservation: an integer literal directly inside the brackets of
/// an index is written with its decimal digits alone, whatever the
/// operand in front of the brackets is.
pub proof fn lemma_index_keeps_integer(operands: Seq<Expr>, index: i64)
    requires
        operands.len() == 2,
        operands[1] == Expr::Int(index),
    ensures
        rendered_operator(Operator::Index, operands) == match enclosed(operands[0], 0) {
            Some(operand) => Some(operand + "["@ + int_decimal(index as int) + "]"@),
            None => None,
        },
{
}

/// Promotion: an integer literal anywhere else is written with its decimal
/// digits and `.0`.
pub proof fn lemma_integer_is_promoted(value: i64)
    ensures
        rendered(Expr::Int(value), false) == Some(int_decimal(value as int) + ".0"@),
{
}

} // verus!

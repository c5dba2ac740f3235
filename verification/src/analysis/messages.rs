//! The texts of the checker's diagnostics.

use vstd::prelude::*;
use crate::ast::BinaryOperator;
use crate::object::Type;
use crate::text::{concat3, concat5, concat7};

verus! {

pub open spec fn msg_unbound(name: Seq<char>) -> Seq<char> {
    "'"@ + name + "' is unbound"@
}

pub fn unbound(name: &String) -> (text: String)
    ensures
        text@ == msg_unbound(name@),
{
    concat3("'", name.as_str(), "' is unbound")
}

pub open spec fn msg_not_variable(name: Seq<char>) -> Seq<char> {
    "'"@ + name + "' is not a variable"@
}

pub fn not_variable(name: &String) -> (text: String)
    ensures
        text@ == msg_not_variable(name@),
{
    concat3("'", name.as_str(), "' is not a variable")
}

pub open spec fn msg_not_callable(name: Seq<char>) -> Seq<char> {
    "'"@ + name + "' is not callable"@
}

pub fn not_callable(name: &String) -> (text: String)
    ensures
        text@ == msg_not_callable(name@),
{
    concat3("'", name.as_str(), "' is not callable")
}

pub open spec fn msg_already_bound(name: Seq<char>) -> Seq<char> {
    "'"@ + name + "' is already bound"@
}

pub fn already_bound(name: &String) -> (text: String)
    ensures
        text@ == msg_already_bound(name@),
{
    concat3("'", name.as_str(), "' is already bound")
}

pub open spec fn msg_missing_operands(op: BinaryOperator) -> Seq<char> {
    "Missing operands for '"@ + op.spec_symbol() + "' operation"@
}

pub fn missing_operands(op: BinaryOperator) -> (text: String)
    ensures
        text@ == msg_missing_operands(op),
{
    concat3("Missing operands for '", op.symbol(), "' operation")
}

pub open spec fn msg_right_side(op: BinaryOperator) -> Seq<char> {
    "Right side of '"@ + op.spec_symbol() + "' operation must be an expression"@
}

pub fn right_side(op: BinaryOperator) -> (text: String)
    ensures
        text@ == msg_right_side(op),
{
    concat3("Right side of '", op.symbol(), "' operation must be an expression")
}

pub open spec fn msg_left_side(op: BinaryOperator) -> Seq<char> {
    "Left side of '"@ + op.spec_symbol() + "' operation must be an expression"@
}

pub fn left_side(op: BinaryOperator) -> (text: String)
    ensures
        text@ == msg_left_side(op),
{
    concat3("Left side of '", op.symbol(), "' operation must be an expression")
}

pub open spec fn msg_operand_mismatch(op: BinaryOperator, lhs: Type, rhs: Type) -> Seq<char> {
    "Operands of '"@ + op.spec_symbol() + "' operation must be of same type, but provided '"@
        + lhs.spec_name() + "' and '"@ + rhs.spec_name() + "'"@
}

pub fn operand_mismatch(op: BinaryOperator, lhs: Type, rhs: Type) -> (text: String)
    ensures
        text@ == msg_operand_mismatch(op, lhs, rhs),
{
    concat7(
        "Operands of '",
        op.symbol(),
        "' operation must be of same type, but provided '",
        lhs.name(),
        "' and '",
        rhs.name(),
        "'",
    )
}

pub open spec fn msg_unsupported(op: BinaryOperator, typ: Type) -> Seq<char> {
    "'"@ + op.spec_symbol() + "' operation not supported for '"@ + typ.spec_name() + "' type"@
}

pub fn unsupported(op: BinaryOperator, typ: Type) -> (text: String)
    ensures
        text@ == msg_unsupported(op, typ),
{
    concat5("'", op.symbol(), "' operation not supported for '", typ.name(), "' type")
}

pub open spec fn msg_missing_arguments(name: Seq<char>) -> Seq<char> {
    "Missing arguments for function '"@ + name + "'"@
}

pub fn missing_arguments(name: &String) -> (text: String)
    ensures
        text@ == msg_missing_arguments(name@),
{
    concat3("Missing arguments for function '", name.as_str(), "'")
}

pub open spec fn msg_argument_not_expression() -> Seq<char> {
    "Function argument must be an expression"@
}

pub fn argument_not_expression() -> (text: String)
    ensures
        text@ == msg_argument_not_expression(),
{
    "Function argument must be an expression".to_owned()
}

pub open spec fn msg_argument_type(name: Seq<char>, expected: Type, provided: Type) -> Seq<char> {
    "Function '"@ + name + "' expects an argument of type '"@ + expected.spec_name()
        + "' but got '"@ + provided.spec_name() + "'"@
}

pub fn argument_type(name: &String, expected: Type, provided: Type) -> (text: String)
    ensures
        text@ == msg_argument_type(name@, expected, provided),
{
    concat7(
        "Function '",
        name.as_str(),
        "' expects an argument of type '",
        expected.name(),
        "' but got '",
        provided.name(),
        "'",
    )
}

pub open spec fn msg_assignment_operands() -> Seq<char> {
    "Assignment (=) expects two operands on stack"@
}

pub fn assignment_operands() -> (text: String)
    ensures
        text@ == msg_assignment_operands(),
{
    "Assignment (=) expects two operands on stack".to_owned()
}

pub open spec fn msg_assignment_right() -> Seq<char> {
    "Right side of assignment must be an expression"@
}

pub fn assignment_right() -> (text: String)
    ensures
        text@ == msg_assignment_right(),
{
    "Right side of assignment must be an expression".to_owned()
}

pub open spec fn msg_assignment_left() -> Seq<char> {
    "Cannot assign to a non-variable"@
}

pub fn assignment_left() -> (text: String)
    ensures
        text@ == msg_assignment_left(),
{
    "Cannot assign to a non-variable".to_owned()
}

pub open spec fn msg_assignment_type(value: Type, name: Seq<char>, variable: Type) -> Seq<char> {
    "Cannot assign value of type '"@ + value.spec_name() + "' to variable '"@ + name
        + "' which has type '"@ + variable.spec_name() + "'"@
}

pub fn assignment_type(value: Type, name: &String, variable: Type) -> (text: String)
    ensures
        text@ == msg_assignment_type(value, name@, variable),
{
    concat7(
        "Cannot assign value of type '",
        value.name(),
        "' to variable '",
        name.as_str(),
        "' which has type '",
        variable.name(),
        "'",
    )
}

pub open spec fn msg_if_condition() -> Seq<char> {
    "'if' expects boolean value on top of the stack"@
}

pub fn if_condition() -> (text: String)
    ensures
        text@ == msg_if_condition(),
{
    "'if' expects boolean value on top of the stack".to_owned()
}

pub open spec fn msg_if_residual(expected: Type) -> Seq<char> {
    "'if' block must leave '"@ + expected.spec_name() + "' on the stack"@
}

pub fn if_residual(expected: Type) -> (text: String)
    ensures
        text@ == msg_if_residual(expected),
{
    concat3("'if' block must leave '", expected.name(), "' on the stack")
}

pub open spec fn msg_function_residual(name: Seq<char>, expected: Type) -> Seq<char> {
    "Function '"@ + name + "' must leave '"@ + expected.spec_name() + "' on the stack"@
}

pub fn function_residual(name: &String, expected: Type) -> (text: String)
    ensures
        text@ == msg_function_residual(name@, expected),
{
    concat5("Function '", name.as_str(), "' must leave '", expected.name(), "' on the stack")
}

pub open spec fn msg_illegal_declaration() -> Seq<char> {
    "Functions must be only declared in global scope"@
}

pub fn illegal_declaration() -> (text: String)
    ensures
        text@ == msg_illegal_declaration(),
{
    "Functions must be only declared in global scope".to_owned()
}

pub open spec fn msg_duplicated_parameter(parameter: Seq<char>, function: Seq<char>) -> Seq<char> {
    "Duplicated parameter name '"@ + parameter + "' for function '"@ + function + "'"@
}

pub fn duplicated_parameter(parameter: &String, function: &String) -> (text: String)
    ensures
        text@ == msg_duplicated_parameter(parameter@, function@),
{
    concat5(
        "Duplicated parameter name '",
        parameter.as_str(),
        "' for function '",
        function.as_str(),
        "'",
    )
}

pub open spec fn msg_missing_main() -> Seq<char> {
    "Missing 'main' function"@
}

pub fn missing_main() -> (text: String)
    ensures
        text@ == msg_missing_main(),
{
    "Missing 'main' function".to_owned()
}

pub open spec fn msg_main_not_function() -> Seq<char> {
    "'main' must be declared as function"@
}

pub fn main_not_function() -> (text: String)
    ensures
        text@ == msg_main_not_function(),
{
    "'main' must be declared as function".to_owned()
}

pub open spec fn msg_main_signature() -> Seq<char> {
    "'main' function cannot accept args or return some value"@
}

pub fn main_signature() -> (text: String)
    ensures
        text@ == msg_main_signature(),
{
    "'main' function cannot accept args or return some value".to_owned()
}

} // verus!

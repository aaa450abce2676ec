//! Statements and arithmetic expressions, as built from the matches of a
//! grammar.
use vstd::prelude::*;

verus! {

/// An arithmetic operator.
#[derive(Clone, Copy, Debug, PartialEq, Eq, Structural)]
pub enum Operator {
    Add,
    Subtract,
    Multiply,
    Divide,
}

/// An arithmetic expression.
#[derive(Debug, PartialEq)]
pub enum Expression {
    Number(i64),
    Identifier(String),
    BinaryOp(Box<Expression>, Operator, Box<Expression>),
}

/// A statement: an assignment to a name, or an expression on its own.
#[derive(Debug, PartialEq)]
pub enum Statement {
    Assignment(String, Expression),
    Expression(Expression),
}

/// An expression as contracts see it.
pub enum ExpressionModel {
    Number(int),
    Identifier(Seq<char>),
    BinaryOp(Box<ExpressionModel>, Operator, Box<ExpressionModel>),
}

/// A statement as contracts see it.
pub enum StatementModel {
    Assignment(Seq<char>, ExpressionModel),
    Expression(ExpressionModel),
}

/// The model of an expression.
pub open spec fn expression_model(expression: &Expression) -> ExpressionModel
    decreases expression,
{
    match expression {
        Expression::Number(value) => ExpressionModel::Number(*value as int),
        Expression::Identifier(name) => ExpressionModel::Identifier(name@),
        Expression::BinaryOp(left, operator, right) => ExpressionModel::BinaryOp(
            Box::new(expression_model(left)),
            *operator,
            Box::new(expression_model(right)),
        ),
    }
}

impl View for Expression {
    type V = ExpressionModel;

    open spec fn view(&self) -> ExpressionModel {
        expression_model(self)
    }
}

impl View for Statement {
    type V = StatementModel;

    open spec fn view(&self) -> StatementModel {
        match self {
            Statement::Assignment(name, expression) => StatementModel::Assignment(
                name@,
                expression@,
            ),
            Statement::Expression(expression) => StatementModel::Expression(expression@),
        }
    }
}

/// The models of a sequence of statements, in order.
pub open spec fn statement_models(statements: Seq<Statement>) -> Seq<StatementModel> {
    Seq::new(statements.len(), |i: int| statements[i]@)
}

} // verus!

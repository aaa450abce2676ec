//! From the matches of a pest grammar to statements.
//!
//! pest hands out what a grammar matched as a tree: a match carries the rule
//! that matched, the text it matched and the matches inside it. The tree is
//! read through pest's own iterators, and what they hand out is taken on
//! trust; it is copied into a tree of plain values, from which the statements
//! are built. A statement holds an assignment or an expression; an
//! expression holds terms with `add` and `subtract` between them; a term
//! holds factors with `multiply` and `divide` between them; a factor holds a
//! number, an identifier or an expression.
use vstd::prelude::*;
use pest::iterators::{Pair, Pairs};
use crate::ast::{
    statement_models, Expression, ExpressionModel, Operator, Statement, StatementModel,
};
use crate::text::{decimal_in_range, parse_i64};

verus! {

/// The rules of the grammar.
#[derive(Clone, Copy, Debug, PartialEq, Eq, Structural, Hash, PartialOrd, Ord)]
pub enum Rule {
    Statement,
    Assignment,
    Expression,
    Term,
    Factor,
    Add,
    Subtract,
    Multiply,
    Divide,
    Number,
    Identifier,
}

/// One match of a rule: the text it matched and the matches inside it.
#[derive(Debug, PartialEq)]
pub struct Match {
    pub rule: Rule,
    pub text: String,
    pub inner: Vec<Match>,
}

/// A match as contracts see it.
pub struct MatchModel {
    pub rule: Rule,
    pub text: Seq<char>,
    pub inner: Seq<MatchModel>,
}

/// Why a tree of matches holds no statements.
#[derive(Clone, Copy, Debug, PartialEq, Eq, Structural)]
pub enum BuildError {
    /// A match of a rule that has no place where it stands.
    UnexpectedRule,
    /// A match is missing where the grammar requires one.
    MissingPair,
    /// A number that is no decimal numeral of 64 bits.
    InvalidNumber,
}

/// The models of the matches of a vector.
pub open spec fn match_models(pairs: &Vec<Match>) -> Seq<MatchModel>
    decreases pairs,
{
    Seq::new(
        pairs.len() as nat,
        |i: int|
            if 0 <= i < pairs.len() {
                match_model(&pairs[i])
            } else {
                MatchModel { rule: Rule::Statement, text: Seq::empty(), inner: Seq::empty() }
            },
    )
}

/// The model of a match.
pub open spec fn match_model(pair: &Match) -> MatchModel
    decreases pair,
{
    MatchModel { rule: pair.rule, text: pair.text@, inner: match_models(&pair.inner) }
}

impl View for Match {
    type V = MatchModel;

    open spec fn view(&self) -> MatchModel {
        match_model(self)
    }
}

/// pest's iterator over the matches of one level of the tree.
#[verifier::external_type_specification]
#[verifier::external_body]
#[verifier::reject_recursive_types(R)]
pub struct ExPairs<'i, R>(Pairs<'i, R>);

/// pest's match of one rule.
#[verifier::external_type_specification]
#[verifier::external_body]
#[verifier::reject_recursive_types(R)]
pub struct ExPair<'i, R>(Pair<'i, R>);

/// The matches that an iterator has yet to hand out, in order.
pub uninterp spec fn pairs_view(pairs: Pairs<Rule>) -> Seq<MatchModel>;

/// The rule of a match, the text it matched and the matches inside it.
pub uninterp spec fn pair_view(pair: Pair<Rule>) -> MatchModel;

/// Calls `Pairs::next`: hands out the first match that is yet to be handed
/// out and leaves the others; where none is left, nothing changes.
#[verifier::external_body]
pub(crate) fn next_pair<'i>(pairs: &mut Pairs<'i, Rule>) -> (r: Option<Pair<'i, Rule>>)
    ensures
        match r {
            Some(pair) => pairs_view(*old(pairs)).len() > 0 && pair_view(pair) == pairs_view(
                *old(pairs),
            )[0] && pairs_view(*final(pairs)) == pairs_view(*old(pairs)).drop_first(),
            None => pairs_view(*old(pairs)).len() == 0 && pairs_view(*final(pairs)) == pairs_view(
                *old(pairs),
            ),
        },
{
    pairs.next()
}

/// Calls `Pair::as_rule`: the rule of the match.
#[verifier::external_body]
pub(crate) fn pair_rule(pair: &Pair<Rule>) -> (r: Rule)
    ensures
        r == pair_view(*pair).rule,
{
    pair.as_rule()
}

/// Calls `Pair::as_str`: the text that the match covers, as a string of its
/// own.
#[verifier::external_body]
pub(crate) fn pair_text(pair: &Pair<Rule>) -> (r: String)
    ensures
        r@ == pair_view(*pair).text,
{
    pair.as_str().to_string()
}

/// Calls `Pair::into_inner`: an iterator over the matches inside the match.
#[verifier::external_body]
pub(crate) fn pair_inner<'i>(pair: Pair<'i, Rule>) -> (r: Pairs<'i, Rule>)
    ensures
        pairs_view(r) == pair_view(pair).inner,
{
    pair.into_inner()
}

/// The smallest number that an expression may hold.
pub open spec fn number_low() -> int {
    -9223372036854775808
}

/// The largest number that an expression may hold.
pub open spec fn number_high() -> int {
    9223372036854775807
}

/// The node of a binary operation.
pub open spec fn binary(left: ExpressionModel, operator: Operator, right: ExpressionModel)
    -> ExpressionModel {
    ExpressionModel::BinaryOp(Box::new(left), operator, Box::new(right))
}

/// The operator between two terms.
pub open spec fn additive(rule: Rule) -> Result<Operator, BuildError> {
    match rule {
        Rule::Add => Ok(Operator::Add),
        Rule::Subtract => Ok(Operator::Subtract),
        _ => Err(BuildError::UnexpectedRule),
    }
}

/// The operator between two factors.
pub open spec fn multiplicative(rule: Rule) -> Result<Operator, BuildError> {
    match rule {
        Rule::Multiply => Ok(Operator::Multiply),
        Rule::Divide => Ok(Operator::Divide),
        _ => Err(BuildError::UnexpectedRule),
    }
}

/// The expression of a factor, from the matches inside it: the first of
/// them decides.
pub open spec fn spec_factor(pairs: Seq<MatchModel>) -> Result<ExpressionModel, BuildError>
    decreases pairs, 0nat,
{
    if pairs.len() == 0 {
        Err(BuildError::MissingPair)
    } else {
        match pairs[0].rule {
            Rule::Number => match decimal_in_range(pairs[0].text, number_low(), number_high()) {
                Some(value) => Ok(ExpressionModel::Number(value)),
                None => Err(BuildError::InvalidNumber),
            },
            Rule::Identifier => Ok(ExpressionModel::Identifier(pairs[0].text)),
            Rule::Expression => spec_expression(pairs[0].inner),
            _ => Err(BuildError::UnexpectedRule),
        }
    }
}

/// The operators and factors of a term from `at` on, behind the operand
/// `left`.
pub open spec fn spec_term_rest(pairs: Seq<MatchModel>, at: int, left: ExpressionModel) -> Result<
    ExpressionModel,
    BuildError,
>
    decreases pairs, pairs.len() - at,
{
    if at < 0 || at >= pairs.len() {
        Ok(left)
    } else {
        match multiplicative(pairs[at].rule) {
            Err(e) => Err(e),
            Ok(operator) => if at + 1 >= pairs.len() {
                Err(BuildError::MissingPair)
            } else {
                match spec_factor(pairs[at + 1].inner) {
                    Err(e) => Err(e),
                    Ok(right) => spec_term_rest(pairs, at + 2, binary(left, operator, right)),
                }
            },
        }
    }
}

/// The expression of a term, from the matches inside it.
pub open spec fn spec_term(pairs: Seq<MatchModel>) -> Result<ExpressionModel, BuildError>
    decreases pairs, pairs.len() + 1,
{
    if pairs.len() == 0 {
        Err(BuildError::MissingPair)
    } else {
        match spec_factor(pairs[0].inner) {
            Err(e) => Err(e),
            Ok(left) => spec_term_rest(pairs, 1, left),
        }
    }
}

/// The operators and terms of an expression from `at` on, behind the operand
/// `left`.
pub open spec fn spec_expression_rest(pairs: Seq<MatchModel>, at: int, left: ExpressionModel)
    -> Result<ExpressionModel, BuildError>
    decreases pairs, pairs.len() - at,
{
    if at < 0 || at >= pairs.len() {
        Ok(left)
    } else {
        match additive(pairs[at].rule) {
            Err(e) => Err(e),
            Ok(operator) => if at + 1 >= pairs.len() {
                Err(BuildError::MissingPair)
            } else {
                match spec_term(pairs[at + 1].inner) {
                    Err(e) => Err(e),
                    Ok(right) => spec_expression_rest(
                        pairs,
                        at + 2,
                        binary(left, operator, right),
                    ),
                }
            },
        }
    }
}

/// The expression of an expression match, from the matches inside it.
pub open spec fn spec_expression(pairs: Seq<MatchModel>) -> Result<ExpressionModel, BuildError>
    decreases pairs, pairs.len() + 1,
{
    if pairs.len() == 0 {
        Err(BuildError::MissingPair)
    } else {
        match spec_term(pairs[0].inner) {
            Err(e) => Err(e),
            Ok(left) => spec_expression_rest(pairs, 1, left),
        }
    }
}

/// The statement of a statement match, from the matches inside it: the
/// first of them decides.
pub open spec fn spec_statement(pairs: Seq<MatchModel>) -> Result<StatementModel, BuildError> {
    if pairs.len() == 0 {
        Err(BuildError::MissingPair)
    } else {
        match pairs[0].rule {
            Rule::Assignment => {
                let parts = pairs[0].inner;
                if parts.len() < 2 {
                    Err(BuildError::MissingPair)
                } else {
                    match spec_expression(parts[1].inner) {
                        Err(e) => Err(e),
                        Ok(expression) => Ok(
                            StatementModel::Assignment(parts[0].text, expression),
                        ),
                    }
                }
            },
            Rule::Expression => match spec_expression(pairs[0].inner) {
                Err(e) => Err(e),
                Ok(expression) => Ok(StatementModel::Expression(expression)),
            },
            _ => Err(BuildError::UnexpectedRule),
        }
    }
}

/// The statements of the first `count` matches, each of which has to be a
/// statement.
pub open spec fn spec_build(pairs: Seq<MatchModel>, count: int) -> Result<
    Seq<StatementModel>,
    BuildError,
>
    decreases count,
{
    if count <= 0 || count > pairs.len() {
        Ok(Seq::empty())
    } else {
        match spec_build(pairs, count - 1) {
            Err(e) => Err(e),
            Ok(before) => if pairs[count - 1].rule != Rule::Statement {
                Err(BuildError::UnexpectedRule)
            } else {
                match spec_statement(pairs[count - 1].inner) {
                    Err(e) => Err(e),
                    Ok(statement) => Ok(before.push(statement)),
                }
            },
        }
    }
}

/// The statements of a list of matches, or the first error.
pub open spec fn spec_build_ast(pairs: Seq<MatchModel>) -> Result<Seq<StatementModel>, BuildError> {
    spec_build(pairs, pairs.len() as int)
}

/// An error among the first `count` matches is the error of any longer run.
pub proof fn lemma_build_error(pairs: Seq<MatchModel>, count: int, longer: int)
    requires
        0 <= count <= longer <= pairs.len(),
        spec_build(pairs, count) is Err,
    ensures
        spec_build(pairs, longer) == spec_build(pairs, count),
    decreases longer - count,
{
    if count < longer {
        lemma_build_error(pairs, count, longer - 1);
    }
}

/// What a builder of expressions returns.
pub open spec fn built(
    r: Result<Expression, BuildError>,
    expected: Result<ExpressionModel, BuildError>,
) -> bool {
    match expected {
        Ok(expression) => r matches Ok(e) && e@ == expression,
        Err(error) => r == Err::<Expression, BuildError>(error),
    }
}

/// Copies the matches that an iterator has yet to hand out, with everything
/// inside them, into a tree of plain values.
pub fn tree_of(pairs: Pairs<Rule>) -> (tree: Vec<Match>)
    ensures
        match_models(&tree) == pairs_view(pairs),
    decreases pairs_view(pairs),
{
    let ghost all = pairs_view(pairs);
    let ghost mut done: int = 0;
    let mut rest = pairs;
    let mut tree: Vec<Match> = Vec::new();
    assert(all.skip(0) =~= all);
    loop
        invariant
            all == pairs_view(pairs),
            0 <= done <= all.len(),
            pairs_view(rest) == all.skip(done),
            tree.len() == done,
            forall|j: int| 0 <= j < done ==> match_model(&#[trigger] tree@[j]) == all[j],
        decreases pairs_view(rest).len(),
    {
        let pair = match next_pair(&mut rest) {
            Some(pair) => pair,
            None => {
                assert(match_models(&tree) =~= all);
                return tree;
            },
        };
        assert(pair_view(pair) == all[done]);
        assert(all.skip(done).drop_first() =~= all.skip(done + 1));
        let rule = pair_rule(&pair);
        let text = pair_text(&pair);
        let inner = tree_of(pair_inner(pair));
        tree.push(Match { rule, text, inner });
        proof {
            done = done + 1;
        }
    }
}

/// The statements of the matches that an iterator has yet to hand out, each
/// of which has to be a statement; or the first error.
pub fn build_ast(pairs: Pairs<Rule>) -> (r: Result<Vec<Statement>, BuildError>)
    ensures
        match spec_build_ast(pairs_view(pairs)) {
            Ok(expected) => r matches Ok(statements) && statement_models(statements@)
                == expected,
            Err(error) => r == Err::<Vec<Statement>, BuildError>(error),
        },
{
    let tree = tree_of(pairs);
    build_statements(&tree)
}

/// The statements of a list of matches, each of which has to be a
/// statement; or the first error.
pub fn build_statements(pairs: &Vec<Match>) -> (r: Result<Vec<Statement>, BuildError>)
    ensures
        match spec_build_ast(match_models(pairs)) {
            Ok(expected) => r matches Ok(statements) && statement_models(statements@)
                == expected,
            Err(error) => r == Err::<Vec<Statement>, BuildError>(error),
        },
{
    let mut statements: Vec<Statement> = Vec::new();
    let mut i: usize = 0;
    assert(statement_models(statements@) =~= Seq::<StatementModel>::empty());
    while i < pairs.len()
        invariant
            i <= pairs.len(),
            spec_build(match_models(pairs), i as int) == Ok::<Seq<StatementModel>, BuildError>(
                statement_models(statements@),
            ),
        decreases pairs.len() - i,
    {
        let pair = &pairs[i];
        let built_statement = match pair.rule {
            Rule::Statement => build_statement(&pair.inner),
            _ => Err(BuildError::UnexpectedRule),
        };
        match built_statement {
            Ok(statement) => {
                let ghost before = statements@;
                statements.push(statement);
                assert(statement_models(statements@) =~= statement_models(before).push(
                    statement@,
                ));
            },
            Err(error) => {
                proof {
                    lemma_build_error(match_models(pairs), i as int + 1, pairs.len() as int);
                }
                return Err(error);
            },
        }
        i += 1;
    }
    Ok(statements)
}

/// The statement of a statement match, from the matches inside it.
pub fn build_statement(pairs: &Vec<Match>) -> (r: Result<Statement, BuildError>)
    ensures
        match spec_statement(match_models(pairs)) {
            Ok(expected) => r matches Ok(statement) && statement@ == expected,
            Err(error) => r == Err::<Statement, BuildError>(error),
        },
{
    if pairs.len() == 0 {
        return Err(BuildError::MissingPair);
    }
    let pair = &pairs[0];
    assert(match_models(pairs)[0] == match_model(pair));
    assert(match_model(pair).inner.len() == pair.inner.len());
    match pair.rule {
        Rule::Assignment => {
            if pair.inner.len() < 2 {
                return Err(BuildError::MissingPair);
            }
            let identifier = pair.inner[0].text.clone();
            match build_expression(&pair.inner[1].inner) {
                Ok(expression) => Ok(Statement::Assignment(identifier, expression)),
                Err(error) => Err(error),
            }
        },
        Rule::Expression => {
            match build_expression(&pair.inner) {
                Ok(expression) => Ok(Statement::Expression(expression)),
                Err(error) => Err(error),
            }
        },
        _ => Err(BuildError::UnexpectedRule),
    }
}

/// The expression of an expression match, from the matches inside it.
pub fn build_expression(pairs: &Vec<Match>) -> (r: Result<Expression, BuildError>)
    ensures
        built(r, spec_expression(match_models(pairs))),
    decreases pairs, 1nat,
{
    if pairs.len() == 0 {
        return Err(BuildError::MissingPair);
    }
    let mut left = match build_term(&pairs[0].inner) {
        Ok(e) => e,
        Err(error) => {
            return Err(error);
        },
    };
    let mut i: usize = 1;
    while i < pairs.len()
        invariant
            1 <= i <= pairs.len() + 1,
            spec_expression(match_models(pairs)) == spec_expression_rest(
                match_models(pairs),
                i as int,
                left@,
            ),
        decreases pairs.len() + 1 - i,
    {
        let operator = match pairs[i].rule {
            Rule::Add => Operator::Add,
            Rule::Subtract => Operator::Subtract,
            _ => {
                return Err(BuildError::UnexpectedRule);
            },
        };
        if i + 1 >= pairs.len() {
            return Err(BuildError::MissingPair);
        }
        let right = match build_term(&pairs[i + 1].inner) {
            Ok(e) => e,
            Err(error) => {
                return Err(error);
            },
        };
        left = Expression::BinaryOp(Box::new(left), operator, Box::new(right));
        i += 2;
    }
    Ok(left)
}

/// The expression of a term, from the matches inside it.
pub fn build_term(pairs: &Vec<Match>) -> (r: Result<Expression, BuildError>)
    ensures
        built(r, spec_term(match_models(pairs))),
    decreases pairs, 1nat,
{
    if pairs.len() == 0 {
        return Err(BuildError::MissingPair);
    }
    let mut left = match build_factor(&pairs[0].inner) {
        Ok(e) => e,
        Err(error) => {
            return Err(error);
        },
    };
    let mut i: usize = 1;
    while i < pairs.len()
        invariant
            1 <= i <= pairs.len() + 1,
            spec_term(match_models(pairs)) == spec_term_rest(match_models(pairs), i as int, left@),
        decreases pairs.len() + 1 - i,
    {
        let operator = match pairs[i].rule {
            Rule::Multiply => Operator::Multiply,
            Rule::Divide => Operator::Divide,
            _ => {
                return Err(BuildError::UnexpectedRule);
            },
        };
        if i + 1 >= pairs.len() {
            return Err(BuildError::MissingPair);
        }
        let right = match build_factor(&pairs[i + 1].inner) {
            Ok(e) => e,
            Err(error) => {
                return Err(error);
            },
        };
        left = Expression::BinaryOp(Box::new(left), operator, Box::new(right));
        i += 2;
    }
    Ok(left)
}

/// The expression of a factor, from the matches inside it.
pub fn build_factor(pairs: &Vec<Match>) -> (r: Result<Expression, BuildError>)
    ensures
        built(r, spec_factor(match_models(pairs))),
    decreases pairs, 0nat,
{
    if pairs.len() == 0 {
        return Err(BuildError::MissingPair);
    }
    let pair = &pairs[0];
    match pair.rule {
        Rule::Number => {
            match parse_i64(pair.text.as_str()) {
                Some(value) => Ok(Expression::Number(value)),
                None => Err(BuildError::InvalidNumber),
            }
        },
        Rule::Identifier => Ok(Expression::Identifier(pair.text.clone())),
        Rule::Expression => build_expression(&pair.inner),
        _ => Err(BuildError::UnexpectedRule),
    }
}

} // verus!

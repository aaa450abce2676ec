use pest::iterators::Pairs;
use pest::{ParseResult, ParserState};
use vera::ast::{Expression, Operator, Statement};
use vera::semantic::{
    build_ast, build_expression, build_factor, build_statement, build_statements, build_term,
    tree_of, BuildError, Match, Rule,
};

fn leaf(rule: Rule, text: &str) -> Match {
    Match { rule, text: text.to_string(), inner: vec![] }
}

fn node(rule: Rule, inner: Vec<Match>) -> Match {
    Match { rule, text: String::new(), inner }
}

fn factor(inner: Match) -> Match {
    node(Rule::Factor, vec![inner])
}

fn term_of(parts: Vec<Match>) -> Match {
    node(Rule::Term, parts)
}

fn number_term(text: &str) -> Match {
    term_of(vec![factor(leaf(Rule::Number, text))])
}

fn name_term(text: &str) -> Match {
    term_of(vec![factor(leaf(Rule::Identifier, text))])
}

fn binary(left: Expression, operator: Operator, right: Expression) -> Expression {
    Expression::BinaryOp(Box::new(left), operator, Box::new(right))
}

/// The text that a list of matches covers: the texts of its leaves, in
/// order.
fn text_of(matches: &[Match]) -> String {
    let mut text = String::new();
    for one in matches {
        if one.inner.is_empty() {
            text.push_str(&one.text);
        } else {
            text.push_str(&text_of(&one.inner));
        }
    }
    text
}

/// The same matches, each with the text that it covers.
fn with_texts(matches: Vec<Match>) -> Vec<Match> {
    matches
        .into_iter()
        .map(|one| {
            if one.inner.is_empty() {
                one
            } else {
                let inner = with_texts(one.inner);
                Match { rule: one.rule, text: text_of(&inner), inner }
            }
        })
        .collect()
}

type State<'i> = Box<ParserState<'i, Rule>>;

fn feed_all<'i>(state: State<'i>, matches: &[Match]) -> ParseResult<State<'i>> {
    let mut state = state;
    for one in matches {
        state = feed(state, one)?;
    }
    Ok(state)
}

fn feed<'i>(state: State<'i>, one: &Match) -> ParseResult<State<'i>> {
    state.rule(one.rule, |s| {
        if one.inner.is_empty() {
            s.match_string(&one.text)
        } else {
            feed_all(s, &one.inner)
        }
    })
}

/// Has pest make the matches over `input`, which has to be the text that
/// they cover.
fn pairs_of<'i>(input: &'i str, matches: &[Match]) -> Pairs<'i, Rule> {
    pest::state(input, |s| feed_all(s, matches)).unwrap()
}

fn ast_of(matches: Vec<Match>) -> Result<Vec<Statement>, BuildError> {
    let input = text_of(&matches);
    build_ast(pairs_of(&input, &matches))
}

#[test]
fn pest_makes_the_matches_that_are_described() {
    let matches = vec![
        leaf(Rule::Identifier, "ab"),
        node(Rule::Term, vec![leaf(Rule::Number, "12"), leaf(Rule::Add, "+")]),
    ];
    let input = text_of(&matches);
    assert_eq!(input, "ab12+");
    let mut pairs = pairs_of(&input, &matches);
    let first = pairs.next().unwrap();
    assert_eq!(first.as_rule(), Rule::Identifier);
    assert_eq!(first.as_str(), "ab");
    let second = pairs.next().unwrap();
    assert_eq!(second.as_rule(), Rule::Term);
    assert_eq!(second.as_str(), "12+");
    assert_eq!(second.into_inner().count(), 2);
    assert!(pairs.next().is_none());
}

#[test]
fn tree_of_copies_the_matches_of_pest() {
    let matches = vec![
        leaf(Rule::Identifier, "ab"),
        node(
            Rule::Expression,
            vec![
                node(Rule::Term, vec![leaf(Rule::Number, "12")]),
                leaf(Rule::Add, "+"),
                node(Rule::Term, vec![node(Rule::Factor, vec![leaf(Rule::Identifier, "c")])]),
            ],
        ),
        leaf(Rule::Number, ""),
    ];
    let input = text_of(&matches);
    assert_eq!(input, "ab12+c");
    assert_eq!(tree_of(pairs_of(&input, &matches)), with_texts(matches));
}

#[test]
fn tree_of_copies_what_is_yet_to_be_handed_out() {
    let matches =
        vec![leaf(Rule::Number, "1"), leaf(Rule::Add, "+"), leaf(Rule::Number, "2")];
    let input = text_of(&matches);
    let mut pairs = pairs_of(&input, &matches);
    pairs.next();
    assert_eq!(tree_of(pairs), vec![leaf(Rule::Add, "+"), leaf(Rule::Number, "2")]);
    assert_eq!(tree_of(pairs_of("", &[])), vec![]);
}

#[test]
fn build_ast_reads_the_matches_of_pest() {
    let matches = vec![
        node(
            Rule::Statement,
            vec![node(
                Rule::Assignment,
                vec![
                    leaf(Rule::Identifier, "x"),
                    node(
                        Rule::Expression,
                        vec![
                            number_term("5"),
                            leaf(Rule::Subtract, "-"),
                            term_of(vec![
                                factor(leaf(Rule::Identifier, "y")),
                                leaf(Rule::Divide, "/"),
                                factor(leaf(Rule::Number, "2")),
                            ]),
                        ],
                    ),
                ],
            )],
        ),
        node(Rule::Statement, vec![node(Rule::Expression, vec![name_term("x")])]),
    ];
    assert_eq!(
        ast_of(matches),
        Ok(vec![
            Statement::Assignment(
                "x".to_string(),
                binary(
                    Expression::Number(5),
                    Operator::Subtract,
                    binary(
                        Expression::Identifier("y".to_string()),
                        Operator::Divide,
                        Expression::Number(2)
                    )
                )
            ),
            Statement::Expression(Expression::Identifier("x".to_string())),
        ])
    );
    assert_eq!(ast_of(vec![]), Ok(vec![]));
}

#[test]
fn build_ast_stops_at_the_first_error_among_the_matches_of_pest() {
    let good = node(Rule::Statement, vec![node(Rule::Expression, vec![name_term("x")])]);
    let not_a_statement = node(Rule::Expression, vec![name_term("x")]);
    let empty = node(Rule::Statement, vec![]);
    assert_eq!(ast_of(vec![not_a_statement]), Err(BuildError::UnexpectedRule));
    assert_eq!(
        ast_of(vec![good, empty, node(Rule::Expression, vec![])]),
        Err(BuildError::MissingPair)
    );
    let bad_number = node(
        Rule::Statement,
        vec![node(Rule::Expression, vec![number_term("99999999999999999999")])],
    );
    assert_eq!(ast_of(vec![bad_number]), Err(BuildError::InvalidNumber));
}

#[test]
fn factor_is_a_number_a_name_or_an_expression() {
    assert_eq!(build_factor(&vec![leaf(Rule::Number, "42")]), Ok(Expression::Number(42)));
    assert_eq!(build_factor(&vec![leaf(Rule::Number, "-42")]), Ok(Expression::Number(-42)));
    assert_eq!(
        build_factor(&vec![leaf(Rule::Identifier, "x")]),
        Ok(Expression::Identifier("x".to_string()))
    );
    assert_eq!(
        build_factor(&vec![node(Rule::Expression, vec![number_term("7")])]),
        Ok(Expression::Number(7))
    );
}

#[test]
fn factor_errors() {
    assert_eq!(build_factor(&vec![]), Err(BuildError::MissingPair));
    assert_eq!(build_factor(&vec![leaf(Rule::Add, "+")]), Err(BuildError::UnexpectedRule));
    assert_eq!(build_factor(&vec![leaf(Rule::Number, "4x")]), Err(BuildError::InvalidNumber));
    assert_eq!(build_factor(&vec![leaf(Rule::Number, "")]), Err(BuildError::InvalidNumber));
    assert_eq!(
        build_factor(&vec![leaf(Rule::Number, "9223372036854775808")]),
        Err(BuildError::InvalidNumber)
    );
    assert_eq!(
        build_factor(&vec![leaf(Rule::Number, "9223372036854775807")]),
        Ok(Expression::Number(i64::MAX))
    );
}

#[test]
fn only_the_first_match_of_a_factor_counts() {
    assert_eq!(
        build_factor(&vec![leaf(Rule::Number, "1"), leaf(Rule::Add, "+")]),
        Ok(Expression::Number(1))
    );
}

#[test]
fn term_folds_to_the_left() {
    let pairs = vec![
        factor(leaf(Rule::Number, "8")),
        leaf(Rule::Divide, "/"),
        factor(leaf(Rule::Number, "4")),
        leaf(Rule::Multiply, "*"),
        factor(leaf(Rule::Identifier, "k")),
    ];
    assert_eq!(
        build_term(&pairs),
        Ok(binary(
            binary(Expression::Number(8), Operator::Divide, Expression::Number(4)),
            Operator::Multiply,
            Expression::Identifier("k".to_string())
        ))
    );
}

#[test]
fn term_errors() {
    assert_eq!(build_term(&vec![]), Err(BuildError::MissingPair));
    assert_eq!(
        build_term(&vec![factor(leaf(Rule::Number, "1")), leaf(Rule::Add, "+")]),
        Err(BuildError::UnexpectedRule)
    );
    assert_eq!(
        build_term(&vec![factor(leaf(Rule::Number, "1")), leaf(Rule::Multiply, "*")]),
        Err(BuildError::MissingPair)
    );
    assert_eq!(
        build_term(&vec![
            factor(leaf(Rule::Number, "1")),
            leaf(Rule::Multiply, "*"),
            factor(leaf(Rule::Number, "x")),
        ]),
        Err(BuildError::InvalidNumber)
    );
}

#[test]
fn expression_folds_to_the_left() {
    let pairs = vec![
        number_term("1"),
        leaf(Rule::Add, "+"),
        term_of(vec![
            factor(leaf(Rule::Number, "2")),
            leaf(Rule::Multiply, "*"),
            factor(leaf(Rule::Number, "3")),
        ]),
        leaf(Rule::Subtract, "-"),
        name_term("x"),
    ];
    assert_eq!(
        build_expression(&pairs),
        Ok(binary(
            binary(
                Expression::Number(1),
                Operator::Add,
                binary(Expression::Number(2), Operator::Multiply, Expression::Number(3))
            ),
            Operator::Subtract,
            Expression::Identifier("x".to_string())
        ))
    );
}

#[test]
fn expression_errors() {
    assert_eq!(build_expression(&vec![]), Err(BuildError::MissingPair));
    assert_eq!(
        build_expression(&vec![number_term("1"), leaf(Rule::Multiply, "*"), number_term("2")]),
        Err(BuildError::UnexpectedRule)
    );
    assert_eq!(
        build_expression(&vec![number_term("1"), leaf(Rule::Add, "+")]),
        Err(BuildError::MissingPair)
    );
    assert_eq!(build_expression(&vec![term_of(vec![])]), Err(BuildError::MissingPair));
}

#[test]
fn statement_is_an_assignment_or_an_expression() {
    let assignment = node(
        Rule::Assignment,
        vec![leaf(Rule::Identifier, "x"), node(Rule::Expression, vec![number_term("5")])],
    );
    assert_eq!(
        build_statement(&vec![assignment]),
        Ok(Statement::Assignment("x".to_string(), Expression::Number(5)))
    );
    let expression = node(Rule::Expression, vec![name_term("y")]);
    assert_eq!(
        build_statement(&vec![expression]),
        Ok(Statement::Expression(Expression::Identifier("y".to_string())))
    );
}

#[test]
fn statement_errors() {
    assert_eq!(build_statement(&vec![]), Err(BuildError::MissingPair));
    assert_eq!(build_statement(&vec![leaf(Rule::Number, "1")]), Err(BuildError::UnexpectedRule));
    assert_eq!(
        build_statement(&vec![node(Rule::Assignment, vec![leaf(Rule::Identifier, "x")])]),
        Err(BuildError::MissingPair)
    );
    assert_eq!(
        build_statement(&vec![node(Rule::Assignment, vec![])]),
        Err(BuildError::MissingPair)
    );
}

#[test]
fn build_statements_gives_the_statements_in_order() {
    let pairs = vec![
        node(
            Rule::Statement,
            vec![node(
                Rule::Assignment,
                vec![leaf(Rule::Identifier, "x"), node(Rule::Expression, vec![number_term("5")])],
            )],
        ),
        node(Rule::Statement, vec![node(Rule::Expression, vec![name_term("x")])]),
    ];
    assert_eq!(
        build_statements(&pairs),
        Ok(vec![
            Statement::Assignment("x".to_string(), Expression::Number(5)),
            Statement::Expression(Expression::Identifier("x".to_string())),
        ])
    );
    assert_eq!(build_statements(&vec![]), Ok(vec![]));
}

#[test]
fn build_statements_stops_at_the_first_error() {
    let good = node(Rule::Statement, vec![node(Rule::Expression, vec![name_term("x")])]);
    let not_a_statement = node(Rule::Expression, vec![name_term("x")]);
    let empty = node(Rule::Statement, vec![]);
    assert_eq!(build_statements(&vec![not_a_statement]), Err(BuildError::UnexpectedRule));
    let pairs = vec![good, empty, node(Rule::Expression, vec![])];
    assert_eq!(build_statements(&pairs), Err(BuildError::MissingPair));
}

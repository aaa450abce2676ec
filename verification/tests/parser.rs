use vera::grammar::{Construct, Expected};
use vera::parser::{chain_is_open, token_text, ASTNode, ParseError, ParseErrorKind, Parser};
use vera::tokenizer::{Token, TokenKind};

fn ident(name: &str) -> Token {
    Token::Identifier(name.to_string())
}

fn number(text: &str) -> Token {
    Token::Number(text.to_string())
}

fn parser_for(source: &str) -> Parser {
    Parser::new(Token::tokenizer(source).unwrap())
}

fn parse_program(source: &str) -> Result<ASTNode, ParseError> {
    parser_for(source).parse()
}

fn body_of(source: &str) -> Vec<ASTNode> {
    match parse_program(source).unwrap() {
        ASTNode::Main { body } => body,
        other => panic!("no program: {:?}", other),
    }
}

fn error_of(source: &str) -> ParseError {
    parse_program(source).unwrap_err()
}

fn binary(left: ASTNode, op: Token, right: ASTNode) -> ASTNode {
    ASTNode::BinaryOp { left: Box::new(left), op, right: Box::new(right) }
}

fn integer_name(name: &str) -> ASTNode {
    ASTNode::Identifier { name: name.to_string(), data_type: Token::IntegerType }
}

fn declaration(data_type: Token, name: &str, value: ASTNode) -> ASTNode {
    ASTNode::Declaration { data_type, identifier: ident(name), value: Box::new(value) }
}

#[test]
fn empty_program() {
    assert_eq!(parse_program("main(){}").unwrap(), ASTNode::Main { body: vec![] });
}

#[test]
fn declaration_with_a_sum() {
    let body = body_of("main(){ integer x = 2 + 3 }");
    assert_eq!(
        body,
        vec![declaration(
            Token::IntegerType,
            "x",
            binary(ASTNode::Number(2), Token::Plus, ASTNode::Number(3))
        )]
    );
}

#[test]
fn declaration_fills_both_tables() {
    let mut parser = parser_for("main(){ integer x = 2 + 3 string s = \"hi\" }");
    parser.parse().unwrap();
    assert_eq!(parser.symbol_table.get(&"x".to_string()), Some(&Token::IntegerType));
    assert_eq!(parser.symbol_table.get(&"s".to_string()), Some(&Token::StringType));
    assert_eq!(parser.symbol_table.get(&"y".to_string()), None);
    assert_eq!(
        parser.value_table.get(&"x".to_string()),
        Some(&binary(ASTNode::Number(2), Token::Plus, ASTNode::Number(3)))
    );
    assert_eq!(
        parser.value_table.get(&"s".to_string()),
        Some(&ASTNode::StringLiteral("hi".to_string()))
    );
}

#[test]
fn a_later_declaration_replaces_an_earlier_one() {
    let mut parser = parser_for("main(){ integer x = 1 string x = \"a\" }");
    parser.parse().unwrap();
    assert_eq!(parser.symbol_table.get(&"x".to_string()), Some(&Token::StringType));
    assert_eq!(
        parser.value_table.get(&"x".to_string()),
        Some(&ASTNode::StringLiteral("a".to_string()))
    );
}

#[test]
fn product_binds_tighter_than_sum() {
    let body = body_of("main(){ integer x = 1 + 2 * 3 }");
    assert_eq!(
        body,
        vec![declaration(
            Token::IntegerType,
            "x",
            binary(
                ASTNode::Number(1),
                Token::Plus,
                binary(ASTNode::Number(2), Token::Multiply, ASTNode::Number(3))
            )
        )]
    );
}

#[test]
fn operators_associate_to_the_left() {
    let body = body_of("main(){ integer x = 8 - 4 - 2 integer y = 8 / 4 / 2 }");
    assert_eq!(
        body,
        vec![
            declaration(
                Token::IntegerType,
                "x",
                binary(
                    binary(ASTNode::Number(8), Token::Minus, ASTNode::Number(4)),
                    Token::Minus,
                    ASTNode::Number(2)
                )
            ),
            declaration(
                Token::IntegerType,
                "y",
                binary(
                    binary(ASTNode::Number(8), Token::Divide, ASTNode::Number(4)),
                    Token::Divide,
                    ASTNode::Number(2)
                )
            ),
        ]
    );
}

#[test]
fn brackets_group() {
    let body = body_of("main(){ integer x = (1 + 2) * 3 }");
    assert_eq!(
        body,
        vec![declaration(
            Token::IntegerType,
            "x",
            binary(
                binary(ASTNode::Number(1), Token::Plus, ASTNode::Number(2)),
                Token::Multiply,
                ASTNode::Number(3)
            )
        )]
    );
}

#[test]
fn a_name_in_an_expression_stays_a_name() {
    let body = body_of("main(){ integer a = 5 integer b = a + 1 }");
    assert_eq!(
        body[1],
        declaration(
            Token::IntegerType,
            "b",
            binary(integer_name("a"), Token::Plus, ASTNode::Number(1))
        )
    );
}

#[test]
fn print_takes_a_string_a_number_or_a_name() {
    let body = body_of("main(){ print(\"hi\") print(7) print(x) }");
    assert_eq!(
        body,
        vec![
            ASTNode::Print(Token::StringLiteral("hi".to_string())),
            ASTNode::Print(number("7")),
            ASTNode::Print(ident("x")),
        ]
    );
}

#[test]
fn increment_and_decrement() {
    let body = body_of("main(){ integer i = 0 i++ i-- }");
    assert_eq!(
        body[1..],
        [
            ASTNode::UniqueOp { ident: "i".to_string(), op: Token::Increment },
            ASTNode::UniqueOp { ident: "i".to_string(), op: Token::Decrement },
        ]
    );
}

#[test]
fn array_declaration() {
    let mut parser = parser_for("main(){ array<integer> a = [1,2,3] }");
    let tree = parser.parse().unwrap();
    let literal = ASTNode::ArrayLiteral {
        length: 3,
        values_data: vec![ASTNode::Number(1), ASTNode::Number(2), ASTNode::Number(3)],
        data_type: Token::IntegerType,
        ident: "a".to_string(),
    };
    assert_eq!(tree, ASTNode::Main { body: vec![literal.clone()] });
    assert_eq!(parser.symbol_table.get(&"a".to_string()), Some(&Token::IntegerType));
    assert_eq!(parser.value_table.get(&"a".to_string()), Some(&literal));
}

#[test]
fn array_of_one() {
    let body = body_of("main(){ array<string> a = [7] }");
    assert_eq!(
        body,
        vec![ASTNode::ArrayLiteral {
            length: 1,
            values_data: vec![ASTNode::Number(7)],
            data_type: Token::StringType,
            ident: "a".to_string(),
        }]
    );
}

#[test]
fn if_chain_is_three_statements_in_order() {
    let body = body_of(
        "main(){ integer a = 1 if a < 2 { print(\"x\") } elseif a == 2 { print(\"y\") } else { print(\"z\") } }",
    );
    assert_eq!(
        body[1..],
        [
            ASTNode::If {
                block: vec![
                    binary(integer_name("a"), Token::LessThan, ASTNode::Number(2)),
                    ASTNode::Print(Token::StringLiteral("x".to_string())),
                ]
            },
            ASTNode::ElseIf {
                block: vec![
                    binary(integer_name("a"), Token::EqualThan, ASTNode::Number(2)),
                    ASTNode::Print(Token::StringLiteral("y".to_string())),
                ]
            },
            ASTNode::Else { block: vec![ASTNode::Print(Token::StringLiteral("z".to_string()))] },
        ]
    );
}

#[test]
fn every_relational_operator_is_kept() {
    for (text, op) in [
        ("<", Token::LessThan),
        ("<=", Token::LessEqualThan),
        (">", Token::BiggerThan),
        (">=", Token::BiggerEqualThan),
        ("==", Token::EqualThan),
        ("!=", Token::DifferentThan),
    ] {
        let source = format!("main(){{ integer a = 1 if a {} 2 {{ }} }}", text);
        let body = body_of(&source);
        assert_eq!(
            body[1],
            ASTNode::If { block: vec![binary(integer_name("a"), op, ASTNode::Number(2))] }
        );
    }
}

#[test]
fn logic_expression_with_brackets_and_a_chain() {
    let body = body_of("main(){ integer a = 1 if (a < 2) == (a > 0) != 1 { } }");
    assert_eq!(
        body[1],
        ASTNode::If {
            block: vec![binary(
                binary(
                    binary(integer_name("a"), Token::LessThan, ASTNode::Number(2)),
                    Token::EqualThan,
                    binary(integer_name("a"), Token::BiggerThan, ASTNode::Number(0))
                ),
                Token::DifferentThan,
                ASTNode::Number(1)
            )]
        }
    );
}

#[test]
fn a_condition_may_be_a_single_operand() {
    let body = body_of("main(){ if 1 { } }");
    assert_eq!(body, vec![ASTNode::If { block: vec![ASTNode::Number(1)] }]);
}

#[test]
fn for_loop() {
    let body = body_of("main(){ for(integer i = 0; i < 3; i++) { print(i) } }");
    assert_eq!(
        body,
        vec![ASTNode::For {
            declaration: Box::new(declaration(Token::IntegerType, "i", ASTNode::Number(0))),
            expression: Box::new(binary(integer_name("i"), Token::LessThan, ASTNode::Number(3))),
            operation: Box::new(ASTNode::UniqueOp { ident: "i".to_string(), op: Token::Increment }),
            block: vec![ASTNode::Print(ident("i"))],
        }]
    );
}

#[test]
fn statements_nest() {
    let body = body_of(
        "main(){ for(integer i = 0; i < 3; i++) { if i == 1 { for(integer j = 0; j < i; j++) { } } else { array<integer> a = [1] } } }",
    );
    assert_eq!(body.len(), 1);
    match &body[0] {
        ASTNode::For { block, .. } => {
            assert_eq!(block.len(), 2);
            assert!(matches!(&block[0], ASTNode::If { block } if block.len() == 2));
            assert!(matches!(&block[1], ASTNode::Else { block } if block.len() == 1));
        }
        other => panic!("no loop: {:?}", other),
    }
}

#[test]
fn tokens_behind_the_program_are_left_unread() {
    let mut parser = parser_for("main(){ } print(1)");
    assert_eq!(parser.parse().unwrap(), ASTNode::Main { body: vec![] });
    assert_eq!(parser.current, 5);
    assert_eq!(parser.peek(), Some(&Token::Print));
}

#[test]
fn missing_main_is_an_error() {
    assert_eq!(
        error_of("print(1)"),
        ParseError {
            expected: Expected::Token(TokenKind::Main),
            found: Some(Token::Print),
            position: 0,
            construct: None,
        }
    );
    assert_eq!(
        error_of(""),
        ParseError { expected: Expected::Token(TokenKind::Main), found: None, position: 0, construct: None }
    );
}

#[test]
fn missing_closing_brace_is_an_error() {
    let e = error_of("main(){ print(1)");
    assert_eq!(
        e,
        ParseError { expected: Expected::Token(TokenKind::RBrace), found: None, position: 8, construct: None }
    );
    assert_eq!(e.kind(), ParseErrorKind::MissingToken);
}

#[test]
fn a_token_that_starts_no_statement_is_an_error() {
    let e = error_of("main(){ 5 }");
    assert_eq!(
        e,
        ParseError { expected: Expected::Statement, found: Some(number("5")), position: 4, construct: None }
    );
    assert_eq!(e.kind(), ParseErrorKind::UnexpectedToken);
    assert_eq!(error_of("main(){ ) }").expected, Expected::Statement);
    assert_eq!(error_of("main(){ main }").expected, Expected::Statement);
}

#[test]
fn else_without_if_is_an_error() {
    assert_eq!(
        error_of("main(){ else { } }"),
        ParseError { expected: Expected::Statement, found: Some(Token::Else), position: 4, construct: None }
    );
    assert_eq!(
        error_of("main(){ integer a = 1 elseif a < 1 { } }"),
        ParseError { expected: Expected::Statement, found: Some(Token::ElseIf), position: 8, construct: None }
    );
    assert_eq!(
        error_of("main(){ if 1 { } else { } else { } }").expected,
        Expected::Statement
    );
    assert_eq!(
        error_of("main(){ if 1 { } else { } elseif 1 { } }").expected,
        Expected::Statement
    );
    assert_eq!(error_of("main(){ if 1 { else { } } }").expected, Expected::Statement);
}

#[test]
fn undeclared_name_is_an_error() {
    let e = error_of("main(){ integer x = y + 1 }");
    assert_eq!(
        e,
        ParseError { expected: Expected::DeclaredIdentifier, found: Some(ident("y")), position: 7, construct: Some(Construct::Declaration) }
    );
    assert_eq!(e.kind(), ParseErrorKind::UndeclaredIdentifier);
    assert_eq!(
        error_of("main(){ i++ }"),
        ParseError { expected: Expected::DeclaredIdentifier, found: Some(ident("i")), position: 4, construct: None }
    );
    assert_eq!(
        error_of("main(){ if a < 1 { } }"),
        ParseError { expected: Expected::DeclaredIdentifier, found: Some(ident("a")), position: 5, construct: None }
    );
    assert_eq!(
        error_of("main(){ integer x = x }"),
        ParseError { expected: Expected::DeclaredIdentifier, found: Some(ident("x")), position: 7, construct: Some(Construct::Declaration) }
    );
}

#[test]
fn malformed_declaration_is_an_error() {
    assert_eq!(
        error_of("main(){ integer = 1 }"),
        ParseError {
            expected: Expected::Token(TokenKind::Identifier),
            found: Some(Token::Assignment),
            position: 5,
            construct: Some(Construct::Declaration),
        }
    );
    assert_eq!(
        error_of("main(){ integer x 1 }"),
        ParseError {
            expected: Expected::Token(TokenKind::Assignment),
            found: Some(number("1")),
            position: 6,
            construct: Some(Construct::Declaration),
        }
    );
    assert_eq!(
        error_of("main(){ integer x = }"),
        ParseError { expected: Expected::Expression, found: Some(Token::RBrace), position: 7, construct: Some(Construct::Declaration) }
    );
    assert_eq!(
        error_of("main(){ integer x = (1 + 2 }"),
        ParseError {
            expected: Expected::Token(TokenKind::RParen),
            found: Some(Token::RBrace),
            position: 11,
            construct: Some(Construct::Declaration),
        }
    );
    assert_eq!(
        error_of("main(){ integer x = 1 + }"),
        ParseError { expected: Expected::Expression, found: Some(Token::RBrace), position: 9, construct: Some(Construct::Declaration) }
    );
}

#[test]
fn malformed_array_is_an_error() {
    assert_eq!(
        error_of("main(){ array<integer> a = [] }"),
        ParseError {
            expected: Expected::Token(TokenKind::Number),
            found: Some(Token::RBracket),
            position: 11,
            construct: Some(Construct::ArrayDeclaration),
        }
    );
    assert_eq!(
        error_of("main(){ array<integer> a = [1,] }").expected,
        Expected::Token(TokenKind::Number)
    );
    assert_eq!(
        error_of("main(){ array<integer> a = [1 2] }"),
        ParseError {
            expected: Expected::Token(TokenKind::RBracket),
            found: Some(number("2")),
            position: 12,
            construct: Some(Construct::ArrayDeclaration),
        }
    );
    assert_eq!(
        error_of("main(){ array<array> a = [1] }"),
        ParseError { expected: Expected::Type, found: Some(Token::ArrayType), position: 6, construct: Some(Construct::ArrayDeclaration) }
    );
    assert_eq!(
        error_of("main(){ array integer a = [1] }").expected,
        Expected::Token(TokenKind::LessThan)
    );
    assert_eq!(
        error_of("main(){ array<integer a = [1] }").expected,
        Expected::Token(TokenKind::BiggerThan)
    );
    assert_eq!(
        error_of("main(){ array<integer> a [1] }").expected,
        Expected::Token(TokenKind::Assignment)
    );
    assert_eq!(
        error_of("main(){ array<integer> a = 1 }").expected,
        Expected::Token(TokenKind::LBracket)
    );
}

#[test]
fn malformed_loop_header_is_an_error() {
    assert_eq!(
        error_of("main(){ for integer i = 0; i < 3; i++) { } }").expected,
        Expected::Token(TokenKind::LParen)
    );
    assert_eq!(error_of("main(){ for(i = 0; i < 3; i++) { } }").expected, Expected::Type);
    assert_eq!(
        error_of("main(){ for(integer i = 0 i < 3; i++) { } }").expected,
        Expected::Token(TokenKind::Semicolon)
    );
    assert_eq!(
        error_of("main(){ for(integer i = 0; ; i++) { } }").expected,
        Expected::LogicExpression
    );
    assert_eq!(
        error_of("main(){ for(integer i = 0; i < 3; i) { } }").expected,
        Expected::IncrementOrDecrement
    );
    assert_eq!(
        error_of("main(){ for(integer i = 0; i < 3; 3) { } }").expected,
        Expected::Token(TokenKind::Identifier)
    );
    assert_eq!(
        error_of("main(){ for(integer i = 0; i < 3; i++ { } }").expected,
        Expected::Token(TokenKind::RParen)
    );
    assert_eq!(
        error_of("main(){ for(integer i = 0; i < 3; i++) print(i) }").expected,
        Expected::Token(TokenKind::LBrace)
    );
}

#[test]
fn malformed_print_is_an_error() {
    assert_eq!(
        error_of("main(){ print(+) }"),
        ParseError { expected: Expected::PrintArgument, found: Some(Token::Plus), position: 6, construct: None }
    );
    assert_eq!(error_of("main(){ print() }").expected, Expected::PrintArgument);
    assert_eq!(error_of("main(){ print 1 }").expected, Expected::Token(TokenKind::LParen));
    assert_eq!(error_of("main(){ print(1 }").expected, Expected::Token(TokenKind::RParen));
}

#[test]
fn a_number_beyond_32_bits_is_an_error() {
    assert_eq!(
        error_of("main(){ integer x = 2147483648 }"),
        ParseError {
            expected: Expected::RepresentableNumber,
            found: Some(number("2147483648")),
            position: 7,
            construct: Some(Construct::Declaration),
        }
    );
    assert_eq!(
        body_of("main(){ integer x = 2147483647 }"),
        vec![declaration(Token::IntegerType, "x", ASTNode::Number(2147483647))]
    );
    assert_eq!(
        error_of("main(){ array<integer> a = [1, 99999999999] }").expected,
        Expected::RepresentableNumber
    );
    assert_eq!(
        error_of("main(){ if 99999999999 { } }").expected,
        Expected::RepresentableNumber
    );
}

#[test]
fn parsing_is_repeatable() {
    let source = "main(){ integer a = 1 if a < 2 { a++ } else { a-- } print(a) }";
    assert_eq!(parse_program(source), parse_program(source));
}

#[test]
fn lookahead_helpers() {
    let mut parser = Parser::new(vec![number("1"), Token::Plus, ident("n")]);
    assert!(!parser.is_at_end());
    assert_eq!(parser.peek(), Some(&number("1")));
    assert_eq!(parser.peek_kind(), Some(TokenKind::Number));
    assert!(parser.check(&number("anything")));
    assert!(!parser.check(&Token::Plus));
    assert_eq!(parser.match_identifier(), None);
    assert_eq!(parser.match_number(), Some(number("1")));
    assert_eq!(parser.previous(), &number("1"));
    assert_eq!(parser.match_number(), None);
    assert!(!parser.match_token(&[Token::Minus, Token::Multiply]));
    assert_eq!(parser.current, 1);
    assert!(parser.match_token(&[Token::Minus, Token::Plus]));
    assert_eq!(parser.current, 2);
    assert_eq!(
        parser.consume(&Token::Plus),
        Err(ParseError {
            expected: Expected::Token(TokenKind::Plus),
            found: Some(ident("n")),
            position: 2,
            construct: None,
        })
    );
    assert_eq!(parser.current, 2);
    assert_eq!(parser.consume(&ident("")), Ok(()));
    assert!(parser.is_at_end());
    assert_eq!(parser.peek(), None);
    assert_eq!(parser.advance(), Some(&ident("n")));
    assert_eq!(parser.current, 3);
    assert_eq!(
        parser.fail(Expected::Statement),
        ParseError { expected: Expected::Statement, found: None, position: 3, construct: None }
    );
}

#[test]
fn advance_on_no_tokens_hands_out_nothing() {
    let mut parser = Parser::new(vec![]);
    assert_eq!(parser.advance(), None);
    assert_eq!(parser.current, 0);
    assert!(parser.is_at_end());
}

#[test]
fn parse_types_does_not_move() {
    let mut parser = Parser::new(vec![Token::BooleanType, Token::Plus]);
    assert_eq!(parser.parse_types(), Ok(Token::BooleanType));
    assert_eq!(parser.current, 0);
    parser.advance();
    assert_eq!(
        parser.parse_types(),
        Err(ParseError { expected: Expected::Type, found: Some(Token::Plus), position: 1, construct: None })
    );
}

#[test]
fn expression_parsers_stop_behind_the_expression() {
    let mut parser = parser_for("1 + 2 * 3 )");
    assert_eq!(
        parser.parse_expression().unwrap(),
        binary(
            ASTNode::Number(1),
            Token::Plus,
            binary(ASTNode::Number(2), Token::Multiply, ASTNode::Number(3))
        )
    );
    assert_eq!(parser.current, 5);

    let mut parser = parser_for("2 * 3 + 1");
    assert_eq!(
        parser.parse_term().unwrap(),
        binary(ASTNode::Number(2), Token::Multiply, ASTNode::Number(3))
    );
    assert_eq!(parser.current, 3);

    let mut parser = parser_for("(4) 5");
    assert_eq!(parser.parse_factor().unwrap(), ASTNode::Number(4));
    assert_eq!(parser.current, 3);

    let mut parser = parser_for("1 < 2 + 3");
    assert_eq!(
        parser.parse_logic_expression().unwrap(),
        binary(ASTNode::Number(1), Token::LessThan, ASTNode::Number(2))
    );
    assert_eq!(parser.current, 3);

    let mut parser = parser_for("+");
    assert_eq!(parser.parse_logic_factor().unwrap_err().expected, Expected::LogicExpression);
}

#[test]
fn parse_and_push_appends_one_statement() {
    let mut parser = parser_for("print(1) print(2)");
    let mut body = Vec::new();
    assert_eq!(parser.parse_and_push(&mut body), Ok(()));
    assert_eq!(body, vec![ASTNode::Print(number("1"))]);
    assert_eq!(parser.current, 4);
    assert_eq!(parser.parse_block(&mut body), Ok(()));
    assert_eq!(body, vec![ASTNode::Print(number("1")), ASTNode::Print(number("2"))]);
    assert!(parser.is_at_end());
}

#[test]
fn chain_is_open_behind_if_and_elseif_only() {
    assert!(!chain_is_open(&vec![]));
    assert!(chain_is_open(&vec![ASTNode::If { block: vec![] }]));
    assert!(chain_is_open(&vec![ASTNode::Number(1), ASTNode::ElseIf { block: vec![] }]));
    assert!(!chain_is_open(&vec![ASTNode::If { block: vec![] }, ASTNode::Else { block: vec![] }]));
    assert!(!chain_is_open(&vec![ASTNode::If { block: vec![] }, ASTNode::Number(1)]));
}

#[test]
fn token_text_is_the_carried_text() {
    assert_eq!(token_text(&ident("abc")), "abc");
    assert_eq!(token_text(&number("12")), "12");
    assert_eq!(token_text(&Token::StringLiteral("s".to_string())), "s");
    assert_eq!(token_text(&Token::Plus), "");
}

#[test]
fn a_tree_clones_to_an_equal_tree() {
    let tree = parse_program(
        "main(){ integer a = 1 array<integer> b = [1,2] for(integer i = 0; i < 3; i++) { if i == 1 { print(\"x\") } elseif i == 2 { a++ } else { print(a) } } }",
    )
    .unwrap();
    assert_eq!(tree.clone(), tree);
}

#[test]
fn a_failed_declaration_declares_nothing() {
    for source in ["integer x = ", "integer x = (1 + ", "integer x 1", "integer = 1", "integer x = y"] {
        let mut parser = parser_for(source);
        assert!(parser.parse_declaration().is_err());
        assert_eq!(parser.symbol_table.get(&"x".to_string()), None);
        assert_eq!(parser.value_table.get(&"x".to_string()), None);
        assert_eq!(parser.symbol_table.entries.len(), 0);
        assert_eq!(parser.value_table.entries.len(), 0);
    }
}

#[test]
fn a_failed_array_declaration_declares_nothing() {
    for source in [
        "array<integer> a = [1, 2",
        "array<integer> a = [1,",
        "array<integer> a = [",
        "array<integer> a = [99999999999]",
        "array<integer> a",
    ] {
        let mut parser = parser_for(source);
        assert!(parser.parse_array_declaration().is_err());
        assert_eq!(parser.symbol_table.get(&"a".to_string()), None);
        assert_eq!(parser.value_table.get(&"a".to_string()), None);
    }
}

#[test]
fn a_failed_redeclaration_keeps_the_earlier_declaration() {
    let mut parser = parser_for("integer x = 1 string x = ");
    assert!(parser.parse_declaration().is_ok());
    assert!(parser.parse_declaration().is_err());
    assert_eq!(parser.symbol_table.get(&"x".to_string()), Some(&Token::IntegerType));
    assert_eq!(parser.value_table.get(&"x".to_string()), Some(&ASTNode::Number(1)));
}

#[test]
fn a_failed_program_keeps_what_was_declared_before_the_failure() {
    let mut parser = parser_for("main(){ integer a = 1 if a < 2 { string b = \"s\" integer c = } }");
    let error = parser.parse().unwrap_err();
    assert_eq!(error.expected, Expected::Expression);
    assert_eq!(parser.current, error.position);
    assert_eq!(parser.symbol_table.get(&"a".to_string()), Some(&Token::IntegerType));
    assert_eq!(parser.symbol_table.get(&"b".to_string()), Some(&Token::StringType));
    assert_eq!(parser.symbol_table.get(&"c".to_string()), None);
}

#[test]
fn an_error_names_the_construct_it_makes_malformed() {
    assert_eq!(error_of("main(){ integer x 1 }").construct, Some(Construct::Declaration));
    assert_eq!(error_of("main(){ integer x = (1 }").construct, Some(Construct::Declaration));
    assert_eq!(
        error_of("main(){ array<integer> a = [1 }").construct,
        Some(Construct::ArrayDeclaration)
    );
    assert_eq!(
        error_of("main(){ for(integer i = 0 i < 3; i++) { } }").construct,
        Some(Construct::LoopHeader)
    );
    assert_eq!(
        error_of("main(){ for(integer i = 0; i < ; i++) { } }").construct,
        Some(Construct::LoopHeader)
    );
    assert_eq!(
        error_of("main(){ for(integer i = 0; i < 3; i) { } }").construct,
        Some(Construct::LoopHeader)
    );
    assert_eq!(
        error_of("main(){ for(integer i = ; i < 3; i++) { } }").construct,
        Some(Construct::Declaration)
    );
    assert_eq!(error_of("main(){ for(integer i = 0; i < 3; i++) { 5 } }").construct, None);
    assert_eq!(error_of("main(){ print(+) }").construct, None);
    assert_eq!(error_of("main(){ if 1 { integer x } }").construct, Some(Construct::Declaration));
}

#[test]
fn an_error_keeps_the_innermost_construct() {
    let error = ParseError {
        expected: Expected::Expression,
        found: None,
        position: 3,
        construct: None,
    };
    let inner = error.inside(Construct::Declaration);
    assert_eq!(inner.construct, Some(Construct::Declaration));
    let outer = inner.inside(Construct::LoopHeader);
    assert_eq!(outer.construct, Some(Construct::Declaration));
    assert_eq!(outer.expected, Expected::Expression);
    assert_eq!(outer.position, 3);
}

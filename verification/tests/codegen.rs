use vera::codegen::{
    array_code, expression_code, for_stmt, generate_code, generate_declaration, generate_main,
    number_code, print_code, range_code, statement_code, to_c_code, to_c_code_else_stmt,
    to_c_code_elseif_stmt, to_c_code_if_stmt, token_to_c_identifier, token_to_c_operator,
    token_to_c_print_type, token_to_c_step, token_to_c_type, values_code, CodegenError,
};
use vera::parser::ASTNode;
use vera::table::Table;
use vera::tokenizer::{Token, TokenKind};
use vera::tree::NodeKind;

fn unsupported_node(kind: NodeKind) -> CodegenError {
    CodegenError::UnsupportedNode { kind }
}

fn unsupported_operator(found: TokenKind) -> CodegenError {
    CodegenError::UnsupportedOperator { found }
}

fn unsupported_type(found: TokenKind) -> CodegenError {
    CodegenError::UnsupportedType { found }
}

fn undeclared(name: &str) -> CodegenError {
    CodegenError::UndeclaredSymbol { name: name.to_string() }
}

fn ident(name: &str) -> Token {
    Token::Identifier(name.to_string())
}

fn binary(left: ASTNode, op: Token, right: ASTNode) -> ASTNode {
    ASTNode::BinaryOp { left: Box::new(left), op, right: Box::new(right) }
}

fn name(text: &str) -> ASTNode {
    ASTNode::Identifier { name: text.to_string(), data_type: Token::IntegerType }
}

fn declaration(data_type: Token, text: &str, value: ASTNode) -> ASTNode {
    ASTNode::Declaration { data_type, identifier: ident(text), value: Box::new(value) }
}

fn print_text(text: &str) -> ASTNode {
    ASTNode::Print(Token::StringLiteral(text.to_string()))
}

fn symbols(entries: &[(&str, Token)]) -> Table<Token> {
    let mut table = Table::new();
    for (key, value) in entries {
        table.insert(key.to_string(), value.clone());
    }
    table
}

#[test]
fn every_operator_has_a_symbol_of_its_own() {
    assert_eq!(token_to_c_operator(&Token::Plus), Ok("+"));
    assert_eq!(token_to_c_operator(&Token::Minus), Ok("-"));
    assert_eq!(token_to_c_operator(&Token::Multiply), Ok("*"));
    assert_eq!(token_to_c_operator(&Token::Divide), Ok("/"));
    assert_eq!(token_to_c_operator(&Token::EqualThan), Ok("=="));
    assert_eq!(token_to_c_operator(&Token::DifferentThan), Ok("!="));
    assert_eq!(token_to_c_operator(&Token::LessThan), Ok("<"));
    assert_eq!(token_to_c_operator(&Token::LessEqualThan), Ok("<="));
    assert_eq!(token_to_c_operator(&Token::BiggerThan), Ok(">"));
    assert_eq!(token_to_c_operator(&Token::BiggerEqualThan), Ok(">="));
    assert_eq!(token_to_c_operator(&Token::Assignment), Err(unsupported_operator(TokenKind::Assignment)));
    assert_eq!(token_to_c_operator(&Token::Increment), Err(unsupported_operator(TokenKind::Increment)));
}

#[test]
fn types_and_print_conversions() {
    assert_eq!(token_to_c_type(&Token::StringType), Ok("char*"));
    assert_eq!(token_to_c_type(&Token::IntegerType), Ok("int"));
    assert_eq!(token_to_c_type(&Token::BooleanType), Ok("bool"));
    assert_eq!(token_to_c_type(&Token::ArrayType), Err(unsupported_type(TokenKind::ArrayType)));
    assert_eq!(token_to_c_print_type(&Token::StringType), Ok("%s"));
    assert_eq!(token_to_c_print_type(&Token::IntegerType), Ok("%d"));
    assert_eq!(token_to_c_print_type(&Token::BooleanType), Ok("%s"));
    assert_eq!(token_to_c_print_type(&ident("x")), Err(unsupported_type(TokenKind::Identifier)));
}

#[test]
fn identifiers_and_steps() {
    assert_eq!(token_to_c_identifier(&ident("abc")), Ok("abc".to_string()));
    assert_eq!(
        token_to_c_identifier(&Token::Number("1".to_string())),
        Err(CodegenError::ExpectedIdentifier { found: TokenKind::Number })
    );
    assert_eq!(token_to_c_step(&Token::Increment), Ok("++"));
    assert_eq!(token_to_c_step(&Token::Decrement), Ok("--"));
    assert_eq!(token_to_c_step(&Token::Plus), Err(unsupported_operator(TokenKind::Plus)));
}

#[test]
fn numbers_names_and_strings() {
    assert_eq!(number_code(0), "0");
    assert_eq!(number_code(-17), "-17");
    assert_eq!(number_code(i32::MIN), "-2147483648");
    assert_eq!(to_c_code(ASTNode::Number(42), true), Ok("42".to_string()));
    assert_eq!(to_c_code(name("x"), true), Ok("x".to_string()));
    assert_eq!(
        to_c_code(ASTNode::StringLiteral("hi".to_string()), true),
        Ok("\"hi\"".to_string())
    );
}

#[test]
fn binary_operation_with_and_without_outer_brackets() {
    let sum = binary(ASTNode::Number(2), Token::Plus, ASTNode::Number(3));
    assert_eq!(expression_code(&sum, true), Ok("(2 + 3)".to_string()));
    assert_eq!(expression_code(&sum, false), Ok("2 + 3".to_string()));
}

#[test]
fn operands_keep_their_brackets_in_either_mode() {
    let tree = binary(
        binary(ASTNode::Number(1), Token::Plus, ASTNode::Number(2)),
        Token::Multiply,
        binary(name("a"), Token::Minus, ASTNode::Number(3)),
    );
    assert_eq!(expression_code(&tree, true), Ok("((1 + 2) * (a - 3))".to_string()));
    assert_eq!(expression_code(&tree, false), Ok("(1 + 2) * (a - 3)".to_string()));
}

#[test]
fn declaration_statement() {
    let table = symbols(&[]);
    let node = declaration(
        Token::IntegerType,
        "x",
        binary(ASTNode::Number(2), Token::Plus, ASTNode::Number(3)),
    );
    assert_eq!(statement_code(&node, &table), Ok("int x = (2 + 3);\n".to_string()));
    assert_eq!(expression_code(&node, false), Ok("int x = 2 + 3".to_string()));
    let text = declaration(Token::StringType, "s", ASTNode::StringLiteral("a b".to_string()));
    assert_eq!(statement_code(&text, &table), Ok("char* s = \"a b\";\n".to_string()));
    let flag = declaration(Token::BooleanType, "b", ASTNode::Number(1));
    assert_eq!(statement_code(&flag, &table), Ok("bool b = 1;\n".to_string()));
}

#[test]
fn print_statement() {
    let table = symbols(&[
        ("i", Token::IntegerType),
        ("s", Token::StringType),
        ("b", Token::BooleanType),
        ("odd", Token::Plus),
    ]);
    assert_eq!(
        print_code(&Token::StringLiteral("hi".to_string()), &table),
        Ok("printf(\"%s\", \"hi\"); \n".to_string())
    );
    assert_eq!(print_code(&ident("i"), &table), Ok("printf(\"%d\", i); \n".to_string()));
    assert_eq!(print_code(&ident("s"), &table), Ok("printf(\"%s\", s); \n".to_string()));
    assert_eq!(print_code(&ident("b"), &table), Ok("printf(\"%s\", b); \n".to_string()));
    assert_eq!(print_code(&ident("odd"), &table), Err(unsupported_type(TokenKind::Plus)));
    assert_eq!(print_code(&ident("none"), &table), Err(undeclared("none")));
    assert_eq!(
        print_code(&Token::Number("1".to_string()), &table),
        Err(CodegenError::UnsupportedPrintArgument { found: TokenKind::Number })
    );
    assert_eq!(
        statement_code(&ASTNode::Print(ident("i")), &table),
        Ok("printf(\"%d\", i); \n".to_string())
    );
}

#[test]
fn print_uses_the_last_declared_type() {
    let table = symbols(&[("x", Token::IntegerType), ("x", Token::StringType)]);
    assert_eq!(print_code(&ident("x"), &table), Ok("printf(\"%s\", x); \n".to_string()));
}

#[test]
fn increment_statement() {
    let table = symbols(&[]);
    let up = ASTNode::UniqueOp { ident: "i".to_string(), op: Token::Increment };
    let down = ASTNode::UniqueOp { ident: "i".to_string(), op: Token::Decrement };
    let odd = ASTNode::UniqueOp { ident: "i".to_string(), op: Token::Plus };
    assert_eq!(statement_code(&up, &table), Ok("i++; \n".to_string()));
    assert_eq!(statement_code(&down, &table), Ok("i--; \n".to_string()));
    assert_eq!(expression_code(&up, false), Ok("i++".to_string()));
    assert_eq!(statement_code(&odd, &table), Err(unsupported_operator(TokenKind::Plus)));
}

#[test]
fn array_statement() {
    let table = symbols(&[]);
    let node = ASTNode::ArrayLiteral {
        length: 3,
        values_data: vec![ASTNode::Number(1), ASTNode::Number(2), ASTNode::Number(3)],
        data_type: Token::IntegerType,
        ident: "a".to_string(),
    };
    assert_eq!(statement_code(&node, &table), Ok("int a[3] = { 1, 2, 3 }; \n".to_string()));
    assert_eq!(
        array_code(1, &vec![ASTNode::Number(9)], &Token::StringType, &"s".to_string()),
        Ok("char* s[1] = { 9 }; \n".to_string())
    );
    assert_eq!(
        array_code(12, &vec![], &Token::IntegerType, &"e".to_string()),
        Ok("int e[12] = {  }; \n".to_string())
    );
    assert_eq!(
        array_code(1, &vec![ASTNode::Number(9)], &Token::Comma, &"s".to_string()),
        Err(unsupported_type(TokenKind::Comma))
    );
}

#[test]
fn array_values_are_written_without_outer_brackets() {
    let values = vec![
        binary(ASTNode::Number(1), Token::Plus, ASTNode::Number(2)),
        name("k"),
    ];
    assert_eq!(values_code(&values), Ok("1 + 2, k".to_string()));
    assert_eq!(values_code(&vec![]), Ok(String::new()));
    assert_eq!(
        values_code(&vec![ASTNode::Number(1), print_text("x"), ASTNode::Main { body: vec![] }]),
        Err(unsupported_node(NodeKind::Print))
    );
}

#[test]
fn if_statement() {
    let table = symbols(&[]);
    let node = ASTNode::If {
        block: vec![binary(name("a"), Token::LessThan, ASTNode::Number(2)), print_text("x")],
    };
    let expected = "if(a < 2)\n { \nprintf(\"%s\", \"x\"); \n}".to_string();
    assert_eq!(to_c_code_if_stmt(&node, &table), Ok(expected.clone()));
    assert_eq!(statement_code(&node, &table), Ok(expected));
}

#[test]
fn a_condition_is_bracketed_once_whatever_it_is() {
    let table = symbols(&[]);
    assert_eq!(
        to_c_code_if_stmt(&ASTNode::If { block: vec![name("a")] }, &table),
        Ok("if(a)\n { \n}".to_string())
    );
    let nested = binary(
        binary(name("a"), Token::LessThan, ASTNode::Number(2)),
        Token::EqualThan,
        ASTNode::Number(1),
    );
    assert_eq!(
        to_c_code_if_stmt(&ASTNode::If { block: vec![nested] }, &table),
        Ok("if((a < 2) == 1)\n { \n}".to_string())
    );
}

#[test]
fn elseif_and_else_statements() {
    let table = symbols(&[]);
    let elseif = ASTNode::ElseIf {
        block: vec![binary(name("a"), Token::BiggerEqualThan, ASTNode::Number(2)), print_text("y")],
    };
    let otherwise = ASTNode::Else { block: vec![print_text("z")] };
    assert_eq!(
        to_c_code_elseif_stmt(&elseif, &table),
        Ok("else if(a >= 2)\n { \nprintf(\"%s\", \"y\"); \n} \n".to_string())
    );
    assert_eq!(
        to_c_code_else_stmt(&otherwise, &table),
        Ok("else{ \nprintf(\"%s\", \"z\"); \n} \n".to_string())
    );
    assert_eq!(
        to_c_code_else_stmt(&ASTNode::Else { block: vec![] }, &table),
        Ok("else{ \n} \n".to_string())
    );
}

#[test]
fn for_statement() {
    let table = symbols(&[("i", Token::IntegerType)]);
    let node = ASTNode::For {
        declaration: Box::new(declaration(Token::IntegerType, "i", ASTNode::Number(0))),
        expression: Box::new(binary(name("i"), Token::LessThan, ASTNode::Number(3))),
        operation: Box::new(ASTNode::UniqueOp { ident: "i".to_string(), op: Token::Increment }),
        block: vec![ASTNode::Print(ident("i"))],
    };
    let expected = "for(int i = 0;i < 3;i++) \n{ \nprintf(\"%d\", i); \n} \n".to_string();
    assert_eq!(for_stmt(&node, &table), Ok(expected.clone()));
    assert_eq!(statement_code(&node, &table), Ok(expected));
}

#[test]
fn loop_header_drops_only_the_outer_brackets() {
    let table = symbols(&[]);
    let node = ASTNode::For {
        declaration: Box::new(declaration(
            Token::IntegerType,
            "i",
            binary(
                ASTNode::Number(1),
                Token::Plus,
                binary(ASTNode::Number(2), Token::Multiply, ASTNode::Number(3)),
            ),
        )),
        expression: Box::new(binary(
            binary(name("i"), Token::Plus, ASTNode::Number(1)),
            Token::LessEqualThan,
            ASTNode::Number(9),
        )),
        operation: Box::new(ASTNode::UniqueOp { ident: "i".to_string(), op: Token::Decrement }),
        block: vec![],
    };
    assert_eq!(
        for_stmt(&node, &table),
        Ok("for(int i = 1 + (2 * 3);(i + 1) <= 9;i--) \n{ \n} \n".to_string())
    );
}

#[test]
fn statement_emitters_refuse_other_nodes() {
    let table = symbols(&[]);
    let other = ASTNode::Number(1);
    assert_eq!(to_c_code_if_stmt(&other, &table), Err(unsupported_node(NodeKind::Number)));
    assert_eq!(to_c_code_elseif_stmt(&other, &table), Err(unsupported_node(NodeKind::Number)));
    assert_eq!(to_c_code_else_stmt(&other, &table), Err(unsupported_node(NodeKind::Number)));
    assert_eq!(for_stmt(&other, &table), Err(unsupported_node(NodeKind::Number)));
    assert_eq!(generate_declaration(&other, &table), Err(unsupported_node(NodeKind::Number)));
    assert_eq!(generate_main(&other, &table), Err(unsupported_node(NodeKind::Number)));
    assert_eq!(generate_code(&other, &table), Err(unsupported_node(NodeKind::Number)));
    assert_eq!(
        to_c_code_if_stmt(&ASTNode::Else { block: vec![] }, &table),
        Err(unsupported_node(NodeKind::Else))
    );
}

#[test]
fn conditional_without_condition_is_refused() {
    let table = symbols(&[]);
    assert_eq!(
        to_c_code_if_stmt(&ASTNode::If { block: vec![] }, &table),
        Err(CodegenError::MissingCondition { kind: NodeKind::If })
    );
    assert_eq!(
        to_c_code_elseif_stmt(&ASTNode::ElseIf { block: vec![] }, &table),
        Err(CodegenError::MissingCondition { kind: NodeKind::ElseIf })
    );
}

#[test]
fn nodes_without_a_rule_are_refused() {
    let table = symbols(&[]);
    assert_eq!(
        statement_code(&ASTNode::StringLiteral("s".to_string()), &table),
        Err(unsupported_node(NodeKind::StringLiteral))
    );
    assert_eq!(
        statement_code(&ASTNode::Main { body: vec![] }, &table),
        Err(unsupported_node(NodeKind::Main))
    );
    assert_eq!(to_c_code(print_text("x"), true), Err(unsupported_node(NodeKind::Print)));
    assert_eq!(
        to_c_code(ASTNode::If { block: vec![] }, true),
        Err(unsupported_node(NodeKind::If))
    );
    assert_eq!(
        to_c_code(binary(ASTNode::Number(1), Token::Comma, ASTNode::Number(2)), true),
        Err(unsupported_operator(TokenKind::Comma))
    );
    assert_eq!(
        to_c_code(declaration(Token::Plus, "x", ASTNode::Number(1)), true),
        Err(unsupported_type(TokenKind::Plus))
    );
    let unnamed = ASTNode::Declaration {
        data_type: Token::IntegerType,
        identifier: Token::Plus,
        value: Box::new(ASTNode::Number(1)),
    };
    assert_eq!(to_c_code(unnamed, true), Err(CodegenError::ExpectedIdentifier { found: TokenKind::Plus }));
}

#[test]
fn expressions_standing_as_statements_are_written_as_they_are() {
    let table = symbols(&[]);
    assert_eq!(statement_code(&ASTNode::Number(5), &table), Ok("5".to_string()));
    assert_eq!(statement_code(&name("x"), &table), Ok("x".to_string()));
    assert_eq!(
        statement_code(&binary(name("x"), Token::Plus, ASTNode::Number(1)), &table),
        Ok("(x + 1)".to_string())
    );
}

#[test]
fn the_first_failing_statement_gives_the_error() {
    let table = symbols(&[]);
    let nodes = vec![
        print_text("a"),
        ASTNode::Print(ident("missing")),
        ASTNode::If { block: vec![] },
    ];
    assert_eq!(range_code(&nodes, 0, &table), Err(undeclared("missing")));
    assert_eq!(range_code(&nodes, 2, &table), Err(CodegenError::MissingCondition { kind: NodeKind::If }));
    assert_eq!(range_code(&nodes, 3, &table), Ok(String::new()));
    assert_eq!(range_code(&nodes, 7, &table), Ok(String::new()));
}

#[test]
fn range_starts_where_it_is_told() {
    let table = symbols(&[]);
    let nodes = vec![print_text("a"), print_text("b"), print_text("c")];
    assert_eq!(
        range_code(&nodes, 1, &table),
        Ok("printf(\"%s\", \"b\"); \nprintf(\"%s\", \"c\"); \n".to_string())
    );
}

#[test]
fn whole_program() {
    let table = symbols(&[]);
    let tree = ASTNode::Main { body: vec![print_text("hi")] };
    assert_eq!(
        generate_declaration(&tree, &table),
        Ok("printf(\"%s\", \"hi\"); \n".to_string())
    );
    let expected =
        "#include <stdio.h> \n\nint main(){ \nprintf(\"%s\", \"hi\"); \nreturn 0; \n\n }"
            .to_string();
    assert_eq!(generate_main(&tree, &table), Ok(expected.clone()));
    assert_eq!(generate_code(&tree, &table), Ok(expected));
}

#[test]
fn empty_program_is_the_frame_alone() {
    let table = symbols(&[]);
    assert_eq!(
        generate_code(&ASTNode::Main { body: vec![] }, &table),
        Ok("#include <stdio.h> \n\nint main(){ \nreturn 0; \n\n }".to_string())
    );
}

#[test]
fn every_node_without_an_expression_rule_is_refused_by_its_kind() {
    let table = symbols(&[]);
    let nodes = vec![
        (ASTNode::Main { body: vec![] }, NodeKind::Main),
        (print_text("x"), NodeKind::Print),
        (ASTNode::If { block: vec![] }, NodeKind::If),
        (ASTNode::ElseIf { block: vec![] }, NodeKind::ElseIf),
        (ASTNode::Else { block: vec![] }, NodeKind::Else),
        (
            ASTNode::For {
                declaration: Box::new(ASTNode::Number(1)),
                expression: Box::new(ASTNode::Number(1)),
                operation: Box::new(ASTNode::Number(1)),
                block: vec![],
            },
            NodeKind::For,
        ),
        (
            ASTNode::ArrayLiteral {
                length: 0,
                values_data: vec![],
                data_type: Token::IntegerType,
                ident: "a".to_string(),
            },
            NodeKind::ArrayLiteral,
        ),
    ];
    for (node, kind) in nodes {
        assert_eq!(node.kind(), kind);
        assert_eq!(expression_code(&node, true), Err(unsupported_node(kind)));
        assert_eq!(expression_code(&node, false), Err(unsupported_node(kind)));
        assert_eq!(generate_declaration(&node, &table).is_ok(), kind == NodeKind::Main);
        assert_eq!(to_c_code(node, true), Err(unsupported_node(kind)));
    }
}

#[test]
fn a_printed_name_that_was_never_declared_is_named() {
    let tree = ASTNode::Main { body: vec![ASTNode::Print(ident("q"))] };
    assert_eq!(generate_declaration(&tree, &symbols(&[])), Err(undeclared("q")));
    assert_eq!(generate_code(&tree, &symbols(&[("p", Token::IntegerType)])), Err(undeclared("q")));
    assert_eq!(
        generate_declaration(&tree, &symbols(&[("q", Token::IntegerType)])),
        Ok("printf(\"%d\", q); \n".to_string())
    );
}

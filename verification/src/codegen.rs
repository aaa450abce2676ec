//! The code generator: a syntax tree and the table of declared names to C
//! source text.
use vstd::prelude::*;
use vstd::string::StringExecFns;
use crate::table::Table;
use crate::text::{decimal_text, push_decimal, push_digits};
use crate::tokenizer::{Token, TokenKind, TokenModel};
use crate::tree::{kind_of, lemma_models_in, models_in, ASTNode, AstModel, NodeKind};

verus! {

/// Why a tree could not be written out as C, with what was found in the
/// place of what the generator has a rule for.
#[derive(Debug, PartialEq, Eq)]
pub enum CodegenError {
    /// A node of this kind stands where no rule covers it.
    UnsupportedNode { kind: NodeKind },
    /// A token of this kind, which is no operator, stands in the place of
    /// one.
    UnsupportedOperator { found: TokenKind },
    /// A token of this kind, which names no type, stands in the place of a
    /// type.
    UnsupportedType { found: TokenKind },
    /// A token of this kind, which is no identifier, stands in the place of
    /// a name.
    ExpectedIdentifier { found: TokenKind },
    /// `print` was given a token of this kind, which is neither a string nor
    /// a name.
    UnsupportedPrintArgument { found: TokenKind },
    /// A conditional of this kind has no condition.
    MissingCondition { kind: NodeKind },
    /// This printed name is not in the table of declared names.
    UndeclaredSymbol { name: String },
}

/// An error of the generator as contracts see it.
pub enum CodegenErrorModel {
    UnsupportedNode { kind: NodeKind },
    UnsupportedOperator { found: TokenKind },
    UnsupportedType { found: TokenKind },
    ExpectedIdentifier { found: TokenKind },
    UnsupportedPrintArgument { found: TokenKind },
    MissingCondition { kind: NodeKind },
    UndeclaredSymbol { name: Seq<char> },
}

impl View for CodegenError {
    type V = CodegenErrorModel;

    open spec fn view(&self) -> CodegenErrorModel {
        match self {
            CodegenError::UnsupportedNode { kind } => CodegenErrorModel::UnsupportedNode {
                kind: *kind,
            },
            CodegenError::UnsupportedOperator { found } => CodegenErrorModel::UnsupportedOperator {
                found: *found,
            },
            CodegenError::UnsupportedType { found } => CodegenErrorModel::UnsupportedType {
                found: *found,
            },
            CodegenError::ExpectedIdentifier { found } => CodegenErrorModel::ExpectedIdentifier {
                found: *found,
            },
            CodegenError::UnsupportedPrintArgument { found } => {
                CodegenErrorModel::UnsupportedPrintArgument { found: *found }
            },
            CodegenError::MissingCondition { kind } => CodegenErrorModel::MissingCondition {
                kind: *kind,
            },
            CodegenError::UndeclaredSymbol { name } => CodegenErrorModel::UndeclaredSymbol {
                name: name@,
            },
        }
    }
}

/// Text, or the reason why there is none.
pub type Emitted = Result<Seq<char>, CodegenErrorModel>;

/// The C operator for a token: each of the ten operators has a symbol of its
/// own.
pub open spec fn c_operator(kind: TokenKind) -> Option<Seq<char>> {
    match kind {
        TokenKind::Plus => Some("+"@),
        TokenKind::Minus => Some("-"@),
        TokenKind::Multiply => Some("*"@),
        TokenKind::Divide => Some("/"@),
        TokenKind::EqualThan => Some("=="@),
        TokenKind::DifferentThan => Some("!="@),
        TokenKind::LessThan => Some("<"@),
        TokenKind::LessEqualThan => Some("<="@),
        TokenKind::BiggerThan => Some(">"@),
        TokenKind::BiggerEqualThan => Some(">="@),
        _ => None,
    }
}

/// No two operators share a symbol.
pub proof fn lemma_operators_are_distinct(a: TokenKind, b: TokenKind)
    requires
        a != b,
        c_operator(a) is Some,
        c_operator(b) is Some,
    ensures
        c_operator(a) != c_operator(b),
{
    reveal_strlit("+");
    reveal_strlit("-");
    reveal_strlit("*");
    reveal_strlit("/");
    reveal_strlit("==");
    reveal_strlit("!=");
    reveal_strlit("<");
    reveal_strlit("<=");
    reveal_strlit(">");
    reveal_strlit(">=");
    let x = c_operator(a)->Some_0;
    let y = c_operator(b)->Some_0;
    if x.len() == y.len() {
        assert(x[0] != y[0] || x[1] != y[1]);
    }
}

/// The C type for a type name.
pub open spec fn c_type(kind: TokenKind) -> Option<Seq<char>> {
    match kind {
        TokenKind::StringType => Some("char*"@),
        TokenKind::IntegerType => Some("int"@),
        TokenKind::BooleanType => Some("bool"@),
        _ => None,
    }
}

/// The `printf` conversion for a value of the named type.
pub open spec fn c_print_type(kind: TokenKind) -> Option<Seq<char>> {
    match kind {
        TokenKind::StringType => Some("%s"@),
        TokenKind::IntegerType => Some("%d"@),
        TokenKind::BooleanType => Some("%s"@),
        _ => None,
    }
}

/// The sign of an increment or a decrement.
pub open spec fn c_step(kind: TokenKind) -> Option<Seq<char>> {
    match kind {
        TokenKind::Increment => Some("++"@),
        TokenKind::Decrement => Some("--"@),
        _ => None,
    }
}

/// `found`, or `error` where there is none.
pub open spec fn or_error(found: Option<Seq<char>>, error: CodegenErrorModel) -> Emitted {
    match found {
        Some(text) => Ok(text),
        None => Err(error),
    }
}

/// The name that an identifier token carries.
pub open spec fn c_identifier(token: TokenModel) -> Emitted {
    if token.kind == TokenKind::Identifier {
        Ok(token.text)
    } else {
        Err(CodegenErrorModel::ExpectedIdentifier { found: token.kind })
    }
}

/// `left op right`, in brackets if `parenthesize` holds.
pub open spec fn binary_text(
    left: Seq<char>,
    operator: Seq<char>,
    right: Seq<char>,
    parenthesize: bool,
) -> Seq<char> {
    if parenthesize {
        "("@ + left + " "@ + operator + " "@ + right + ")"@
    } else {
        left + " "@ + operator + " "@ + right
    }
}

/// `type name = value`
pub open spec fn declaration_text(data_type: Seq<char>, name: Seq<char>, value: Seq<char>) -> Seq<
    char,
> {
    data_type + " "@ + name + " = "@ + value
}

/// The text of an expression, of a declaration without its semicolon, or of
/// an increment or decrement without its semicolon. The operands of a binary
/// operation are always written in brackets; the operation itself is if
/// `parenthesize` holds. The value of a declaration is written in the mode
/// of the declaration.
pub open spec fn emit_expression(node: AstModel, parenthesize: bool) -> Emitted
    decreases node,
{
    match node {
        AstModel::Number(value) => Ok(decimal_text(value)),
        AstModel::Identifier { name, .. } => Ok(name),
        AstModel::StringLiteral(text) => Ok("\""@ + text + "\""@),
        AstModel::BinaryOp { left, op, right } => match emit_expression(*left, true) {
            Err(e) => Err(e),
            Ok(left_code) => match emit_expression(*right, true) {
                Err(e) => Err(e),
                Ok(right_code) => match c_operator(op.kind) {
                    None => Err(CodegenErrorModel::UnsupportedOperator { found: op.kind }),
                    Some(operator) => Ok(
                        binary_text(left_code, operator, right_code, parenthesize),
                    ),
                },
            },
        },
        AstModel::Declaration { data_type, identifier, value } => match c_type(data_type.kind) {
            None => Err(CodegenErrorModel::UnsupportedType { found: data_type.kind }),
            Some(type_code) => match emit_expression(*value, parenthesize) {
                Err(e) => Err(e),
                Ok(value_code) => match c_identifier(identifier) {
                    Err(e) => Err(e),
                    Ok(name) => Ok(declaration_text(type_code, name, value_code)),
                },
            },
        },
        AstModel::UniqueOp { ident, op } => match c_step(op.kind) {
            None => Err(CodegenErrorModel::UnsupportedOperator { found: op.kind }),
            Some(sign) => Ok(ident + sign),
        },
        _ => Err(CodegenErrorModel::UnsupportedNode { kind: kind_of(node) }),
    }
}

/// The text of a `print` statement. A string is printed as it stands; a name
/// is printed with the conversion that its declared type calls for.
pub open spec fn emit_print(argument: TokenModel, symbols: Map<Seq<char>, TokenModel>) -> Emitted {
    if argument.kind == TokenKind::StringLiteral {
        Ok("printf(\"%s\", \""@ + argument.text + "\"); \n"@)
    } else if argument.kind == TokenKind::Identifier {
        if symbols.contains_key(argument.text) {
            match c_print_type(symbols[argument.text].kind) {
                None => Err(
                    CodegenErrorModel::UnsupportedType { found: symbols[argument.text].kind },
                ),
                Some(format) => Ok(
                    "printf(\""@ + format + "\", "@ + argument.text + "); \n"@,
                ),
            }
        } else {
            Err(CodegenErrorModel::UndeclaredSymbol { name: argument.text })
        }
    } else {
        Err(CodegenErrorModel::UnsupportedPrintArgument { found: argument.kind })
    }
}

/// The first `count` of `values`, each written without outer brackets, with
/// `, ` between them.
pub open spec fn emit_values(values: Seq<AstModel>, count: int) -> Emitted
    decreases count,
{
    if count <= 0 || count > values.len() {
        Ok(Seq::empty())
    } else {
        match emit_values(values, count - 1) {
            Err(e) => Err(e),
            Ok(before) => match emit_expression(values[count - 1], false) {
                Err(e) => Err(e),
                Ok(value) => if count == 1 {
                    Ok(before + value)
                } else {
                    Ok(before + ", "@ + value)
                },
            },
        }
    }
}

/// The text of an array declaration: `type name[length] = { v0, v1, ... }; `
pub open spec fn emit_array(
    length: nat,
    values: Seq<AstModel>,
    data_type: TokenModel,
    ident: Seq<char>,
) -> Emitted {
    match c_type(data_type.kind) {
        None => Err(CodegenErrorModel::UnsupportedType { found: data_type.kind }),
        Some(type_code) => match emit_values(values, values.len() as int) {
            Err(e) => Err(e),
            Ok(values_code) => Ok(
                type_code + " "@ + ident + "["@ + decimal_text(length as int) + "] = { "@
                    + values_code + " }; \n"@,
            ),
        },
    }
}

/// The text of one statement.
pub open spec fn emit_statement(node: AstModel, symbols: Map<Seq<char>, TokenModel>) -> Emitted
    decreases node, 0nat,
{
    match node {
        AstModel::Number(_) => emit_expression(node, true),
        AstModel::Identifier { .. } => emit_expression(node, true),
        AstModel::BinaryOp { .. } => emit_expression(node, true),
        AstModel::Declaration { .. } => match emit_expression(node, true) {
            Err(e) => Err(e),
            Ok(code) => Ok(code + ";\n"@),
        },
        AstModel::UniqueOp { .. } => match emit_expression(node, true) {
            Err(e) => Err(e),
            Ok(code) => Ok(code + "; \n"@),
        },
        AstModel::Print(argument) => emit_print(argument, symbols),
        AstModel::ArrayLiteral { length, values_data, data_type, ident } => emit_array(
            length,
            values_data,
            data_type,
            ident,
        ),
        AstModel::If { block } => if block.len() == 0 {
            Err(CodegenErrorModel::MissingCondition { kind: NodeKind::If })
        } else {
            match emit_expression(block[0], false) {
                Err(e) => Err(e),
                Ok(condition) => match emit_range(block, 1, block.len() as int, symbols) {
                    Err(e) => Err(e),
                    Ok(body) => Ok("if("@ + condition + ")\n { \n"@ + body + "}"@),
                },
            }
        },
        AstModel::ElseIf { block } => if block.len() == 0 {
            Err(CodegenErrorModel::MissingCondition { kind: NodeKind::ElseIf })
        } else {
            match emit_expression(block[0], false) {
                Err(e) => Err(e),
                Ok(condition) => match emit_range(block, 1, block.len() as int, symbols) {
                    Err(e) => Err(e),
                    Ok(body) => Ok("else if("@ + condition + ")\n { \n"@ + body + "} \n"@),
                },
            }
        },
        AstModel::Else { block } => match emit_range(block, 0, block.len() as int, symbols) {
            Err(e) => Err(e),
            Ok(body) => Ok("else{ \n"@ + body + "} \n"@),
        },
        AstModel::For { declaration, expression, operation, block } => match emit_expression(
            *declaration,
            false,
        ) {
            Err(e) => Err(e),
            Ok(init) => match emit_expression(*expression, false) {
                Err(e) => Err(e),
                Ok(condition) => match emit_expression(*operation, false) {
                    Err(e) => Err(e),
                    Ok(step) => match emit_range(block, 0, block.len() as int, symbols) {
                        Err(e) => Err(e),
                        Ok(body) => Ok(
                            "for("@ + init + ";"@ + condition + ";"@ + step + ") \n{ \n"@ + body
                                + "} \n"@,
                        ),
                    },
                },
            },
        },
        _ => Err(CodegenErrorModel::UnsupportedNode { kind: kind_of(node) }),
    }
}

/// The text of the statements `nodes[from..to]`, in order.
pub open spec fn emit_range(
    nodes: Seq<AstModel>,
    from: int,
    to: int,
    symbols: Map<Seq<char>, TokenModel>,
) -> Emitted
    decreases nodes, to - from,
{
    if from < 0 || to <= from || to > nodes.len() {
        Ok(Seq::empty())
    } else {
        match emit_range(nodes, from, to - 1, symbols) {
            Err(e) => Err(e),
            Ok(before) => match emit_statement(nodes[to - 1], symbols) {
                Err(e) => Err(e),
                Ok(code) => Ok(before + code),
            },
        }
    }
}

/// The text of the statements of a program.
pub open spec fn emit_body(tree: AstModel, symbols: Map<Seq<char>, TokenModel>) -> Emitted {
    match tree {
        AstModel::Main { body } => emit_range(body, 0, body.len() as int, symbols),
        _ => Err(CodegenErrorModel::UnsupportedNode { kind: kind_of(tree) }),
    }
}

/// The text of a whole program: the include of standard I/O, then the
/// statements inside a C `main` that returns 0.
pub open spec fn emit_program(tree: AstModel, symbols: Map<Seq<char>, TokenModel>) -> Emitted {
    match emit_body(tree, symbols) {
        Err(e) => Err(e),
        Ok(body) => Ok(
            "#include <stdio.h> \n\n"@ + "int main(){ \n"@ + body + "return 0; \n"@ + "\n }"@,
        ),
    }
}

/// What an emitter returns: the expected text, or the expected error.
pub open spec fn emitted(r: Result<String, CodegenError>, expected: Emitted) -> bool {
    match expected {
        Ok(text) => r matches Ok(s) && s@ == text,
        Err(e) => r matches Err(error) && error@ == e,
    }
}

/// As `emitted`, for an emitter that hands out a piece of fixed text.
pub open spec fn emitted_fixed(r: Result<&'static str, CodegenError>, expected: Emitted) -> bool {
    match expected {
        Ok(text) => r matches Ok(s) && s@ == text,
        Err(e) => r matches Err(error) && error@ == e,
    }
}

/// The C operator for a token.
pub fn token_to_c_operator(token: &Token) -> (r: Result<&'static str, CodegenError>)
    ensures
        emitted_fixed(
            r,
            or_error(
                c_operator(token@.kind),
                CodegenErrorModel::UnsupportedOperator { found: token@.kind },
            ),
        ),
{
    match token {
        Token::Plus => Ok("+"),
        Token::Minus => Ok("-"),
        Token::Multiply => Ok("*"),
        Token::Divide => Ok("/"),
        Token::EqualThan => Ok("=="),
        Token::DifferentThan => Ok("!="),
        Token::LessThan => Ok("<"),
        Token::LessEqualThan => Ok("<="),
        Token::BiggerThan => Ok(">"),
        Token::BiggerEqualThan => Ok(">="),
        _ => Err(CodegenError::UnsupportedOperator { found: token.kind() }),
    }
}

/// The C type for a type name.
pub fn token_to_c_type(token: &Token) -> (r: Result<&'static str, CodegenError>)
    ensures
        emitted_fixed(
            r,
            or_error(c_type(token@.kind), CodegenErrorModel::UnsupportedType { found: token@.kind }),
        ),
{
    match token {
        Token::StringType => Ok("char*"),
        Token::IntegerType => Ok("int"),
        Token::BooleanType => Ok("bool"),
        _ => Err(CodegenError::UnsupportedType { found: token.kind() }),
    }
}

/// The `printf` conversion for a value of the named type.
pub fn token_to_c_print_type(token: &Token) -> (r: Result<&'static str, CodegenError>)
    ensures
        emitted_fixed(
            r,
            or_error(
                c_print_type(token@.kind),
                CodegenErrorModel::UnsupportedType { found: token@.kind },
            ),
        ),
{
    match token {
        Token::StringType => Ok("%s"),
        Token::IntegerType => Ok("%d"),
        Token::BooleanType => Ok("%s"),
        _ => Err(CodegenError::UnsupportedType { found: token.kind() }),
    }
}

/// The name that an identifier token carries.
pub fn token_to_c_identifier(token: &Token) -> (r: Result<String, CodegenError>)
    ensures
        emitted(r, c_identifier(token@)),
{
    match token {
        Token::Identifier(name) => Ok(name.clone()),
        _ => Err(CodegenError::ExpectedIdentifier { found: token.kind() }),
    }
}

/// The sign of an increment or a decrement.
pub fn token_to_c_step(token: &Token) -> (r: Result<&'static str, CodegenError>)
    ensures
        emitted_fixed(
            r,
            or_error(
                c_step(token@.kind),
                CodegenErrorModel::UnsupportedOperator { found: token@.kind },
            ),
        ),
{
    match token {
        Token::Increment => Ok("++"),
        Token::Decrement => Ok("--"),
        _ => Err(CodegenError::UnsupportedOperator { found: token.kind() }),
    }
}

/// The decimal numeral of `value`.
pub fn number_code(value: i32) -> (r: String)
    ensures
        r@ == decimal_text(value as int),
{
    let mut out = String::new();
    push_decimal(&mut out, value as i64);
    assert(out@ =~= decimal_text(value as int));
    out
}

/// The text of an expression, of a declaration without its semicolon, or of
/// an increment or decrement without its semicolon.
pub fn expression_code(node: &ASTNode, parenthesize: bool) -> (r: Result<String, CodegenError>)
    ensures
        emitted(r, emit_expression(node@, parenthesize)),
    decreases node,
{
    match node {
        ASTNode::Number(value) => Ok(number_code(*value)),
        ASTNode::Identifier { name, .. } => Ok(name.clone()),
        ASTNode::StringLiteral(text) => {
            let mut out = String::from_str("\"");
            out.append(text.as_str());
            out.append("\"");
            Ok(out)
        },
        ASTNode::BinaryOp { left, op, right } => {
            let left_code = match expression_code(left, true) {
                Ok(s) => s,
                Err(e) => {
                    return Err(e);
                },
            };
            let right_code = match expression_code(right, true) {
                Ok(s) => s,
                Err(e) => {
                    return Err(e);
                },
            };
            let operator = match token_to_c_operator(op) {
                Ok(s) => s,
                Err(e) => {
                    return Err(e);
                },
            };
            if parenthesize {
                let mut out = String::from_str("(");
                out.append(left_code.as_str());
                out.append(" ");
                out.append(operator);
                out.append(" ");
                out.append(right_code.as_str());
                out.append(")");
                Ok(out)
            } else {
                let mut out = left_code;
                out.append(" ");
                out.append(operator);
                out.append(" ");
                out.append(right_code.as_str());
                Ok(out)
            }
        },
        ASTNode::Declaration { data_type, identifier, value } => {
            let data_type_str = match token_to_c_type(data_type) {
                Ok(s) => s,
                Err(e) => {
                    return Err(e);
                },
            };
            let value_code = match expression_code(value, parenthesize) {
                Ok(s) => s,
                Err(e) => {
                    return Err(e);
                },
            };
            let ident_str = match token_to_c_identifier(identifier) {
                Ok(s) => s,
                Err(e) => {
                    return Err(e);
                },
            };
            let mut out = String::from_str(data_type_str);
            out.append(" ");
            out.append(ident_str.as_str());
            out.append(" = ");
            out.append(value_code.as_str());
            Ok(out)
        },
        ASTNode::UniqueOp { ident, op } => {
            let operator = match token_to_c_step(op) {
                Ok(s) => s,
                Err(e) => {
                    return Err(e);
                },
            };
            let mut out = ident.clone();
            out.append(operator);
            Ok(out)
        },
        _ => Err(CodegenError::UnsupportedNode { kind: node.kind() }),
    }
}

/// The text of an expression. General expressions are written with
/// `parenthesize` set; the three parts of a loop header are written without.
pub fn to_c_code(ast: ASTNode, parenthesize: bool) -> (r: Result<String, CodegenError>)
    ensures
        emitted(r, emit_expression(ast@, parenthesize)),
{
    expression_code(&ast, parenthesize)
}

/// The text of a `print` statement.
pub fn print_code(argument: &Token, symbol_map: &Table<Token>) -> (r: Result<String, CodegenError>)
    ensures
        emitted(r, emit_print(argument@, symbol_map@)),
{
    match argument {
        Token::StringLiteral(text) => {
            let mut out = String::from_str("printf(\"%s\", \"");
            out.append(text.as_str());
            out.append("\"); \n");
            Ok(out)
        },
        Token::Identifier(ident) => {
            match symbol_map.get(ident) {
                None => Err(CodegenError::UndeclaredSymbol { name: ident.clone() }),
                Some(data_type) => {
                    let format = match token_to_c_print_type(data_type) {
                        Ok(s) => s,
                        Err(e) => {
                            return Err(e);
                        },
                    };
                    let mut out = String::from_str("printf(\"");
                    out.append(format);
                    out.append("\", ");
                    out.append(ident.as_str());
                    out.append("); \n");
                    Ok(out)
                },
            }
        },
        _ => Err(CodegenError::UnsupportedPrintArgument { found: argument.kind() }),
    }
}

/// The values of an array literal, with `, ` between them.
pub fn values_code(values: &Vec<ASTNode>) -> (r: Result<String, CodegenError>)
    ensures
        emitted(r, emit_values(models_in(values), values.len() as int)),
{
    let mut out = String::new();
    let mut i: usize = 0;
    while i < values.len()
        invariant
            i <= values.len(),
            emit_values(models_in(values), i as int) == Ok::<Seq<char>, CodegenErrorModel>(out@),
        decreases values.len() - i,
    {
        let value = match expression_code(&values[i], false) {
            Ok(s) => s,
            Err(e) => {
                proof {
                    lemma_values_error(models_in(values), i as int + 1, values.len() as int);
                }
                return Err(e);
            },
        };
        if i > 0 {
            out.append(", ");
        }
        out.append(value.as_str());
        i += 1;
    }
    Ok(out)
}

/// An error among the first `count` values is the error of any longer run.
pub proof fn lemma_values_error(values: Seq<AstModel>, count: int, longer: int)
    requires
        0 <= count <= longer <= values.len(),
        emit_values(values, count) is Err,
    ensures
        emit_values(values, longer) == emit_values(values, count),
    decreases longer - count,
{
    if count < longer {
        lemma_values_error(values, count, longer - 1);
    }
}

/// The text of an array declaration.
pub fn array_code(length: usize, values: &Vec<ASTNode>, data_type: &Token, ident: &String) -> (r:
    Result<String, CodegenError>)
    ensures
        emitted(r, emit_array(length as nat, models_in(values), data_type@, ident@)),
{
    let data_type_str = match token_to_c_type(data_type) {
        Ok(s) => s,
        Err(e) => {
            return Err(e);
        },
    };
    let values_str = match values_code(values) {
        Ok(s) => s,
        Err(e) => {
            return Err(e);
        },
    };
    let mut out = String::from_str(data_type_str);
    out.append(" ");
    out.append(ident.as_str());
    out.append("[");
    push_digits(&mut out, length as u64);
    out.append("] = { ");
    out.append(values_str.as_str());
    out.append(" }; \n");
    Ok(out)
}

/// An error among the statements before `to` is the error of any longer
/// run from the same start.
pub proof fn lemma_range_error(
    nodes: Seq<AstModel>,
    from: int,
    to: int,
    longer: int,
    symbols: Map<Seq<char>, TokenModel>,
)
    requires
        0 <= from <= to <= longer <= nodes.len(),
        emit_range(nodes, from, to, symbols) is Err,
    ensures
        emit_range(nodes, from, longer, symbols) == emit_range(nodes, from, to, symbols),
    decreases longer - to,
{
    if to < longer {
        lemma_range_error(nodes, from, to, longer - 1, symbols);
    }
}

/// The text of the statements of `nodes` from `from` on, in order.
pub fn range_code(nodes: &Vec<ASTNode>, from: usize, symbol_map: &Table<Token>) -> (r: Result<
    String,
    CodegenError,
>)
    ensures
        emitted(r, emit_range(models_in(nodes), from as int, nodes.len() as int, symbol_map@)),
    decreases nodes, 1nat,
{
    let mut c_code = String::new();
    let mut i: usize = from;
    if from >= nodes.len() {
        return Ok(c_code);
    }
    while i < nodes.len()
        invariant
            from <= i <= nodes.len(),
            from < nodes.len(),
            emit_range(models_in(nodes), from as int, i as int, symbol_map@) == Ok::<
                Seq<char>,
                CodegenErrorModel,
            >(c_code@),
        decreases nodes.len() - i,
    {
        let code = match statement_code(&nodes[i], symbol_map) {
            Ok(s) => s,
            Err(e) => {
                proof {
                    lemma_range_error(
                        models_in(nodes),
                        from as int,
                        i as int + 1,
                        nodes.len() as int,
                        symbol_map@,
                    );
                }
                return Err(e);
            },
        };
        c_code.append(code.as_str());
        i += 1;
    }
    Ok(c_code)
}

/// The text of one statement.
pub fn statement_code(node: &ASTNode, symbol_map: &Table<Token>) -> (r: Result<
    String,
    CodegenError,
>)
    ensures
        emitted(r, emit_statement(node@, symbol_map@)),
    decreases node, 1nat,
{
    match node {
        ASTNode::Number(_) => expression_code(node, true),
        ASTNode::Identifier { .. } => expression_code(node, true),
        ASTNode::BinaryOp { .. } => expression_code(node, true),
        ASTNode::Declaration { .. } => {
            match expression_code(node, true) {
                Ok(code) => {
                    let mut out = code;
                    out.append(";\n");
                    Ok(out)
                },
                Err(e) => Err(e),
            }
        },
        ASTNode::UniqueOp { .. } => {
            match expression_code(node, true) {
                Ok(code) => {
                    let mut out = code;
                    out.append("; \n");
                    Ok(out)
                },
                Err(e) => Err(e),
            }
        },
        ASTNode::Print(token) => print_code(token, symbol_map),
        ASTNode::ArrayLiteral { length, values_data, data_type, ident } => array_code(
            *length,
            values_data,
            data_type,
            ident,
        ),
        ASTNode::If { .. } => to_c_code_if_stmt(node, symbol_map),
        ASTNode::ElseIf { .. } => to_c_code_elseif_stmt(node, symbol_map),
        ASTNode::Else { .. } => to_c_code_else_stmt(node, symbol_map),
        ASTNode::For { .. } => for_stmt(node, symbol_map),
        _ => Err(CodegenError::UnsupportedNode { kind: node.kind() }),
    }
}

/// The text of an `if`: the condition in one pair of brackets, then the
/// statements of the body in braces. Any other node is refused.
pub fn to_c_code_if_stmt(tree: &ASTNode, symbol_map: &Table<Token>) -> (r: Result<
    String,
    CodegenError,
>)
    ensures
        emitted(
            r,
            if tree@ is If {
                emit_statement(tree@, symbol_map@)
            } else {
                Err(CodegenErrorModel::UnsupportedNode { kind: kind_of(tree@) })
            },
        ),
    decreases tree, 0nat,
{
    match tree {
        ASTNode::If { block } => {
            proof {
                lemma_models_in(block);
            }
            if block.len() == 0 {
                return Err(CodegenError::MissingCondition { kind: tree.kind() });
            }
            let condition = match expression_code(&block[0], false) {
                Ok(s) => s,
                Err(e) => {
                    return Err(e);
                },
            };
            let body = match range_code(block, 1, symbol_map) {
                Ok(s) => s,
                Err(e) => {
                    return Err(e);
                },
            };
            let mut c_code = String::from_str("if(");
            c_code.append(condition.as_str());
            c_code.append(")\n { \n");
            c_code.append(body.as_str());
            c_code.append("}");
            Ok(c_code)
        },
        _ => Err(CodegenError::UnsupportedNode { kind: tree.kind() }),
    }
}

/// The text of an `else if`: the condition in one pair of brackets, then the
/// statements of the body in braces. Any other node is refused.
pub fn to_c_code_elseif_stmt(tree: &ASTNode, symbol_map: &Table<Token>) -> (r: Result<
    String,
    CodegenError,
>)
    ensures
        emitted(
            r,
            if tree@ is ElseIf {
                emit_statement(tree@, symbol_map@)
            } else {
                Err(CodegenErrorModel::UnsupportedNode { kind: kind_of(tree@) })
            },
        ),
    decreases tree, 0nat,
{
    match tree {
        ASTNode::ElseIf { block } => {
            proof {
                lemma_models_in(block);
            }
            if block.len() == 0 {
                return Err(CodegenError::MissingCondition { kind: tree.kind() });
            }
            let condition = match expression_code(&block[0], false) {
                Ok(s) => s,
                Err(e) => {
                    return Err(e);
                },
            };
            let body = match range_code(block, 1, symbol_map) {
                Ok(s) => s,
                Err(e) => {
                    return Err(e);
                },
            };
            let mut c_code = String::from_str("else if(");
            c_code.append(condition.as_str());
            c_code.append(")\n { \n");
            c_code.append(body.as_str());
            c_code.append("} \n");
            Ok(c_code)
        },
        _ => Err(CodegenError::UnsupportedNode { kind: tree.kind() }),
    }
}

/// The text of an `else`: the statements of the body in braces. Any other
/// node is refused.
pub fn to_c_code_else_stmt(tree: &ASTNode, symbol_map: &Table<Token>) -> (r: Result<
    String,
    CodegenError,
>)
    ensures
        emitted(
            r,
            if tree@ is Else {
                emit_statement(tree@, symbol_map@)
            } else {
                Err(CodegenErrorModel::UnsupportedNode { kind: kind_of(tree@) })
            },
        ),
    decreases tree, 0nat,
{
    match tree {
        ASTNode::Else { block } => {
            let body = match range_code(block, 0, symbol_map) {
                Ok(s) => s,
                Err(e) => {
                    return Err(e);
                },
            };
            let mut c_code = String::from_str("else{ \n");
            c_code.append(body.as_str());
            c_code.append("} \n");
            Ok(c_code)
        },
        _ => Err(CodegenError::UnsupportedNode { kind: tree.kind() }),
    }
}

/// The text of a loop: the three parts of the header without outer brackets,
/// then the statements of the body in braces. Any other node is refused.
pub fn for_stmt(tree: &ASTNode, symbol_map: &Table<Token>) -> (r: Result<String, CodegenError>)
    ensures
        emitted(
            r,
            if tree@ is For {
                emit_statement(tree@, symbol_map@)
            } else {
                Err(CodegenErrorModel::UnsupportedNode { kind: kind_of(tree@) })
            },
        ),
    decreases tree, 0nat,
{
    match tree {
        ASTNode::For { declaration, expression, operation, block } => {
            let init = match expression_code(declaration, false) {
                Ok(s) => s,
                Err(e) => {
                    return Err(e);
                },
            };
            let condition = match expression_code(expression, false) {
                Ok(s) => s,
                Err(e) => {
                    return Err(e);
                },
            };
            let step = match expression_code(operation, false) {
                Ok(s) => s,
                Err(e) => {
                    return Err(e);
                },
            };
            let body = match range_code(block, 0, symbol_map) {
                Ok(s) => s,
                Err(e) => {
                    return Err(e);
                },
            };
            let mut c_code = String::from_str("for(");
            c_code.append(init.as_str());
            c_code.append(";");
            c_code.append(condition.as_str());
            c_code.append(";");
            c_code.append(step.as_str());
            c_code.append(") \n{ \n");
            c_code.append(body.as_str());
            c_code.append("} \n");
            Ok(c_code)
        },
        _ => Err(CodegenError::UnsupportedNode { kind: tree.kind() }),
    }
}

/// The text of the statements of a program, without the frame around them.
/// Any node but a program is refused.
pub fn generate_declaration(tree: &ASTNode, symbol_map: &Table<Token>) -> (r: Result<
    String,
    CodegenError,
>)
    ensures
        emitted(r, emit_body(tree@, symbol_map@)),
{
    match tree {
        ASTNode::Main { body } => range_code(body, 0, symbol_map),
        _ => Err(CodegenError::UnsupportedNode { kind: tree.kind() }),
    }
}

/// The text of a whole program: the include of standard I/O, then the
/// statements inside a C `main` that returns 0.
pub fn generate_main(tree: &ASTNode, symbol_map: &Table<Token>) -> (r: Result<
    String,
    CodegenError,
>)
    ensures
        emitted(r, emit_program(tree@, symbol_map@)),
{
    let body = match generate_declaration(tree, symbol_map) {
        Ok(s) => s,
        Err(e) => {
            return Err(e);
        },
    };
    let mut code = String::from_str("#include <stdio.h> \n\n");
    code.append("int main(){ \n");
    code.append(body.as_str());
    code.append("return 0; \n");
    code.append("\n }");
    Ok(code)
}

/// Writes a program out as C source text.
pub fn generate_code(tree: &ASTNode, symbol_map: &Table<Token>) -> (r: Result<
    String,
    CodegenError,
>)
    ensures
        emitted(r, emit_program(tree@, symbol_map@)),
{
    generate_main(tree, symbol_map)
}

} // verus!

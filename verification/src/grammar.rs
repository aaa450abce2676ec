//! The grammar of the language, as functions from tokens to trees.
//!
//! ```text
//! program      := 'main' '(' ')' '{' statement* '}'
//! statement    := print | forLoop | ifChain | declaration | arrayDecl | incrDecr
//! declaration  := type identifier '=' (string | expression)
//! arrayDecl    := 'array' '<' type '>' identifier '=' '[' number (',' number)* ']'
//! ifChain      := 'if' logicExpr '{' statement* '}'
//!                 ('elseif' logicExpr '{' statement* '}')*
//!                 ('else' '{' statement* '}')?
//! forLoop      := 'for' '(' declaration ';' logicExpr ';' incrDecr ')' '{' statement* '}'
//! expression   := term (('+'|'-') term)*
//! term         := factor (('*'|'/') factor)*
//! factor       := '(' expression ')' | number | identifier
//! logicExpr    := logicFactor (relOp logicFactor)*
//! logicFactor  := '(' logicExpr ')' | identifier | number
//! print        := 'print' '(' (string | number | identifier) ')'
//! incrDecr     := identifier ('++' | '--')
//! ```
//!
//! Each function takes the tokens and the state of the parse and gives the
//! tree of the construct that starts at the state's position, with the state
//! behind it, or the first error.
use vstd::prelude::*;
use crate::text::decimal_in_range;
use crate::tokenizer::{TokenKind, TokenModel};
use crate::tree::AstModel;

verus! {

/// What the parser was looking for when it failed.
#[derive(Clone, Copy, Debug, PartialEq, Eq, Structural)]
pub enum Expected {
    /// A token of the given kind.
    Token(TokenKind),
    /// The first token of a statement.
    Statement,
    /// The first token of an arithmetic expression.
    Expression,
    /// The first token of a logic expression.
    LogicExpression,
    /// One of the three type names.
    Type,
    /// An identifier that has been declared.
    DeclaredIdentifier,
    /// An integer literal that fits in 32 bits.
    RepresentableNumber,
    /// A string, a number or an identifier.
    PrintArgument,
    /// `++` or `--`.
    IncrementOrDecrement,
}

/// The constructs that an error is reported within.
#[derive(Clone, Copy, Debug, PartialEq, Eq, Structural)]
pub enum Construct {
    /// A declaration of a name with a value.
    Declaration,
    /// A declaration of an array.
    ArrayDeclaration,
    /// The header of a loop, from `for` to the closing bracket.
    LoopHeader,
}

/// A parse error as contracts see it: what was expected, the token found in
/// its place (none at the end of the tokens), that token's position, and the
/// innermost declaration, array declaration or loop header that the token
/// makes malformed, if it stands in one.
pub struct ParseErrorModel {
    pub expected: Expected,
    pub found: Option<TokenModel>,
    pub position: int,
    pub construct: Option<Construct>,
}

/// The state of a parse: the position in the tokens, the declared type of
/// each name, and the value that each name was last declared with.
pub struct ParseState {
    pub pos: int,
    pub symbols: Map<Seq<char>, TokenModel>,
    pub values: Map<Seq<char>, AstModel>,
}

impl ParseState {
    /// The state one token further on.
    pub open spec fn advance(self) -> ParseState {
        ParseState { pos: self.pos + 1, symbols: self.symbols, values: self.values }
    }

    /// The state after `name` has been declared with a type and a value.
    pub open spec fn declare(self, name: Seq<char>, data_type: TokenModel, value: AstModel)
        -> ParseState {
        ParseState {
            pos: self.pos,
            symbols: self.symbols.insert(name, data_type),
            values: self.values.insert(name, value),
        }
    }
}

/// How a parse failed: the first error, and the state in which the parse
/// stopped. Its position is that of the error; its tables hold what had been
/// declared by then.
pub struct ParseFailure {
    pub error: ParseErrorModel,
    pub state: ParseState,
}

/// A tree and the state behind it, or the first failure.
pub type Parsed = Result<(AstModel, ParseState), ParseFailure>;

/// A list of trees and the state behind it, or the first failure.
pub type ParsedList = Result<(Seq<AstModel>, ParseState), ParseFailure>;

/// The smallest number that a literal may denote.
pub open spec fn number_low() -> int {
    -2147483648
}

/// The largest number that a literal may denote.
pub open spec fn number_high() -> int {
    2147483647
}

/// The token at `pos`, if there is one.
pub open spec fn token_at(toks: Seq<TokenModel>, pos: int) -> Option<TokenModel> {
    if 0 <= pos < toks.len() {
        Some(toks[pos])
    } else {
        None
    }
}

/// The kind of the token at `pos`, if there is one.
pub open spec fn kind_at(toks: Seq<TokenModel>, pos: int) -> Option<TokenKind> {
    if 0 <= pos < toks.len() {
        Some(toks[pos].kind)
    } else {
        None
    }
}

/// The failure of not finding `expected` at the position of `st`.
pub open spec fn failure(toks: Seq<TokenModel>, st: ParseState, expected: Expected)
    -> ParseFailure {
    ParseFailure {
        error: ParseErrorModel {
            expected,
            found: token_at(toks, st.pos),
            position: st.pos,
            construct: None,
        },
        state: st,
    }
}

/// The error as one within `construct`, unless it already is within a
/// construct inside that one.
pub open spec fn error_inside(error: ParseErrorModel, construct: Construct) -> ParseErrorModel {
    if error.construct is None {
        ParseErrorModel {
            expected: error.expected,
            found: error.found,
            position: error.position,
            construct: Some(construct),
        }
    } else {
        error
    }
}

/// The result of reading `construct`: a failure is reported within it.
pub open spec fn inside(r: Parsed, construct: Construct) -> Parsed {
    match r {
        Ok(read) => Ok(read),
        Err(f) => Err(ParseFailure { error: error_inside(f.error, construct), state: f.state }),
    }
}

/// As `inside`, for a list of trees.
pub open spec fn list_inside(r: ParsedList, construct: Construct) -> ParsedList {
    match r {
        Ok(read) => Ok(read),
        Err(f) => Err(ParseFailure { error: error_inside(f.error, construct), state: f.state }),
    }
}

/// Passes over a token of the given kind, or fails.
pub open spec fn expect(toks: Seq<TokenModel>, st: ParseState, kind: TokenKind) -> Result<
    ParseState,
    ParseFailure,
> {
    if kind_at(toks, st.pos) == Some(kind) {
        Ok(st.advance())
    } else {
        Err(failure(toks, st, Expected::Token(kind)))
    }
}

/// The state `to` that a construct starting at `from` left behind. A
/// construct never ends before its start or behind the last token; were `to`
/// such a state, its position would be taken back to that of `from`.
pub open spec fn onward(len: nat, from: ParseState, to: ParseState) -> ParseState {
    if from.pos <= to.pos <= len {
        to
    } else {
        ParseState { pos: from.pos, symbols: to.symbols, values: to.values }
    }
}

/// The number node for the literal at the position.
pub open spec fn number_node(toks: Seq<TokenModel>, st: ParseState) -> Parsed {
    match decimal_in_range(toks[st.pos].text, number_low(), number_high()) {
        Some(v) => Ok((AstModel::Number(v), st.advance())),
        None => Err(failure(toks, st, Expected::RepresentableNumber)),
    }
}

/// The node for the identifier at the position, which has to be declared.
pub open spec fn identifier_node(toks: Seq<TokenModel>, st: ParseState) -> Parsed {
    let name = toks[st.pos].text;
    if st.symbols.contains_key(name) {
        Ok((AstModel::Identifier { name, data_type: st.symbols[name] }, st.advance()))
    } else {
        Err(failure(toks, st, Expected::DeclaredIdentifier))
    }
}

/// The node of a binary operation.
pub open spec fn binary(left: AstModel, op: TokenModel, right: AstModel) -> AstModel {
    AstModel::BinaryOp { left: Box::new(left), op, right: Box::new(right) }
}

/// `factor := '(' expression ')' | number | identifier`
pub open spec fn spec_factor(toks: Seq<TokenModel>, st: ParseState) -> Parsed
    decreases toks.len() - st.pos, 0nat,
{
    match kind_at(toks, st.pos) {
        Some(TokenKind::LParen) => match spec_expression(toks, st.advance()) {
            Ok((inner, st1)) => match expect(toks, st1, TokenKind::RParen) {
                Ok(st2) => Ok((inner, st2)),
                Err(f) => Err(f),
            },
            Err(f) => Err(f),
        },
        Some(TokenKind::Number) => number_node(toks, st),
        Some(TokenKind::Identifier) => identifier_node(toks, st),
        _ => Err(failure(toks, st, Expected::Expression)),
    }
}

/// `(('*'|'/') factor)*` behind the operand `left`.
pub open spec fn spec_term_rest(toks: Seq<TokenModel>, left: AstModel, st: ParseState) -> Parsed
    decreases toks.len() - st.pos, 1nat,
{
    if kind_at(toks, st.pos) == Some(TokenKind::Multiply) || kind_at(toks, st.pos) == Some(
        TokenKind::Divide,
    ) {
        match spec_factor(toks, st.advance()) {
            Ok((right, st1)) => spec_term_rest(
                toks,
                binary(left, toks[st.pos], right),
                onward(toks.len(), st.advance(), st1),
            ),
            Err(f) => Err(f),
        }
    } else {
        Ok((left, st))
    }
}

/// `term := factor (('*'|'/') factor)*`, associating to the left.
pub open spec fn spec_term(toks: Seq<TokenModel>, st: ParseState) -> Parsed
    decreases toks.len() - st.pos, 2nat,
{
    match spec_factor(toks, st) {
        Ok((left, st1)) => spec_term_rest(toks, left, onward(toks.len(), st, st1)),
        Err(f) => Err(f),
    }
}

/// `(('+'|'-') term)*` behind the operand `left`.
pub open spec fn spec_expression_rest(toks: Seq<TokenModel>, left: AstModel, st: ParseState)
    -> Parsed
    decreases toks.len() - st.pos, 3nat,
{
    if kind_at(toks, st.pos) == Some(TokenKind::Plus) || kind_at(toks, st.pos) == Some(
        TokenKind::Minus,
    ) {
        match spec_term(toks, st.advance()) {
            Ok((right, st1)) => spec_expression_rest(
                toks,
                binary(left, toks[st.pos], right),
                onward(toks.len(), st.advance(), st1),
            ),
            Err(f) => Err(f),
        }
    } else {
        Ok((left, st))
    }
}

/// `expression := term (('+'|'-') term)*`, associating to the left.
pub open spec fn spec_expression(toks: Seq<TokenModel>, st: ParseState) -> Parsed
    decreases toks.len() - st.pos, 4nat,
{
    match spec_term(toks, st) {
        Ok((left, st1)) => spec_expression_rest(toks, left, onward(toks.len(), st, st1)),
        Err(f) => Err(f),
    }
}

/// Whether a token of this kind is a relational operator.
pub open spec fn is_relational(kind: TokenKind) -> bool {
    kind == TokenKind::LessThan || kind == TokenKind::LessEqualThan || kind
        == TokenKind::BiggerEqualThan || kind == TokenKind::BiggerThan || kind
        == TokenKind::DifferentThan || kind == TokenKind::EqualThan
}

/// `logicFactor := '(' logicExpr ')' | identifier | number`
pub open spec fn spec_logic_factor(toks: Seq<TokenModel>, st: ParseState) -> Parsed
    decreases toks.len() - st.pos, 0nat,
{
    match kind_at(toks, st.pos) {
        Some(TokenKind::LParen) => match spec_logic_expression(toks, st.advance()) {
            Ok((inner, st1)) => match expect(toks, st1, TokenKind::RParen) {
                Ok(st2) => Ok((inner, st2)),
                Err(f) => Err(f),
            },
            Err(f) => Err(f),
        },
        Some(TokenKind::Identifier) => identifier_node(toks, st),
        Some(TokenKind::Number) => number_node(toks, st),
        _ => Err(failure(toks, st, Expected::LogicExpression)),
    }
}

/// `(relOp logicFactor)*` behind the operand `left`.
pub open spec fn spec_logic_rest(toks: Seq<TokenModel>, left: AstModel, st: ParseState) -> Parsed
    decreases toks.len() - st.pos, 1nat,
{
    if 0 <= st.pos < toks.len() && is_relational(toks[st.pos].kind) {
        match spec_logic_factor(toks, st.advance()) {
            Ok((right, st1)) => spec_logic_rest(
                toks,
                binary(left, toks[st.pos], right),
                onward(toks.len(), st.advance(), st1),
            ),
            Err(f) => Err(f),
        }
    } else {
        Ok((left, st))
    }
}

/// `logicExpr := logicFactor (relOp logicFactor)*`, associating to the left.
pub open spec fn spec_logic_expression(toks: Seq<TokenModel>, st: ParseState) -> Parsed
    decreases toks.len() - st.pos, 2nat,
{
    match spec_logic_factor(toks, st) {
        Ok((left, st1)) => spec_logic_rest(toks, left, onward(toks.len(), st, st1)),
        Err(f) => Err(f),
    }
}

/// Whether a token of this kind names a type.
pub open spec fn is_type(kind: TokenKind) -> bool {
    kind == TokenKind::StringType || kind == TokenKind::IntegerType || kind
        == TokenKind::BooleanType
}

/// The type name at the position, which is not passed over.
pub open spec fn spec_types(toks: Seq<TokenModel>, st: ParseState) -> Result<
    TokenModel,
    ParseFailure,
> {
    if 0 <= st.pos < toks.len() && is_type(toks[st.pos].kind) {
        Ok(toks[st.pos])
    } else {
        Err(failure(toks, st, Expected::Type))
    }
}

/// The value of a declaration: a string literal or an expression.
pub open spec fn spec_value(toks: Seq<TokenModel>, st: ParseState) -> Parsed {
    if kind_at(toks, st.pos) == Some(TokenKind::StringLiteral) {
        Ok((AstModel::StringLiteral(toks[st.pos].text), st.advance()))
    } else {
        spec_expression(toks, st)
    }
}

/// `declaration := type identifier '=' (string | expression)`. The name is
/// declared once its value has been read. A failure is reported within the
/// declaration.
pub open spec fn spec_declaration(toks: Seq<TokenModel>, st: ParseState) -> Parsed {
    inside(spec_declaration_parts(toks, st), Construct::Declaration)
}

/// The parts of a declaration, one after the other.
pub open spec fn spec_declaration_parts(toks: Seq<TokenModel>, st: ParseState) -> Parsed {
    match spec_types(toks, st) {
        Err(f) => Err(f),
        Ok(data_type) => match expect(toks, st.advance(), TokenKind::Identifier) {
            Err(f) => Err(f),
            Ok(st1) => match expect(toks, st1, TokenKind::Assignment) {
                Err(f) => Err(f),
                Ok(st2) => match spec_value(toks, st2) {
                    Err(f) => Err(f),
                    Ok((value, st3)) => {
                        let identifier = toks[st.pos + 1];
                        Ok(
                            (
                                AstModel::Declaration {
                                    data_type,
                                    identifier,
                                    value: Box::new(value),
                                },
                                st3.declare(identifier.text, data_type, value),
                            ),
                        )
                    },
                },
            },
        },
    }
}

/// `number (',' number)*` behind the elements in `acc`.
pub open spec fn spec_array_elements(toks: Seq<TokenModel>, st: ParseState, acc: Seq<AstModel>)
    -> ParsedList
    decreases toks.len() - st.pos,
{
    match expect(toks, st, TokenKind::Number) {
        Err(f) => Err(f),
        Ok(_) => match number_node(toks, st) {
            Err(f) => Err(f),
            Ok((element, st1)) => if kind_at(toks, st1.pos) == Some(TokenKind::Comma) {
                spec_array_elements(toks, st1.advance(), acc.push(element))
            } else {
                Ok((acc.push(element), st1))
            },
        },
    }
}

/// `arrayDecl := 'array' '<' type '>' identifier '=' '[' number (',' number)* ']'`.
/// The name is declared with the type of the elements and the whole literal
/// as its value.
/// A failure is reported within the array declaration.
pub open spec fn spec_array_declaration(toks: Seq<TokenModel>, st: ParseState) -> Parsed {
    inside(spec_array_declaration_parts(toks, st), Construct::ArrayDeclaration)
}

/// The parts of an array declaration, one after the other.
pub open spec fn spec_array_declaration_parts(toks: Seq<TokenModel>, st: ParseState) -> Parsed {
    match expect(toks, st, TokenKind::ArrayType) {
        Err(f) => Err(f),
        Ok(st1) => match expect(toks, st1, TokenKind::LessThan) {
            Err(f) => Err(f),
            Ok(st2) => match spec_types(toks, st2) {
                Err(f) => Err(f),
                Ok(data_type) => match expect(toks, st2.advance(), TokenKind::BiggerThan) {
                    Err(f) => Err(f),
                    Ok(st3) => match expect(toks, st3, TokenKind::Identifier) {
                        Err(f) => Err(f),
                        Ok(st4) => match expect(toks, st4, TokenKind::Assignment) {
                            Err(f) => Err(f),
                            Ok(st5) => match expect(toks, st5, TokenKind::LBracket) {
                                Err(f) => Err(f),
                                Ok(st6) => match spec_array_elements(toks, st6, Seq::empty()) {
                                    Err(f) => Err(f),
                                    Ok((elements, st7)) => match expect(
                                        toks,
                                        st7,
                                        TokenKind::RBracket,
                                    ) {
                                        Err(f) => Err(f),
                                        Ok(st8) => {
                                            let ident = toks[st3.pos].text;
                                            let node = AstModel::ArrayLiteral {
                                                length: elements.len(),
                                                values_data: elements,
                                                data_type,
                                                ident,
                                            };
                                            Ok((node, st8.declare(ident, data_type, node)))
                                        },
                                    },
                                },
                            },
                        },
                    },
                },
            },
        },
    }
}

/// Whether a token of this kind may stand between the brackets of `print`.
pub open spec fn is_print_argument(kind: TokenKind) -> bool {
    kind == TokenKind::StringLiteral || kind == TokenKind::Number || kind == TokenKind::Identifier
}

/// `print := 'print' '(' (string | number | identifier) ')'`
pub open spec fn spec_print(toks: Seq<TokenModel>, st: ParseState) -> Parsed {
    match expect(toks, st, TokenKind::Print) {
        Err(f) => Err(f),
        Ok(st1) => match expect(toks, st1, TokenKind::LParen) {
            Err(f) => Err(f),
            Ok(st2) => if 0 <= st2.pos < toks.len() && is_print_argument(toks[st2.pos].kind) {
                match expect(toks, st2.advance(), TokenKind::RParen) {
                    Err(f) => Err(f),
                    Ok(st3) => Ok((AstModel::Print(toks[st2.pos]), st3)),
                }
            } else {
                Err(failure(toks, st2, Expected::PrintArgument))
            },
        },
    }
}

/// `incrDecr := identifier ('++' | '--')`, on a declared name.
pub open spec fn spec_increment_decrement(toks: Seq<TokenModel>, st: ParseState) -> Parsed {
    match expect(toks, st, TokenKind::Identifier) {
        Err(f) => Err(f),
        Ok(st1) => if !st.symbols.contains_key(toks[st.pos].text) {
            Err(failure(toks, st, Expected::DeclaredIdentifier))
        } else if kind_at(toks, st1.pos) == Some(TokenKind::Increment) || kind_at(toks, st1.pos)
            == Some(TokenKind::Decrement) {
            Ok((AstModel::UniqueOp { ident: toks[st.pos].text, op: toks[st1.pos] }, st1.advance()))
        } else {
            Err(failure(toks, st1, Expected::IncrementOrDecrement))
        },
    }
}

/// Whether `elseif` or `else` may follow the statements in `acc`: only
/// directly behind an `if` or an `elseif`.
pub open spec fn chain_open(acc: Seq<AstModel>) -> bool {
    acc.len() > 0 && (acc.last() is If || acc.last() is ElseIf)
}

/// `'{' statement* '}'`, with the statements behind the nodes in `acc`.
pub open spec fn spec_braced(toks: Seq<TokenModel>, st: ParseState, acc: Seq<AstModel>)
    -> ParsedList
    decreases toks.len() - st.pos, 0nat,
{
    match expect(toks, st, TokenKind::LBrace) {
        Err(f) => Err(f),
        Ok(st1) => match spec_block(toks, st1, acc) {
            Err(f) => Err(f),
            Ok((nodes, st2)) => match expect(toks, st2, TokenKind::RBrace) {
                Err(f) => Err(f),
                Ok(st3) => Ok((nodes, st3)),
            },
        },
    }
}

/// A keyword, a condition and a block: the condition, then the statements.
pub open spec fn spec_guarded(toks: Seq<TokenModel>, st: ParseState, keyword: TokenKind)
    -> ParsedList
    decreases toks.len() - st.pos, 1nat,
{
    match expect(toks, st, keyword) {
        Err(f) => Err(f),
        Ok(st1) => match spec_logic_expression(toks, st1) {
            Err(f) => Err(f),
            Ok((condition, st2)) => spec_braced(
                toks,
                onward(toks.len(), st1, st2),
                seq![condition],
            ),
        },
    }
}

/// `'if' logicExpr '{' statement* '}'`
pub open spec fn spec_if(toks: Seq<TokenModel>, st: ParseState) -> Parsed
    decreases toks.len() - st.pos, 2nat,
{
    match spec_guarded(toks, st, TokenKind::If) {
        Err(f) => Err(f),
        Ok((block, st1)) => Ok((AstModel::If { block }, st1)),
    }
}

/// `'elseif' logicExpr '{' statement* '}'`
pub open spec fn spec_else_if(toks: Seq<TokenModel>, st: ParseState) -> Parsed
    decreases toks.len() - st.pos, 2nat,
{
    match spec_guarded(toks, st, TokenKind::ElseIf) {
        Err(f) => Err(f),
        Ok((block, st1)) => Ok((AstModel::ElseIf { block }, st1)),
    }
}

/// `'else' '{' statement* '}'`
pub open spec fn spec_else(toks: Seq<TokenModel>, st: ParseState) -> Parsed
    decreases toks.len() - st.pos, 2nat,
{
    match expect(toks, st, TokenKind::Else) {
        Err(f) => Err(f),
        Ok(st1) => match spec_braced(toks, st1, Seq::empty()) {
            Err(f) => Err(f),
            Ok((block, st2)) => Ok((AstModel::Else { block }, st2)),
        },
    }
}

/// The header of a loop, from `for` to the closing bracket: the declaration,
/// the condition and the step, as a list of three.
/// A failure is reported within the header, unless it lies within the
/// declaration of the header.
pub open spec fn spec_for_header(toks: Seq<TokenModel>, st: ParseState) -> ParsedList {
    list_inside(spec_for_header_parts(toks, st), Construct::LoopHeader)
}

/// The parts of the header of a loop, one after the other.
#[verifier::opaque]
pub open spec fn spec_for_header_parts(toks: Seq<TokenModel>, st: ParseState) -> ParsedList {
    match expect(toks, st, TokenKind::For) {
        Err(f) => Err(f),
        Ok(st1) => match expect(toks, st1, TokenKind::LParen) {
            Err(f) => Err(f),
            Ok(st2) => match spec_declaration(toks, st2) {
                Err(f) => Err(f),
                Ok((declaration, st3)) => match expect(toks, st3, TokenKind::Semicolon) {
                    Err(f) => Err(f),
                    Ok(st4) => match spec_logic_expression(toks, st4) {
                        Err(f) => Err(f),
                        Ok((condition, st5)) => match expect(toks, st5, TokenKind::Semicolon) {
                            Err(f) => Err(f),
                            Ok(st6) => match spec_increment_decrement(toks, st6) {
                                Err(f) => Err(f),
                                Ok((step, st7)) => match expect(toks, st7, TokenKind::RParen) {
                                    Err(f) => Err(f),
                                    Ok(st8) => Ok((seq![declaration, condition, step], st8)),
                                },
                            },
                        },
                    },
                },
            },
        },
    }
}

/// `forLoop := 'for' '(' declaration ';' logicExpr ';' incrDecr ')' '{' statement* '}'`
pub open spec fn spec_for(toks: Seq<TokenModel>, st: ParseState) -> Parsed
    decreases toks.len() - st.pos, 2nat,
{
    match spec_for_header(toks, st) {
        Err(f) => Err(f),
        Ok((header, st1)) => match spec_braced(toks, onward(toks.len(), st, st1), Seq::empty()) {
            Err(f) => Err(f),
            Ok((block, st2)) => Ok(
                (
                    AstModel::For {
                        declaration: Box::new(header[0]),
                        expression: Box::new(header[1]),
                        operation: Box::new(header[2]),
                        block,
                    },
                    st2,
                ),
            ),
        },
    }
}

/// One statement, chosen by its first token. `elseif` and `else` start a
/// statement only where `after_if` holds.
pub open spec fn spec_statement(toks: Seq<TokenModel>, st: ParseState, after_if: bool) -> Parsed
    decreases toks.len() - st.pos, 3nat,
{
    match kind_at(toks, st.pos) {
        Some(TokenKind::Print) => spec_print(toks, st),
        Some(TokenKind::For) => spec_for(toks, st),
        Some(TokenKind::If) => spec_if(toks, st),
        Some(TokenKind::ElseIf) => if after_if {
            spec_else_if(toks, st)
        } else {
            Err(failure(toks, st, Expected::Statement))
        },
        Some(TokenKind::Else) => if after_if {
            spec_else(toks, st)
        } else {
            Err(failure(toks, st, Expected::Statement))
        },
        Some(TokenKind::StringType) => spec_declaration(toks, st),
        Some(TokenKind::IntegerType) => spec_declaration(toks, st),
        Some(TokenKind::BooleanType) => spec_declaration(toks, st),
        Some(TokenKind::ArrayType) => spec_array_declaration(toks, st),
        Some(TokenKind::Identifier) => spec_increment_decrement(toks, st),
        _ => Err(failure(toks, st, Expected::Statement)),
    }
}

/// `statement*` behind the nodes in `acc`, up to a closing brace or the end
/// of the tokens.
pub open spec fn spec_block(toks: Seq<TokenModel>, st: ParseState, acc: Seq<AstModel>)
    -> ParsedList
    decreases toks.len() - st.pos, 4nat,
{
    if kind_at(toks, st.pos) is None || kind_at(toks, st.pos) == Some(TokenKind::RBrace) {
        Ok((acc, st))
    } else {
        match spec_statement(toks, st, chain_open(acc)) {
            Err(f) => Err(f),
            Ok((node, st1)) => spec_block(
                toks,
                onward(toks.len(), st.advance(), st1),
                acc.push(node),
            ),
        }
    }
}

/// `program := 'main' '(' ')' '{' statement* '}'`. Tokens behind the closing
/// brace are left unread.
pub open spec fn spec_program(toks: Seq<TokenModel>, st: ParseState) -> Parsed {
    match expect(toks, st, TokenKind::Main) {
        Err(f) => Err(f),
        Ok(st1) => match expect(toks, st1, TokenKind::LParen) {
            Err(f) => Err(f),
            Ok(st2) => match expect(toks, st2, TokenKind::RParen) {
                Err(f) => Err(f),
                Ok(st3) => match spec_braced(toks, st3, Seq::empty()) {
                    Err(f) => Err(f),
                    Ok((body, st4)) => Ok((AstModel::Main { body }, st4)),
                },
            },
        },
    }
}

/// The state at the start of a parse: the first token, nothing declared.
pub open spec fn initial_state() -> ParseState {
    ParseState { pos: 0, symbols: Map::empty(), values: Map::empty() }
}

} // verus!

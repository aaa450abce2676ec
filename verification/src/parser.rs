//! The parser: tokens to a syntax tree, by recursive descent with one token
//! of lookahead. While it reads declarations it fills the table of declared
//! names and the table of the values they were declared with.
use vstd::prelude::*;
use crate::grammar::{
    chain_open, error_inside, expect, failure, identifier_node, initial_state, is_relational,
    kind_at, number_node, spec_array_declaration, spec_array_declaration_parts,
    spec_array_elements, spec_block, spec_braced, spec_declaration, spec_declaration_parts,
    spec_else, spec_else_if, spec_expression, spec_expression_rest, spec_factor, spec_for,
    spec_for_header, spec_for_header_parts, spec_if, spec_increment_decrement,
    spec_logic_expression, spec_logic_factor, spec_logic_rest, spec_print, spec_program,
    spec_statement, spec_term, spec_term_rest, spec_types, spec_value, token_at, Construct,
    Expected, ParseErrorModel, ParseState, Parsed, ParsedList,
};
use crate::table::Table;
use crate::text::parse_i32;
use crate::tokenizer::{models, Token, TokenKind, TokenModel};
use crate::tree::{models_in, push_node};
pub use crate::tree::{ASTNode, AstModel};

verus! {

/// Why tokens could not be parsed: what was expected, the token found in its
/// place (none at the end of the tokens), the position of that token, and
/// the innermost declaration, array declaration or loop header that the
/// token makes malformed, if it stands in one.
#[derive(Debug, PartialEq)]
pub struct ParseError {
    pub expected: Expected,
    pub found: Option<Token>,
    pub position: usize,
    pub construct: Option<Construct>,
}

/// The kinds of parse error.
#[derive(Clone, Copy, Debug, PartialEq, Eq, Structural)]
pub enum ParseErrorKind {
    /// A name was used that no declaration has introduced.
    UndeclaredIdentifier,
    /// The tokens ended where one was required.
    MissingToken,
    /// A token stands where another was required.
    UnexpectedToken,
}

impl View for ParseError {
    type V = ParseErrorModel;

    open spec fn view(&self) -> ParseErrorModel {
        ParseErrorModel {
            expected: self.expected,
            found: match self.found {
                Some(t) => Some(t@),
                None => None,
            },
            position: self.position as int,
            construct: self.construct,
        }
    }
}

impl ParseError {
    /// The kind of an error with the given expectation and found token.
    pub open spec fn spec_kind(expected: Expected, found: Option<TokenModel>) -> ParseErrorKind {
        if expected == Expected::DeclaredIdentifier {
            ParseErrorKind::UndeclaredIdentifier
        } else if found is None {
            ParseErrorKind::MissingToken
        } else {
            ParseErrorKind::UnexpectedToken
        }
    }

    /// The error as one within `construct`, unless it already is within a
    /// construct inside that one.
    pub fn inside(self, construct: Construct) -> (e: ParseError)
        ensures
            e@ == error_inside(self@, construct),
    {
        match self.construct {
            Some(_) => self,
            None => ParseError {
                expected: self.expected,
                found: self.found,
                position: self.position,
                construct: Some(construct),
            },
        }
    }

    /// The kind of the error.
    pub fn kind(&self) -> (k: ParseErrorKind)
        ensures
            k == Self::spec_kind(self@.expected, self@.found),
    {
        match self.expected {
            Expected::DeclaredIdentifier => ParseErrorKind::UndeclaredIdentifier,
            _ => {
                if self.found.is_none() {
                    ParseErrorKind::MissingToken
                } else {
                    ParseErrorKind::UnexpectedToken
                }
            },
        }
    }
}

/// A parser over a list of tokens.
pub struct Parser {
    pub tokens: Vec<Token>,
    /// The position of the next token to read.
    pub current: usize,
    /// The declared type of each name.
    pub symbol_table: Table<Token>,
    /// The value that each name was last declared with.
    pub value_table: Table<ASTNode>,
}

/// The text that a token carries.
pub fn token_text(token: &Token) -> (text: String)
    ensures
        text@ == token@.text,
{
    match token {
        Token::Number(s) => s.clone(),
        Token::StringLiteral(s) => s.clone(),
        Token::Identifier(s) => s.clone(),
        _ => String::new(),
    }
}

/// Nothing but the position differs between the two parsers.
pub open spec fn only_moved(before: Parser, after: Parser) -> bool {
    &&& after.tokens == before.tokens
    &&& after.symbol_table == before.symbol_table
    &&& after.value_table == before.value_table
}

/// What a parsing method leaves behind. On success the result is the
/// expected tree, the parser is in the expected state, and the position has
/// not moved back. On failure the error is the expected one, the parser
/// stands at the token that the error names, and its tables hold what had
/// been declared before the parse stopped. Either way the tokens are the
/// same and the position lies within them.
pub open spec fn parsed(
    before: Parser,
    after: Parser,
    r: Result<ASTNode, ParseError>,
    expected: Parsed,
) -> bool {
    &&& after.tokens == before.tokens
    &&& after.wf()
    &&& match expected {
        Ok((node, st)) => {
            &&& r matches Ok(n)
            &&& n@ == node
            &&& after.state() == st
            &&& before.current <= after.current <= after.tokens.len()
        },
        Err(f) => r matches Err(e) && e@ == f.error && after.state() == f.state,
    }
}

/// As `parsed`, for a method that appends the trees it reads to a list.
pub open spec fn parsed_list(
    before: Parser,
    after: Parser,
    nodes: &Vec<ASTNode>,
    r: Result<(), ParseError>,
    expected: ParsedList,
) -> bool {
    &&& after.tokens == before.tokens
    &&& after.wf()
    &&& match expected {
        Ok((list, st)) => {
            &&& r is Ok
            &&& models_in(nodes) == list
            &&& after.state() == st
            &&& before.current <= after.current <= after.tokens.len()
        },
        Err(f) => r matches Err(e) && e@ == f.error && after.state() == f.state,
    }
}

impl Parser {
    /// The position lies inside the tokens or at their end.
    pub open spec fn wf(&self) -> bool {
        self.current <= self.tokens.len()
    }

    /// The tokens as contracts see them.
    pub open spec fn input(&self) -> Seq<TokenModel> {
        models(self.tokens@)
    }

    /// The state of the parse.
    pub open spec fn state(&self) -> ParseState {
        ParseState {
            pos: self.current as int,
            symbols: self.symbol_table@,
            values: self.value_table@,
        }
    }

    /// A parser at the first of `tokens`, with nothing declared.
    pub fn new(tokens: Vec<Token>) -> (p: Self)
        ensures
            p.wf(),
            p.tokens == tokens,
            p.state() == initial_state(),
    {
        Parser { tokens, current: 0, symbol_table: Table::new(), value_table: Table::new() }
    }

    /// Whether every token has been read.
    pub fn is_at_end(&self) -> (r: bool)
        ensures
            r == (self.current >= self.tokens.len()),
    {
        self.current >= self.tokens.len()
    }

    /// The next token, if there is one.
    pub fn peek(&self) -> (r: Option<&Token>)
        ensures
            r == if self.current < self.tokens.len() {
                Some(&self.tokens@[self.current as int])
            } else {
                None::<&Token>
            },
            match r {
                Some(t) => token_at(self.input(), self.current as int) == Some(t@),
                None => token_at(self.input(), self.current as int) is None,
            },
    {
        if self.current < self.tokens.len() {
            Some(&self.tokens[self.current])
        } else {
            None
        }
    }

    /// The kind of the next token, if there is one.
    pub fn peek_kind(&self) -> (r: Option<TokenKind>)
        ensures
            r == kind_at(self.input(), self.current as int),
    {
        match self.peek() {
            Some(t) => Some(t.kind()),
            None => None,
        }
    }

    /// The token before the position.
    pub fn previous(&self) -> (r: &Token)
        requires
            0 < self.current <= self.tokens.len(),
        ensures
            *r == self.tokens@[self.current - 1],
            r@ == self.input()[self.current - 1],
    {
        &self.tokens[self.current - 1]
    }

    /// Moves behind the next token, if there is one, and hands out the token
    /// before the new position, if there is one.
    pub fn advance(&mut self) -> (r: Option<&Token>)
        ensures
            only_moved(*old(self), *final(self)),
            final(self).current == if old(self).current < old(self).tokens.len() {
                old(self).current + 1
            } else {
                old(self).current as int
            },
            r == if 0 < final(self).current <= final(self).tokens.len() {
                Some(&final(self).tokens@[final(self).current - 1])
            } else {
                None::<&Token>
            },
    {
        if self.current < self.tokens.len() {
            self.current = self.current + 1;
        }
        if 0 < self.current && self.current <= self.tokens.len() {
            Some(&self.tokens[self.current - 1])
        } else {
            None
        }
    }

    /// Whether the next token is of the kind of `token_type`.
    pub fn check(&self, token_type: &Token) -> (r: bool)
        ensures
            r == (kind_at(self.input(), self.current as int) == Some(token_type@.kind)),
    {
        match self.peek() {
            Some(t) => t.kind() == token_type.kind(),
            None => false,
        }
    }

    /// The error of not finding `expected` at the position.
    pub fn fail(&self, expected: Expected) -> (e: ParseError)
        ensures
            e@ == failure(self.input(), self.state(), expected).error,
    {
        let found = match self.peek() {
            Some(t) => Some(t.clone()),
            None => None,
        };
        ParseError { expected, found, position: self.current, construct: None }
    }

    /// Moves behind the next token if it is of the kind of `token_type`, and
    /// fails without moving if it is not.
    pub fn consume(&mut self, token_type: &Token) -> (r: Result<(), ParseError>)
        ensures
            only_moved(*old(self), *final(self)),
            match expect(old(self).input(), old(self).state(), token_type@.kind) {
                Ok(st) => r is Ok && final(self).state() == st && final(self).current
                    == old(self).current + 1 && final(self).current <= final(self).tokens.len(),
                Err(f) => r matches Err(e) && e@ == f.error && final(self).current
                    == old(self).current,
            },
    {
        if self.check(token_type) {
            self.advance();
            Ok(())
        } else {
            Err(self.fail(Expected::Token(token_type.kind())))
        }
    }

    /// Whether a token of `types` is of the kind `kind`.
    pub open spec fn among(types: Seq<Token>, kind: Option<TokenKind>) -> bool {
        exists|i: int| 0 <= i < types.len() && kind == Some(#[trigger] types[i]@.kind)
    }

    /// Moves behind the next token if it is of the kind of one of `types`,
    /// and says whether it did.
    pub fn match_token(&mut self, types: &[Token]) -> (r: bool)
        ensures
            only_moved(*old(self), *final(self)),
            r == Self::among(types@, kind_at(old(self).input(), old(self).current as int)),
            final(self).current == if r {
                old(self).current + 1
            } else {
                old(self).current as int
            },
            r ==> old(self).current < old(self).tokens.len(),
    {
        let mut i: usize = 0;
        while i < types.len()
            invariant
                i <= types.len(),
                *self == *old(self),
                forall|j: int|
                    0 <= j < i ==> kind_at(self.input(), self.current as int) != Some(
                        #[trigger] types@[j]@.kind,
                    ),
            decreases types.len() - i,
        {
            if self.check(&types[i]) {
                self.advance();
                return true;
            }
            i += 1;
        }
        false
    }

    /// Moves behind the next token if it is a number, and hands it out.
    pub fn match_number(&mut self) -> (r: Option<Token>)
        ensures
            only_moved(*old(self), *final(self)),
            match r {
                Some(t) => kind_at(old(self).input(), old(self).current as int) == Some(
                    TokenKind::Number,
                ) && t@ == old(self).input()[old(self).current as int] && final(self).current
                    == old(self).current + 1,
                None => kind_at(old(self).input(), old(self).current as int) != Some(
                    TokenKind::Number,
                ) && final(self).current == old(self).current,
            },
    {
        if self.check(&Token::Number(String::new())) {
            match self.advance() {
                Some(t) => Some(t.clone()),
                None => None,
            }
        } else {
            None
        }
    }

    /// Moves behind the next token if it is an identifier, and hands it out.
    pub fn match_identifier(&mut self) -> (r: Option<Token>)
        ensures
            only_moved(*old(self), *final(self)),
            match r {
                Some(t) => kind_at(old(self).input(), old(self).current as int) == Some(
                    TokenKind::Identifier,
                ) && t@ == old(self).input()[old(self).current as int] && final(self).current
                    == old(self).current + 1,
                None => kind_at(old(self).input(), old(self).current as int) != Some(
                    TokenKind::Identifier,
                ) && final(self).current == old(self).current,
            },
    {
        if self.check(&Token::Identifier(String::new())) {
            match self.advance() {
                Some(t) => Some(t.clone()),
                None => None,
            }
        } else {
            None
        }
    }

    /// Reads a number literal.
    fn parse_number(&mut self) -> (r: Result<ASTNode, ParseError>)
        requires
            kind_at(old(self).input(), old(self).current as int) == Some(TokenKind::Number),
        ensures
            only_moved(*old(self), *final(self)),
            parsed(*old(self), *final(self), r, number_node(old(self).input(), old(self).state())),
            r is Ok ==> final(self).current == old(self).current + 1,
    {
        let text = match self.peek() {
            Some(token) => token_text(token),
            None => String::new(),
        };
        match parse_i32(text.as_str()) {
            Some(v) => {
                self.advance();
                Ok(ASTNode::Number(v))
            },
            None => Err(self.fail(Expected::RepresentableNumber)),
        }
    }

    /// Reads a use of a declared name.
    fn parse_identifier(&mut self) -> (r: Result<ASTNode, ParseError>)
        requires
            kind_at(old(self).input(), old(self).current as int) == Some(TokenKind::Identifier),
        ensures
            only_moved(*old(self), *final(self)),
            parsed(
                *old(self),
                *final(self),
                r,
                identifier_node(old(self).input(), old(self).state()),
            ),
            r is Ok ==> final(self).current == old(self).current + 1,
    {
        let name = match self.peek() {
            Some(token) => token_text(token),
            None => String::new(),
        };
        let data_type = match self.symbol_table.get(&name) {
            Some(data_type) => data_type.clone(),
            None => {
                return Err(self.fail(Expected::DeclaredIdentifier));
            },
        };
        self.advance();
        Ok(ASTNode::Identifier { name, data_type })
    }

    /// `factor := '(' expression ')' | number | identifier`
    pub fn parse_factor(&mut self) -> (r: Result<ASTNode, ParseError>)
        requires
            old(self).wf(),
        ensures
            only_moved(*old(self), *final(self)),
            parsed(*old(self), *final(self), r, spec_factor(old(self).input(), old(self).state())),
        decreases old(self).tokens.len() - old(self).current, 0nat,
    {
        match self.peek_kind() {
            Some(TokenKind::LParen) => {
                self.advance();
                let inner = match self.parse_expression() {
                    Ok(n) => n,
                    Err(e) => {
                        return Err(e);
                    },
                };
                match self.consume(&Token::RParen) {
                    Ok(()) => Ok(inner),
                    Err(e) => Err(e),
                }
            },
            Some(TokenKind::Number) => self.parse_number(),
            Some(TokenKind::Identifier) => self.parse_identifier(),
            _ => Err(self.fail(Expected::Expression)),
        }
    }

    /// `term := factor (('*'|'/') factor)*`
    pub fn parse_term(&mut self) -> (r: Result<ASTNode, ParseError>)
        requires
            old(self).wf(),
        ensures
            only_moved(*old(self), *final(self)),
            parsed(*old(self), *final(self), r, spec_term(old(self).input(), old(self).state())),
        decreases old(self).tokens.len() - old(self).current, 2nat,
    {
        let mut node = match self.parse_factor() {
            Ok(n) => n,
            Err(e) => {
                return Err(e);
            },
        };
        loop
            invariant
                self.wf(),
                only_moved(*old(self), *self),
                old(self).current <= self.current,
                spec_term(old(self).input(), old(self).state()) == spec_term_rest(
                    self.input(),
                    node@,
                    self.state(),
                ),
            decreases self.tokens.len() - self.current,
        {
            proof {
                let types = [Token::Multiply, Token::Divide];
                assert(Self::among(types@, Some(TokenKind::Multiply))) by {
                    assert(types@[0]@.kind == TokenKind::Multiply);
                }
                assert(Self::among(types@, Some(TokenKind::Divide))) by {
                    assert(types@[1]@.kind == TokenKind::Divide);
                }
            }
            if !self.match_token(&[Token::Multiply, Token::Divide]) {
                return Ok(node);
            }
            let op = self.previous().clone();
            let right = match self.parse_factor() {
                Ok(n) => n,
                Err(e) => {
                    return Err(e);
                },
            };
            node = ASTNode::BinaryOp { left: Box::new(node), op, right: Box::new(right) };
        }
    }

    /// `expression := term (('+'|'-') term)*`
    pub fn parse_expression(&mut self) -> (r: Result<ASTNode, ParseError>)
        requires
            old(self).wf(),
        ensures
            only_moved(*old(self), *final(self)),
            parsed(
                *old(self),
                *final(self),
                r,
                spec_expression(old(self).input(), old(self).state()),
            ),
        decreases old(self).tokens.len() - old(self).current, 4nat,
    {
        let mut node = match self.parse_term() {
            Ok(n) => n,
            Err(e) => {
                return Err(e);
            },
        };
        loop
            invariant
                self.wf(),
                only_moved(*old(self), *self),
                old(self).current <= self.current,
                spec_expression(old(self).input(), old(self).state()) == spec_expression_rest(
                    self.input(),
                    node@,
                    self.state(),
                ),
            decreases self.tokens.len() - self.current,
        {
            proof {
                let types = [Token::Plus, Token::Minus];
                assert(Self::among(types@, Some(TokenKind::Plus))) by {
                    assert(types@[0]@.kind == TokenKind::Plus);
                }
                assert(Self::among(types@, Some(TokenKind::Minus))) by {
                    assert(types@[1]@.kind == TokenKind::Minus);
                }
            }
            if !self.match_token(&[Token::Plus, Token::Minus]) {
                return Ok(node);
            }
            let op = self.previous().clone();
            let right = match self.parse_term() {
                Ok(n) => n,
                Err(e) => {
                    return Err(e);
                },
            };
            node = ASTNode::BinaryOp { left: Box::new(node), op, right: Box::new(right) };
        }
    }
}

impl Parser {
    /// `logicFactor := '(' logicExpr ')' | identifier | number`
    pub fn parse_logic_factor(&mut self) -> (r: Result<ASTNode, ParseError>)
        requires
            old(self).wf(),
        ensures
            only_moved(*old(self), *final(self)),
            parsed(
                *old(self),
                *final(self),
                r,
                spec_logic_factor(old(self).input(), old(self).state()),
            ),
        decreases old(self).tokens.len() - old(self).current, 0nat,
    {
        match self.peek_kind() {
            Some(TokenKind::LParen) => {
                self.advance();
                let inner = match self.parse_logic_expression() {
                    Ok(n) => n,
                    Err(e) => {
                        return Err(e);
                    },
                };
                match self.consume(&Token::RParen) {
                    Ok(()) => Ok(inner),
                    Err(e) => Err(e),
                }
            },
            Some(TokenKind::Identifier) => self.parse_identifier(),
            Some(TokenKind::Number) => self.parse_number(),
            _ => Err(self.fail(Expected::LogicExpression)),
        }
    }

    /// Whether the next token is a relational operator.
    pub fn at_relational(&self) -> (r: bool)
        ensures
            r == (self.current < self.tokens.len() && is_relational(
                self.input()[self.current as int].kind,
            )),
    {
        match self.peek_kind() {
            Some(TokenKind::LessThan) => true,
            Some(TokenKind::LessEqualThan) => true,
            Some(TokenKind::BiggerEqualThan) => true,
            Some(TokenKind::BiggerThan) => true,
            Some(TokenKind::DifferentThan) => true,
            Some(TokenKind::EqualThan) => true,
            _ => false,
        }
    }

    /// `logicExpr := logicFactor (relOp logicFactor)*`
    pub fn parse_logic_expression(&mut self) -> (r: Result<ASTNode, ParseError>)
        requires
            old(self).wf(),
        ensures
            only_moved(*old(self), *final(self)),
            parsed(
                *old(self),
                *final(self),
                r,
                spec_logic_expression(old(self).input(), old(self).state()),
            ),
        decreases old(self).tokens.len() - old(self).current, 2nat,
    {
        let mut node = match self.parse_logic_factor() {
            Ok(n) => n,
            Err(e) => {
                return Err(e);
            },
        };
        loop
            invariant
                self.wf(),
                only_moved(*old(self), *self),
                old(self).current <= self.current,
                spec_logic_expression(old(self).input(), old(self).state()) == spec_logic_rest(
                    self.input(),
                    node@,
                    self.state(),
                ),
            decreases self.tokens.len() - self.current,
        {
            if !self.at_relational() {
                return Ok(node);
            }
            self.advance();
            let op = self.previous().clone();
            let right = match self.parse_logic_factor() {
                Ok(n) => n,
                Err(e) => {
                    return Err(e);
                },
            };
            node = ASTNode::BinaryOp { left: Box::new(node), op, right: Box::new(right) };
        }
    }

    /// The type name at the position, which is not passed over.
    pub fn parse_types(&mut self) -> (r: Result<Token, ParseError>)
        ensures
            *final(self) == *old(self),
            match spec_types(old(self).input(), old(self).state()) {
                Ok(t) => r matches Ok(found) && found@ == t,
                Err(f) => r matches Err(e) && e@ == f.error,
            },
    {
        match self.peek_kind() {
            Some(TokenKind::StringType) => Ok(Token::StringType),
            Some(TokenKind::IntegerType) => Ok(Token::IntegerType),
            Some(TokenKind::BooleanType) => Ok(Token::BooleanType),
            _ => Err(self.fail(Expected::Type)),
        }
    }

    /// The value of a declaration: a string literal or an expression.
    pub fn parse_value(&mut self) -> (r: Result<ASTNode, ParseError>)
        requires
            old(self).wf(),
        ensures
            only_moved(*old(self), *final(self)),
            parsed(*old(self), *final(self), r, spec_value(old(self).input(), old(self).state())),
    {
        if self.check(&Token::StringLiteral(String::new())) {
            let text = match self.peek() {
                Some(t) => token_text(t),
                None => String::new(),
            };
            self.advance();
            Ok(ASTNode::StringLiteral(text))
        } else {
            self.parse_expression()
        }
    }

    /// `declaration := type identifier '=' (string | expression)`. Declares
    /// the name, with its type and its value, once the value has been read;
    /// a declaration that fails declares nothing, and its error is reported
    /// within the declaration.
    pub fn parse_declaration(&mut self) -> (r: Result<ASTNode, ParseError>)
        requires
            old(self).wf(),
        ensures
            parsed(
                *old(self),
                *final(self),
                r,
                spec_declaration(old(self).input(), old(self).state()),
            ),
            r is Ok ==> old(self).current < final(self).current,
            r is Err ==> only_moved(*old(self), *final(self)),
    {
        match self.parse_declaration_parts() {
            Ok(node) => Ok(node),
            Err(e) => Err(e.inside(Construct::Declaration)),
        }
    }

    /// The parts of a declaration, one after the other.
    fn parse_declaration_parts(&mut self) -> (r: Result<ASTNode, ParseError>)
        requires
            old(self).wf(),
        ensures
            parsed(
                *old(self),
                *final(self),
                r,
                spec_declaration_parts(old(self).input(), old(self).state()),
            ),
            r is Ok ==> old(self).current < final(self).current,
            r is Err ==> only_moved(*old(self), *final(self)),
    {
        let data_type = match self.parse_types() {
            Ok(t) => t,
            Err(e) => {
                return Err(e);
            },
        };
        self.advance();
        let identifier = match self.match_identifier() {
            Some(t) => t,
            None => {
                return Err(self.fail(Expected::Token(TokenKind::Identifier)));
            },
        };
        match self.consume(&Token::Assignment) {
            Ok(()) => {},
            Err(e) => {
                return Err(e);
            },
        }
        let value = match self.parse_value() {
            Ok(n) => n,
            Err(e) => {
                return Err(e);
            },
        };
        let name = token_text(&identifier);
        self.symbol_table.insert(name.clone(), data_type.clone());
        self.value_table.insert(name, value.clone());
        Ok(ASTNode::Declaration { data_type, identifier, value: Box::new(value) })
    }

    /// `number (',' number)*`, appended to `values`.
    pub fn parse_array_elements(&mut self, values: &mut Vec<ASTNode>) -> (r: Result<
        (),
        ParseError,
    >)
        requires
            old(self).wf(),
        ensures
            only_moved(*old(self), *final(self)),
            parsed_list(
                *old(self),
                *final(self),
                final(values),
                r,
                spec_array_elements(old(self).input(), old(self).state(), models_in(old(values))),
            ),
    {
        loop
            invariant
                self.wf(),
                only_moved(*old(self), *self),
                old(self).current <= self.current,
                spec_array_elements(old(self).input(), old(self).state(), models_in(old(values)))
                    == spec_array_elements(self.input(), self.state(), models_in(values)),
            decreases self.tokens.len() - self.current,
        {
            if !self.check(&Token::Number(String::new())) {
                return Err(self.fail(Expected::Token(TokenKind::Number)));
            }
            let element = match self.parse_number() {
                Ok(n) => n,
                Err(e) => {
                    return Err(e);
                },
            };
            push_node(values, element);
            if self.check(&Token::Comma) {
                self.advance();
            } else {
                return Ok(());
            }
        }
    }

    /// `arrayDecl := 'array' '<' type '>' identifier '=' '[' number (',' number)* ']'`.
    /// Declares the name with the type of the elements and the literal as
    /// its value; a declaration that fails declares nothing, and its error
    /// is reported within the array declaration.
    pub fn parse_array_declaration(&mut self) -> (r: Result<ASTNode, ParseError>)
        requires
            old(self).wf(),
        ensures
            parsed(
                *old(self),
                *final(self),
                r,
                spec_array_declaration(old(self).input(), old(self).state()),
            ),
            r is Ok ==> old(self).current < final(self).current,
            r is Err ==> only_moved(*old(self), *final(self)),
    {
        match self.parse_array_declaration_parts() {
            Ok(node) => Ok(node),
            Err(e) => Err(e.inside(Construct::ArrayDeclaration)),
        }
    }

    /// The parts of an array declaration, one after the other.
    fn parse_array_declaration_parts(&mut self) -> (r: Result<ASTNode, ParseError>)
        requires
            old(self).wf(),
        ensures
            parsed(
                *old(self),
                *final(self),
                r,
                spec_array_declaration_parts(old(self).input(), old(self).state()),
            ),
            r is Ok ==> old(self).current < final(self).current,
            r is Err ==> only_moved(*old(self), *final(self)),
    {
        match self.consume(&Token::ArrayType) {
            Ok(()) => {},
            Err(e) => {
                return Err(e);
            },
        }
        match self.consume(&Token::LessThan) {
            Ok(()) => {},
            Err(e) => {
                return Err(e);
            },
        }
        let type_array = match self.parse_types() {
            Ok(t) => t,
            Err(e) => {
                return Err(e);
            },
        };
        self.advance();
        match self.consume(&Token::BiggerThan) {
            Ok(()) => {},
            Err(e) => {
                return Err(e);
            },
        }
        let ident = match self.match_identifier() {
            Some(t) => token_text(&t),
            None => {
                return Err(self.fail(Expected::Token(TokenKind::Identifier)));
            },
        };
        match self.consume(&Token::Assignment) {
            Ok(()) => {},
            Err(e) => {
                return Err(e);
            },
        }
        match self.consume(&Token::LBracket) {
            Ok(()) => {},
            Err(e) => {
                return Err(e);
            },
        }
        let mut values: Vec<ASTNode> = Vec::new();
        assert(models_in(&values) =~= Seq::<AstModel>::empty());
        match self.parse_array_elements(&mut values) {
            Ok(()) => {},
            Err(e) => {
                return Err(e);
            },
        }
        match self.consume(&Token::RBracket) {
            Ok(()) => {},
            Err(e) => {
                return Err(e);
            },
        }
        let node = ASTNode::ArrayLiteral {
            length: values.len(),
            values_data: values,
            data_type: type_array,
            ident,
        };
        let (name, data_type) = match &node {
            ASTNode::ArrayLiteral { data_type, ident, .. } => (ident.clone(), data_type.clone()),
            _ => (String::new(), Token::IntegerType),
        };
        self.symbol_table.insert(name.clone(), data_type);
        self.value_table.insert(name, node.clone());
        Ok(node)
    }

    /// `print := 'print' '(' (string | number | identifier) ')'`
    pub fn parse_print(&mut self) -> (r: Result<ASTNode, ParseError>)
        requires
            old(self).wf(),
        ensures
            only_moved(*old(self), *final(self)),
            parsed(*old(self), *final(self), r, spec_print(old(self).input(), old(self).state())),
            r is Ok ==> old(self).current < final(self).current,
    {
        match self.consume(&Token::Print) {
            Ok(()) => {},
            Err(e) => {
                return Err(e);
            },
        }
        match self.consume(&Token::LParen) {
            Ok(()) => {},
            Err(e) => {
                return Err(e);
            },
        }
        let argument = match self.peek() {
            Some(t) => match t.kind() {
                TokenKind::StringLiteral => t.clone(),
                TokenKind::Number => t.clone(),
                TokenKind::Identifier => t.clone(),
                _ => {
                    return Err(self.fail(Expected::PrintArgument));
                },
            },
            None => {
                return Err(self.fail(Expected::PrintArgument));
            },
        };
        self.advance();
        match self.consume(&Token::RParen) {
            Ok(()) => Ok(ASTNode::Print(argument)),
            Err(e) => Err(e),
        }
    }

    /// `incrDecr := identifier ('++' | '--')`, on a declared name.
    pub fn parse_increment_decrement(&mut self) -> (r: Result<ASTNode, ParseError>)
        requires
            old(self).wf(),
        ensures
            only_moved(*old(self), *final(self)),
            parsed(
                *old(self),
                *final(self),
                r,
                spec_increment_decrement(old(self).input(), old(self).state()),
            ),
            r is Ok ==> old(self).current < final(self).current,
    {
        let ident = match self.peek() {
            Some(t) => match t.kind() {
                TokenKind::Identifier => token_text(t),
                _ => {
                    return Err(self.fail(Expected::Token(TokenKind::Identifier)));
                },
            },
            None => {
                return Err(self.fail(Expected::Token(TokenKind::Identifier)));
            },
        };
        if !self.symbol_table.contains_key(&ident) {
            return Err(self.fail(Expected::DeclaredIdentifier));
        }
        self.advance();
        let op = match self.peek() {
            Some(t) => match t.kind() {
                TokenKind::Increment => t.clone(),
                TokenKind::Decrement => t.clone(),
                _ => {
                    return Err(self.fail(Expected::IncrementOrDecrement));
                },
            },
            None => {
                return Err(self.fail(Expected::IncrementOrDecrement));
            },
        };
        self.advance();
        Ok(ASTNode::UniqueOp { ident, op })
    }
}

/// The list `acc` with a parsed tree behind it.
pub open spec fn pushed(acc: Seq<AstModel>, tree: Parsed) -> ParsedList {
    match tree {
        Ok((node, st)) => Ok((acc.push(node), st)),
        Err(f) => Err(f),
    }
}

/// Whether `elseif` or `else` may follow the statements in `body`.
pub fn chain_is_open(body: &Vec<ASTNode>) -> (r: bool)
    ensures
        r == chain_open(models_in(body)),
{
    if body.len() == 0 {
        false
    } else {
        match &body[body.len() - 1] {
            ASTNode::If { .. } => true,
            ASTNode::ElseIf { .. } => true,
            _ => false,
        }
    }
}

impl Parser {
    /// Reads the statement at the position, chosen by its first token, and
    /// appends it to `body`. `elseif` and `else` are read only directly
    /// behind an `if` or an `elseif` in `body`.
    pub fn parse_and_push(&mut self, body: &mut Vec<ASTNode>) -> (r: Result<(), ParseError>)
        requires
            old(self).wf(),
        ensures
            parsed_list(
                *old(self),
                *final(self),
                final(body),
                r,
                pushed(
                    models_in(old(body)),
                    spec_statement(
                        old(self).input(),
                        old(self).state(),
                        chain_open(models_in(old(body))),
                    ),
                ),
            ),
            r is Ok ==> old(self).current < final(self).current,
        decreases old(self).tokens.len() - old(self).current, 3nat,
    {
        let after_if: bool = chain_is_open(body);
        let parsed_node = match self.peek_kind() {
            Some(TokenKind::Print) => self.parse_print(),
            Some(TokenKind::For) => self.parse_for_loop(),
            Some(TokenKind::If) => self.parse_if_condition(),
            Some(TokenKind::ElseIf) => {
                if after_if {
                    self.parse_else_if_condition()
                } else {
                    Err(self.fail(Expected::Statement))
                }
            },
            Some(TokenKind::Else) => {
                if after_if {
                    self.parse_else_condition()
                } else {
                    Err(self.fail(Expected::Statement))
                }
            },
            Some(TokenKind::StringType) => self.parse_declaration(),
            Some(TokenKind::IntegerType) => self.parse_declaration(),
            Some(TokenKind::BooleanType) => self.parse_declaration(),
            Some(TokenKind::ArrayType) => self.parse_array_declaration(),
            Some(TokenKind::Identifier) => self.parse_increment_decrement(),
            _ => Err(self.fail(Expected::Statement)),
        };
        match parsed_node {
            Ok(node) => {
                push_node(body, node);
                Ok(())
            },
            Err(e) => Err(e),
        }
    }

    /// `statement*`, appended to `body`, up to a closing brace or the end of
    /// the tokens.
    pub fn parse_block(&mut self, body: &mut Vec<ASTNode>) -> (r: Result<(), ParseError>)
        requires
            old(self).wf(),
        ensures
            parsed_list(
                *old(self),
                *final(self),
                final(body),
                r,
                spec_block(old(self).input(), old(self).state(), models_in(old(body))),
            ),
        decreases old(self).tokens.len() - old(self).current, 4nat,
    {
        loop
            invariant
                self.wf(),
                self.tokens == old(self).tokens,
                old(self).current <= self.current,
                spec_block(old(self).input(), old(self).state(), models_in(old(body)))
                    == spec_block(self.input(), self.state(), models_in(body)),
            decreases self.tokens.len() - self.current,
        {
            if self.is_at_end() || self.check(&Token::RBrace) {
                return Ok(());
            }
            match self.parse_and_push(body) {
                Ok(()) => {},
                Err(e) => {
                    return Err(e);
                },
            }
        }
    }

    /// `'{' statement* '}'`, with the statements appended to `body`.
    pub fn parse_braced(&mut self, body: &mut Vec<ASTNode>) -> (r: Result<(), ParseError>)
        requires
            old(self).wf(),
        ensures
            parsed_list(
                *old(self),
                *final(self),
                final(body),
                r,
                spec_braced(old(self).input(), old(self).state(), models_in(old(body))),
            ),
            r is Ok ==> old(self).current < final(self).current,
        decreases old(self).tokens.len() - old(self).current, 0nat,
    {
        match self.consume(&Token::LBrace) {
            Ok(()) => {},
            Err(e) => {
                return Err(e);
            },
        }
        match self.parse_block(body) {
            Ok(()) => {},
            Err(e) => {
                return Err(e);
            },
        }
        self.consume(&Token::RBrace)
    }

    /// `'if' logicExpr '{' statement* '}'`
    pub fn parse_if_condition(&mut self) -> (r: Result<ASTNode, ParseError>)
        requires
            old(self).wf(),
        ensures
            parsed(*old(self), *final(self), r, spec_if(old(self).input(), old(self).state())),
            r is Ok ==> old(self).current < final(self).current,
        decreases old(self).tokens.len() - old(self).current, 2nat,
    {
        let mut if_ast: Vec<ASTNode> = Vec::new();
        match self.consume(&Token::If) {
            Ok(()) => {},
            Err(e) => {
                return Err(e);
            },
        }
        let condition = match self.parse_logic_expression() {
            Ok(n) => n,
            Err(e) => {
                return Err(e);
            },
        };
        push_node(&mut if_ast, condition);
        assert(models_in(&if_ast) =~= seq![condition@]);
        match self.parse_braced(&mut if_ast) {
            Ok(()) => Ok(ASTNode::If { block: if_ast }),
            Err(e) => Err(e),
        }
    }

    /// `'elseif' logicExpr '{' statement* '}'`
    pub fn parse_else_if_condition(&mut self) -> (r: Result<ASTNode, ParseError>)
        requires
            old(self).wf(),
        ensures
            parsed(
                *old(self),
                *final(self),
                r,
                spec_else_if(old(self).input(), old(self).state()),
            ),
            r is Ok ==> old(self).current < final(self).current,
        decreases old(self).tokens.len() - old(self).current, 2nat,
    {
        let mut ast: Vec<ASTNode> = Vec::new();
        match self.consume(&Token::ElseIf) {
            Ok(()) => {},
            Err(e) => {
                return Err(e);
            },
        }
        let condition = match self.parse_logic_expression() {
            Ok(n) => n,
            Err(e) => {
                return Err(e);
            },
        };
        push_node(&mut ast, condition);
        assert(models_in(&ast) =~= seq![condition@]);
        match self.parse_braced(&mut ast) {
            Ok(()) => Ok(ASTNode::ElseIf { block: ast }),
            Err(e) => Err(e),
        }
    }

    /// `'else' '{' statement* '}'`
    pub fn parse_else_condition(&mut self) -> (r: Result<ASTNode, ParseError>)
        requires
            old(self).wf(),
        ensures
            parsed(*old(self), *final(self), r, spec_else(old(self).input(), old(self).state())),
            r is Ok ==> old(self).current < final(self).current,
        decreases old(self).tokens.len() - old(self).current, 2nat,
    {
        let mut else_ast: Vec<ASTNode> = Vec::new();
        assert(models_in(&else_ast) =~= Seq::<AstModel>::empty());
        match self.consume(&Token::Else) {
            Ok(()) => {},
            Err(e) => {
                return Err(e);
            },
        }
        match self.parse_braced(&mut else_ast) {
            Ok(()) => Ok(ASTNode::Else { block: else_ast }),
            Err(e) => Err(e),
        }
    }

    /// The header of a loop, from `for` to the closing bracket: the
    /// declaration, the condition and the step. An error is reported within
    /// the header, unless it lies within the declaration of the header.
    pub fn parse_for_header(&mut self) -> (r: Result<(ASTNode, ASTNode, ASTNode), ParseError>)
        requires
            old(self).wf(),
        ensures
            final(self).tokens == old(self).tokens,
            final(self).wf(),
            match spec_for_header(old(self).input(), old(self).state()) {
                Ok((header, st)) => {
                    &&& r matches Ok(parts)
                    &&& header == seq![parts.0@, parts.1@, parts.2@]
                    &&& final(self).state() == st
                    &&& old(self).current < final(self).current <= final(self).tokens.len()
                },
                Err(f) => r matches Err(e) && e@ == f.error && final(self).state() == f.state,
            },
    {
        match self.parse_for_header_parts() {
            Ok(parts) => Ok(parts),
            Err(e) => Err(e.inside(Construct::LoopHeader)),
        }
    }

    /// The parts of the header of a loop, one after the other.
    fn parse_for_header_parts(&mut self) -> (r: Result<(ASTNode, ASTNode, ASTNode), ParseError>)
        requires
            old(self).wf(),
        ensures
            final(self).tokens == old(self).tokens,
            final(self).wf(),
            match spec_for_header_parts(old(self).input(), old(self).state()) {
                Ok((header, st)) => {
                    &&& r matches Ok(parts)
                    &&& header == seq![parts.0@, parts.1@, parts.2@]
                    &&& final(self).state() == st
                    &&& old(self).current < final(self).current <= final(self).tokens.len()
                },
                Err(f) => r matches Err(e) && e@ == f.error && final(self).state() == f.state,
            },
    {
        reveal(spec_for_header_parts);
        match self.consume(&Token::For) {
            Ok(()) => {},
            Err(e) => {
                return Err(e);
            },
        }
        match self.consume(&Token::LParen) {
            Ok(()) => {},
            Err(e) => {
                return Err(e);
            },
        }
        let declaration = match self.parse_declaration() {
            Ok(n) => n,
            Err(e) => {
                return Err(e);
            },
        };
        match self.consume(&Token::Semicolon) {
            Ok(()) => {},
            Err(e) => {
                return Err(e);
            },
        }
        let expression = match self.parse_logic_expression() {
            Ok(n) => n,
            Err(e) => {
                return Err(e);
            },
        };
        match self.consume(&Token::Semicolon) {
            Ok(()) => {},
            Err(e) => {
                return Err(e);
            },
        }
        let operation = match self.parse_increment_decrement() {
            Ok(n) => n,
            Err(e) => {
                return Err(e);
            },
        };
        match self.consume(&Token::RParen) {
            Ok(()) => Ok((declaration, expression, operation)),
            Err(e) => Err(e),
        }
    }

    /// `forLoop := 'for' '(' declaration ';' logicExpr ';' incrDecr ')' '{' statement* '}'`
    pub fn parse_for_loop(&mut self) -> (r: Result<ASTNode, ParseError>)
        requires
            old(self).wf(),
        ensures
            parsed(*old(self), *final(self), r, spec_for(old(self).input(), old(self).state())),
            r is Ok ==> old(self).current < final(self).current,
        decreases old(self).tokens.len() - old(self).current, 2nat,
    {
        let mut for_ast: Vec<ASTNode> = Vec::new();
        assert(models_in(&for_ast) =~= Seq::<AstModel>::empty());
        let (declaration, expression, operation) = match self.parse_for_header() {
            Ok(parts) => parts,
            Err(e) => {
                return Err(e);
            },
        };
        match self.parse_braced(&mut for_ast) {
            Ok(()) => Ok(
                ASTNode::For {
                    declaration: Box::new(declaration),
                    expression: Box::new(expression),
                    operation: Box::new(operation),
                    block: for_ast,
                },
            ),
            Err(e) => Err(e),
        }
    }

    /// `program := 'main' '(' ')' '{' statement* '}'`. Reads one program from
    /// the position on and stops at the first error. Tokens behind the
    /// closing brace are left unread.
    pub fn parse(&mut self) -> (r: Result<ASTNode, ParseError>)
        requires
            old(self).wf(),
        ensures
            parsed(*old(self), *final(self), r, spec_program(old(self).input(), old(self).state())),
    {
        match self.consume(&Token::Main) {
            Ok(()) => {},
            Err(e) => {
                return Err(e);
            },
        }
        match self.consume(&Token::LParen) {
            Ok(()) => {},
            Err(e) => {
                return Err(e);
            },
        }
        match self.consume(&Token::RParen) {
            Ok(()) => {},
            Err(e) => {
                return Err(e);
            },
        }
        let mut body: Vec<ASTNode> = Vec::new();
        assert(models_in(&body) =~= Seq::<AstModel>::empty());
        match self.parse_braced(&mut body) {
            Ok(()) => Ok(ASTNode::Main { body }),
            Err(e) => Err(e),
        }
    }
}

} // verus!

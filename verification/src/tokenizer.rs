//! The lexer: source text to tokens.
use vstd::prelude::*;
use crate::text::{
    all_digits, chars_of, class_of, classes_of, classify_all, is_alphabetic, is_digit, spells,
    string_of, CharClass,
};

verus! {

/// What a token is, apart from the text it carries.
#[derive(Clone, Copy, Debug, PartialEq, Eq, Structural)]
pub enum TokenKind {
    Plus,
    Minus,
    Multiply,
    Divide,
    LParen,
    RParen,
    LBrace,
    RBrace,
    LBracket,
    RBracket,
    Comma,
    Semicolon,
    Number,
    StringLiteral,
    Identifier,
    Main,
    Print,
    If,
    ElseIf,
    Else,
    For,
    ArrayType,
    StringType,
    IntegerType,
    BooleanType,
    Assignment,
    LessThan,
    LessEqualThan,
    BiggerThan,
    BiggerEqualThan,
    EqualThan,
    DifferentThan,
    Increment,
    Decrement,
}

/// A token as contracts see it: its kind and the text it carries, which is
/// empty for every kind but numbers, string literals and identifiers.
pub struct TokenModel {
    pub kind: TokenKind,
    pub text: Seq<char>,
}

/// A token of the source language.
#[derive(Debug, PartialEq)]
pub enum Token {
    Plus,
    Minus,
    Multiply,
    Divide,
    LParen,
    RParen,
    LBrace,
    RBrace,
    LBracket,
    RBracket,
    Comma,
    Semicolon,
    /// An integer literal, kept as its digits.
    Number(String),
    /// A string literal, without its quotes.
    StringLiteral(String),
    Identifier(String),
    Main,
    Print,
    If,
    ElseIf,
    Else,
    For,
    ArrayType,
    StringType,
    IntegerType,
    BooleanType,
    Assignment,
    LessThan,
    LessEqualThan,
    BiggerThan,
    BiggerEqualThan,
    EqualThan,
    DifferentThan,
    Increment,
    Decrement,
}

/// Why source text could not be split into tokens. Positions count characters
/// from the start of the text.
#[derive(Clone, Copy, Debug, PartialEq, Eq, Structural)]
pub enum LexError {
    /// A character that starts no token.
    UnexpectedCharacter { character: char, position: usize },
    /// A string literal whose opening quote, at `position`, is never closed.
    UnterminatedString { position: usize },
}

/// A token without text.
pub open spec fn bare(kind: TokenKind) -> TokenModel {
    TokenModel { kind, text: Seq::empty() }
}

impl Token {
    pub open spec fn spec_kind(&self) -> TokenKind {
        match self {
            Token::Plus => TokenKind::Plus,
            Token::Minus => TokenKind::Minus,
            Token::Multiply => TokenKind::Multiply,
            Token::Divide => TokenKind::Divide,
            Token::LParen => TokenKind::LParen,
            Token::RParen => TokenKind::RParen,
            Token::LBrace => TokenKind::LBrace,
            Token::RBrace => TokenKind::RBrace,
            Token::LBracket => TokenKind::LBracket,
            Token::RBracket => TokenKind::RBracket,
            Token::Comma => TokenKind::Comma,
            Token::Semicolon => TokenKind::Semicolon,
            Token::Number(_) => TokenKind::Number,
            Token::StringLiteral(_) => TokenKind::StringLiteral,
            Token::Identifier(_) => TokenKind::Identifier,
            Token::Main => TokenKind::Main,
            Token::Print => TokenKind::Print,
            Token::If => TokenKind::If,
            Token::ElseIf => TokenKind::ElseIf,
            Token::Else => TokenKind::Else,
            Token::For => TokenKind::For,
            Token::ArrayType => TokenKind::ArrayType,
            Token::StringType => TokenKind::StringType,
            Token::IntegerType => TokenKind::IntegerType,
            Token::BooleanType => TokenKind::BooleanType,
            Token::Assignment => TokenKind::Assignment,
            Token::LessThan => TokenKind::LessThan,
            Token::LessEqualThan => TokenKind::LessEqualThan,
            Token::BiggerThan => TokenKind::BiggerThan,
            Token::BiggerEqualThan => TokenKind::BiggerEqualThan,
            Token::EqualThan => TokenKind::EqualThan,
            Token::DifferentThan => TokenKind::DifferentThan,
            Token::Increment => TokenKind::Increment,
            Token::Decrement => TokenKind::Decrement,
        }
    }

    pub open spec fn spec_text(&self) -> Seq<char> {
        match self {
            Token::Number(s) => s@,
            Token::StringLiteral(s) => s@,
            Token::Identifier(s) => s@,
            _ => Seq::empty(),
        }
    }
}

impl View for Token {
    type V = TokenModel;

    open spec fn view(&self) -> TokenModel {
        TokenModel { kind: self.spec_kind(), text: self.spec_text() }
    }
}

impl Clone for Token {
    fn clone(&self) -> (r: Self)
        ensures
            r@ == self@,
    {
        match self {
            Token::Plus => Token::Plus,
            Token::Minus => Token::Minus,
            Token::Multiply => Token::Multiply,
            Token::Divide => Token::Divide,
            Token::LParen => Token::LParen,
            Token::RParen => Token::RParen,
            Token::LBrace => Token::LBrace,
            Token::RBrace => Token::RBrace,
            Token::LBracket => Token::LBracket,
            Token::RBracket => Token::RBracket,
            Token::Comma => Token::Comma,
            Token::Semicolon => Token::Semicolon,
            Token::Number(s) => Token::Number(s.clone()),
            Token::StringLiteral(s) => Token::StringLiteral(s.clone()),
            Token::Identifier(s) => Token::Identifier(s.clone()),
            Token::Main => Token::Main,
            Token::Print => Token::Print,
            Token::If => Token::If,
            Token::ElseIf => Token::ElseIf,
            Token::Else => Token::Else,
            Token::For => Token::For,
            Token::ArrayType => Token::ArrayType,
            Token::StringType => Token::StringType,
            Token::IntegerType => Token::IntegerType,
            Token::BooleanType => Token::BooleanType,
            Token::Assignment => Token::Assignment,
            Token::LessThan => Token::LessThan,
            Token::LessEqualThan => Token::LessEqualThan,
            Token::BiggerThan => Token::BiggerThan,
            Token::BiggerEqualThan => Token::BiggerEqualThan,
            Token::EqualThan => Token::EqualThan,
            Token::DifferentThan => Token::DifferentThan,
            Token::Increment => Token::Increment,
            Token::Decrement => Token::Decrement,
        }
    }
}

/// The models of a sequence of tokens, in order.
pub open spec fn models(tokens: Seq<Token>) -> Seq<TokenModel> {
    Seq::new(tokens.len(), |i: int| tokens[i]@)
}

/// Appending a token appends its model.
pub proof fn lemma_models_push(tokens: Seq<Token>, token: Token)
    ensures
        models(tokens.push(token)) == models(tokens).push(token@),
{
    assert(models(tokens.push(token)) =~= models(tokens).push(token@));
}

/// One step of the lexer: the token it found, if the text it passed over is
/// one, and the position behind that text.
pub struct Lexeme {
    pub token: Option<TokenModel>,
    pub next: int,
}

/// `acc` with the token of a step behind it, if the step found one.
pub open spec fn extend(acc: Seq<TokenModel>, token: Option<TokenModel>) -> Seq<TokenModel> {
    match token {
        Some(t) => acc.push(t),
        None => acc,
    }
}

/// Where the run of digits that starts at `pos` ends.
pub open spec fn digits_end(chars: Seq<char>, pos: int) -> int
    decreases chars.len() - pos,
{
    if 0 <= pos < chars.len() && is_digit(chars[pos]) {
        digits_end(chars, pos + 1)
    } else {
        pos
    }
}

/// A text as the lexer reads it: its characters, and the class of each.
pub struct Text {
    pub chars: Seq<char>,
    pub classes: Seq<CharClass>,
}

/// A text with the classes that its characters have.
pub open spec fn classified(chars: Seq<char>) -> Text {
    Text { chars, classes: classes_of(chars) }
}

/// Whether the character at `pos` exists and may stand in a word.
pub open spec fn word_char_at(text: Text, pos: int) -> bool {
    0 <= pos < text.chars.len() && pos < text.classes.len() && text.classes[pos]
        != CharClass::Other
}

/// Whether the character at `pos` exists and is a letter.
pub open spec fn letter_at(text: Text, pos: int) -> bool {
    0 <= pos < text.chars.len() && pos < text.classes.len() && text.classes[pos]
        == CharClass::Letter
}

/// Where the run of letters and number characters that starts at `pos` ends.
pub open spec fn word_end(text: Text, pos: int) -> int
    decreases text.chars.len() - pos,
{
    if word_char_at(text, pos) {
        word_end(text, pos + 1)
    } else {
        pos
    }
}

/// The position of the first double quote at or behind `pos`.
pub open spec fn closing_quote(chars: Seq<char>, pos: int) -> Option<int>
    decreases chars.len() - pos,
{
    if pos < 0 || pos >= chars.len() {
        None
    } else if chars[pos] == '"' {
        Some(pos)
    } else {
        closing_quote(chars, pos + 1)
    }
}

/// The token that a word stands for: a keyword, or else an identifier that
/// carries the word.
pub open spec fn word_token(word: Seq<char>) -> TokenModel {
    if word == "main"@ {
        bare(TokenKind::Main)
    } else if word == "if"@ {
        bare(TokenKind::If)
    } else if word == "elseif"@ {
        bare(TokenKind::ElseIf)
    } else if word == "else"@ {
        bare(TokenKind::Else)
    } else if word == "for"@ {
        bare(TokenKind::For)
    } else if word == "print"@ {
        bare(TokenKind::Print)
    } else if word == "array"@ {
        bare(TokenKind::ArrayType)
    } else if word == "string"@ {
        bare(TokenKind::StringType)
    } else if word == "integer"@ {
        bare(TokenKind::IntegerType)
    } else if word == "boolean"@ {
        bare(TokenKind::BooleanType)
    } else {
        TokenModel { kind: TokenKind::Identifier, text: word }
    }
}

/// Whether the character at `pos` exists and is `c`.
pub open spec fn char_at_is(chars: Seq<char>, pos: int, c: char) -> bool {
    0 <= pos < chars.len() && chars[pos] == c
}

/// A number: the longest run of digits at `pos`.
pub open spec fn number_step(chars: Seq<char>, pos: int) -> Lexeme {
    let end = digits_end(chars, pos);
    Lexeme {
        token: Some(TokenModel { kind: TokenKind::Number, text: chars.subrange(pos, end) }),
        next: end,
    }
}

/// An arithmetic operator, or `++` / `--` where the sign is doubled. At the
/// end of the text nothing happens; any other character is passed over.
pub open spec fn operator_step(chars: Seq<char>, pos: int) -> Lexeme {
    if !(0 <= pos < chars.len()) {
        Lexeme { token: None, next: pos }
    } else if chars[pos] == '+' {
        if char_at_is(chars, pos + 1, '+') {
            Lexeme { token: Some(bare(TokenKind::Increment)), next: pos + 2 }
        } else {
            Lexeme { token: Some(bare(TokenKind::Plus)), next: pos + 1 }
        }
    } else if chars[pos] == '-' {
        if char_at_is(chars, pos + 1, '-') {
            Lexeme { token: Some(bare(TokenKind::Decrement)), next: pos + 2 }
        } else {
            Lexeme { token: Some(bare(TokenKind::Minus)), next: pos + 1 }
        }
    } else if chars[pos] == '*' {
        Lexeme { token: Some(bare(TokenKind::Multiply)), next: pos + 1 }
    } else if chars[pos] == '/' {
        Lexeme { token: Some(bare(TokenKind::Divide)), next: pos + 1 }
    } else {
        Lexeme { token: None, next: pos + 1 }
    }
}

/// What `first`, optionally followed by `=`, stands for at `pos`, where
/// `chars[pos]` is `first`.
pub open spec fn with_equals(chars: Seq<char>, pos: int, alone: TokenKind, paired: TokenKind)
    -> Lexeme {
    if char_at_is(chars, pos + 1, '=') {
        Lexeme { token: Some(bare(paired)), next: pos + 2 }
    } else {
        Lexeme { token: Some(bare(alone)), next: pos + 1 }
    }
}

/// A grouping symbol, white space, `=`, a relational operator or `!=`. A `!`
/// that no `=` follows is an error. At the end of the text nothing happens;
/// any other character is passed over.
pub open spec fn symbol_step(chars: Seq<char>, pos: int) -> Result<Lexeme, LexError> {
    if !(0 <= pos < chars.len()) {
        Ok(Lexeme { token: None, next: pos })
    } else {
        let c = chars[pos];
        if c == '(' {
            Ok(Lexeme { token: Some(bare(TokenKind::LParen)), next: pos + 1 })
        } else if c == ')' {
            Ok(Lexeme { token: Some(bare(TokenKind::RParen)), next: pos + 1 })
        } else if c == '{' {
            Ok(Lexeme { token: Some(bare(TokenKind::LBrace)), next: pos + 1 })
        } else if c == '}' {
            Ok(Lexeme { token: Some(bare(TokenKind::RBrace)), next: pos + 1 })
        } else if c == '[' {
            Ok(Lexeme { token: Some(bare(TokenKind::LBracket)), next: pos + 1 })
        } else if c == ']' {
            Ok(Lexeme { token: Some(bare(TokenKind::RBracket)), next: pos + 1 })
        } else if c == ',' {
            Ok(Lexeme { token: Some(bare(TokenKind::Comma)), next: pos + 1 })
        } else if c == ';' {
            Ok(Lexeme { token: Some(bare(TokenKind::Semicolon)), next: pos + 1 })
        } else if c == '=' {
            Ok(with_equals(chars, pos, TokenKind::Assignment, TokenKind::EqualThan))
        } else if c == '>' {
            Ok(with_equals(chars, pos, TokenKind::BiggerThan, TokenKind::BiggerEqualThan))
        } else if c == '<' {
            Ok(with_equals(chars, pos, TokenKind::LessThan, TokenKind::LessEqualThan))
        } else if c == '!' {
            if char_at_is(chars, pos + 1, '=') {
                Ok(Lexeme { token: Some(bare(TokenKind::DifferentThan)), next: pos + 2 })
            } else {
                Err(LexError::UnexpectedCharacter { character: '!', position: pos as usize })
            }
        } else {
            Ok(Lexeme { token: None, next: pos + 1 })
        }
    }
}

/// A string literal whose opening quote stands at `pos`: everything up to the
/// next double quote, with no escapes. Without a closing quote it is an error.
pub open spec fn string_step(chars: Seq<char>, pos: int) -> Result<Lexeme, LexError> {
    match closing_quote(chars, pos + 1) {
        Some(end) => Ok(
            Lexeme {
                token: Some(
                    TokenModel {
                        kind: TokenKind::StringLiteral,
                        text: chars.subrange(pos + 1, end),
                    },
                ),
                next: end + 1,
            },
        ),
        None => Err(LexError::UnterminatedString { position: pos as usize }),
    }
}

/// A keyword or an identifier: the longest run of word characters at `pos`.
pub open spec fn word_step(text: Text, pos: int) -> Lexeme {
    let end = word_end(text, pos);
    Lexeme { token: Some(word_token(text.chars.subrange(pos, end))), next: end }
}

/// Whether `c` starts an arithmetic operator.
pub open spec fn starts_operator(c: char) -> bool {
    c == '+' || c == '-' || c == '*' || c == '/'
}

/// Whether `c` is white space or starts a symbol.
pub open spec fn starts_symbol(c: char) -> bool {
    c == '(' || c == ')' || c == '{' || c == '}' || c == '[' || c == ']' || c == ',' || c == ';'
        || c == ' ' || c == '\t' || c == '\n' || c == '=' || c == '<' || c == '>' || c == '!'
}

/// The step that the character at `pos` calls for, with `pos` inside the text.
pub open spec fn lex_step(text: Text, pos: int) -> Result<Lexeme, LexError> {
    let chars = text.chars;
    let c = chars[pos];
    if is_digit(c) {
        Ok(number_step(chars, pos))
    } else if starts_operator(c) {
        Ok(operator_step(chars, pos))
    } else if starts_symbol(c) {
        symbol_step(chars, pos)
    } else if c == '"' {
        string_step(chars, pos)
    } else if letter_at(text, pos) {
        Ok(word_step(text, pos))
    } else {
        Err(LexError::UnexpectedCharacter { character: c, position: pos as usize })
    }
}

/// The tokens of the text from `pos` on, behind those in `acc`; or the first
/// error met.
pub open spec fn lex_from(text: Text, pos: int, acc: Seq<TokenModel>) -> Result<
    Seq<TokenModel>,
    LexError,
>
    decreases text.chars.len() - pos,
{
    if pos < 0 || pos >= text.chars.len() {
        Ok(acc)
    } else {
        match lex_step(text, pos) {
            Err(e) => Err(e),
            Ok(lexeme) => {
                proof {
                    lemma_step_advances(text, pos);
                }
                lex_from(text, lexeme.next, extend(acc, lexeme.token))
            },
        }
    }
}

/// The tokens of a whole text, or the first error met: a letter is what is
/// alphabetic, and a word goes on through what is alphabetic or
/// alphanumeric.
pub open spec fn spec_tokenize(chars: Seq<char>) -> Result<Seq<TokenModel>, LexError> {
    lex_from(classified(chars), 0, Seq::empty())
}

/// A run of digits ends at or behind its start, inside the text.
pub proof fn lemma_digits_end_bounds(chars: Seq<char>, pos: int)
    requires
        0 <= pos <= chars.len(),
    ensures
        pos <= digits_end(chars, pos) <= chars.len(),
        0 <= pos < chars.len() && is_digit(chars[pos]) ==> pos < digits_end(chars, pos),
    decreases chars.len() - pos,
{
    if pos < chars.len() && is_digit(chars[pos]) {
        lemma_digits_end_bounds(chars, pos + 1);
    }
}

/// A run of word characters ends at or behind its start, inside the text.
pub proof fn lemma_word_end_bounds(text: Text, pos: int)
    requires
        0 <= pos <= text.chars.len(),
    ensures
        pos <= word_end(text, pos) <= text.chars.len(),
        word_char_at(text, pos) ==> pos < word_end(text, pos),
    decreases text.chars.len() - pos,
{
    if word_char_at(text, pos) {
        lemma_word_end_bounds(text, pos + 1);
    }
}

/// A closing quote, where there is one, stands at or behind the start of the
/// search, inside the text.
pub proof fn lemma_closing_quote_bounds(chars: Seq<char>, pos: int)
    requires
        0 <= pos,
    ensures
        closing_quote(chars, pos) matches Some(end) ==> pos <= end < chars.len() && chars[end]
            == '"',
    decreases chars.len() - pos,
{
    if pos < chars.len() && chars[pos] != '"' {
        lemma_closing_quote_bounds(chars, pos + 1);
    }
}

/// Every step that succeeds inside the text moves forward and stays inside.
pub proof fn lemma_step_advances(text: Text, pos: int)
    requires
        0 <= pos < text.chars.len(),
    ensures
        lex_step(text, pos) matches Ok(lexeme) ==> pos < lexeme.next <= text.chars.len(),
{
    lemma_digits_end_bounds(text.chars, pos);
    lemma_word_end_bounds(text, pos);
    lemma_closing_quote_bounds(text.chars, pos + 1);
}

/// Every character of a run of digits is a digit.
pub proof fn lemma_digits_run(chars: Seq<char>, pos: int)
    requires
        0 <= pos <= chars.len(),
    ensures
        forall|i: int| pos <= i < digits_end(chars, pos) ==> is_digit(#[trigger] chars[i]),
    decreases chars.len() - pos,
{
    if pos < chars.len() && is_digit(chars[pos]) {
        lemma_digits_run(chars, pos + 1);
    }
}

/// Every character of a run of word characters is a word character.
pub proof fn lemma_word_run(text: Text, pos: int)
    requires
        0 <= pos <= text.chars.len(),
    ensures
        forall|i: int| pos <= i < word_end(text, pos) ==> #[trigger] word_char_at(text, i),
    decreases text.chars.len() - pos,
{
    if word_char_at(text, pos) {
        lemma_word_run(text, pos + 1);
    }
}

/// No double quote stands before the closing quote.
pub proof fn lemma_string_run(chars: Seq<char>, pos: int)
    requires
        0 <= pos,
    ensures
        closing_quote(chars, pos) matches Some(end) ==> forall|i: int|
            pos <= i < end ==> #[trigger] chars[i] != '"',
    decreases chars.len() - pos,
{
    if pos < chars.len() && chars[pos] != '"' {
        lemma_string_run(chars, pos + 1);
    }
}

/// What holds of every token that the lexer hands out: a number is a run of
/// digits, at least one; an identifier is a word that starts with a letter
/// and is no keyword; a string literal holds no double quote; any other
/// token carries no text.
pub open spec fn well_formed(token: TokenModel) -> bool {
    match token.kind {
        TokenKind::Number => token.text.len() > 0 && all_digits(token.text),
        TokenKind::Identifier => {
            &&& token.text.len() > 0
            &&& is_alphabetic(token.text[0])
            &&& forall|i: int|
                0 <= i < token.text.len() ==> class_of(#[trigger] token.text[i])
                    != CharClass::Other
            &&& word_token(token.text) == token
        },
        TokenKind::StringLiteral => forall|i: int|
            0 <= i < token.text.len() ==> #[trigger] token.text[i] != '"',
        _ => token.text.len() == 0,
    }
}

/// The token of a step is well formed.
pub proof fn lemma_step_token_well_formed(chars: Seq<char>, pos: int)
    requires
        0 <= pos < chars.len(),
    ensures
        lex_step(classified(chars), pos) matches Ok(lexeme) ==> (lexeme.token matches Some(
            token,
        ) ==> well_formed(token)),
{
    let text = classified(chars);
    lemma_digits_end_bounds(chars, pos);
    lemma_digits_run(chars, pos);
    lemma_word_end_bounds(text, pos);
    lemma_word_run(text, pos);
    lemma_closing_quote_bounds(chars, pos + 1);
    lemma_string_run(chars, pos + 1);
    if letter_at(text, pos) {
        let end = word_end(text, pos);
        let word = chars.subrange(pos, end);
        assert forall|i: int| 0 <= i < word.len() implies class_of(#[trigger] word[i])
            != CharClass::Other by {
            assert(word_char_at(text, pos + i));
        }
    }
}

/// Where the tokens in `acc` are well formed, so are those that the lexer
/// puts behind them.
pub proof fn lemma_lexed_tokens_well_formed(chars: Seq<char>, pos: int, acc: Seq<TokenModel>)
    requires
        forall|i: int| 0 <= i < acc.len() ==> well_formed(#[trigger] acc[i]),
    ensures
        lex_from(classified(chars), pos, acc) matches Ok(tokens) ==> forall|i: int|
            0 <= i < tokens.len() ==> well_formed(#[trigger] tokens[i]),
    decreases chars.len() - pos,
{
    let text = classified(chars);
    if 0 <= pos < chars.len() {
        lemma_step_advances(text, pos);
        lemma_step_token_well_formed(chars, pos);
        match lex_step(text, pos) {
            Ok(lexeme) => {
                lemma_lexed_tokens_well_formed(chars, lexeme.next, extend(acc, lexeme.token));
            },
            Err(_) => {},
        }
    }
}

/// Every token of a text is well formed.
pub proof fn lemma_tokens_well_formed(chars: Seq<char>)
    ensures
        spec_tokenize(chars) matches Ok(tokens) ==> forall|i: int|
            0 <= i < tokens.len() ==> well_formed(#[trigger] tokens[i]),
{
    lemma_lexed_tokens_well_formed(chars, 0, Seq::empty());
}

/// An error of the lexer names a position inside the text, and where it
/// names a character, that character stands at the position.
pub open spec fn error_within(chars: Seq<char>, error: LexError) -> bool {
    match error {
        LexError::UnexpectedCharacter { character, position } => position < chars.len()
            && chars[position as int] == character,
        LexError::UnterminatedString { position } => position < chars.len() && chars[
            position as int
        ] == '"',
    }
}

/// Where a text that fits in memory does not lex, the error names a
/// position inside it.
pub proof fn lemma_error_within(text: Text, pos: int, acc: Seq<TokenModel>)
    requires
        text.chars.len() <= usize::MAX,
    ensures
        lex_from(text, pos, acc) matches Err(error) ==> error_within(text.chars, error),
    decreases text.chars.len() - pos,
{
    if 0 <= pos < text.chars.len() {
        lemma_step_advances(text, pos);
        match lex_step(text, pos) {
            Ok(lexeme) => {
                lemma_error_within(text, lexeme.next, extend(acc, lexeme.token));
            },
            Err(_) => {},
        }
    }
}

/// The first character, in reading order from `pos` on, at which a text
/// does not lex; none where it lexes. The text is read character by
/// character: inside a word (`in_word`) every letter and number character
/// is in order; elsewhere a digit, a character of an operator, a grouping
/// character, white space, `=`, `<` and `>` are in order, a `!` is in order
/// before a `=`, a double quote is in order where another one closes the
/// literal, whose text is passed over, and a letter is in order and starts a
/// word. Any other character is the error, as is a `!` without `=` and a
/// double quote that is never closed.
pub open spec fn first_error(text: Text, pos: int, in_word: bool) -> Option<LexError>
    decreases text.chars.len() - pos,
{
    let chars = text.chars;
    if pos < 0 || pos >= chars.len() {
        None
    } else if in_word && word_char_at(text, pos) {
        first_error(text, pos + 1, true)
    } else {
        let c = chars[pos];
        if is_digit(c) || starts_operator(c) {
            first_error(text, pos + 1, false)
        } else if starts_symbol(c) {
            if c == '!' && !char_at_is(chars, pos + 1, '=') {
                Some(LexError::UnexpectedCharacter { character: '!', position: pos as usize })
            } else {
                first_error(text, pos + 1, false)
            }
        } else if c == '"' {
            match closing_quote(chars, pos + 1) {
                Some(end) => {
                    proof {
                        lemma_closing_quote_bounds(chars, pos + 1);
                    }
                    first_error(text, end + 1, false)
                },
                None => Some(LexError::UnterminatedString { position: pos as usize }),
            }
        } else if letter_at(text, pos) {
            first_error(text, pos + 1, true)
        } else {
            Some(LexError::UnexpectedCharacter { character: c, position: pos as usize })
        }
    }
}

/// Reading a run of digits character by character leads to its end.
pub proof fn lemma_first_error_behind_digits(text: Text, pos: int)
    requires
        0 <= pos <= text.chars.len(),
    ensures
        first_error(text, pos, false) == first_error(
            text,
            digits_end(text.chars, pos),
            false,
        ),
    decreases text.chars.len() - pos,
{
    if pos < text.chars.len() && is_digit(text.chars[pos]) {
        lemma_first_error_behind_digits(text, pos + 1);
    }
}

/// Reading a word character by character leads to its end.
pub proof fn lemma_first_error_behind_word(text: Text, pos: int)
    requires
        0 <= pos <= text.chars.len(),
    ensures
        first_error(text, pos, true) == first_error(text, word_end(text, pos), false),
    decreases text.chars.len() - pos,
{
    if word_char_at(text, pos) {
        lemma_first_error_behind_word(text, pos + 1);
    }
}

/// A step that succeeds passes over characters that are in order; a step
/// that fails does so with the error of its first character.
pub proof fn lemma_first_error_behind_step(text: Text, pos: int)
    requires
        0 <= pos < text.chars.len(),
    ensures
        match lex_step(text, pos) {
            Ok(lexeme) => first_error(text, pos, false) == first_error(
                text,
                lexeme.next,
                false,
            ),
            Err(e) => first_error(text, pos, false) == Some(e),
        },
{
    let chars = text.chars;
    let c = chars[pos];
    if is_digit(c) {
        lemma_first_error_behind_digits(text, pos);
    } else if starts_operator(c) {
        if (c == '+' && char_at_is(chars, pos + 1, '+')) || (c == '-' && char_at_is(
            chars,
            pos + 1,
            '-',
        )) {
            assert(first_error(text, pos + 1, false) == first_error(text, pos + 2, false));
        }
    } else if starts_symbol(c) {
        if (c == '=' || c == '<' || c == '>' || c == '!') && char_at_is(chars, pos + 1, '=') {
            assert(first_error(text, pos + 1, false) == first_error(text, pos + 2, false));
        }
    } else if c == '"' {
        lemma_closing_quote_bounds(chars, pos + 1);
    } else if letter_at(text, pos) {
        lemma_first_error_behind_word(text, pos + 1);
    }
}

/// The lexer fails exactly where reading the text character by character
/// meets an error, and with that error, the first in reading order; where
/// there is none, it succeeds.
pub proof fn lemma_lexing_stops_at_first_error(text: Text, pos: int, acc: Seq<TokenModel>)
    ensures
        match first_error(text, pos, false) {
            None => lex_from(text, pos, acc) is Ok,
            Some(e) => lex_from(text, pos, acc) == Err::<Seq<TokenModel>, LexError>(e),
        },
    decreases text.chars.len() - pos,
{
    if 0 <= pos < text.chars.len() {
        lemma_step_advances(text, pos);
        lemma_first_error_behind_step(text, pos);
        match lex_step(text, pos) {
            Ok(lexeme) => {
                lemma_lexing_stops_at_first_error(text, lexeme.next, extend(acc, lexeme.token));
            },
            Err(_) => {},
        }
    }
}

/// A text has tokens exactly where, read character by character with the
/// class that each character has, it holds no error; else the lexer gives
/// the first error in reading order, and no tokens.
pub proof fn lemma_tokenize_stops_at_first_error(chars: Seq<char>)
    ensures
        match first_error(classified(chars), 0, false) {
            None => spec_tokenize(chars) is Ok,
            Some(e) => spec_tokenize(chars) == Err::<Seq<TokenModel>, LexError>(e),
        },
{
    lemma_lexing_stops_at_first_error(classified(chars), 0, Seq::empty());
}

/// The characters of a text, the class of each, and the position up to
/// which they have been read.
pub struct CharStream {
    pub chars: Vec<char>,
    pub classes: Vec<CharClass>,
    pub pos: usize,
}

impl CharStream {
    /// Every character has a class, and the position lies inside the text or
    /// at its end.
    pub open spec fn wf(&self) -> bool {
        self.pos <= self.chars.len() && self.classes.len() == self.chars.len()
    }

    /// The text of the stream.
    pub open spec fn text(&self) -> Text {
        Text { chars: self.chars@, classes: self.classes@ }
    }

    /// A stream at the start of `input`, with the class that each character
    /// has.
    pub fn new(input: &str) -> (s: Self)
        ensures
            s.wf(),
            s.text() == classified(input@),
            s.pos == 0,
    {
        let chars = chars_of(input);
        let classes = classify_all(&chars);
        CharStream { chars, classes, pos: 0 }
    }

    /// The class of the character at the position, if the text has not
    /// ended.
    pub fn peek_class(&self) -> (c: Option<CharClass>)
        ensures
            c == if self.pos < self.classes.len() {
                Some(self.classes@[self.pos as int])
            } else {
                None::<CharClass>
            },
    {
        if self.pos < self.classes.len() {
            Some(self.classes[self.pos])
        } else {
            None
        }
    }

    /// The character at the position, if the text has not ended.
    pub fn peek(&self) -> (c: Option<char>)
        ensures
            c == if self.pos < self.chars.len() {
                Some(self.chars@[self.pos as int])
            } else {
                None::<char>
            },
    {
        if self.pos < self.chars.len() {
            Some(self.chars[self.pos])
        } else {
            None
        }
    }

    /// The character behind the one at the position, if there is one.
    pub fn peek_second(&self) -> (c: Option<char>)
        ensures
            c == if self.pos + 1 < self.chars.len() {
                Some(self.chars@[self.pos + 1])
            } else {
                None::<char>
            },
    {
        if self.pos < self.chars.len() && self.pos + 1 < self.chars.len() {
            Some(self.chars[self.pos + 1])
        } else {
            None
        }
    }

    /// Hands out the character at the position and moves behind it; at the
    /// end of the text nothing moves.
    pub fn next_char(&mut self) -> (c: Option<char>)
        ensures
            old(self).wf() ==> final(self).wf(),
            final(self).chars == old(self).chars,
            final(self).classes == old(self).classes,
            c == if old(self).pos < old(self).chars.len() {
                Some(old(self).chars@[old(self).pos as int])
            } else {
                None::<char>
            },
            final(self).pos == if old(self).pos < old(self).chars.len() {
                old(self).pos + 1
            } else {
                old(self).pos as int
            },
    {
        if self.pos < self.chars.len() {
            let c = self.chars[self.pos];
            self.pos = self.pos + 1;
            Some(c)
        } else {
            None
        }
    }
}

/// What a step leaves behind: the text untouched, the position behind the
/// lexeme, and the lexeme's token, if any, at the end of the tokens.
pub open spec fn stepped(
    tokens_before: Seq<Token>,
    stream_before: CharStream,
    tokens_after: Seq<Token>,
    stream_after: CharStream,
    lexeme: Lexeme,
) -> bool {
    &&& stream_after.wf()
    &&& stream_after.chars == stream_before.chars
    &&& stream_after.classes == stream_before.classes
    &&& stream_after.pos == lexeme.next
    &&& models(tokens_after) == extend(models(tokens_before), lexeme.token)
}

/// Nothing moved and no token was added.
pub open spec fn untouched(
    tokens_before: Seq<Token>,
    stream_before: CharStream,
    tokens_after: Seq<Token>,
    stream_after: CharStream,
) -> bool {
    &&& stream_after.chars == stream_before.chars
    &&& stream_after.classes == stream_before.classes
    &&& stream_after.pos == stream_before.pos
    &&& tokens_after == tokens_before
}

fn push_token(tokens: &mut Vec<Token>, token: Token)
    ensures
        final(tokens)@ == old(tokens)@.push(token),
        models(final(tokens)@) == models(old(tokens)@).push(token@),
{
    proof {
        lemma_models_push(tokens@, token);
    }
    tokens.push(token);
}

impl Token {
    /// The kind of the token.
    pub fn kind(&self) -> (k: TokenKind)
        ensures
            k == self@.kind,
    {
        match self {
            Token::Plus => TokenKind::Plus,
            Token::Minus => TokenKind::Minus,
            Token::Multiply => TokenKind::Multiply,
            Token::Divide => TokenKind::Divide,
            Token::LParen => TokenKind::LParen,
            Token::RParen => TokenKind::RParen,
            Token::LBrace => TokenKind::LBrace,
            Token::RBrace => TokenKind::RBrace,
            Token::LBracket => TokenKind::LBracket,
            Token::RBracket => TokenKind::RBracket,
            Token::Comma => TokenKind::Comma,
            Token::Semicolon => TokenKind::Semicolon,
            Token::Number(_) => TokenKind::Number,
            Token::StringLiteral(_) => TokenKind::StringLiteral,
            Token::Identifier(_) => TokenKind::Identifier,
            Token::Main => TokenKind::Main,
            Token::Print => TokenKind::Print,
            Token::If => TokenKind::If,
            Token::ElseIf => TokenKind::ElseIf,
            Token::Else => TokenKind::Else,
            Token::For => TokenKind::For,
            Token::ArrayType => TokenKind::ArrayType,
            Token::StringType => TokenKind::StringType,
            Token::IntegerType => TokenKind::IntegerType,
            Token::BooleanType => TokenKind::BooleanType,
            Token::Assignment => TokenKind::Assignment,
            Token::LessThan => TokenKind::LessThan,
            Token::LessEqualThan => TokenKind::LessEqualThan,
            Token::BiggerThan => TokenKind::BiggerThan,
            Token::BiggerEqualThan => TokenKind::BiggerEqualThan,
            Token::EqualThan => TokenKind::EqualThan,
            Token::DifferentThan => TokenKind::DifferentThan,
            Token::Increment => TokenKind::Increment,
            Token::Decrement => TokenKind::Decrement,
        }
    }

    /// Splits `input` into tokens by longest match, skipping white space, and
    /// stops at the first character that starts no token or at a string
    /// literal that is never closed.
    pub fn tokenizer(input: &str) -> (r: Result<Vec<Token>, LexError>)
        ensures
            match spec_tokenize(input@) {
                Ok(expected) => r matches Ok(tokens) && models(tokens@) == expected,
                Err(e) => r == Err::<Vec<Token>, LexError>(e),
            },
            match first_error(classified(input@), 0, false) {
                None => r is Ok,
                Some(e) => r == Err::<Vec<Token>, LexError>(e),
            },
    {
        proof {
            lemma_tokenize_stops_at_first_error(input@);
        }
        let mut chars = CharStream::new(input);
        Token::tokenize_stream(&mut chars)
    }

    /// Splits the text of a stream, from its position on, into tokens by
    /// longest match. What a letter is and how far a word goes is taken from
    /// the classes that the stream holds.
    pub fn tokenize_stream(chars: &mut CharStream) -> (r: Result<Vec<Token>, LexError>)
        requires
            old(chars).wf(),
        ensures
            final(chars).wf(),
            final(chars).text() == old(chars).text(),
            match lex_from(old(chars).text(), old(chars).pos as int, Seq::empty()) {
                Ok(expected) => r matches Ok(tokens) && models(tokens@) == expected
                    && final(chars).pos == final(chars).chars.len(),
                Err(e) => r == Err::<Vec<Token>, LexError>(e),
            },
            match first_error(old(chars).text(), old(chars).pos as int, false) {
                None => r is Ok,
                Some(e) => r == Err::<Vec<Token>, LexError>(e),
            },
    {
        proof {
            lemma_lexing_stops_at_first_error(chars.text(), chars.pos as int, Seq::empty());
        }
        let mut tokens: Vec<Token> = Vec::new();
        assert(models(tokens@) =~= Seq::<TokenModel>::empty());
        loop
            invariant
                chars.wf(),
                chars.text() == old(chars).text(),
                lex_from(old(chars).text(), old(chars).pos as int, Seq::empty()) == lex_from(
                    chars.text(),
                    chars.pos as int,
                    models(tokens@),
                ),
                match first_error(old(chars).text(), old(chars).pos as int, false) {
                    None => lex_from(old(chars).text(), old(chars).pos as int, Seq::empty())
                        is Ok,
                    Some(e) => lex_from(old(chars).text(), old(chars).pos as int, Seq::empty())
                        == Err::<Seq<TokenModel>, LexError>(e),
                },
            decreases chars.chars.len() - chars.pos,
        {
            let ch: char = match chars.peek() {
                Some(ch) => ch,
                None => {
                    return Ok(tokens);
                },
            };
            proof {
                lemma_step_advances(chars.text(), chars.pos as int);
            }
            if ch >= '0' && ch <= '9' {
                Token::tokenizer_numbers(&mut tokens, chars);
            } else if ch == '+' || ch == '-' || ch == '*' || ch == '/' {
                Token::tokenizer_math_operators(&mut tokens, chars);
            } else if ch == '(' || ch == ')' || ch == '{' || ch == '}' || ch == '[' || ch == ']'
                || ch == ',' || ch == ';' || ch == ' ' || ch == '\t' || ch == '\n' || ch == '='
                || ch == '<' || ch == '>' || ch == '!' {
                match Token::tokenizer_symbols(&mut tokens, chars) {
                    Ok(()) => {},
                    Err(e) => {
                        return Err(e);
                    },
                }
            } else if ch == '"' {
                match Token::tokenizer_string_literal(&mut tokens, chars) {
                    Ok(()) => {},
                    Err(e) => {
                        return Err(e);
                    },
                }
            } else if chars.peek_class() == Some(CharClass::Letter) {
                Token::tokenizer_keywords(&mut tokens, chars);
            } else {
                return Err(LexError::UnexpectedCharacter { character: ch, position: chars.pos });
            }
        }
    }

    /// The token that a word stands for: a keyword, or else an identifier
    /// that carries the word.
    pub fn keyword_or_identifier(chars: &Vec<char>, start: usize, end: usize) -> (token: Token)
        requires
            start <= end <= chars.len(),
        ensures
            token@ == word_token(chars@.subrange(start as int, end as int)),
    {
        if spells(chars, start, end, "main") {
            Token::Main
        } else if spells(chars, start, end, "if") {
            Token::If
        } else if spells(chars, start, end, "elseif") {
            Token::ElseIf
        } else if spells(chars, start, end, "else") {
            Token::Else
        } else if spells(chars, start, end, "for") {
            Token::For
        } else if spells(chars, start, end, "print") {
            Token::Print
        } else if spells(chars, start, end, "array") {
            Token::ArrayType
        } else if spells(chars, start, end, "string") {
            Token::StringType
        } else if spells(chars, start, end, "integer") {
            Token::IntegerType
        } else if spells(chars, start, end, "boolean") {
            Token::BooleanType
        } else {
            Token::Identifier(string_of(chars, start, end))
        }
    }

    /// Reads the longest run of digits at the position and adds it as a
    /// number, even where the run is empty.
    pub fn tokenizer_numbers(tokens: &mut Vec<Token>, chars: &mut CharStream)
        requires
            old(chars).wf(),
        ensures
            stepped(
                old(tokens)@,
                *old(chars),
                final(tokens)@,
                *final(chars),
                number_step(old(chars).chars@, old(chars).pos as int),
            ),
    {
        let start: usize = chars.pos;
        while chars.pos < chars.chars.len() && chars.chars[chars.pos] >= '0'
            && chars.chars[chars.pos] <= '9'
            invariant
                chars.wf(),
                chars.chars == old(chars).chars,
                chars.classes == old(chars).classes,
                start <= chars.pos,
                start == old(chars).pos,
                digits_end(chars.chars@, chars.pos as int) == digits_end(
                    chars.chars@,
                    start as int,
                ),
            decreases chars.chars.len() - chars.pos,
        {
            chars.pos = chars.pos + 1;
        }
        let num = string_of(&chars.chars, start, chars.pos);
        push_token(tokens, Token::Number(num));
    }

    /// Reads one arithmetic operator, or `++` / `--`.
    pub fn tokenizer_math_operators(tokens: &mut Vec<Token>, chars: &mut CharStream)
        requires
            old(chars).wf(),
        ensures
            stepped(
                old(tokens)@,
                *old(chars),
                final(tokens)@,
                *final(chars),
                operator_step(old(chars).chars@, old(chars).pos as int),
            ),
    {
        match chars.next_char() {
            Some(ch) => {
                if ch == '+' {
                    if chars.peek() == Some('+') {
                        chars.next_char();
                        push_token(tokens, Token::Increment);
                    } else {
                        push_token(tokens, Token::Plus);
                    }
                } else if ch == '-' {
                    if chars.peek() == Some('-') {
                        chars.next_char();
                        push_token(tokens, Token::Decrement);
                    } else {
                        push_token(tokens, Token::Minus);
                    }
                } else if ch == '*' {
                    push_token(tokens, Token::Multiply);
                } else if ch == '/' {
                    push_token(tokens, Token::Divide);
                }
            },
            None => {},
        }
    }

    /// Reads one grouping symbol, white space character, `=`, relational
    /// operator or `!=`. A `!` that no `=` follows is refused; nothing is
    /// read then.
    pub fn tokenizer_symbols(tokens: &mut Vec<Token>, chars: &mut CharStream) -> (r: Result<
        (),
        LexError,
    >)
        requires
            old(chars).wf(),
        ensures
            match symbol_step(old(chars).chars@, old(chars).pos as int) {
                Ok(lexeme) => r is Ok && stepped(
                    old(tokens)@,
                    *old(chars),
                    final(tokens)@,
                    *final(chars),
                    lexeme,
                ),
                Err(e) => r == Err::<(), LexError>(e) && untouched(
                    old(tokens)@,
                    *old(chars),
                    final(tokens)@,
                    *final(chars),
                ),
            },
    {
        let ch: char = match chars.peek() {
            Some(ch) => ch,
            None => {
                return Ok(());
            },
        };
        let followed: bool = chars.peek_second() == Some('=');
        if ch == '!' && !followed {
            return Err(LexError::UnexpectedCharacter { character: '!', position: chars.pos });
        }
        chars.next_char();
        if ch == '(' {
            push_token(tokens, Token::LParen);
        } else if ch == ')' {
            push_token(tokens, Token::RParen);
        } else if ch == '{' {
            push_token(tokens, Token::LBrace);
        } else if ch == '}' {
            push_token(tokens, Token::RBrace);
        } else if ch == '[' {
            push_token(tokens, Token::LBracket);
        } else if ch == ']' {
            push_token(tokens, Token::RBracket);
        } else if ch == ',' {
            push_token(tokens, Token::Comma);
        } else if ch == ';' {
            push_token(tokens, Token::Semicolon);
        } else if ch == '=' {
            if followed {
                chars.next_char();
                push_token(tokens, Token::EqualThan);
            } else {
                push_token(tokens, Token::Assignment);
            }
        } else if ch == '>' {
            if followed {
                chars.next_char();
                push_token(tokens, Token::BiggerEqualThan);
            } else {
                push_token(tokens, Token::BiggerThan);
            }
        } else if ch == '<' {
            if followed {
                chars.next_char();
                push_token(tokens, Token::LessEqualThan);
            } else {
                push_token(tokens, Token::LessThan);
            }
        } else if ch == '!' {
            chars.next_char();
            push_token(tokens, Token::DifferentThan);
        }
        Ok(())
    }

    /// Reads the longest run of word characters at the position and adds the
    /// keyword it spells, or else an identifier.
    pub fn tokenizer_keywords(tokens: &mut Vec<Token>, chars: &mut CharStream)
        requires
            old(chars).wf(),
        ensures
            stepped(
                old(tokens)@,
                *old(chars),
                final(tokens)@,
                *final(chars),
                word_step(old(chars).text(), old(chars).pos as int),
            ),
    {
        let start: usize = chars.pos;
        while chars.pos < chars.chars.len() && !matches!(
            chars.classes[chars.pos],
            CharClass::Other
        )
            invariant
                chars.wf(),
                chars.chars == old(chars).chars,
                chars.classes == old(chars).classes,
                start <= chars.pos,
                start == old(chars).pos,
                word_end(chars.text(), chars.pos as int) == word_end(chars.text(), start as int),
            decreases chars.chars.len() - chars.pos,
        {
            chars.pos = chars.pos + 1;
        }
        let token = Token::keyword_or_identifier(&chars.chars, start, chars.pos);
        push_token(tokens, token);
    }

    /// Reads a string literal whose opening quote stands at the position. A
    /// literal that is never closed is refused; nothing is read then.
    pub fn tokenizer_string_literal(tokens: &mut Vec<Token>, chars: &mut CharStream) -> (r:
        Result<(), LexError>)
        requires
            old(chars).wf(),
        ensures
            match string_step(old(chars).chars@, old(chars).pos as int) {
                Ok(lexeme) => r is Ok && stepped(
                    old(tokens)@,
                    *old(chars),
                    final(tokens)@,
                    *final(chars),
                    lexeme,
                ),
                Err(e) => r == Err::<(), LexError>(e) && untouched(
                    old(tokens)@,
                    *old(chars),
                    final(tokens)@,
                    *final(chars),
                ),
            },
    {
        let open: usize = chars.pos;
        if open >= chars.chars.len() {
            return Err(LexError::UnterminatedString { position: open });
        }
        let mut end: usize = open + 1;
        while end < chars.chars.len() && chars.chars[end] != '"'
            invariant
                chars.wf(),
                *chars == *old(chars),
                open == chars.pos,
                open < end <= chars.chars.len(),
                closing_quote(chars.chars@, end as int) == closing_quote(
                    chars.chars@,
                    open + 1,
                ),
            decreases chars.chars.len() - end,
        {
            end += 1;
        }
        if end >= chars.chars.len() {
            return Err(LexError::UnterminatedString { position: open });
        }
        let text = string_of(&chars.chars, open + 1, end);
        chars.pos = end + 1;
        push_token(tokens, Token::StringLiteral(text));
        Ok(())
    }
}

} // verus!

//! The whole translation: source text to C source text.
use vstd::prelude::*;
use crate::codegen::{emit_program, generate_code, CodegenError, CodegenErrorModel};
use crate::grammar::{initial_state, spec_program, ParseErrorModel};
use crate::parser::{ParseError, Parser};
use crate::text::{chars_of, push_char};
use crate::tokenizer::{spec_tokenize, LexError, Token};

verus! {

/// Why a source text could not be translated: the error of the stage that
/// failed.
#[derive(Debug, PartialEq)]
pub enum TranslateError {
    Lex(LexError),
    Parse(ParseError),
    Codegen(CodegenError),
}

/// A translation error as contracts see it.
pub enum TranslateErrorModel {
    Lex(LexError),
    Parse(ParseErrorModel),
    Codegen(CodegenErrorModel),
}

impl View for TranslateError {
    type V = TranslateErrorModel;

    open spec fn view(&self) -> TranslateErrorModel {
        match self {
            TranslateError::Lex(e) => TranslateErrorModel::Lex(*e),
            TranslateError::Parse(e) => TranslateErrorModel::Parse(e@),
            TranslateError::Codegen(e) => TranslateErrorModel::Codegen(e@),
        }
    }
}

impl TranslateError {
    /// The exit code that stands for an error: 1 for the lexer and the
    /// parser, 2 for the code generator.
    pub open spec fn spec_exit_code(error: TranslateErrorModel) -> u8 {
        match error {
            TranslateErrorModel::Lex(_) => 1,
            TranslateErrorModel::Parse(_) => 1,
            TranslateErrorModel::Codegen(_) => 2,
        }
    }

    /// The exit code that stands for the error.
    pub fn exit_code(&self) -> (code: u8)
        ensures
            code == Self::spec_exit_code(self@),
    {
        match self {
            TranslateError::Lex(_) => 1,
            TranslateError::Parse(_) => 1,
            TranslateError::Codegen(_) => 2,
        }
    }
}

/// The exit code of a run whose translation ended in `error`, or succeeded
/// where there is none: 0 on success, the code of the error where the
/// translation failed, and 3 where the translation succeeded and a later
/// step, such as the C compiler, failed.
pub open spec fn spec_exit_status(error: Option<TranslateErrorModel>, downstream_ok: bool) -> u8 {
    match error {
        Some(e) => TranslateError::spec_exit_code(e),
        None => if downstream_ok {
            0
        } else {
            3
        },
    }
}

/// The error of a translation, as contracts see it.
pub open spec fn error_of(translation: Result<String, TranslateError>) -> Option<
    TranslateErrorModel,
> {
    match translation {
        Ok(_) => None,
        Err(e) => Some(e@),
    }
}

/// The exit code of a run, from the result of the translation and from
/// whether what came after it went well.
pub fn exit_status(translation: &Result<String, TranslateError>, downstream_ok: bool) -> (code: u8)
    ensures
        code == spec_exit_status(error_of(*translation), downstream_ok),
{
    match translation {
        Err(e) => e.exit_code(),
        Ok(_) => {
            if downstream_ok {
                0
            } else {
                3
            }
        },
    }
}

/// The C text of a source text: its tokens, parsed as a program from the
/// first token with nothing declared, written out with the names that the
/// parse declared. The first stage that fails gives the error.
pub open spec fn spec_translate(source: Seq<char>) -> Result<Seq<char>, TranslateErrorModel> {
    match spec_tokenize(source) {
        Err(e) => Err(TranslateErrorModel::Lex(e)),
        Ok(tokens) => match spec_program(tokens, initial_state()) {
            Err(failure) => Err(TranslateErrorModel::Parse(failure.error)),
            Ok((tree, state)) => match emit_program(tree, state.symbols) {
                Err(e) => Err(TranslateErrorModel::Codegen(e)),
                Ok(text) => Ok(text),
            },
        },
    }
}

/// Whether `r` is what the translation of `source` returns.
pub open spec fn translated(source: Seq<char>, r: Result<String, TranslateError>) -> bool {
    match spec_translate(source) {
        Ok(text) => r matches Ok(s) && s@ == text,
        Err(error) => r matches Err(e) && e@ == error,
    }
}

/// Translates a source text to C source text. Each run has a parser and
/// tables of its own.
pub fn translate(source: &str) -> (r: Result<String, TranslateError>)
    ensures
        translated(source@, r),
{
    let tokens = match Token::tokenizer(source) {
        Ok(tokens) => tokens,
        Err(e) => {
            return Err(TranslateError::Lex(e));
        },
    };
    let mut parser = Parser::new(tokens);
    let tree = match parser.parse() {
        Ok(tree) => tree,
        Err(e) => {
            return Err(TranslateError::Parse(e));
        },
    };
    match generate_code(&tree, &parser.symbol_table) {
        Ok(code) => Ok(code),
        Err(e) => Err(TranslateError::Codegen(e)),
    }
}

/// Translation is a function of the source text: whatever two runs on the
/// same text return, both succeed with the same C text or both fail with
/// the same error.
pub proof fn translation_is_deterministic(
    source: Seq<char>,
    first: Result<String, TranslateError>,
    second: Result<String, TranslateError>,
)
    requires
        translated(source, first),
        translated(source, second),
    ensures
        first matches Ok(a) ==> second matches Ok(b) && a@ == b@,
        first matches Err(a) ==> second matches Err(b) && a@ == b@,
{
}

/// `text` without its carriage returns.
pub open spec fn without_carriage_returns(text: Seq<char>) -> Seq<char>
    decreases text.len(),
{
    if text.len() == 0 {
        Seq::empty()
    } else if text.last() == '\r' {
        without_carriage_returns(text.drop_last())
    } else {
        without_carriage_returns(text.drop_last()).push(text.last())
    }
}

/// Removes every carriage return, so that a text with either kind of line
/// ending reads the same.
pub fn clean_source(contents: &str) -> (r: String)
    ensures
        r@ == without_carriage_returns(contents@),
{
    let chars = chars_of(contents);
    let mut out = String::new();
    let mut i: usize = 0;
    while i < chars.len()
        invariant
            i <= chars.len(),
            chars@ == contents@,
            out@ == without_carriage_returns(contents@.take(i as int)),
        decreases chars.len() - i,
    {
        let c: char = chars[i];
        assert(contents@.take(i + 1).drop_last() =~= contents@.take(i as int));
        if c != '\r' {
            push_char(&mut out, c);
        }
        i += 1;
    }
    assert(contents@.take(chars.len() as int) =~= contents@);
    out
}

/// Translates the contents of a source file: carriage returns are removed,
/// the rest is translated.
pub fn compile_source(contents: &str) -> (r: Result<String, TranslateError>)
    ensures
        translated(without_carriage_returns(contents@), r),
{
    let clean = clean_source(contents);
    translate(clean.as_str())
}

} // verus!

//! What holds of the grammar for every list of tokens.
//!
//! A construct never ends before its start nor behind the last token, and a
//! statement takes at least one token, so `onward` never has to take a
//! position back. What the grammar reads does not depend on the values that
//! names were declared with: a name in an expression stays a name. And a
//! declaration that fails declares nothing.
use vstd::prelude::*;
use crate::grammar::{
    binary, chain_open, expect, is_relational, kind_at, number_node, onward,
    spec_array_declaration, spec_array_elements, spec_block, spec_braced, spec_declaration,
    spec_else, spec_expression, spec_expression_rest, spec_factor, spec_for, spec_for_header,
    spec_for_header_parts, spec_guarded, spec_logic_expression, spec_logic_factor,
    spec_logic_rest, spec_program, spec_statement, spec_term, spec_term_rest, ParseState, Parsed,
    ParsedList,
};
use crate::tokenizer::{TokenKind, TokenModel};
use crate::tree::AstModel;

verus! {

/// A state whose position lies inside the tokens or at their end.
pub open spec fn within(toks: Seq<TokenModel>, st: ParseState) -> bool {
    0 <= st.pos <= toks.len()
}

/// The result, if it is a success, ends at or behind `st` and within the
/// tokens.
pub open spec fn moves_on(toks: Seq<TokenModel>, st: ParseState, r: Parsed) -> bool {
    r matches Ok((_, end)) ==> st.pos <= end.pos <= toks.len()
}

/// The result, if it is a success, ends behind `st` and within the tokens.
pub open spec fn advances(toks: Seq<TokenModel>, st: ParseState, r: Parsed) -> bool {
    r matches Ok((_, end)) ==> st.pos < end.pos <= toks.len()
}

/// As `moves_on`, for a list of trees.
pub open spec fn list_moves_on(toks: Seq<TokenModel>, st: ParseState, r: ParsedList) -> bool {
    r matches Ok((_, end)) ==> st.pos <= end.pos <= toks.len()
}

/// As `advances`, for a list of trees.
pub open spec fn list_advances(toks: Seq<TokenModel>, st: ParseState, r: ParsedList) -> bool {
    r matches Ok((_, end)) ==> st.pos < end.pos <= toks.len()
}

/// A factor takes at least one token.
pub proof fn lemma_factor_advances(toks: Seq<TokenModel>, st: ParseState)
    requires
        within(toks, st),
    ensures
        advances(toks, st, spec_factor(toks, st)),
    decreases toks.len() - st.pos, 0nat,
{
    if kind_at(toks, st.pos) == Some(TokenKind::LParen) {
        lemma_expression_advances(toks, st.advance());
    }
}

/// The rest of a term never ends before its start.
pub proof fn lemma_term_rest_moves_on(toks: Seq<TokenModel>, left: AstModel, st: ParseState)
    requires
        within(toks, st),
    ensures
        moves_on(toks, st, spec_term_rest(toks, left, st)),
    decreases toks.len() - st.pos, 1nat,
{
    if kind_at(toks, st.pos) == Some(TokenKind::Multiply) || kind_at(toks, st.pos) == Some(
        TokenKind::Divide,
    ) {
        lemma_factor_advances(toks, st.advance());
        match spec_factor(toks, st.advance()) {
            Ok((right, st1)) => {
                lemma_term_rest_moves_on(toks, binary(left, toks[st.pos], right), st1);
            },
            Err(_) => {},
        }
    }
}

/// A term takes at least one token.
pub proof fn lemma_term_advances(toks: Seq<TokenModel>, st: ParseState)
    requires
        within(toks, st),
    ensures
        advances(toks, st, spec_term(toks, st)),
    decreases toks.len() - st.pos, 2nat,
{
    lemma_factor_advances(toks, st);
    match spec_factor(toks, st) {
        Ok((left, st1)) => {
            lemma_term_rest_moves_on(toks, left, st1);
        },
        Err(_) => {},
    }
}

/// The rest of an expression never ends before its start.
pub proof fn lemma_expression_rest_moves_on(toks: Seq<TokenModel>, left: AstModel, st: ParseState)
    requires
        within(toks, st),
    ensures
        moves_on(toks, st, spec_expression_rest(toks, left, st)),
    decreases toks.len() - st.pos, 3nat,
{
    if kind_at(toks, st.pos) == Some(TokenKind::Plus) || kind_at(toks, st.pos) == Some(
        TokenKind::Minus,
    ) {
        lemma_term_advances(toks, st.advance());
        match spec_term(toks, st.advance()) {
            Ok((right, st1)) => {
                lemma_expression_rest_moves_on(toks, binary(left, toks[st.pos], right), st1);
            },
            Err(_) => {},
        }
    }
}

/// An expression takes at least one token.
pub proof fn lemma_expression_advances(toks: Seq<TokenModel>, st: ParseState)
    requires
        within(toks, st),
    ensures
        advances(toks, st, spec_expression(toks, st)),
    decreases toks.len() - st.pos, 4nat,
{
    lemma_term_advances(toks, st);
    match spec_term(toks, st) {
        Ok((left, st1)) => {
            lemma_expression_rest_moves_on(toks, left, st1);
        },
        Err(_) => {},
    }
}

/// A logic factor takes at least one token.
pub proof fn lemma_logic_factor_advances(toks: Seq<TokenModel>, st: ParseState)
    requires
        within(toks, st),
    ensures
        advances(toks, st, spec_logic_factor(toks, st)),
    decreases toks.len() - st.pos, 0nat,
{
    if kind_at(toks, st.pos) == Some(TokenKind::LParen) {
        lemma_logic_expression_advances(toks, st.advance());
    }
}

/// The rest of a logic expression never ends before its start.
pub proof fn lemma_logic_rest_moves_on(toks: Seq<TokenModel>, left: AstModel, st: ParseState)
    requires
        within(toks, st),
    ensures
        moves_on(toks, st, spec_logic_rest(toks, left, st)),
    decreases toks.len() - st.pos, 1nat,
{
    if 0 <= st.pos < toks.len() && is_relational(toks[st.pos].kind) {
        lemma_logic_factor_advances(toks, st.advance());
        match spec_logic_factor(toks, st.advance()) {
            Ok((right, st1)) => {
                lemma_logic_rest_moves_on(toks, binary(left, toks[st.pos], right), st1);
            },
            Err(_) => {},
        }
    }
}

/// A logic expression takes at least one token.
pub proof fn lemma_logic_expression_advances(toks: Seq<TokenModel>, st: ParseState)
    requires
        within(toks, st),
    ensures
        advances(toks, st, spec_logic_expression(toks, st)),
    decreases toks.len() - st.pos, 2nat,
{
    lemma_logic_factor_advances(toks, st);
    match spec_logic_factor(toks, st) {
        Ok((left, st1)) => {
            lemma_logic_rest_moves_on(toks, left, st1);
        },
        Err(_) => {},
    }
}

/// A declaration takes at least one token.
pub proof fn lemma_declaration_advances(toks: Seq<TokenModel>, st: ParseState)
    requires
        within(toks, st),
    ensures
        advances(toks, st, spec_declaration(toks, st)),
{
    match expect(toks, st.advance(), TokenKind::Identifier) {
        Ok(st1) => match expect(toks, st1, TokenKind::Assignment) {
            Ok(st2) => {
                if within(toks, st2) {
                    lemma_expression_advances(toks, st2);
                }
            },
            Err(_) => {},
        },
        Err(_) => {},
    }
}

/// The elements of an array take at least one token.
pub proof fn lemma_array_elements_advance(
    toks: Seq<TokenModel>,
    st: ParseState,
    acc: Seq<AstModel>,
)
    requires
        within(toks, st),
    ensures
        list_advances(toks, st, spec_array_elements(toks, st, acc)),
    decreases toks.len() - st.pos,
{
    if kind_at(toks, st.pos) == Some(TokenKind::Number) {
        if kind_at(toks, st.pos + 1) == Some(TokenKind::Comma) {
            match spec_array_elements(toks, st, acc) {
                Ok(_) => {
                    let st1 = st.advance();
                    lemma_array_elements_advance(
                        toks,
                        st1.advance(),
                        acc.push(number_node(toks, st)->Ok_0.0),
                    );
                },
                Err(_) => {},
            }
        }
    }
}

/// An array declaration takes at least one token.
pub proof fn lemma_array_declaration_advances(toks: Seq<TokenModel>, st: ParseState)
    requires
        within(toks, st),
    ensures
        advances(toks, st, spec_array_declaration(toks, st)),
{
    match spec_array_declaration(toks, st) {
        Ok(_) => {
            let st6 = ParseState { pos: st.pos + 7, symbols: st.symbols, values: st.values };
            lemma_array_elements_advance(toks, st6, Seq::empty());
        },
        Err(_) => {},
    }
}

/// The header of a loop takes at least one token.
pub proof fn lemma_for_header_advances(toks: Seq<TokenModel>, st: ParseState)
    requires
        within(toks, st),
    ensures
        list_advances(toks, st, spec_for_header(toks, st)),
{
    reveal(spec_for_header_parts);
    match spec_for_header(toks, st) {
        Ok(_) => {
            let st2 = st.advance().advance();
            lemma_declaration_advances(toks, st2);
            let st3 = spec_declaration(toks, st2)->Ok_0.1;
            let st4 = st3.advance();
            lemma_logic_expression_advances(toks, st4);
        },
        Err(_) => {},
    }
}

/// A block in braces takes at least one token.
pub proof fn lemma_braced_advances(toks: Seq<TokenModel>, st: ParseState, acc: Seq<AstModel>)
    requires
        within(toks, st),
    ensures
        list_advances(toks, st, spec_braced(toks, st, acc)),
    decreases toks.len() - st.pos, 0nat,
{
    match expect(toks, st, TokenKind::LBrace) {
        Ok(st1) => {
            lemma_block_moves_on(toks, st1, acc);
        },
        Err(_) => {},
    }
}

/// A keyword with its condition and block takes at least one token.
pub proof fn lemma_guarded_advances(toks: Seq<TokenModel>, st: ParseState, keyword: TokenKind)
    requires
        within(toks, st),
    ensures
        list_advances(toks, st, spec_guarded(toks, st, keyword)),
    decreases toks.len() - st.pos, 1nat,
{
    match expect(toks, st, keyword) {
        Ok(st1) => {
            lemma_logic_expression_advances(toks, st1);
            match spec_logic_expression(toks, st1) {
                Ok((condition, st2)) => {
                    lemma_braced_advances(toks, st2, seq![condition]);
                },
                Err(_) => {},
            }
        },
        Err(_) => {},
    }
}

/// An `else` with its block takes at least one token.
pub proof fn lemma_else_advances(toks: Seq<TokenModel>, st: ParseState)
    requires
        within(toks, st),
    ensures
        advances(toks, st, spec_else(toks, st)),
    decreases toks.len() - st.pos, 2nat,
{
    match expect(toks, st, TokenKind::Else) {
        Ok(st1) => {
            lemma_braced_advances(toks, st1, Seq::empty());
        },
        Err(_) => {},
    }
}

/// A loop takes at least one token.
pub proof fn lemma_for_advances(toks: Seq<TokenModel>, st: ParseState)
    requires
        within(toks, st),
    ensures
        advances(toks, st, spec_for(toks, st)),
    decreases toks.len() - st.pos, 2nat,
{
    lemma_for_header_advances(toks, st);
    match spec_for_header(toks, st) {
        Ok((header, st1)) => {
            lemma_braced_advances(toks, st1, Seq::empty());
        },
        Err(_) => {},
    }
}

/// A statement takes at least one token.
pub proof fn lemma_statement_advances(toks: Seq<TokenModel>, st: ParseState, after_if: bool)
    requires
        within(toks, st),
    ensures
        advances(toks, st, spec_statement(toks, st, after_if)),
    decreases toks.len() - st.pos, 3nat,
{
    match kind_at(toks, st.pos) {
        Some(TokenKind::For) => {
            lemma_for_advances(toks, st);
        },
        Some(TokenKind::If) => {
            lemma_guarded_advances(toks, st, TokenKind::If);
        },
        Some(TokenKind::ElseIf) => {
            lemma_guarded_advances(toks, st, TokenKind::ElseIf);
        },
        Some(TokenKind::Else) => {
            lemma_else_advances(toks, st);
        },
        Some(TokenKind::StringType) => {
            lemma_declaration_advances(toks, st);
        },
        Some(TokenKind::IntegerType) => {
            lemma_declaration_advances(toks, st);
        },
        Some(TokenKind::BooleanType) => {
            lemma_declaration_advances(toks, st);
        },
        Some(TokenKind::ArrayType) => {
            lemma_array_declaration_advances(toks, st);
        },
        _ => {},
    }
}

/// A run of statements never ends before its start.
pub proof fn lemma_block_moves_on(toks: Seq<TokenModel>, st: ParseState, acc: Seq<AstModel>)
    requires
        within(toks, st),
    ensures
        list_moves_on(toks, st, spec_block(toks, st, acc)),
    decreases toks.len() - st.pos, 4nat,
{
    if !(kind_at(toks, st.pos) is None || kind_at(toks, st.pos) == Some(TokenKind::RBrace)) {
        lemma_statement_advances(toks, st, chain_open(acc));
        match spec_statement(toks, st, chain_open(acc)) {
            Ok((node, st1)) => {
                lemma_block_moves_on(toks, st1, acc.push(node));
            },
            Err(_) => {},
        }
    }
}

/// A program takes at least one token.
pub proof fn lemma_program_advances(toks: Seq<TokenModel>, st: ParseState)
    requires
        within(toks, st),
    ensures
        advances(toks, st, spec_program(toks, st)),
{
    match spec_program(toks, st) {
        Ok(_) => {
            lemma_braced_advances(toks, st.advance().advance().advance(), Seq::empty());
        },
        Err(_) => {},
    }
}

/// Two states that differ at most in the values that names were declared
/// with.
pub open spec fn alike(a: ParseState, b: ParseState) -> bool {
    a.pos == b.pos && a.symbols == b.symbols
}

/// Two results with the same tree and alike states, or with the same error
/// in alike states.
pub open spec fn agree(a: Parsed, b: Parsed) -> bool {
    match a {
        Ok((tree, end)) => b matches Ok((other, other_end)) && tree == other && alike(
            end,
            other_end,
        ),
        Err(e) => b matches Err(other) && e.error == other.error && alike(e.state, other.state),
    }
}

/// As `agree`, for lists of trees.
pub open spec fn lists_agree(a: ParsedList, b: ParsedList) -> bool {
    match a {
        Ok((trees, end)) => b matches Ok((others, other_end)) && trees == others && alike(
            end,
            other_end,
        ),
        Err(e) => b matches Err(other) && e.error == other.error && alike(e.state, other.state),
    }
}

/// A factor does not depend on declared values.
pub proof fn lemma_factor_ignores_values(toks: Seq<TokenModel>, a: ParseState, b: ParseState)
    requires
        alike(a, b),
    ensures
        agree(spec_factor(toks, a), spec_factor(toks, b)),
    decreases toks.len() - a.pos, 0nat,
{
    if kind_at(toks, a.pos) == Some(TokenKind::LParen) {
        lemma_expression_ignores_values(toks, a.advance(), b.advance());
    }
}

/// The rest of a term does not depend on declared values.
pub proof fn lemma_term_rest_ignores_values(
    toks: Seq<TokenModel>,
    left: AstModel,
    a: ParseState,
    b: ParseState,
)
    requires
        alike(a, b),
    ensures
        agree(spec_term_rest(toks, left, a), spec_term_rest(toks, left, b)),
    decreases toks.len() - a.pos, 1nat,
{
    if kind_at(toks, a.pos) == Some(TokenKind::Multiply) || kind_at(toks, a.pos) == Some(
        TokenKind::Divide,
    ) {
        lemma_factor_ignores_values(toks, a.advance(), b.advance());
        match (spec_factor(toks, a.advance()), spec_factor(toks, b.advance())) {
            (Ok((right, a1)), Ok((_, b1))) => {
                lemma_term_rest_ignores_values(
                    toks,
                    binary(left, toks[a.pos], right),
                    onward(toks.len(), a.advance(), a1),
                    onward(toks.len(), b.advance(), b1),
                );
            },
            _ => {},
        }
    }
}

/// A term does not depend on declared values.
pub proof fn lemma_term_ignores_values(toks: Seq<TokenModel>, a: ParseState, b: ParseState)
    requires
        alike(a, b),
    ensures
        agree(spec_term(toks, a), spec_term(toks, b)),
    decreases toks.len() - a.pos, 2nat,
{
    lemma_factor_ignores_values(toks, a, b);
    match (spec_factor(toks, a), spec_factor(toks, b)) {
        (Ok((left, a1)), Ok((_, b1))) => {
            lemma_term_rest_ignores_values(
                toks,
                left,
                onward(toks.len(), a, a1),
                onward(toks.len(), b, b1),
            );
        },
        _ => {},
    }
}

/// The rest of an expression does not depend on declared values.
pub proof fn lemma_expression_rest_ignores_values(
    toks: Seq<TokenModel>,
    left: AstModel,
    a: ParseState,
    b: ParseState,
)
    requires
        alike(a, b),
    ensures
        agree(spec_expression_rest(toks, left, a), spec_expression_rest(toks, left, b)),
    decreases toks.len() - a.pos, 3nat,
{
    if kind_at(toks, a.pos) == Some(TokenKind::Plus) || kind_at(toks, a.pos) == Some(
        TokenKind::Minus,
    ) {
        lemma_term_ignores_values(toks, a.advance(), b.advance());
        match (spec_term(toks, a.advance()), spec_term(toks, b.advance())) {
            (Ok((right, a1)), Ok((_, b1))) => {
                lemma_expression_rest_ignores_values(
                    toks,
                    binary(left, toks[a.pos], right),
                    onward(toks.len(), a.advance(), a1),
                    onward(toks.len(), b.advance(), b1),
                );
            },
            _ => {},
        }
    }
}

/// An expression does not depend on declared values: a name in it stays a
/// name, whatever it was declared with.
pub proof fn lemma_expression_ignores_values(toks: Seq<TokenModel>, a: ParseState, b: ParseState)
    requires
        alike(a, b),
    ensures
        agree(spec_expression(toks, a), spec_expression(toks, b)),
    decreases toks.len() - a.pos, 4nat,
{
    lemma_term_ignores_values(toks, a, b);
    match (spec_term(toks, a), spec_term(toks, b)) {
        (Ok((left, a1)), Ok((_, b1))) => {
            lemma_expression_rest_ignores_values(
                toks,
                left,
                onward(toks.len(), a, a1),
                onward(toks.len(), b, b1),
            );
        },
        _ => {},
    }
}

/// A logic factor does not depend on declared values.
pub proof fn lemma_logic_factor_ignores_values(
    toks: Seq<TokenModel>,
    a: ParseState,
    b: ParseState,
)
    requires
        alike(a, b),
    ensures
        agree(spec_logic_factor(toks, a), spec_logic_factor(toks, b)),
    decreases toks.len() - a.pos, 0nat,
{
    if kind_at(toks, a.pos) == Some(TokenKind::LParen) {
        lemma_logic_expression_ignores_values(toks, a.advance(), b.advance());
    }
}

/// The rest of a logic expression does not depend on declared values.
pub proof fn lemma_logic_rest_ignores_values(
    toks: Seq<TokenModel>,
    left: AstModel,
    a: ParseState,
    b: ParseState,
)
    requires
        alike(a, b),
    ensures
        agree(spec_logic_rest(toks, left, a), spec_logic_rest(toks, left, b)),
    decreases toks.len() - a.pos, 1nat,
{
    if 0 <= a.pos < toks.len() && is_relational(toks[a.pos].kind) {
        lemma_logic_factor_ignores_values(toks, a.advance(), b.advance());
        match (spec_logic_factor(toks, a.advance()), spec_logic_factor(toks, b.advance())) {
            (Ok((right, a1)), Ok((_, b1))) => {
                lemma_logic_rest_ignores_values(
                    toks,
                    binary(left, toks[a.pos], right),
                    onward(toks.len(), a.advance(), a1),
                    onward(toks.len(), b.advance(), b1),
                );
            },
            _ => {},
        }
    }
}

/// A logic expression does not depend on declared values.
pub proof fn lemma_logic_expression_ignores_values(
    toks: Seq<TokenModel>,
    a: ParseState,
    b: ParseState,
)
    requires
        alike(a, b),
    ensures
        agree(spec_logic_expression(toks, a), spec_logic_expression(toks, b)),
    decreases toks.len() - a.pos, 2nat,
{
    lemma_logic_factor_ignores_values(toks, a, b);
    match (spec_logic_factor(toks, a), spec_logic_factor(toks, b)) {
        (Ok((left, a1)), Ok((_, b1))) => {
            lemma_logic_rest_ignores_values(
                toks,
                left,
                onward(toks.len(), a, a1),
                onward(toks.len(), b, b1),
            );
        },
        _ => {},
    }
}

/// A declaration does not depend on declared values.
pub proof fn lemma_declaration_ignores_values(toks: Seq<TokenModel>, a: ParseState, b: ParseState)
    requires
        alike(a, b),
    ensures
        agree(spec_declaration(toks, a), spec_declaration(toks, b)),
{
    let a2 = a.advance().advance().advance();
    let b2 = b.advance().advance().advance();
    lemma_expression_ignores_values(toks, a2, b2);
}

/// The elements of an array do not depend on declared values.
pub proof fn lemma_array_elements_ignore_values(
    toks: Seq<TokenModel>,
    a: ParseState,
    b: ParseState,
    acc: Seq<AstModel>,
)
    requires
        alike(a, b),
    ensures
        lists_agree(spec_array_elements(toks, a, acc), spec_array_elements(toks, b, acc)),
    decreases toks.len() - a.pos,
{
    if kind_at(toks, a.pos) == Some(TokenKind::Number) {
        match number_node(toks, a) {
            Ok((element, a1)) => {
                if kind_at(toks, a1.pos) == Some(TokenKind::Comma) {
                    lemma_array_elements_ignore_values(
                        toks,
                        a1.advance(),
                        b.advance().advance(),
                        acc.push(element),
                    );
                }
            },
            Err(_) => {},
        }
    }
}

/// An array declaration does not depend on declared values.
pub proof fn lemma_array_declaration_ignores_values(
    toks: Seq<TokenModel>,
    a: ParseState,
    b: ParseState,
)
    requires
        alike(a, b),
    ensures
        agree(spec_array_declaration(toks, a), spec_array_declaration(toks, b)),
{
    let a6 = ParseState { pos: a.pos + 7, symbols: a.symbols, values: a.values };
    let b6 = ParseState { pos: b.pos + 7, symbols: b.symbols, values: b.values };
    lemma_array_elements_ignore_values(toks, a6, b6, Seq::empty());
}

/// The header of a loop does not depend on declared values.
pub proof fn lemma_for_header_ignores_values(toks: Seq<TokenModel>, a: ParseState, b: ParseState)
    requires
        alike(a, b),
    ensures
        lists_agree(spec_for_header(toks, a), spec_for_header(toks, b)),
{
    reveal(spec_for_header_parts);
    let a2 = a.advance().advance();
    let b2 = b.advance().advance();
    lemma_declaration_ignores_values(toks, a2, b2);
    match (spec_declaration(toks, a2), spec_declaration(toks, b2)) {
        (Ok((_, a3)), Ok((_, b3))) => {
            lemma_logic_expression_ignores_values(toks, a3.advance(), b3.advance());
        },
        _ => {},
    }
}

/// A block in braces does not depend on declared values.
pub proof fn lemma_braced_ignores_values(
    toks: Seq<TokenModel>,
    a: ParseState,
    b: ParseState,
    acc: Seq<AstModel>,
)
    requires
        alike(a, b),
    ensures
        lists_agree(spec_braced(toks, a, acc), spec_braced(toks, b, acc)),
    decreases toks.len() - a.pos, 0nat,
{
    if kind_at(toks, a.pos) == Some(TokenKind::LBrace) {
        lemma_block_ignores_values(toks, a.advance(), b.advance(), acc);
    }
}

/// A keyword with its condition and block does not depend on declared
/// values.
pub proof fn lemma_guarded_ignores_values(
    toks: Seq<TokenModel>,
    a: ParseState,
    b: ParseState,
    keyword: TokenKind,
)
    requires
        alike(a, b),
    ensures
        lists_agree(spec_guarded(toks, a, keyword), spec_guarded(toks, b, keyword)),
    decreases toks.len() - a.pos, 1nat,
{
    if kind_at(toks, a.pos) == Some(keyword) {
        let a1 = a.advance();
        let b1 = b.advance();
        lemma_logic_expression_ignores_values(toks, a1, b1);
        match (spec_logic_expression(toks, a1), spec_logic_expression(toks, b1)) {
            (Ok((condition, a2)), Ok((_, b2))) => {
                lemma_braced_ignores_values(
                    toks,
                    onward(toks.len(), a1, a2),
                    onward(toks.len(), b1, b2),
                    seq![condition],
                );
            },
            _ => {},
        }
    }
}

/// An `else` with its block does not depend on declared values.
pub proof fn lemma_else_ignores_values(toks: Seq<TokenModel>, a: ParseState, b: ParseState)
    requires
        alike(a, b),
    ensures
        agree(spec_else(toks, a), spec_else(toks, b)),
    decreases toks.len() - a.pos, 2nat,
{
    if kind_at(toks, a.pos) == Some(TokenKind::Else) {
        lemma_braced_ignores_values(toks, a.advance(), b.advance(), Seq::empty());
    }
}

/// A loop does not depend on declared values.
pub proof fn lemma_for_ignores_values(toks: Seq<TokenModel>, a: ParseState, b: ParseState)
    requires
        alike(a, b),
    ensures
        agree(spec_for(toks, a), spec_for(toks, b)),
    decreases toks.len() - a.pos, 2nat,
{
    lemma_for_header_ignores_values(toks, a, b);
    match (spec_for_header(toks, a), spec_for_header(toks, b)) {
        (Ok((_, a1)), Ok((_, b1))) => {
            lemma_braced_ignores_values(
                toks,
                onward(toks.len(), a, a1),
                onward(toks.len(), b, b1),
                Seq::empty(),
            );
        },
        _ => {},
    }
}

/// A statement does not depend on declared values.
pub proof fn lemma_statement_ignores_values(
    toks: Seq<TokenModel>,
    a: ParseState,
    b: ParseState,
    after_if: bool,
)
    requires
        alike(a, b),
    ensures
        agree(spec_statement(toks, a, after_if), spec_statement(toks, b, after_if)),
    decreases toks.len() - a.pos, 3nat,
{
    match kind_at(toks, a.pos) {
        Some(TokenKind::For) => {
            lemma_for_ignores_values(toks, a, b);
        },
        Some(TokenKind::If) => {
            lemma_guarded_ignores_values(toks, a, b, TokenKind::If);
        },
        Some(TokenKind::ElseIf) => {
            lemma_guarded_ignores_values(toks, a, b, TokenKind::ElseIf);
        },
        Some(TokenKind::Else) => {
            lemma_else_ignores_values(toks, a, b);
        },
        Some(TokenKind::StringType) => {
            lemma_declaration_ignores_values(toks, a, b);
        },
        Some(TokenKind::IntegerType) => {
            lemma_declaration_ignores_values(toks, a, b);
        },
        Some(TokenKind::BooleanType) => {
            lemma_declaration_ignores_values(toks, a, b);
        },
        Some(TokenKind::ArrayType) => {
            lemma_array_declaration_ignores_values(toks, a, b);
        },
        _ => {},
    }
}

/// A run of statements does not depend on declared values.
pub proof fn lemma_block_ignores_values(
    toks: Seq<TokenModel>,
    a: ParseState,
    b: ParseState,
    acc: Seq<AstModel>,
)
    requires
        alike(a, b),
    ensures
        lists_agree(spec_block(toks, a, acc), spec_block(toks, b, acc)),
    decreases toks.len() - a.pos, 4nat,
{
    if !(kind_at(toks, a.pos) is None || kind_at(toks, a.pos) == Some(TokenKind::RBrace)) {
        lemma_statement_ignores_values(toks, a, b, chain_open(acc));
        match (
            spec_statement(toks, a, chain_open(acc)),
            spec_statement(toks, b, chain_open(acc)),
        ) {
            (Ok((node, a1)), Ok((_, b1))) => {
                lemma_block_ignores_values(
                    toks,
                    onward(toks.len(), a.advance(), a1),
                    onward(toks.len(), b.advance(), b1),
                    acc.push(node),
                );
            },
            _ => {},
        }
    }
}

/// The tree of a program, the position behind it and the declared types do
/// not depend on the values that names were declared with: no name is ever
/// replaced by a value.
pub proof fn lemma_program_ignores_values(toks: Seq<TokenModel>, a: ParseState, b: ParseState)
    requires
        alike(a, b),
    ensures
        agree(spec_program(toks, a), spec_program(toks, b)),
{
    lemma_braced_ignores_values(
        toks,
        a.advance().advance().advance(),
        b.advance().advance().advance(),
        Seq::empty(),
    );
}

/// Two states with the same tables.
pub open spec fn same_tables(a: ParseState, b: ParseState) -> bool {
    a.symbols == b.symbols && a.values == b.values
}

/// The result, a success or a failure, leaves the tables of `st` as they
/// were.
pub open spec fn keeps_tables(st: ParseState, r: Parsed) -> bool {
    match r {
        Ok((_, end)) => same_tables(st, end),
        Err(failure) => same_tables(st, failure.state),
    }
}

/// Where the result is a failure, it leaves the tables of `st` as they were.
pub open spec fn failure_keeps_tables(st: ParseState, r: Parsed) -> bool {
    r matches Err(failure) ==> same_tables(st, failure.state)
}

/// A factor declares nothing.
pub proof fn lemma_factor_keeps_tables(toks: Seq<TokenModel>, st: ParseState)
    ensures
        keeps_tables(st, spec_factor(toks, st)),
    decreases toks.len() - st.pos, 0nat,
{
    if kind_at(toks, st.pos) == Some(TokenKind::LParen) {
        lemma_expression_keeps_tables(toks, st.advance());
    }
}

/// The rest of a term declares nothing.
pub proof fn lemma_term_rest_keeps_tables(toks: Seq<TokenModel>, left: AstModel, st: ParseState)
    ensures
        keeps_tables(st, spec_term_rest(toks, left, st)),
    decreases toks.len() - st.pos, 1nat,
{
    if kind_at(toks, st.pos) == Some(TokenKind::Multiply) || kind_at(toks, st.pos) == Some(
        TokenKind::Divide,
    ) {
        lemma_factor_keeps_tables(toks, st.advance());
        match spec_factor(toks, st.advance()) {
            Ok((right, st1)) => {
                lemma_term_rest_keeps_tables(
                    toks,
                    binary(left, toks[st.pos], right),
                    onward(toks.len(), st.advance(), st1),
                );
            },
            Err(_) => {},
        }
    }
}

/// A term declares nothing.
pub proof fn lemma_term_keeps_tables(toks: Seq<TokenModel>, st: ParseState)
    ensures
        keeps_tables(st, spec_term(toks, st)),
    decreases toks.len() - st.pos, 2nat,
{
    lemma_factor_keeps_tables(toks, st);
    match spec_factor(toks, st) {
        Ok((left, st1)) => {
            lemma_term_rest_keeps_tables(toks, left, onward(toks.len(), st, st1));
        },
        Err(_) => {},
    }
}

/// The rest of an expression declares nothing.
pub proof fn lemma_expression_rest_keeps_tables(
    toks: Seq<TokenModel>,
    left: AstModel,
    st: ParseState,
)
    ensures
        keeps_tables(st, spec_expression_rest(toks, left, st)),
    decreases toks.len() - st.pos, 3nat,
{
    if kind_at(toks, st.pos) == Some(TokenKind::Plus) || kind_at(toks, st.pos) == Some(
        TokenKind::Minus,
    ) {
        lemma_term_keeps_tables(toks, st.advance());
        match spec_term(toks, st.advance()) {
            Ok((right, st1)) => {
                lemma_expression_rest_keeps_tables(
                    toks,
                    binary(left, toks[st.pos], right),
                    onward(toks.len(), st.advance(), st1),
                );
            },
            Err(_) => {},
        }
    }
}

/// An expression declares nothing, whether it parses or not.
pub proof fn lemma_expression_keeps_tables(toks: Seq<TokenModel>, st: ParseState)
    ensures
        keeps_tables(st, spec_expression(toks, st)),
    decreases toks.len() - st.pos, 4nat,
{
    lemma_term_keeps_tables(toks, st);
    match spec_term(toks, st) {
        Ok((left, st1)) => {
            lemma_expression_rest_keeps_tables(toks, left, onward(toks.len(), st, st1));
        },
        Err(_) => {},
    }
}

/// A declaration that fails declares nothing: a name enters the tables only
/// once its declaration has been read to the end.
pub proof fn lemma_failed_declaration_keeps_tables(toks: Seq<TokenModel>, st: ParseState)
    ensures
        failure_keeps_tables(st, spec_declaration(toks, st)),
{
    lemma_expression_keeps_tables(toks, st.advance().advance().advance());
}

/// The elements of an array declare nothing.
pub proof fn lemma_array_elements_keep_tables(
    toks: Seq<TokenModel>,
    st: ParseState,
    acc: Seq<AstModel>,
)
    ensures
        match spec_array_elements(toks, st, acc) {
            Ok((_, end)) => same_tables(st, end),
            Err(failure) => same_tables(st, failure.state),
        },
    decreases toks.len() - st.pos,
{
    if kind_at(toks, st.pos) == Some(TokenKind::Number) {
        match number_node(toks, st) {
            Ok((element, st1)) => {
                if kind_at(toks, st1.pos) == Some(TokenKind::Comma) {
                    lemma_array_elements_keep_tables(toks, st1.advance(), acc.push(element));
                }
            },
            Err(_) => {},
        }
    }
}

/// An array declaration that fails declares nothing.
pub proof fn lemma_failed_array_declaration_keeps_tables(toks: Seq<TokenModel>, st: ParseState)
    ensures
        failure_keeps_tables(st, spec_array_declaration(toks, st)),
{
    let st6 = ParseState { pos: st.pos + 7, symbols: st.symbols, values: st.values };
    lemma_array_elements_keep_tables(toks, st6, Seq::empty());
}

} // verus!

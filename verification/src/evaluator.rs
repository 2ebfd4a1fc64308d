//! The conditions of `#if` and `#elseif`: integer expressions over
//! literals, macros and `defined`.

use crate::errors::{
    EvaluationError, ExpansionError, ExpansionErrorView, Located, MacroNotFoundError,
};
use crate::lexer::{Token, TokenView};
use crate::macro_table::{MacroTable, MacroView};
use crate::macros::{expand_symbol, expansion, setting_of};
use crate::range::Range;
use crate::symbol::{
    deep, lemma_deep_drop_last, lemma_deep_push, Comment, Literal, Operator, Symbol, SymbolView,
    TokenKind,
};
use vstd::prelude::*;

verus! {

/// The number for true.
pub const TRUE: i32 = 1;

/// The number for false.
pub const FALSE: i32 = 0;

/// The number that stands for a truth value.
pub open spec fn truth(holds: bool) -> i32 {
    if holds {
        TRUE
    } else {
        FALSE
    }
}

/// How tightly a binary operator binds, from 1 for `||` to 10 for `*`;
/// `None` for an operator that takes no two operands here.
pub open spec fn binding(operator: Operator) -> Option<nat> {
    match operator {
        Operator::Or => Some(1),
        Operator::And => Some(2),
        Operator::Bitor => Some(3),
        Operator::Bitxor => Some(4),
        Operator::Ampersand => Some(5),
        Operator::Equals | Operator::NotEquals => Some(6),
        Operator::Lt | Operator::Le | Operator::Gt | Operator::Ge => Some(7),
        Operator::Shl | Operator::Shr | Operator::Ushr => Some(8),
        Operator::Plus | Operator::Minus => Some(9),
        Operator::Star | Operator::Slash | Operator::Percent => Some(10),
        _ => None,
    }
}

/// What a binary operator makes of two numbers; `None` where it makes
/// nothing of them: a division by zero, or no binary operator at all.
/// Numbers have 32 bits and wrap around.
pub open spec fn binary_value(operator: Operator, left: i32, right: i32) -> Option<i32> {
    match operator {
        Operator::Or => Some(truth(left != 0 || right != 0)),
        Operator::And => Some(truth(left != 0 && right != 0)),
        Operator::Bitor => Some(left | right),
        Operator::Bitxor => Some(left ^ right),
        Operator::Ampersand => Some(left & right),
        Operator::Equals => Some(truth(left == right)),
        Operator::NotEquals => Some(truth(left != right)),
        Operator::Lt => Some(truth(left < right)),
        Operator::Le => Some(truth(left <= right)),
        Operator::Gt => Some(truth(left > right)),
        Operator::Ge => Some(truth(left >= right)),
        Operator::Shl => Some(left.wrapping_shl(right as u32)),
        Operator::Shr => Some(left.wrapping_shr(right as u32)),
        Operator::Ushr => Some((left as u32).wrapping_shr(right as u32) as i32),
        Operator::Plus => Some(left.wrapping_add(right)),
        Operator::Minus => Some(left.wrapping_sub(right)),
        Operator::Star => Some(left.wrapping_mul(right)),
        Operator::Slash => if right == 0 {
            None
        } else if left == i32::MIN && right == -1 {
            Some(i32::MIN)
        } else {
            left.checked_div(right)
        },
        Operator::Percent => if right == 0 {
            None
        } else if left == i32::MIN && right == -1 {
            Some(0)
        } else {
            left.checked_rem(right)
        },
        _ => None,
    }
}

/// What a unary operator makes of a number; `None` for an operator that
/// takes no single operand.
pub open spec fn unary_value(operator: Operator, operand: i32) -> Option<i32> {
    match operator {
        Operator::Not => Some(truth(operand == 0)),
        Operator::Minus => Some(0i32.wrapping_sub(operand)),
        Operator::Tilde => Some(operand ^ -1i32),
        _ => None,
    }
}

/// The number of a literal: its 32 bits read as a signed number.
pub open spec fn literal_value(number: u32) -> i32 {
    number as i32
}

fn truth_of(holds: bool) -> (number: i32)
    ensures
        number == truth(holds),
{
    if holds {
        TRUE
    } else {
        FALSE
    }
}

fn binding_of(operator: Operator) -> (level: Option<u8>)
    ensures
        level is Some == binding(operator) is Some,
        level is Some ==> level->Some_0 as nat == binding(operator)->Some_0,
        level is Some ==> 1 <= level->Some_0 <= 10,
{
    match operator {
        Operator::Or => Some(1),
        Operator::And => Some(2),
        Operator::Bitor => Some(3),
        Operator::Bitxor => Some(4),
        Operator::Ampersand => Some(5),
        Operator::Equals | Operator::NotEquals => Some(6),
        Operator::Lt | Operator::Le | Operator::Gt | Operator::Ge => Some(7),
        Operator::Shl | Operator::Shr | Operator::Ushr => Some(8),
        Operator::Plus | Operator::Minus => Some(9),
        Operator::Star | Operator::Slash | Operator::Percent => Some(10),
        _ => None,
    }
}

fn apply_binary(operator: Operator, left: i32, right: i32) -> (value: Option<i32>)
    ensures
        value == binary_value(operator, left, right),
{
    match operator {
        Operator::Or => Some(truth_of(left != 0 || right != 0)),
        Operator::And => Some(truth_of(left != 0 && right != 0)),
        Operator::Bitor => Some(left | right),
        Operator::Bitxor => Some(left ^ right),
        Operator::Ampersand => Some(left & right),
        Operator::Equals => Some(truth_of(left == right)),
        Operator::NotEquals => Some(truth_of(left != right)),
        Operator::Lt => Some(truth_of(left < right)),
        Operator::Le => Some(truth_of(left <= right)),
        Operator::Gt => Some(truth_of(left > right)),
        Operator::Ge => Some(truth_of(left >= right)),
        Operator::Shl => Some(left.wrapping_shl(#[verifier::truncate] (right as u32))),
        Operator::Shr => Some(left.wrapping_shr(#[verifier::truncate] (right as u32))),
        Operator::Ushr => Some(
            #[verifier::truncate]
            ((#[verifier::truncate] (left as u32)).wrapping_shr(
                #[verifier::truncate]
                (right as u32),
            ) as i32),
        ),
        Operator::Plus => Some(left.wrapping_add(right)),
        Operator::Minus => Some(left.wrapping_sub(right)),
        Operator::Star => Some(left.wrapping_mul(right)),
        Operator::Slash => if right == 0 {
            None
        } else if left == i32::MIN && right == -1 {
            Some(i32::MIN)
        } else {
            left.checked_div(right)
        },
        Operator::Percent => if right == 0 {
            None
        } else if left == i32::MIN && right == -1 {
            Some(0)
        } else {
            left.checked_rem(right)
        },
        _ => None,
    }
}

fn apply_unary(operator: Operator, operand: i32) -> (value: Option<i32>)
    ensures
        value == unary_value(operator, operand),
{
    match operator {
        Operator::Not => Some(truth_of(operand == 0)),
        Operator::Minus => Some(0i32.wrapping_sub(operand)),
        Operator::Tilde => Some(operand ^ -1i32),
        _ => None,
    }
}

/// How far a reading of an expression has come.
pub struct Parse {
    /// The number read.
    pub value: i32,
    /// The place of the first symbol that has not been read.
    pub next: int,
    /// Where the reading failed, if it did.
    pub error: Option<Located>,
}

/// The symbol at a place, as an error reports it; past the last symbol
/// an empty text at the range `fallback`.
pub open spec fn place(flat: Seq<SymbolView>, i: int, fallback: Range) -> Located {
    if 0 <= i < flat.len() {
        Located { text: flat[i].text, range: flat[i].range }
    } else {
        Located { text: Seq::empty(), range: fallback }
    }
}

/// A reading that failed at place `i`.
pub open spec fn failed(flat: Seq<SymbolView>, i: int, fallback: Range) -> Parse {
    Parse { value: 0, next: i, error: Some(place(flat, i, fallback)) }
}

/// A reading that came to `value` and stands at `next`.
pub open spec fn read(value: i32, next: int) -> Parse {
    Parse { value, next, error: None }
}

/// Whether the symbol at place `i` is of the given kind.
pub open spec fn kind_at(flat: Seq<SymbolView>, i: int, kind: TokenKind) -> bool {
    0 <= i < flat.len() && flat[i].token_kind == kind
}

/// Whether a literal of this kind denotes an integer.
pub open spec fn is_integer(literal: Literal) -> bool {
    literal == Literal::IntegerLiteral || literal == Literal::HexLiteral || literal
        == Literal::BinaryLiteral || literal == Literal::OctodecimalLiteral
}

/// Reads an operand: an integer literal, a name, `defined` with a name,
/// bare or in parentheses, or an expression in parentheses. A name here
/// is one that no macro has, and counts as zero.
pub open spec fn parse_primary(
    flat: Seq<SymbolView>,
    macros: Map<Seq<char>, MacroView>,
    fallback: Range,
    i: int,
) -> Parse
    decreases flat.len() - i, 0nat,
{
    if i < 0 || i >= flat.len() {
        failed(flat, i, fallback)
    } else {
        match flat[i].token_kind {
            TokenKind::Literal(literal) => if is_integer(literal) && flat[i].int_value is Some {
                read(literal_value(flat[i].int_value->Some_0), i + 1)
            } else {
                failed(flat, i, fallback)
            },
            TokenKind::Identifier => read(FALSE, i + 1),
            TokenKind::Defined => if kind_at(flat, i + 1, TokenKind::Identifier) {
                read(truth(macros.contains_key(flat[i + 1].text)), i + 2)
            } else if kind_at(flat, i + 1, TokenKind::LParen) && kind_at(
                flat,
                i + 2,
                TokenKind::Identifier,
            ) && kind_at(flat, i + 3, TokenKind::RParen) {
                read(truth(macros.contains_key(flat[i + 2].text)), i + 4)
            } else {
                failed(flat, i + 1, fallback)
            },
            TokenKind::LParen => {
                let inner = parse_binary(flat, macros, fallback, i + 1, 1);
                if inner.error is Some {
                    inner
                } else if kind_at(flat, inner.next, TokenKind::RParen) {
                    read(inner.value, inner.next + 1)
                } else {
                    failed(flat, inner.next, fallback)
                }
            },
            _ => failed(flat, i, fallback),
        }
    }
}

/// The unary operator at place `i`, if there is one.
pub open spec fn unary_at(flat: Seq<SymbolView>, i: int) -> Option<Operator> {
    if 0 <= i < flat.len() {
        match flat[i].token_kind {
            TokenKind::Operator(operator) => if unary_value(operator, 0) is Some {
                Some(operator)
            } else {
                None
            },
            _ => None,
        }
    } else {
        None
    }
}

/// The binary operator at place `i` that binds at least as tightly as
/// `level`, if there is one.
pub open spec fn binary_at(flat: Seq<SymbolView>, i: int, level: nat) -> Option<Operator> {
    if 0 <= i < flat.len() {
        match flat[i].token_kind {
            TokenKind::Operator(operator) => if binding(operator) is Some && binding(
                operator,
            )->Some_0 >= level {
                Some(operator)
            } else {
                None
            },
            _ => None,
        }
    } else {
        None
    }
}

/// Reads an operand with the unary operators before it.
pub open spec fn parse_unary(
    flat: Seq<SymbolView>,
    macros: Map<Seq<char>, MacroView>,
    fallback: Range,
    i: int,
) -> Parse
    decreases flat.len() - i, 1nat,
{
    match unary_at(flat, i) {
        Some(operator) => {
            let operand = parse_unary(flat, macros, fallback, i + 1);
            if operand.error is Some {
                operand
            } else {
                read(unary_value(operator, operand.value)->Some_0, operand.next)
            }
        },
        None => parse_primary(flat, macros, fallback, i),
    }
}

/// Goes on from the left operand `left` over the binary operators that
/// bind at least as tightly as `level`; operators of one level group
/// from the left.
pub open spec fn climb(
    flat: Seq<SymbolView>,
    macros: Map<Seq<char>, MacroView>,
    fallback: Range,
    left: i32,
    i: int,
    level: nat,
) -> Parse
    decreases flat.len() - i, 2nat,
{
    match binary_at(flat, i, level) {
        Some(operator) => {
            let right = parse_binary(
                flat,
                macros,
                fallback,
                i + 1,
                binding(operator)->Some_0 + 1,
            );
            if right.error is Some {
                right
            } else if right.next <= i || right.next > flat.len() {
                failed(flat, i, fallback)
            } else {
                match binary_value(operator, left, right.value) {
                    Some(value) => climb(flat, macros, fallback, value, right.next, level),
                    None => failed(flat, i, fallback),
                }
            }
        },
        None => read(left, i),
    }
}

/// Reads an expression of operators that bind at least as tightly as
/// `level`.
pub open spec fn parse_binary(
    flat: Seq<SymbolView>,
    macros: Map<Seq<char>, MacroView>,
    fallback: Range,
    i: int,
    level: nat,
) -> Parse
    decreases flat.len() - i, 3nat,
{
    let first = parse_unary(flat, macros, fallback, i);
    if first.error is Some {
        first
    } else if first.next <= i || first.next > flat.len() {
        failed(flat, i, fallback)
    } else {
        climb(flat, macros, fallback, first.value, first.next, level)
    }
}

/// Reads a whole condition: one expression and nothing after it.
pub open spec fn parse_condition(
    flat: Seq<SymbolView>,
    macros: Map<Seq<char>, MacroView>,
    fallback: Range,
) -> Parse {
    let whole = parse_binary(flat, macros, fallback, 0, 1);
    if whole.error is Some || whole.next == flat.len() {
        whole
    } else {
        failed(flat, whole.next, fallback)
    }
}

/// Whether what a reading returned is what `parse` says.
pub open spec fn agrees(result: Result<(i32, usize), EvaluationError>, parse: Parse) -> bool {
    match result {
        Ok(pair) => parse.error is None && parse.value == pair.0 && parse.next == pair.1,
        Err(error) => parse.error == Some(error@),
    }
}

fn fail_at(flat: &Vec<Symbol>, i: usize, fallback: Range) -> (error: EvaluationError)
    ensures
        error@ == place(deep(flat@), i as int, fallback),
{
    if i < flat.len() {
        EvaluationError::new(flat[i].text.clone(), flat[i].range)
    } else {
        EvaluationError::new(String::new(), fallback)
    }
}

fn is_kind(flat: &Vec<Symbol>, i: usize, kind: TokenKind) -> (same: bool)
    ensures
        same == kind_at(deep(flat@), i as int, kind),
{
    i < flat.len() && flat[i].token_kind == kind
}

fn read_primary(flat: &Vec<Symbol>, macros: &MacroTable, fallback: Range, i: usize) -> (result:
    Result<(i32, usize), EvaluationError>)
    ensures
        agrees(result, parse_primary(deep(flat@), macros@, fallback, i as int)),
        result is Ok ==> i < result->Ok_0.1 <= flat@.len(),
    decreases flat@.len() - i, 0nat,
{
    if i >= flat.len() {
        return Err(fail_at(flat, i, fallback));
    }
    let symbol = &flat[i];
    match symbol.token_kind {
        TokenKind::Literal(literal) => {
            let integer = match literal {
                Literal::IntegerLiteral | Literal::HexLiteral | Literal::BinaryLiteral
                | Literal::OctodecimalLiteral => true,
                _ => false,
            };
            match symbol.int_value {
                Some(number) => {
                    if integer {
                        Ok((#[verifier::truncate] (number as i32), i + 1))
                    } else {
                        Err(fail_at(flat, i, fallback))
                    }
                },
                None => Err(fail_at(flat, i, fallback)),
            }
        },
        TokenKind::Identifier => Ok((FALSE, i + 1)),
        TokenKind::Defined => {
            if flat.len() - i > 1 && is_kind(flat, i + 1, TokenKind::Identifier) {
                Ok((truth_of(macros.contains(flat[i + 1].text.as_str())), i + 2))
            } else if flat.len() - i > 3 && is_kind(flat, i + 1, TokenKind::LParen) && is_kind(
                flat,
                i + 2,
                TokenKind::Identifier,
            ) && is_kind(flat, i + 3, TokenKind::RParen) {
                Ok((truth_of(macros.contains(flat[i + 2].text.as_str())), i + 4))
            } else {
                Err(fail_at(flat, i + 1, fallback))
            }
        },
        TokenKind::LParen => {
            match read_binary(flat, macros, fallback, i + 1, 1) {
                Err(error) => Err(error),
                Ok((value, next)) => {
                    if is_kind(flat, next, TokenKind::RParen) {
                        Ok((value, next + 1))
                    } else {
                        Err(fail_at(flat, next, fallback))
                    }
                },
            }
        },
        _ => Err(fail_at(flat, i, fallback)),
    }
}

fn unary_operator_at(flat: &Vec<Symbol>, i: usize) -> (operator: Option<Operator>)
    ensures
        operator == unary_at(deep(flat@), i as int),
        operator is Some ==> i < flat@.len() <= usize::MAX,
{
    if i < flat.len() {
        match flat[i].token_kind {
            TokenKind::Operator(operator) => {
                if apply_unary(operator, 0).is_some() {
                    Some(operator)
                } else {
                    None
                }
            },
            _ => None,
        }
    } else {
        None
    }
}

fn binary_operator_at(flat: &Vec<Symbol>, i: usize, level: u8) -> (operator: Option<(Operator, u8)>)
    ensures
        operator is Some == binary_at(deep(flat@), i as int, level as nat) is Some,
        operator is Some ==> Some(operator->Some_0.0) == binary_at(
            deep(flat@),
            i as int,
            level as nat,
        ),
        operator is Some ==> binding(operator->Some_0.0) == Some(operator->Some_0.1 as nat),
        operator is Some ==> operator->Some_0.1 <= 10,
        operator is Some ==> i < flat@.len() <= usize::MAX,
{
    if i < flat.len() {
        match flat[i].token_kind {
            TokenKind::Operator(operator) => {
                match binding_of(operator) {
                    Some(found) => {
                        if found >= level {
                            Some((operator, found))
                        } else {
                            None
                        }
                    },
                    None => None,
                }
            },
            _ => None,
        }
    } else {
        None
    }
}

fn read_unary(flat: &Vec<Symbol>, macros: &MacroTable, fallback: Range, i: usize) -> (result:
    Result<(i32, usize), EvaluationError>)
    ensures
        agrees(result, parse_unary(deep(flat@), macros@, fallback, i as int)),
        result is Ok ==> i < result->Ok_0.1 <= flat@.len(),
    decreases flat@.len() - i, 1nat,
{
    match unary_operator_at(flat, i) {
        Some(operator) => {
            match read_unary(flat, macros, fallback, i + 1) {
                Err(error) => Err(error),
                Ok((operand, next)) => {
                    match apply_unary(operator, operand) {
                        Some(value) => Ok((value, next)),
                        None => Err(fail_at(flat, i, fallback)),
                    }
                },
            }
        },
        None => read_primary(flat, macros, fallback, i),
    }
}

fn read_more(
    flat: &Vec<Symbol>,
    macros: &MacroTable,
    fallback: Range,
    left: i32,
    i: usize,
    level: u8,
) -> (result: Result<(i32, usize), EvaluationError>)
    requires
        i <= flat@.len(),
        level <= 11,
    ensures
        agrees(result, climb(deep(flat@), macros@, fallback, left, i as int, level as nat)),
        result is Ok ==> i <= result->Ok_0.1 <= flat@.len(),
    decreases flat@.len() - i, 2nat,
{
    match binary_operator_at(flat, i, level) {
        Some((operator, found)) => {
            match read_binary(flat, macros, fallback, i + 1, found + 1) {
                Err(error) => Err(error),
                Ok((right, next)) => {
                    match apply_binary(operator, left, right) {
                        Some(value) => read_more(flat, macros, fallback, value, next, level),
                        None => Err(fail_at(flat, i, fallback)),
                    }
                },
            }
        },
        None => Ok((left, i)),
    }
}

fn read_binary(
    flat: &Vec<Symbol>,
    macros: &MacroTable,
    fallback: Range,
    i: usize,
    level: u8,
) -> (result: Result<(i32, usize), EvaluationError>)
    requires
        level <= 11,
    ensures
        agrees(result, parse_binary(deep(flat@), macros@, fallback, i as int, level as nat)),
        result is Ok ==> i < result->Ok_0.1 <= flat@.len(),
    decreases flat@.len() - i, 3nat,
{
    match read_unary(flat, macros, fallback, i) {
        Err(error) => Err(error),
        Ok((first, next)) => read_more(flat, macros, fallback, first, next, level),
    }
}

/// Reads a whole condition from its symbols, macros already expanded:
/// the number that it comes to, or the symbol at which it cannot be
/// read.
pub fn read_condition(flat: &Vec<Symbol>, macros: &MacroTable, fallback: Range) -> (result: Result<
    i32,
    EvaluationError,
>)
    ensures
        result is Ok <==> parse_condition(deep(flat@), macros@, fallback).error is None,
        result is Ok ==> result->Ok_0 == parse_condition(deep(flat@), macros@, fallback).value,
        result is Err ==> Some(result->Err_0@) == parse_condition(
            deep(flat@),
            macros@,
            fallback,
        ).error,
{
    match read_binary(flat, macros, fallback, 0, 1) {
        Err(error) => Err(error),
        Ok((value, next)) => {
            if next == flat.len() {
                Ok(value)
            } else {
                Err(fail_at(flat, next, fallback))
            }
        },
    }
}

/// The symbols of a condition with its macros expanded.
pub struct Flat {
    pub symbols: Seq<SymbolView>,
    /// The parameter at which an expansion failed, if one did.
    pub error: Option<Located>,
}

/// Expands the macros of a condition from the token at `pos` up to the
/// token at `end`.
///
/// Comments, newlines and line continuations are left out. A name that
/// follows `defined`, at once or after other symbols that are no names,
/// is kept as it is, and so is a name that no macro has. Any other name
/// gives way to its expansion, in which names without a macro are let
/// through; the arguments of its call are read from the condition.
pub open spec fn flatten_from(
    tokens: Seq<TokenView>,
    end: nat,
    macros: Map<Seq<char>, MacroView>,
    pos: nat,
    after_defined: bool,
    symbols: Seq<SymbolView>,
) -> Flat
    decreases end - pos,
{
    if pos >= end || pos >= tokens.len() {
        Flat { symbols, error: None }
    } else {
        let symbol = tokens[pos as int].symbol;
        match symbol.token_kind {
            TokenKind::Comment(_) | TokenKind::Newline | TokenKind::LineContinuation
            | TokenKind::Eof => flatten_from(tokens, end, macros, pos + 1, after_defined, symbols),
            TokenKind::Defined => flatten_from(
                tokens,
                end,
                macros,
                pos + 1,
                true,
                symbols.push(symbol),
            ),
            TokenKind::Identifier => if after_defined || !macros.contains_key(symbol.text) {
                flatten_from(tokens, end, macros, pos + 1, false, symbols.push(symbol))
            } else {
                let expanded = expansion(setting_of(tokens, end, macros, true), symbol, pos + 1);
                match expanded.error {
                    Some(ExpansionErrorView::Parse(at)) => Flat { symbols, error: Some(at) },
                    Some(ExpansionErrorView::MacroNotFound(at)) => Flat {
                        symbols,
                        error: Some(at),
                    },
                    None => flatten_from(
                        tokens,
                        end,
                        macros,
                        if pos < expanded.pos <= end {
                            expanded.pos
                        } else {
                            pos + 1
                        },
                        false,
                        symbols + expanded.emitted.reverse(),
                    ),
                }
            },
            _ => flatten_from(tokens, end, macros, pos + 1, after_defined, symbols.push(symbol)),
        }
    }
}

/// The names of a flat condition that no macro has, from place `i` on,
/// after those in `found`: every name but the one that `defined` asks
/// about.
pub open spec fn scan_names(
    flat: Seq<SymbolView>,
    i: int,
    after_defined: bool,
    found: Seq<Located>,
) -> Seq<Located>
    decreases flat.len() - i,
{
    if i < 0 || i >= flat.len() {
        found
    } else {
        match flat[i].token_kind {
            TokenKind::Defined => scan_names(flat, i + 1, true, found),
            TokenKind::Identifier => scan_names(
                flat,
                i + 1,
                false,
                if after_defined {
                    found
                } else {
                    found.push(Located { text: flat[i].text, range: flat[i].range })
                },
            ),
            _ => scan_names(flat, i + 1, after_defined, found),
        }
    }
}

/// What evaluating a condition comes to, as contracts see it.
pub struct EvaluationView {
    /// Whether the condition holds.
    pub value: bool,
    /// The names in the condition that no macro has.
    pub unresolved: Seq<Located>,
    /// Where the condition cannot be read, if it cannot.
    pub error: Option<Located>,
}

/// The value of the condition that the tokens from `start` up to `end`
/// spell.
///
/// The condition holds if it can be read, every name in it has a macro,
/// and the number that it comes to is not zero.
pub open spec fn evaluated(
    tokens: Seq<TokenView>,
    start: nat,
    end: nat,
    macros: Map<Seq<char>, MacroView>,
    fallback: Range,
) -> EvaluationView {
    let flat = flatten_from(tokens, end, macros, start, false, Seq::empty());
    if flat.error is Some {
        EvaluationView { value: false, unresolved: Seq::empty(), error: flat.error }
    } else {
        let names = scan_names(flat.symbols, 0, false, Seq::empty());
        let parse = parse_condition(flat.symbols, macros, fallback);
        EvaluationView {
            value: parse.error is None && names.len() == 0 && parse.value != 0,
            unresolved: names,
            error: parse.error,
        }
    }
}

/// What evaluating a condition comes to.
pub struct Evaluation {
    /// Whether the condition holds.
    pub value: bool,
    /// The names in the condition that no macro has.
    pub macro_not_found_errors: Vec<MacroNotFoundError>,
    /// Why the condition cannot be read, if it cannot.
    pub error: Option<EvaluationError>,
}

impl View for Evaluation {
    type V = EvaluationView;

    open spec fn view(&self) -> EvaluationView {
        EvaluationView {
            value: self.value,
            unresolved: deep(self.macro_not_found_errors@),
            error: match self.error {
                Some(error) => Some(error@),
                None => None,
            },
        }
    }
}

fn flatten(tokens: &Vec<Token>, start: usize, end: usize, macros: &MacroTable) -> (result: Result<
    Vec<Symbol>,
    EvaluationError,
>)
    ensures
        result is Ok <==> flatten_from(
            deep(tokens@),
            end as nat,
            macros@,
            start as nat,
            false,
            Seq::empty(),
        ).error is None,
        result is Ok ==> deep(result->Ok_0@) == flatten_from(
            deep(tokens@),
            end as nat,
            macros@,
            start as nat,
            false,
            Seq::empty(),
        ).symbols,
        result is Err ==> Some(result->Err_0@) == flatten_from(
            deep(tokens@),
            end as nat,
            macros@,
            start as nat,
            false,
            Seq::empty(),
        ).error,
{
    let ghost goal = flatten_from(
        deep(tokens@),
        end as nat,
        macros@,
        start as nat,
        false,
        Seq::empty(),
    );
    let mut flat: Vec<Symbol> = Vec::new();
    let mut pos = start;
    let mut after_defined = false;
    proof {
        assert(deep(flat@) =~= Seq::<SymbolView>::empty());
    }
    while pos < end && pos < tokens.len()
        invariant
            goal == flatten_from(
                deep(tokens@),
                end as nat,
                macros@,
                start as nat,
                false,
                Seq::empty(),
            ),
            flatten_from(deep(tokens@), end as nat, macros@, pos as nat, after_defined, deep(flat@))
                == goal,
        decreases end - pos,
    {
        let symbol = &tokens[pos].symbol;
        let ghost before = flat@;
        match symbol.token_kind {
            TokenKind::Comment(_) | TokenKind::Newline | TokenKind::LineContinuation
            | TokenKind::Eof => {
                pos = pos + 1;
            },
            TokenKind::Defined => {
                flat.push(symbol.clone());
                proof {
                    lemma_deep_push(before, flat@.last());
                }
                after_defined = true;
                pos = pos + 1;
            },
            TokenKind::Identifier => {
                if after_defined || !macros.contains(symbol.text.as_str()) {
                    flat.push(symbol.clone());
                    proof {
                        lemma_deep_push(before, flat@.last());
                    }
                    after_defined = false;
                    pos = pos + 1;
                } else {
                    let ghost expanded = expansion(
                        setting_of(deep(tokens@), end as nat, macros@, true),
                        symbol@,
                        (pos + 1) as nat,
                    );
                    let mut stack: Vec<Symbol> = Vec::new();
                    let mut next = pos + 1;
                    proof {
                        assert(deep(stack@) =~= Seq::<SymbolView>::empty());
                    }
                    match expand_symbol(tokens, &mut next, end, macros, symbol, &mut stack, true) {
                        Err(ExpansionError::Parse(error)) => {
                            return Err(EvaluationError::new(error.text, error.range));
                        },
                        Err(ExpansionError::MacroNotFound(error)) => {
                            return Err(EvaluationError::new(error.macro_name, error.range));
                        },
                        Ok(_) => {},
                    }
                    proof {
                        assert(deep(stack@) =~= expanded.emitted);
                    }
                    loop
                        invariant
                            deep(flat@) + deep(stack@).reverse() == deep(before)
                                + expanded.emitted.reverse(),
                        ensures
                            deep(flat@) == deep(before) + expanded.emitted.reverse(),
                        decreases stack@.len(),
                    {
                        let ghost flat_before = flat@;
                        let ghost stack_before = stack@;
                        match stack.pop() {
                            Some(emitted) => {
                                flat.push(emitted);
                                proof {
                                    lemma_deep_push(flat_before, emitted);
                                    lemma_deep_drop_last(stack_before);
                                    assert(deep(stack_before).reverse() =~= seq![emitted@] + deep(
                                        stack_before,
                                    ).drop_last().reverse());
                                    assert(deep(flat_before).push(emitted@) + deep(
                                        stack_before,
                                    ).drop_last().reverse() =~= deep(flat_before) + deep(
                                        stack_before,
                                    ).reverse());
                                }
                            },
                            None => {
                                proof {
                                    assert(deep(stack_before).reverse() =~= Seq::<
                                        SymbolView,
                                    >::empty());
                                    assert(deep(flat@) + Seq::<SymbolView>::empty() =~= deep(
                                        flat@,
                                    ));
                                }
                                break ;
                            },
                        }
                    }
                    pos = next;
                }
            },
            _ => {
                flat.push(symbol.clone());
                proof {
                    lemma_deep_push(before, flat@.last());
                }
                pos = pos + 1;
            },
        }
    }
    Ok(flat)
}

fn find_unresolved(flat: &Vec<Symbol>) -> (found: Vec<MacroNotFoundError>)
    ensures
        deep(found@) == scan_names(deep(flat@), 0, false, Seq::empty()),
{
    let mut found: Vec<MacroNotFoundError> = Vec::new();
    let mut after_defined = false;
    let mut i: usize = 0;
    proof {
        assert(deep(found@) =~= Seq::<Located>::empty());
    }
    while i < flat.len()
        invariant
            scan_names(deep(flat@), i as int, after_defined, deep(found@)) == scan_names(
                deep(flat@),
                0,
                false,
                Seq::empty(),
            ),
        decreases flat.len() - i,
    {
        let symbol = &flat[i];
        match symbol.token_kind {
            TokenKind::Defined => {
                after_defined = true;
            },
            TokenKind::Identifier => {
                if !after_defined {
                    let ghost before = found@;
                    found.push(MacroNotFoundError::new(symbol.text.clone(), symbol.range));
                    proof {
                        lemma_deep_push(before, found@.last());
                    }
                }
                after_defined = false;
            },
            _ => {},
        }
        i += 1;
    }
    found
}

/// Evaluates the condition that the tokens from `start` up to `end`
/// spell; `fallback` is the range that an error reports where the
/// condition ends too early.
pub fn evaluate_condition(
    tokens: &Vec<Token>,
    start: usize,
    end: usize,
    macros: &MacroTable,
    fallback: Range,
) -> (evaluation: Evaluation)
    ensures
        evaluation@ == evaluated(deep(tokens@), start as nat, end as nat, macros@, fallback),
{
    match flatten(tokens, start, end, macros) {
        Err(error) => {
            let evaluation = Evaluation {
                value: false,
                macro_not_found_errors: Vec::new(),
                error: Some(error),
            };
            proof {
                assert(deep(evaluation.macro_not_found_errors@) =~= Seq::<Located>::empty());
            }
            evaluation
        },
        Ok(flat) => {
            let macro_not_found_errors = find_unresolved(&flat);
            match read_condition(&flat, macros, fallback) {
                Err(error) => Evaluation {
                    value: false,
                    macro_not_found_errors,
                    error: Some(error),
                },
                Ok(number) => Evaluation {
                    value: macro_not_found_errors.len() == 0 && number != 0,
                    macro_not_found_errors,
                    error: None,
                },
            }
        },
    }
}

} // verus!

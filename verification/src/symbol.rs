//! Symbols: the tokens of a source text, each with its kind, its text, its
//! range and its distance from the symbol before it.

use crate::range::{Position, Range};
use crate::text::{text_eq, text_width};
use vstd::prelude::*;

verus! {

/// How far a symbol starts from the end of the symbol before it.
#[derive(Clone, Copy, Debug, PartialEq, Eq, Structural)]
pub struct Delta {
    /// Difference in lines.
    pub line: i32,
    /// Difference in columns.
    pub col: i32,
}

/// The kinds of literal.
#[derive(Clone, Copy, Debug, PartialEq, Eq, Structural)]
pub enum Literal {
    /// `1234`
    IntegerLiteral,
    /// `0x1f`
    HexLiteral,
    /// `0b1010`
    BinaryLiteral,
    /// `0o17`
    OctodecimalLiteral,
    /// `"text"`
    StringLiteral,
    /// `'c'`
    CharLiteral,
    /// `1.5`
    FloatLiteral,
}

/// The kinds of comment.
#[derive(Clone, Copy, Debug, PartialEq, Eq, Structural)]
pub enum Comment {
    /// From `//` to the end of the line.
    LineComment,
    /// From `/*` to `*/`.
    BlockComment,
}

/// The operators.
#[derive(Clone, Copy, Debug, PartialEq, Eq, Structural)]
pub enum Operator {
    /// `...`
    Ellipses,
    /// `+`
    Plus,
    /// `-`
    Minus,
    /// `*`
    Star,
    /// `/`
    Slash,
    /// `#`
    Stringize,
    /// `%`
    Percent,
    /// `&`
    Ampersand,
    /// `|`
    Bitor,
    /// `^`
    Bitxor,
    /// `>>`
    Shr,
    /// `>>>`
    Ushr,
    /// `<<`
    Shl,
    /// `=`
    Assign,
    /// `+=`
    AssignAdd,
    /// `-=`
    AssignSub,
    /// `*=`
    AssignMul,
    /// `/=`
    AssignDiv,
    /// `%=`
    AssignMod,
    /// `&=`
    AssignBitAnd,
    /// `|=`
    AssignBitOr,
    /// `^=`
    AssignBitXor,
    /// `>>=`
    AssignShr,
    /// `>>>=`
    AssignUshl,
    /// `<<=`
    AssignShl,
    /// `++`
    Increment,
    /// `--`
    Decrement,
    /// `==`
    Equals,
    /// `!=`
    NotEquals,
    /// `<`
    Lt,
    /// `<=`
    Le,
    /// `>`
    Gt,
    /// `>=`
    Ge,
    /// `&&`
    And,
    /// `||`
    Or,
    /// `!`
    Not,
    /// `~`
    Tilde,
}

/// The preprocessor directives.
#[derive(Clone, Copy, Debug, PartialEq, Eq, Structural)]
pub enum PreprocDir {
    /// `#define`
    MDefine,
    /// `#deprecate`
    MDeprecate,
    /// `#else`
    MElse,
    /// `#elseif`
    MElseif,
    /// `#endif`
    MEndif,
    /// `#endinput`
    MEndinput,
    /// `#file`
    MFile,
    /// `#if`
    MIf,
    /// `#include`
    MInclude,
    /// `#leaving`
    MLeaving,
    /// `__LINE__`
    MLine,
    /// `#optional_newdecls`
    MOptionalNewdecls,
    /// `#optional_semicolons`
    MOptionalSemi,
    /// `#pragma`
    MPragma,
    /// `#require_newdecls`
    MRequireNewdecls,
    /// `#require_semicolons`
    MRequireSemi,
    /// `#tryinclude`
    MTryinclude,
    /// `#undef`
    MUndef,
}

/// The kind of a symbol. Keywords and punctuation that the preprocessor
/// passes through without looking at them share the kind `Other`.
#[derive(Clone, Copy, Debug, PartialEq, Eq, Structural)]
pub enum TokenKind {
    /// A name.
    Identifier,
    Literal(Literal),
    Comment(Comment),
    Operator(Operator),
    PreprocDir(PreprocDir),
    /// The end of a line.
    Newline,
    /// A backslash at the end of a line.
    LineContinuation,
    /// The keyword `defined`.
    Defined,
    /// `(`
    LParen,
    /// `)`
    RParen,
    /// `,`
    Comma,
    /// The end of the text; the last symbol of every stream.
    Eof,
    /// Any other keyword or punctuation mark.
    Other,
}

impl Literal {
    /// The literal kind that the lexer prints as `tag`.
    pub open spec fn of_tag(tag: Seq<char>) -> Option<Literal> {
        if tag == "Literal(IntegerLiteral)"@ {
            Some(Literal::IntegerLiteral)
        } else if tag == "Literal(HexLiteral)"@ {
            Some(Literal::HexLiteral)
        } else if tag == "Literal(BinaryLiteral)"@ {
            Some(Literal::BinaryLiteral)
        } else if tag == "Literal(OctodecimalLiteral)"@ {
            Some(Literal::OctodecimalLiteral)
        } else if tag == "Literal(StringLiteral)"@ {
            Some(Literal::StringLiteral)
        } else if tag == "Literal(CharLiteral)"@ {
            Some(Literal::CharLiteral)
        } else if tag == "Literal(FloatLiteral)"@ {
            Some(Literal::FloatLiteral)
        } else {
            None
        }
    }

    /// Reads a literal kind from the name that the lexer prints for it.
    pub fn from_tag(tag: &str) -> (kind: Option<Literal>)
        ensures
            kind == Literal::of_tag(tag@),
    {
        if text_eq(tag, "Literal(IntegerLiteral)") {
            Some(Literal::IntegerLiteral)
        } else if text_eq(tag, "Literal(HexLiteral)") {
            Some(Literal::HexLiteral)
        } else if text_eq(tag, "Literal(BinaryLiteral)") {
            Some(Literal::BinaryLiteral)
        } else if text_eq(tag, "Literal(OctodecimalLiteral)") {
            Some(Literal::OctodecimalLiteral)
        } else if text_eq(tag, "Literal(StringLiteral)") {
            Some(Literal::StringLiteral)
        } else if text_eq(tag, "Literal(CharLiteral)") {
            Some(Literal::CharLiteral)
        } else if text_eq(tag, "Literal(FloatLiteral)") {
            Some(Literal::FloatLiteral)
        } else {
            None
        }
    }
}

impl Comment {
    /// The comment kind that the lexer prints as `tag`.
    pub open spec fn of_tag(tag: Seq<char>) -> Option<Comment> {
        if tag == "Comment(LineComment)"@ {
            Some(Comment::LineComment)
        } else if tag == "Comment(BlockComment)"@ {
            Some(Comment::BlockComment)
        } else {
            None
        }
    }

    /// Reads a comment kind from the name that the lexer prints for it.
    pub fn from_tag(tag: &str) -> (kind: Option<Comment>)
        ensures
            kind == Comment::of_tag(tag@),
    {
        if text_eq(tag, "Comment(LineComment)") {
            Some(Comment::LineComment)
        } else if text_eq(tag, "Comment(BlockComment)") {
            Some(Comment::BlockComment)
        } else {
            None
        }
    }
}

impl Operator {
    /// The operator that the lexer prints as `tag`.
    pub open spec fn of_tag(tag: Seq<char>) -> Option<Operator> {
        if tag == "Operator(Ellipses)"@ {
            Some(Operator::Ellipses)
        } else if tag == "Operator(Plus)"@ {
            Some(Operator::Plus)
        } else if tag == "Operator(Minus)"@ {
            Some(Operator::Minus)
        } else if tag == "Operator(Star)"@ {
            Some(Operator::Star)
        } else if tag == "Operator(Slash)"@ {
            Some(Operator::Slash)
        } else if tag == "Operator(Stringize)"@ {
            Some(Operator::Stringize)
        } else if tag == "Operator(Percent)"@ {
            Some(Operator::Percent)
        } else if tag == "Operator(Ampersand)"@ {
            Some(Operator::Ampersand)
        } else if tag == "Operator(Bitor)"@ {
            Some(Operator::Bitor)
        } else if tag == "Operator(Bitxor)"@ {
            Some(Operator::Bitxor)
        } else if tag == "Operator(Shr)"@ {
            Some(Operator::Shr)
        } else if tag == "Operator(Ushr)"@ {
            Some(Operator::Ushr)
        } else if tag == "Operator(Shl)"@ {
            Some(Operator::Shl)
        } else if tag == "Operator(Assign)"@ {
            Some(Operator::Assign)
        } else if tag == "Operator(AssignAdd)"@ {
            Some(Operator::AssignAdd)
        } else if tag == "Operator(AssignSub)"@ {
            Some(Operator::AssignSub)
        } else if tag == "Operator(AssignMul)"@ {
            Some(Operator::AssignMul)
        } else if tag == "Operator(AssignDiv)"@ {
            Some(Operator::AssignDiv)
        } else if tag == "Operator(AssignMod)"@ {
            Some(Operator::AssignMod)
        } else if tag == "Operator(AssignBitAnd)"@ {
            Some(Operator::AssignBitAnd)
        } else if tag == "Operator(AssignBitOr)"@ {
            Some(Operator::AssignBitOr)
        } else if tag == "Operator(AssignBitXor)"@ {
            Some(Operator::AssignBitXor)
        } else if tag == "Operator(AssignShr)"@ {
            Some(Operator::AssignShr)
        } else if tag == "Operator(AssignUshl)"@ {
            Some(Operator::AssignUshl)
        } else if tag == "Operator(AssignShl)"@ {
            Some(Operator::AssignShl)
        } else if tag == "Operator(Increment)"@ {
            Some(Operator::Increment)
        } else if tag == "Operator(Decrement)"@ {
            Some(Operator::Decrement)
        } else if tag == "Operator(Equals)"@ {
            Some(Operator::Equals)
        } else if tag == "Operator(NotEquals)"@ {
            Some(Operator::NotEquals)
        } else if tag == "Operator(Lt)"@ {
            Some(Operator::Lt)
        } else if tag == "Operator(Le)"@ {
            Some(Operator::Le)
        } else if tag == "Operator(Gt)"@ {
            Some(Operator::Gt)
        } else if tag == "Operator(Ge)"@ {
            Some(Operator::Ge)
        } else if tag == "Operator(And)"@ {
            Some(Operator::And)
        } else if tag == "Operator(Or)"@ {
            Some(Operator::Or)
        } else if tag == "Operator(Not)"@ {
            Some(Operator::Not)
        } else if tag == "Operator(Tilde)"@ {
            Some(Operator::Tilde)
        } else {
            None
        }
    }

    /// Reads an operator from the name that the lexer prints for it.
    pub fn from_tag(tag: &str) -> (kind: Option<Operator>)
        ensures
            kind == Operator::of_tag(tag@),
    {
        if text_eq(tag, "Operator(Ellipses)") {
            Some(Operator::Ellipses)
        } else if text_eq(tag, "Operator(Plus)") {
            Some(Operator::Plus)
        } else if text_eq(tag, "Operator(Minus)") {
            Some(Operator::Minus)
        } else if text_eq(tag, "Operator(Star)") {
            Some(Operator::Star)
        } else if text_eq(tag, "Operator(Slash)") {
            Some(Operator::Slash)
        } else if text_eq(tag, "Operator(Stringize)") {
            Some(Operator::Stringize)
        } else if text_eq(tag, "Operator(Percent)") {
            Some(Operator::Percent)
        } else if text_eq(tag, "Operator(Ampersand)") {
            Some(Operator::Ampersand)
        } else if text_eq(tag, "Operator(Bitor)") {
            Some(Operator::Bitor)
        } else if text_eq(tag, "Operator(Bitxor)") {
            Some(Operator::Bitxor)
        } else if text_eq(tag, "Operator(Shr)") {
            Some(Operator::Shr)
        } else if text_eq(tag, "Operator(Ushr)") {
            Some(Operator::Ushr)
        } else if text_eq(tag, "Operator(Shl)") {
            Some(Operator::Shl)
        } else if text_eq(tag, "Operator(Assign)") {
            Some(Operator::Assign)
        } else if text_eq(tag, "Operator(AssignAdd)") {
            Some(Operator::AssignAdd)
        } else if text_eq(tag, "Operator(AssignSub)") {
            Some(Operator::AssignSub)
        } else if text_eq(tag, "Operator(AssignMul)") {
            Some(Operator::AssignMul)
        } else if text_eq(tag, "Operator(AssignDiv)") {
            Some(Operator::AssignDiv)
        } else if text_eq(tag, "Operator(AssignMod)") {
            Some(Operator::AssignMod)
        } else if text_eq(tag, "Operator(AssignBitAnd)") {
            Some(Operator::AssignBitAnd)
        } else if text_eq(tag, "Operator(AssignBitOr)") {
            Some(Operator::AssignBitOr)
        } else if text_eq(tag, "Operator(AssignBitXor)") {
            Some(Operator::AssignBitXor)
        } else if text_eq(tag, "Operator(AssignShr)") {
            Some(Operator::AssignShr)
        } else if text_eq(tag, "Operator(AssignUshl)") {
            Some(Operator::AssignUshl)
        } else if text_eq(tag, "Operator(AssignShl)") {
            Some(Operator::AssignShl)
        } else if text_eq(tag, "Operator(Increment)") {
            Some(Operator::Increment)
        } else if text_eq(tag, "Operator(Decrement)") {
            Some(Operator::Decrement)
        } else if text_eq(tag, "Operator(Equals)") {
            Some(Operator::Equals)
        } else if text_eq(tag, "Operator(NotEquals)") {
            Some(Operator::NotEquals)
        } else if text_eq(tag, "Operator(Lt)") {
            Some(Operator::Lt)
        } else if text_eq(tag, "Operator(Le)") {
            Some(Operator::Le)
        } else if text_eq(tag, "Operator(Gt)") {
            Some(Operator::Gt)
        } else if text_eq(tag, "Operator(Ge)") {
            Some(Operator::Ge)
        } else if text_eq(tag, "Operator(And)") {
            Some(Operator::And)
        } else if text_eq(tag, "Operator(Or)") {
            Some(Operator::Or)
        } else if text_eq(tag, "Operator(Not)") {
            Some(Operator::Not)
        } else if text_eq(tag, "Operator(Tilde)") {
            Some(Operator::Tilde)
        } else {
            None
        }
    }
}

impl PreprocDir {
    /// The directive that the lexer prints as `tag`.
    pub open spec fn of_tag(tag: Seq<char>) -> Option<PreprocDir> {
        if tag == "PreprocDir(MDefine)"@ {
            Some(PreprocDir::MDefine)
        } else if tag == "PreprocDir(MDeprecate)"@ {
            Some(PreprocDir::MDeprecate)
        } else if tag == "PreprocDir(MElse)"@ {
            Some(PreprocDir::MElse)
        } else if tag == "PreprocDir(MElseif)"@ {
            Some(PreprocDir::MElseif)
        } else if tag == "PreprocDir(MEndif)"@ {
            Some(PreprocDir::MEndif)
        } else if tag == "PreprocDir(MEndinput)"@ {
            Some(PreprocDir::MEndinput)
        } else if tag == "PreprocDir(MFile)"@ {
            Some(PreprocDir::MFile)
        } else if tag == "PreprocDir(MIf)"@ {
            Some(PreprocDir::MIf)
        } else if tag == "PreprocDir(MInclude)"@ {
            Some(PreprocDir::MInclude)
        } else if tag == "PreprocDir(MLeaving)"@ {
            Some(PreprocDir::MLeaving)
        } else if tag == "PreprocDir(MLine)"@ {
            Some(PreprocDir::MLine)
        } else if tag == "PreprocDir(MOptionalNewdecls)"@ {
            Some(PreprocDir::MOptionalNewdecls)
        } else if tag == "PreprocDir(MOptionalSemi)"@ {
            Some(PreprocDir::MOptionalSemi)
        } else if tag == "PreprocDir(MPragma)"@ {
            Some(PreprocDir::MPragma)
        } else if tag == "PreprocDir(MRequireNewdecls)"@ {
            Some(PreprocDir::MRequireNewdecls)
        } else if tag == "PreprocDir(MRequireSemi)"@ {
            Some(PreprocDir::MRequireSemi)
        } else if tag == "PreprocDir(MTryinclude)"@ {
            Some(PreprocDir::MTryinclude)
        } else if tag == "PreprocDir(MUndef)"@ {
            Some(PreprocDir::MUndef)
        } else {
            None
        }
    }

    /// Reads a directive from the name that the lexer prints for it.
    pub fn from_tag(tag: &str) -> (kind: Option<PreprocDir>)
        ensures
            kind == PreprocDir::of_tag(tag@),
    {
        if text_eq(tag, "PreprocDir(MDefine)") {
            Some(PreprocDir::MDefine)
        } else if text_eq(tag, "PreprocDir(MDeprecate)") {
            Some(PreprocDir::MDeprecate)
        } else if text_eq(tag, "PreprocDir(MElse)") {
            Some(PreprocDir::MElse)
        } else if text_eq(tag, "PreprocDir(MElseif)") {
            Some(PreprocDir::MElseif)
        } else if text_eq(tag, "PreprocDir(MEndif)") {
            Some(PreprocDir::MEndif)
        } else if text_eq(tag, "PreprocDir(MEndinput)") {
            Some(PreprocDir::MEndinput)
        } else if text_eq(tag, "PreprocDir(MFile)") {
            Some(PreprocDir::MFile)
        } else if text_eq(tag, "PreprocDir(MIf)") {
            Some(PreprocDir::MIf)
        } else if text_eq(tag, "PreprocDir(MInclude)") {
            Some(PreprocDir::MInclude)
        } else if text_eq(tag, "PreprocDir(MLeaving)") {
            Some(PreprocDir::MLeaving)
        } else if text_eq(tag, "PreprocDir(MLine)") {
            Some(PreprocDir::MLine)
        } else if text_eq(tag, "PreprocDir(MOptionalNewdecls)") {
            Some(PreprocDir::MOptionalNewdecls)
        } else if text_eq(tag, "PreprocDir(MOptionalSemi)") {
            Some(PreprocDir::MOptionalSemi)
        } else if text_eq(tag, "PreprocDir(MPragma)") {
            Some(PreprocDir::MPragma)
        } else if text_eq(tag, "PreprocDir(MRequireNewdecls)") {
            Some(PreprocDir::MRequireNewdecls)
        } else if text_eq(tag, "PreprocDir(MRequireSemi)") {
            Some(PreprocDir::MRequireSemi)
        } else if text_eq(tag, "PreprocDir(MTryinclude)") {
            Some(PreprocDir::MTryinclude)
        } else if text_eq(tag, "PreprocDir(MUndef)") {
            Some(PreprocDir::MUndef)
        } else {
            None
        }
    }
}

impl TokenKind {
    /// The kind that the lexer prints as `tag`: its own name for the kinds
    /// listed here, `Other` for every name that is not.
    pub open spec fn of_tag(tag: Seq<char>) -> TokenKind {
        if tag == "Identifier"@ {
            TokenKind::Identifier
        } else if tag == "Newline"@ {
            TokenKind::Newline
        } else if tag == "LineContinuation"@ {
            TokenKind::LineContinuation
        } else if tag == "Defined"@ {
            TokenKind::Defined
        } else if tag == "LParen"@ {
            TokenKind::LParen
        } else if tag == "RParen"@ {
            TokenKind::RParen
        } else if tag == "Comma"@ {
            TokenKind::Comma
        } else if tag == "Eof"@ {
            TokenKind::Eof
        } else if Literal::of_tag(tag) is Some {
            TokenKind::Literal(Literal::of_tag(tag)->Some_0)
        } else if Comment::of_tag(tag) is Some {
            TokenKind::Comment(Comment::of_tag(tag)->Some_0)
        } else if Operator::of_tag(tag) is Some {
            TokenKind::Operator(Operator::of_tag(tag)->Some_0)
        } else if PreprocDir::of_tag(tag) is Some {
            TokenKind::PreprocDir(PreprocDir::of_tag(tag)->Some_0)
        } else {
            TokenKind::Other
        }
    }

    /// Reads a kind from the name that the lexer prints for it.
    pub fn from_tag(tag: &str) -> (kind: TokenKind)
        ensures
            kind == TokenKind::of_tag(tag@),
    {
        if text_eq(tag, "Identifier") {
            TokenKind::Identifier
        } else if text_eq(tag, "Newline") {
            TokenKind::Newline
        } else if text_eq(tag, "LineContinuation") {
            TokenKind::LineContinuation
        } else if text_eq(tag, "Defined") {
            TokenKind::Defined
        } else if text_eq(tag, "LParen") {
            TokenKind::LParen
        } else if text_eq(tag, "RParen") {
            TokenKind::RParen
        } else if text_eq(tag, "Comma") {
            TokenKind::Comma
        } else if text_eq(tag, "Eof") {
            TokenKind::Eof
        } else {
            match Literal::from_tag(tag) {
                Some(literal) => TokenKind::Literal(literal),
                None => match Comment::from_tag(tag) {
                    Some(comment) => TokenKind::Comment(comment),
                    None => match Operator::from_tag(tag) {
                        Some(operator) => TokenKind::Operator(operator),
                        None => match PreprocDir::from_tag(tag) {
                            Some(directive) => TokenKind::PreprocDir(directive),
                            None => TokenKind::Other,
                        },
                    },
                },
            }
        }
    }
}

/// A token of the source text.
///
/// Besides its kind, range and delta a symbol carries three readings of
/// its text: the text as it stands in the source, the text with its line
/// continuations taken out, and the number it denotes where it is a
/// numeric literal.
#[derive(Debug)]
pub struct Symbol {
    pub token_kind: TokenKind,
    pub text: String,
    pub inline_text: String,
    pub int_value: Option<u32>,
    pub range: Range,
    pub delta: Delta,
}

/// A symbol as contracts see it.
pub struct SymbolView {
    pub token_kind: TokenKind,
    pub text: Seq<char>,
    pub inline_text: Seq<char>,
    pub int_value: Option<u32>,
    pub range: Range,
    pub delta: Delta,
}

impl View for Symbol {
    type V = SymbolView;

    open spec fn view(&self) -> SymbolView {
        SymbolView {
            token_kind: self.token_kind,
            text: self.text@,
            inline_text: self.inline_text@,
            int_value: self.int_value,
            range: self.range,
            delta: self.delta,
        }
    }
}

impl DeepView for Symbol {
    type V = SymbolView;

    open spec fn deep_view(&self) -> SymbolView {
        self@
    }
}

impl Clone for Symbol {
    fn clone(&self) -> (copy: Symbol)
        ensures
            copy@ == self@,
    {
        Symbol {
            token_kind: self.token_kind,
            text: self.text.clone(),
            inline_text: self.inline_text.clone(),
            int_value: self.int_value,
            range: self.range,
            delta: self.delta,
        }
    }
}

impl SymbolView {
    /// The symbol with another delta.
    pub open spec fn with_delta(self, delta: Delta) -> SymbolView {
        SymbolView { delta, ..self }
    }

    /// The column at which a text of the symbol's inline width ends when
    /// it starts where the symbol starts; the largest column where that
    /// is past it.
    pub open spec fn inline_end_col(self) -> u32 {
        if self.range.start.character + text_width(self.inline_text) <= u32::MAX {
            (self.range.start.character + text_width(self.inline_text)) as u32
        } else {
            u32::MAX
        }
    }

    /// The symbol on one line: its text is the inline text, and its range
    /// runs from its start over the width of that text.
    pub open spec fn inlined(self) -> SymbolView {
        SymbolView {
            token_kind: self.token_kind,
            text: self.inline_text,
            inline_text: self.inline_text,
            int_value: self.int_value,
            range: Range {
                start: self.range.start,
                end: Position { line: self.range.start.line, character: self.inline_end_col() },
            },
            delta: self.delta,
        }
    }
}

impl Symbol {
    /// A symbol of the given kind and text. Its inline text is the text
    /// itself, and it denotes no number.
    pub fn new(token_kind: TokenKind, text: &str, range: Range, delta: Delta) -> (symbol: Symbol)
        ensures
            symbol@ == (SymbolView {
                token_kind,
                text: text@,
                inline_text: text@,
                int_value: None,
                range,
                delta,
            }),
    {
        Symbol {
            token_kind,
            text: String::from_str(text),
            inline_text: String::from_str(text),
            int_value: None,
            range,
            delta,
        }
    }

    /// The text of the symbol as it stands in the source.
    pub fn text(&self) -> (text: String)
        ensures
            text@ == self@.text,
    {
        self.text.clone()
    }

    /// The text of the symbol with its line continuations taken out.
    pub fn inline_text(&self) -> (text: String)
        ensures
            text@ == self@.inline_text,
    {
        self.inline_text.clone()
    }

    /// The number that the symbol denotes, if it is a numeric literal.
    pub fn to_int(&self) -> (value: Option<u32>)
        ensures
            value == self@.int_value,
    {
        self.int_value
    }

    /// A copy of the symbol with another delta.
    pub fn with_delta(&self, delta: Delta) -> (symbol: Symbol)
        ensures
            symbol@ == self@.with_delta(delta),
    {
        let mut symbol = self.clone();
        symbol.delta = delta;
        symbol
    }

    /// A copy of the symbol on one line: see [`SymbolView::inlined`].
    pub fn inlined(&self) -> (symbol: Symbol)
        ensures
            symbol@ == self@.inlined(),
    {
        let width = self.inline_text.as_str().len();
        let start = self.range.start.character;
        let end_col = if width <= (u32::MAX - start) as usize {
            start + width as u32
        } else {
            u32::MAX
        };
        Symbol {
            token_kind: self.token_kind,
            text: self.inline_text.clone(),
            inline_text: self.inline_text.clone(),
            int_value: self.int_value,
            range: Range::new(self.range.start, Position::new(self.range.start.line, end_col)),
            delta: self.delta,
        }
    }
}

/// The views of a sequence of values, one for one.
pub open spec fn deep<T: DeepView>(items: Seq<T>) -> Seq<T::V> {
    Seq::new(items.len(), |i: int| items[i].deep_view())
}

/// Pushing a value pushes its view.
pub proof fn lemma_deep_push<T: DeepView>(items: Seq<T>, item: T)
    ensures
        deep(items.push(item)) == deep(items).push(item.deep_view()),
{
    assert(deep(items.push(item)) =~= deep(items).push(item.deep_view()));
}

/// Dropping the last value drops the last view.
pub proof fn lemma_deep_drop_last<T: DeepView>(items: Seq<T>)
    requires
        items.len() > 0,
    ensures
        deep(items.drop_last()) == deep(items).drop_last(),
        deep(items).last() == items.last().deep_view(),
{
    assert(deep(items.drop_last()) =~= deep(items).drop_last());
}

/// The views of a concatenation are the concatenated views.
pub proof fn lemma_deep_add<T: DeepView>(left: Seq<T>, right: Seq<T>)
    ensures
        deep(left + right) == deep(left) + deep(right),
{
    assert(deep(left + right) =~= deep(left) + deep(right));
}

} // verus!

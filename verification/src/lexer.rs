//! The token stream of a source text, as the SourcePawn lexer yields it.
//!
//! The lexer is an outside crate. What it yields for a text is not
//! described here but named ([`lexed`]); [`tokenize`] hands it over as
//! plain values, and everything after it works on those.

use crate::range::{Position, Range};
use crate::symbol::{deep, lemma_deep_push, Delta, Literal, Symbol, SymbolView, TokenKind};
use vstd::prelude::*;
use vstd::string::*;

verus! {

/// A symbol as the lexer reports it, its kind still by name.
pub struct LexedSymbol {
    pub kind: String,
    pub text: String,
    pub inline_text: String,
    pub range: Range,
    pub delta: Delta,
}

/// A lexed symbol as contracts see it.
pub struct LexedSymbolView {
    pub kind: Seq<char>,
    pub text: Seq<char>,
    pub inline_text: Seq<char>,
    pub range: Range,
    pub delta: Delta,
}

impl View for LexedSymbol {
    type V = LexedSymbolView;

    open spec fn view(&self) -> LexedSymbolView {
        LexedSymbolView {
            kind: self.kind@,
            text: self.text@,
            inline_text: self.inline_text@,
            range: self.range,
            delta: self.delta,
        }
    }
}

/// A lexed symbol together with the lexer's directive flag after it.
pub struct LexedToken {
    pub symbol: LexedSymbolView,
    pub in_directive: bool,
}

/// A symbol of the stream, and whether the lexer, having yielded it, is
/// still on the line of a preprocessor directive.
#[derive(Debug)]
pub struct Token {
    pub symbol: Symbol,
    pub in_directive: bool,
}

/// A token as contracts see it.
pub struct TokenView {
    pub symbol: SymbolView,
    pub in_directive: bool,
}

impl View for Token {
    type V = TokenView;

    open spec fn view(&self) -> TokenView {
        TokenView { symbol: self.symbol@, in_directive: self.in_directive }
    }
}

impl DeepView for Token {
    type V = TokenView;

    open spec fn deep_view(&self) -> TokenView {
        self@
    }
}

impl Clone for Token {
    fn clone(&self) -> (copy: Token)
        ensures
            copy@ == self@,
    {
        Token { symbol: self.symbol.clone(), in_directive: self.in_directive }
    }
}

impl Token {
    pub fn new(symbol: Symbol, in_directive: bool) -> (token: Token)
        ensures
            token@ == (TokenView { symbol: symbol@, in_directive }),
    {
        Token { symbol, in_directive }
    }
}

/// `sourcepawn_lexer::SourcepawnLexer`: the lexer, of which nothing is
/// known but what the three names below say of it.
#[verifier::external_type_specification]
#[verifier::external_body]
pub struct ExSourcepawnLexer<'a>(sourcepawn_lexer::SourcepawnLexer<'a>);

/// The tokens that `sourcepawn_lexer::SourcepawnLexer` yields for a text,
/// from the first to the end-of-file symbol, each with the value of
/// `in_preprocessor()` right after it.
pub uninterp spec fn lexed(input: Seq<char>) -> Seq<LexedToken>;

/// The tokens that a lexer has yet to yield.
pub uninterp spec fn lexer_pending(lexer: sourcepawn_lexer::SourcepawnLexer<'_>) -> Seq<
    LexedToken,
>;

/// What `in_preprocessor()` answers in the lexer's present state.
pub uninterp spec fn lexer_flag(lexer: sourcepawn_lexer::SourcepawnLexer<'_>) -> bool;

/// The byte of a line feed.
pub const LINE_FEED: u8 = 10;

/// The byte of a carriage return.
pub const CARRIAGE_RETURN: u8 = 13;

/// The byte of `*`.
pub const STAR: u8 = 42;

/// The byte of `/`.
pub const SLASH: u8 = 47;

/// The byte of a backslash.
pub const BACKSLASH: u8 = 92;

/// Whether a byte breaks a line.
pub open spec fn is_break(byte: u8) -> bool {
    byte == LINE_FEED || byte == CARRIAGE_RETURN
}

/// Whether a byte is white space within a line: a tab, a vertical tab,
/// a form feed or a space.
pub open spec fn is_blank(byte: u8) -> bool {
    byte == 9 || byte == 11 || byte == 12 || byte == 32
}

/// Whether `word` stands in `bytes` at `i`.
pub open spec fn has_at(bytes: Seq<u8>, i: int, word: Seq<u8>) -> bool {
    0 <= i && i + word.len() <= bytes.len() && forall|k: int|
        0 <= k < word.len() ==> bytes[i + k] == #[trigger] word[k]
}

/// Whether a directive that the lexer reads to the end of its line by
/// hand may start at `i`: `#include`, `#pragma` or `#tryinclude`.
pub open spec fn starts_line_directive(bytes: Seq<u8>, i: int) -> bool {
    has_at(bytes, i, "#include".spec_bytes()) || has_at(bytes, i, "#pragma".spec_bytes())
        || has_at(bytes, i, "#tryinclude".spec_bytes())
}

/// What a backslash at `i` adds to the line breaks that do not end a
/// directive: one before a line feed, two before a carriage return.
pub open spec fn continues_line(bytes: Seq<u8>, i: int) -> nat {
    if 0 <= i && i + 1 < bytes.len() && bytes[i] == BACKSLASH && bytes[i + 1] == LINE_FEED {
        1
    } else if 0 <= i && i + 1 < bytes.len() && bytes[i] == BACKSLASH && bytes[i + 1]
        == CARRIAGE_RETURN {
        2
    } else {
        0
    }
}

/// Whether a `*/` ends at `i`.
pub open spec fn closes_at(bytes: Seq<u8>, i: int) -> bool {
    1 <= i < bytes.len() && bytes[i - 1] == STAR && bytes[i] == SLASH
}

/// Where a scan for lines on which the lexer loses its place stands.
pub struct ScanState {
    /// Whether one of the three directives has started on the line,
    /// continued lines counted in.
    pub in_directive: bool,
    /// How many line breaks will not end the line.
    pub skip: nat,
    /// Whether a `*/` has been met since the directive started.
    pub closed: bool,
    /// Whether nothing but blanks has been met since that `*/`.
    pub trailing: bool,
}

/// The scan outside the three directives.
pub open spec fn plain_scan() -> ScanState {
    ScanState { in_directive: false, skip: 0, closed: false, trailing: false }
}

/// Where the scan stands after the byte at `i`; `None` where the lexer
/// may lose its place.
///
/// From one of the three directive words to the end of its line the
/// lexer reads by hand. A line break ends the line unless a backslash
/// before a line break has paid for it. The lexer keeps its place over
/// one block comment if what follows the comment, after blanks, is a
/// character of one byte or the end of the line or of the text; it
/// loses its place on a character of more bytes there, and on a second
/// block comment. The scan does not tell where the lexer sees a
/// directive or a comment: it takes every directive word for a
/// directive and every `*/` after it for the end of a comment, and so
/// refuses whatever the lexer may lose its place on.
pub open spec fn scan_step(bytes: Seq<u8>, i: int, state: ScanState) -> Option<ScanState> {
    let byte = bytes[i];
    if !state.in_directive {
        if starts_line_directive(bytes, i) {
            Some(ScanState { in_directive: true, skip: 0, closed: false, trailing: false })
        } else {
            Some(plain_scan())
        }
    } else if closes_at(bytes, i) && state.closed {
        None
    } else if state.trailing && byte >= 128 {
        None
    } else if is_break(byte) {
        if state.skip > 0 {
            Some(ScanState { skip: (state.skip - 1) as nat, trailing: false, ..state })
        } else {
            Some(plain_scan())
        }
    } else {
        Some(
            ScanState {
                in_directive: true,
                skip: state.skip + continues_line(bytes, i),
                closed: state.closed || closes_at(bytes, i),
                trailing: closes_at(bytes, i) || (state.trailing && is_blank(byte)),
            },
        )
    }
}

/// Whether the lexer keeps its place from the byte at `i` on.
pub open spec fn scan_accepts(bytes: Seq<u8>, i: int, state: ScanState) -> bool
    decreases bytes.len() - i,
{
    if i < 0 || i >= bytes.len() {
        true
    } else {
        match scan_step(bytes, i, state) {
            Some(next) => scan_accepts(bytes, i + 1, next),
            None => false,
        }
    }
}

/// Whether the lexer can be run on a text.
///
/// The lexer reads `#include`, `#pragma` and `#tryinclude` to the end of
/// the line by hand, and can lose its place there, up to a panic: see
/// [`scan_step`]. It also counts lines and columns in 32 bits, so the
/// text must take fewer bytes than that.
pub open spec fn lexer_accepts(input: Seq<char>) -> bool {
    vstd::utf8::encode_utf8(input).len() <= i32::MAX && scan_accepts(
        vstd::utf8::encode_utf8(input),
        0,
        plain_scan(),
    )
}

/// A scan as it runs: see [`ScanState`].
#[derive(Clone, Copy, Debug)]
pub struct Scan {
    pub in_directive: bool,
    pub skip: usize,
    pub closed: bool,
    pub trailing: bool,
}

impl View for Scan {
    type V = ScanState;

    open spec fn view(&self) -> ScanState {
        ScanState {
            in_directive: self.in_directive,
            skip: self.skip as nat,
            closed: self.closed,
            trailing: self.trailing,
        }
    }
}

fn word_at(bytes: &[u8], i: usize, word: &[u8]) -> (found: bool)
    requires
        i <= bytes@.len(),
    ensures
        found == has_at(bytes@, i as int, word@),
{
    if word.len() > bytes.len() - i {
        return false;
    }
    let mut k: usize = 0;
    while k < word.len()
        invariant
            k <= word@.len(),
            i + word@.len() <= bytes@.len() <= usize::MAX,
            forall|j: int| 0 <= j < k ==> bytes@[i + j] == #[trigger] word@[j],
        decreases word.len() - k,
    {
        if bytes[i + k] != word[k] {
            return false;
        }
        k += 1;
    }
    true
}

fn directive_at(bytes: &[u8], i: usize) -> (found: bool)
    requires
        i <= bytes@.len(),
    ensures
        found == starts_line_directive(bytes@, i as int),
{
    word_at(bytes, i, "#include".as_bytes()) || word_at(bytes, i, "#pragma".as_bytes()) || word_at(
        bytes,
        i,
        "#tryinclude".as_bytes(),
    )
}

fn line_continued(bytes: &[u8], i: usize) -> (count: usize)
    requires
        i < bytes@.len(),
    ensures
        count == continues_line(bytes@, i as int),
        count <= 2,
{
    if bytes.len() - i > 1 && bytes[i] == BACKSLASH {
        if bytes[i + 1] == LINE_FEED {
            1
        } else if bytes[i + 1] == CARRIAGE_RETURN {
            2
        } else {
            0
        }
    } else {
        0
    }
}

fn step_scan(bytes: &[u8], i: usize, state: Scan) -> (next: Option<Scan>)
    requires
        i < bytes@.len(),
        state.skip <= usize::MAX - 2,
    ensures
        next is Some == scan_step(bytes@, i as int, state@) is Some,
        next is Some ==> next->Some_0@ == scan_step(bytes@, i as int, state@)->Some_0,
        next is Some ==> next->Some_0.skip <= state.skip + 2,
{
    let plain = Scan { in_directive: false, skip: 0, closed: false, trailing: false };
    let byte = bytes[i];
    if !state.in_directive {
        if directive_at(bytes, i) {
            return Some(Scan { in_directive: true, skip: 0, closed: false, trailing: false });
        }
        return Some(plain);
    }
    let closes = i >= 1 && bytes[i - 1] == STAR && byte == SLASH;
    if closes && state.closed {
        None
    } else if state.trailing && byte >= 128 {
        None
    } else if byte == LINE_FEED || byte == CARRIAGE_RETURN {
        if state.skip > 0 {
            Some(
                Scan {
                    in_directive: true,
                    skip: state.skip - 1,
                    closed: state.closed,
                    trailing: false,
                },
            )
        } else {
            Some(plain)
        }
    } else {
        let blank = byte == 9 || byte == 11 || byte == 12 || byte == 32;
        Some(
            Scan {
                in_directive: true,
                skip: state.skip + line_continued(bytes, i),
                closed: state.closed || closes,
                trailing: closes || (state.trailing && blank),
            },
        )
    }
}

/// Whether the lexer can be run on a text: see [`lexer_accepts`].
pub fn can_lex(input: &str) -> (accepted: bool)
    ensures
        accepted == lexer_accepts(input@),
{
    let bytes = input.as_bytes();
    if bytes.len() > i32::MAX as usize {
        return false;
    }
    let mut state = Scan { in_directive: false, skip: 0, closed: false, trailing: false };
    let mut i: usize = 0;
    while i < bytes.len()
        invariant
            i <= bytes@.len(),
            bytes@.len() <= i32::MAX,
            state.skip <= 2 * i,
            bytes@ == vstd::utf8::encode_utf8(input@),
            scan_accepts(bytes@, i as int, state@) == scan_accepts(bytes@, 0, plain_scan()),
        decreases bytes.len() - i,
    {
        match step_scan(bytes, i, state) {
            Some(next) => {
                state = next;
            },
            None => {
                return false;
            },
        }
        i += 1;
    }
    true
}

/// `SourcepawnLexer::new`: a lexer at the start of `input`, with all of
/// the text's tokens yet to come. A text on which the lexer loses its
/// place is left out.
#[verifier::external_body]
fn lexer_new(input: &str) -> (lexer: sourcepawn_lexer::SourcepawnLexer<'_>)
    requires
        lexer_accepts(input@),
    ensures
        lexer_pending(lexer) == lexed(input@),
{
    sourcepawn_lexer::SourcepawnLexer::new(input)
}

/// `SourcepawnLexer::next`, with the symbol read off into plain values
/// by `text()` and `inline_text()`, and its kind by the name that `Debug`
/// prints. The lexer yields its pending tokens in order and then
/// nothing, again and again.
#[verifier::external_body]
fn lexer_next(lexer: &mut sourcepawn_lexer::SourcepawnLexer<'_>) -> (next: Option<LexedSymbol>)
    ensures
        next is None ==> lexer_pending(*old(lexer)).len() == 0 && lexer_pending(*final(lexer)).len()
            == 0,
        next is Some ==> lexer_pending(*old(lexer)).len() > 0 && next->Some_0@ == lexer_pending(
            *old(lexer),
        )[0].symbol && lexer_pending(*final(lexer)) == lexer_pending(*old(lexer)).skip(1)
            && lexer_flag(*final(lexer)) == lexer_pending(*old(lexer))[0].in_directive,
{
    let symbol = lexer.next()?;
    let range = symbol.range;
    Some(LexedSymbol {
        kind: format!("{:?}", symbol.token_kind),
        text: symbol.text().to_string(),
        inline_text: symbol.inline_text().to_string(),
        range: Range {
            start: Position { line: range.start.line, character: range.start.character },
            end: Position { line: range.end.line, character: range.end.character },
        },
        delta: Delta { line: symbol.delta.line, col: symbol.delta.col },
    })
}

/// The longest character literal, in bytes, that is asked for its
/// number: the lexer adds up the characters of such a literal in 32
/// bits, and the sum of this many characters always fits.
pub const MAX_CHAR_LITERAL: usize = 2047;

/// The number that `sourcepawn_lexer::Symbol::to_int` gives for a
/// literal of a kind and a text.
pub uninterp spec fn literal_number(literal: Literal, text: Seq<char>) -> Option<u32>;

/// Whether a literal can be asked for its number: any literal but a
/// character literal of more than [`MAX_CHAR_LITERAL`] bytes.
pub open spec fn can_number(literal: Literal, text: Seq<char>) -> bool {
    literal != Literal::CharLiteral || crate::text::text_width(text) <= MAX_CHAR_LITERAL
}

/// `Symbol::new` and `Symbol::to_int`, on a symbol of the literal's kind
/// and text. A character literal whose characters could add up to more
/// than 32 bits hold is left out.
#[verifier::external_body]
fn literal_to_int(literal: Literal, text: &str) -> (number: Option<u32>)
    requires
        can_number(literal, text@),
    ensures
        number == literal_number(literal, text@),
{
    let kind = match literal {
        Literal::IntegerLiteral => sourcepawn_lexer::Literal::IntegerLiteral,
        Literal::HexLiteral => sourcepawn_lexer::Literal::HexLiteral,
        Literal::BinaryLiteral => sourcepawn_lexer::Literal::BinaryLiteral,
        Literal::OctodecimalLiteral => sourcepawn_lexer::Literal::OctodecimalLiteral,
        Literal::StringLiteral => sourcepawn_lexer::Literal::StringLiteral,
        Literal::CharLiteral => sourcepawn_lexer::Literal::CharLiteral,
        Literal::FloatLiteral => sourcepawn_lexer::Literal::FloatLiteral,
    };
    let kind = sourcepawn_lexer::TokenKind::Literal(kind);
    sourcepawn_lexer::Symbol::new(kind, Some(text), Default::default(), Default::default()).to_int()
}

/// The number that a symbol of a kind and a text denotes: that of a
/// literal that can be asked for its number, and none for any other
/// symbol.
pub open spec fn number_of(kind: TokenKind, text: Seq<char>) -> Option<u32> {
    match kind {
        TokenKind::Literal(literal) => if can_number(literal, text) {
            literal_number(literal, text)
        } else {
            None
        },
        _ => None,
    }
}

/// The number that a symbol of a kind and a text denotes.
pub fn symbol_number(kind: TokenKind, text: &str) -> (number: Option<u32>)
    ensures
        number == number_of(kind, text@),
{
    match kind {
        TokenKind::Literal(literal) => {
            let short = text.len() <= MAX_CHAR_LITERAL;
            let is_char = match literal {
                Literal::CharLiteral => true,
                _ => false,
            };
            if !is_char || short {
                literal_to_int(literal, text)
            } else {
                None
            }
        },
        _ => None,
    }
}

/// `SourcepawnLexer::in_preprocessor`: whether the lexer is on the line
/// of a preprocessor directive.
#[verifier::external_body]
fn lexer_in_preprocessor(lexer: &sourcepawn_lexer::SourcepawnLexer<'_>) -> (flag: bool)
    ensures
        flag == lexer_flag(*lexer),
{
    lexer.in_preprocessor()
}

/// The symbol that a lexed symbol stands for: the same values, with the
/// kind read from its name and the number that a symbol of that kind
/// and text denotes.
pub open spec fn symbol_of(lexed: LexedSymbolView) -> SymbolView {
    SymbolView {
        token_kind: TokenKind::of_tag(lexed.kind),
        text: lexed.text,
        inline_text: lexed.inline_text,
        int_value: number_of(TokenKind::of_tag(lexed.kind), lexed.text),
        range: lexed.range,
        delta: lexed.delta,
    }
}

/// The token that a lexed token stands for.
pub open spec fn token_of(lexed: LexedToken) -> TokenView {
    TokenView { symbol: symbol_of(lexed.symbol), in_directive: lexed.in_directive }
}

/// The token stream of a text.
pub open spec fn tokens_of(input: Seq<char>) -> Seq<TokenView> {
    lexed(input).map_values(|token: LexedToken| token_of(token))
}

/// Turns a lexed symbol into a symbol by reading its kind.
pub fn symbol_from_lexed(lexed: LexedSymbol) -> (symbol: Symbol)
    ensures
        symbol@ == symbol_of(lexed@),
{
    let token_kind = TokenKind::from_tag(lexed.kind.as_str());
    let int_value = symbol_number(token_kind, lexed.text.as_str());
    Symbol {
        token_kind,
        text: lexed.text,
        inline_text: lexed.inline_text,
        int_value,
        range: lexed.range,
        delta: lexed.delta,
    }
}

/// Lexes a text into its token stream, if the lexer can be run on it.
pub fn try_tokenize(input: &str) -> (tokens: Option<Vec<Token>>)
    ensures
        tokens is Some == lexer_accepts(input@),
        tokens is Some ==> deep(tokens->Some_0@) == tokens_of(input@),
{
    if can_lex(input) {
        Some(tokenize(input))
    } else {
        None
    }
}

/// Lexes a text into its token stream.
pub fn tokenize(input: &str) -> (tokens: Vec<Token>)
    requires
        lexer_accepts(input@),
    ensures
        deep(tokens@) == tokens_of(input@),
{
    let mut lexer = lexer_new(input);
    let mut tokens: Vec<Token> = Vec::new();
    loop
        invariant
            deep(tokens@) + lexer_pending(lexer).map_values(|token: LexedToken| token_of(token))
                == tokens_of(input@),
        ensures
            deep(tokens@) == tokens_of(input@),
        decreases lexer_pending(lexer).len(),
    {
        let ghost pending = lexer_pending(lexer);
        let ghost before = tokens@;
        match lexer_next(&mut lexer) {
            None => {
                proof {
                    assert(deep(tokens@) + pending.map_values(|token: LexedToken| token_of(token))
                        =~= deep(tokens@));
                }
                break ;
            },
            Some(lexed) => {
                let in_directive = lexer_in_preprocessor(&lexer);
                let token = Token { symbol: symbol_from_lexed(lexed), in_directive };
                tokens.push(token);
                proof {
                    lemma_deep_push(before, token);
                    assert(token@ == token_of(pending[0]));
                    assert(deep(before).push(token@) + pending.skip(1).map_values(
                        |token: LexedToken| token_of(token),
                    ) =~= deep(before) + pending.map_values(|token: LexedToken| token_of(token)));
                }
            },
        }
    }
    tokens
}

} // verus!

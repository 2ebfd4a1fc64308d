//! The preprocessor: it reads the symbols of a text one by one, takes
//! the branches of conditional compilation that hold, expands macros, and
//! writes out a text with as many lines as it read.

use crate::conditions::{emitting, is_emitting, ConditionState};
use crate::diagnostics::{
    disabled_diagnostics, evaluation_error_diagnostic, get_disabled_diagnostics,
    get_evaluation_error_diagnostics, get_macro_not_found_diagnostics,
    macro_not_found_diagnostic, Diagnostic, DiagnosticView,
};
use crate::errors::{
    EvaluationError, ExpansionError, ExpansionErrorView, Located, MacroNotFoundError,
    ParseIntError, PreprocessError, PreprocessErrorView, StructuralError, SyntaxError,
};
use crate::evaluator::{evaluate_condition, evaluated};
use crate::inclusion::{include_paths, include_paths_of};
use crate::lexer::{can_lex, lexer_accepts, tokenize, tokens_of, Token, TokenView};
use crate::macro_table::{merged, no_macros, Macro, MacroTable, MacroView, UNUSED_PARAM};
use crate::macros::{
    expand_symbol, expansion, lemma_expansion_pos, lemma_strict_expansion_gives_no_name,
    setting_of,
};
use crate::range::{Position, Range};
use crate::symbol::{
    deep, lemma_deep_drop_last, lemma_deep_push, Literal, Operator, PreprocDir, Symbol,
    SymbolView, TokenKind,
};
use crate::text::{join_lines, joined, push_spaces, spaces, text_width, trim, trimmed};
use vstd::prelude::*;
use vstd::string::*;

verus! {

/// The preprocessor of one document.
pub struct SourcepawnPreprocessor {
    tokens: Vec<Token>,
    pos: usize,
    macros: MacroTable,
    expansion_stack: Vec<Symbol>,
    skip_line_start_col: u32,
    skipped_lines: Vec<Range>,
    macro_not_found_errors: Vec<MacroNotFoundError>,
    evaluation_errors: Vec<EvaluationError>,
    evaluated_define_symbols: Vec<Symbol>,
    document_uri: String,
    current_line: String,
    prev_end: u32,
    conditions_stack: Vec<ConditionState>,
    out: Vec<String>,
}

/// The state of a preprocessor as contracts see it.
pub struct PreprocessorView {
    /// The symbols of the document.
    pub tokens: Seq<TokenView>,
    /// How many of them have been read.
    pub pos: nat,
    /// The macros that are defined.
    pub macros: Map<Seq<char>, MacroView>,
    /// The symbols that expansions have given and that are read before
    /// the next token, the last of them first.
    pub expansion_stack: Seq<SymbolView>,
    /// The column at which the text that is being skipped starts on its
    /// line.
    pub skip_line_start_col: u32,
    /// The stretches of text that were skipped, line by line.
    pub skipped_lines: Seq<Range>,
    /// The names that were taken for macros and have none.
    pub macro_not_found_errors: Seq<Located>,
    /// The conditions that could not be read.
    pub evaluation_errors: Seq<Located>,
    /// The names met in conditions and in skipped text.
    pub evaluated_define_symbols: Seq<SymbolView>,
    /// The document that is being read.
    pub document_uri: Seq<char>,
    /// The line that is being written.
    pub current_line: Seq<char>,
    /// The column at which the last symbol written ends.
    pub prev_end: u32,
    /// The `#if` chains that are open, the innermost last.
    pub conditions_stack: Seq<ConditionState>,
    /// The lines that have been written.
    pub out: Seq<Seq<char>>,
}

impl View for SourcepawnPreprocessor {
    type V = PreprocessorView;

    closed spec fn view(&self) -> PreprocessorView {
        PreprocessorView {
            tokens: deep(self.tokens@),
            pos: self.pos as nat,
            macros: self.macros@,
            expansion_stack: deep(self.expansion_stack@),
            skip_line_start_col: self.skip_line_start_col,
            skipped_lines: self.skipped_lines@,
            macro_not_found_errors: deep(self.macro_not_found_errors@),
            evaluation_errors: deep(self.evaluation_errors@),
            evaluated_define_symbols: deep(self.evaluated_define_symbols@),
            document_uri: self.document_uri@,
            current_line: self.current_line@,
            prev_end: self.prev_end,
            conditions_stack: self.conditions_stack@,
            out: deep(self.out@),
        }
    }
}

/// The width of the white space before a symbol: the size of the
/// column part of its delta.
pub open spec fn gap(symbol: SymbolView) -> nat {
    if symbol.delta.col >= 0 {
        symbol.delta.col as nat
    } else {
        (-symbol.delta.col) as nat
    }
}

impl PreprocessorView {
    /// The state before the first symbol of a document is read.
    pub open spec fn start(document_uri: Seq<char>, tokens: Seq<TokenView>) -> PreprocessorView {
        PreprocessorView {
            tokens,
            pos: 0,
            macros: no_macros(),
            expansion_stack: Seq::empty(),
            skip_line_start_col: 0,
            skipped_lines: Seq::empty(),
            macro_not_found_errors: Seq::empty(),
            evaluation_errors: Seq::empty(),
            evaluated_define_symbols: Seq::empty(),
            document_uri,
            current_line: Seq::empty(),
            prev_end: 0,
            conditions_stack: Seq::empty(),
            out: Seq::empty(),
        }
    }

    /// No more symbols have been read than there are, and no name waits
    /// on the expansion stack.
    pub open spec fn wf(self) -> bool {
        &&& self.pos <= self.tokens.len()
        &&& forall|i: int|
            0 <= i < self.expansion_stack.len() ==> (#[trigger] self.expansion_stack[i]).token_kind
                != TokenKind::Identifier
    }

    /// The white space before `symbol` is written to the line.
    pub open spec fn push_ws(self, symbol: SymbolView) -> PreprocessorView {
        PreprocessorView { current_line: self.current_line + spaces(gap(symbol)), ..self }
    }

    /// The line is added to the lines written.
    pub open spec fn push_current_line(self) -> PreprocessorView {
        PreprocessorView { out: self.out.push(self.current_line), ..self }
    }

    /// The line is added to the lines written, and a new line begins.
    pub open spec fn end_line(self) -> PreprocessorView {
        PreprocessorView {
            out: self.out.push(self.current_line),
            current_line: Seq::empty(),
            prev_end: 0,
            ..self
        }
    }

    /// `count` empty lines are added to the lines written.
    pub open spec fn push_empty_lines(self, count: nat) -> PreprocessorView {
        PreprocessorView {
            out: self.out + Seq::new(count, |i: int| Seq::<char>::empty()),
            ..self
        }
    }

    /// `symbol` is written to the line, after the white space before it.
    /// The end of the text writes nothing and ends the line.
    pub open spec fn push_symbol(self, symbol: SymbolView) -> PreprocessorView {
        if symbol.token_kind == TokenKind::Eof {
            self.push_current_line()
        } else {
            PreprocessorView {
                current_line: self.current_line + spaces(gap(symbol)) + symbol.text,
                prev_end: symbol.range.end.character,
                ..self
            }
        }
    }
}

/// Whether the lexer, having yielded `pos` tokens, is on the line of a
/// directive.
pub open spec fn in_directive(tokens: Seq<TokenView>, pos: nat) -> bool {
    0 < pos <= tokens.len() && tokens[pos - 1].in_directive
}

/// How far the line of a directive reaches when `pos` tokens have been
/// read: up to the first place at which the lexer is no longer on the
/// line, or to the end of the tokens.
pub open spec fn directive_end(tokens: Seq<TokenView>, pos: nat) -> nat
    decreases tokens.len() - pos,
{
    if pos < tokens.len() && in_directive(tokens, pos) {
        directive_end(tokens, pos + 1)
    } else {
        pos
    }
}

/// The names among the tokens from `start` up to `end`.
pub open spec fn names_between(tokens: Seq<TokenView>, start: nat, end: nat) -> Seq<SymbolView>
    decreases end,
{
    if end <= start || end > tokens.len() {
        Seq::empty()
    } else if tokens[end - 1].symbol.token_kind == TokenKind::Identifier {
        names_between(tokens, start, (end - 1) as nat).push(tokens[end - 1].symbol)
    } else {
        names_between(tokens, start, (end - 1) as nat)
    }
}

/// How many lines a directive takes beyond its first, when it starts at
/// `symbol` and the tokens up to `end` belong to it.
pub open spec fn extra_lines(
    tokens: Seq<TokenView>,
    start: nat,
    end: nat,
    symbol: SymbolView,
) -> nat {
    if start < end <= tokens.len() && tokens[end - 1].symbol.range.end.line
        >= symbol.range.start.line {
        (tokens[end - 1].symbol.range.end.line - symbol.range.start.line) as nat
    } else {
        0
    }
}

/// What a step of the preprocessor asks of its caller.
pub enum SignalView {
    /// Nothing: the next step can follow.
    Continue,
    /// The end of the text has been read.
    Finished,
    /// The files of these paths are to be preprocessed and their macros
    /// merged, in this order, before the next step.
    Paused(Seq<Seq<char>>),
    /// Preprocessing cannot go on.
    Failed(PreprocessErrorView),
}

/// What a step of the preprocessor asks of its caller.
#[derive(Debug)]
pub enum Signal {
    /// Nothing: the next step can follow.
    Continue,
    /// The end of the text has been read.
    Finished,
    /// The files of these paths are to be preprocessed and their macros
    /// merged, in this order, before the next step.
    Paused(Vec<String>),
    /// Preprocessing cannot go on.
    Failed(PreprocessError),
}

impl View for Signal {
    type V = SignalView;

    open spec fn view(&self) -> SignalView {
        match self {
            Signal::Continue => SignalView::Continue,
            Signal::Finished => SignalView::Finished,
            Signal::Paused(paths) => SignalView::Paused(deep(paths@)),
            Signal::Failed(error) => SignalView::Failed(error@),
        }
    }
}

/// How a run of the preprocessor ended.
#[derive(Debug)]
pub enum Progress {
    /// The end of the text has been read; this is the text written.
    Finished(String),
    /// The files of these paths are to be preprocessed and their macros
    /// merged, in this order; then the run can be taken up again.
    Paused(Vec<String>),
}

/// A state and what the step that led to it asks.
pub struct Stepped {
    pub state: PreprocessorView,
    pub signal: SignalView,
}

impl PreprocessorView {
    pub open spec fn proceed(self) -> Stepped {
        Stepped { state: self, signal: SignalView::Continue }
    }

    pub open spec fn fail(self, error: PreprocessErrorView) -> Stepped {
        Stepped { state: self, signal: SignalView::Failed(error) }
    }

    pub open spec fn push_condition(self, state: ConditionState) -> PreprocessorView {
        PreprocessorView { conditions_stack: self.conditions_stack.push(state), ..self }
    }

    pub open spec fn pop_condition(self) -> PreprocessorView {
        PreprocessorView { conditions_stack: self.conditions_stack.drop_last(), ..self }
    }

    /// An `#if`, or an `#elseif` whose chain has taken no branch yet.
    ///
    /// The tokens up to the end of the directive's line are its
    /// condition. The names among them are recorded, and so are the names
    /// without a macro and the error that evaluating the condition
    /// gives. Where the condition holds the branch is taken; where it
    /// does not, symbols are skipped from the end of `symbol` on. An
    /// empty line is written for every line that the directive takes
    /// beyond its first.
    pub open spec fn process_if_directive(self, symbol: SymbolView) -> PreprocessorView {
        let end = directive_end(self.tokens, self.pos);
        let evaluation = evaluated(self.tokens, self.pos, end, self.macros, symbol.range);
        PreprocessorView {
            pos: end,
            evaluated_define_symbols: self.evaluated_define_symbols + names_between(
                self.tokens,
                self.pos,
                end,
            ),
            evaluation_errors: match evaluation.error {
                Some(error) => self.evaluation_errors.push(error),
                None => self.evaluation_errors,
            },
            macro_not_found_errors: self.macro_not_found_errors + evaluation.unresolved,
            conditions_stack: self.conditions_stack.push(
                if evaluation.value {
                    ConditionState::Active
                } else {
                    ConditionState::NotActivated
                },
            ),
            skip_line_start_col: if evaluation.value {
                self.skip_line_start_col
            } else {
                symbol.range.end.character
            },
            out: self.out + Seq::new(
                extra_lines(self.tokens, self.pos, end, symbol),
                |i: int| Seq::<char>::empty(),
            ),
            prev_end: 0,
            ..self
        }
    }

    /// The error of a directive that finds no `#if` open.
    pub open spec fn unopened(symbol: SymbolView) -> PreprocessErrorView {
        PreprocessErrorView::Unbalanced(Located { text: symbol.text, range: symbol.range })
    }

    /// An `#elseif`. Where its chain has taken no branch yet it is read
    /// as an `#if`; else the rest of the chain is skipped. It fails where
    /// no `#if` is open.
    pub open spec fn process_elseif_directive(self, symbol: SymbolView) -> Stepped {
        if self.conditions_stack.len() == 0 {
            self.fail(Self::unopened(symbol))
        } else if self.conditions_stack.last() == ConditionState::NotActivated {
            self.pop_condition().process_if_directive(symbol).proceed()
        } else {
            self.pop_condition().push_condition(ConditionState::Activated).proceed()
        }
    }

    /// An `#else`. Where its chain has taken no branch yet the branch is
    /// taken; else symbols are skipped from the end of `symbol` on. It
    /// fails where no `#if` is open.
    pub open spec fn process_else_directive(self, symbol: SymbolView) -> Stepped {
        if self.conditions_stack.len() == 0 {
            self.fail(Self::unopened(symbol))
        } else if self.conditions_stack.last() == ConditionState::NotActivated {
            self.pop_condition().push_condition(ConditionState::Active).proceed()
        } else {
            PreprocessorView {
                skip_line_start_col: symbol.range.end.character,
                ..self.pop_condition().push_condition(ConditionState::Activated)
            }.proceed()
        }
    }

    /// The stretch of the line of `symbol` from the column at which
    /// skipping started up to the column `end`.
    pub open spec fn skipped_on_line(self, symbol: SymbolView, end: u32) -> Range {
        Range {
            start: Position { line: symbol.range.start.line, character: self.skip_line_start_col },
            end: Position { line: symbol.range.start.line, character: end },
        }
    }

    /// An `#endif`: the innermost chain is closed. Where symbols are
    /// still skipped after it, the line up to the end of `symbol` counts
    /// as skipped. It fails where no `#if` is open.
    pub open spec fn process_endif_directive(self, symbol: SymbolView) -> Stepped {
        if self.conditions_stack.len() == 0 {
            self.fail(Self::unopened(symbol))
        } else {
            let closed = self.pop_condition();
            if emitting(closed.conditions_stack) {
                closed.proceed()
            } else {
                PreprocessorView {
                    skipped_lines: closed.skipped_lines.push(
                        closed.skipped_on_line(symbol, symbol.range.end.character),
                    ),
                    ..closed
                }.proceed()
            }
        }
    }
}

/// Where the reading of a `#define` stands.
#[derive(Clone, Copy, Debug, PartialEq, Eq, Structural)]
pub enum DefineStage {
    /// Before the name, or right after it.
    Start,
    /// In the list of parameters.
    Args,
    /// In the body.
    Body,
}

/// A `#define` while it is read.
pub struct Definition {
    pub stage: DefineStage,
    /// The name of the macro; empty until it has been read.
    pub name: String,
    /// For each parameter the place of its argument: see [`Macro`].
    pub args: [i8; 10],
    /// Whether the list of parameters has named a parameter.
    pub found_args: bool,
    /// The place, among the arguments of a call, that the list of
    /// parameters has come to.
    pub args_idx: i8,
    pub body: Vec<Symbol>,
}

/// A definition as contracts see it.
pub struct DefinitionView {
    pub stage: DefineStage,
    pub name: Seq<char>,
    pub args: Seq<i8>,
    pub found_args: bool,
    pub args_idx: i8,
    pub body: Seq<SymbolView>,
}

impl View for Definition {
    type V = DefinitionView;

    open spec fn view(&self) -> DefinitionView {
        DefinitionView {
            stage: self.stage,
            name: self.name@,
            args: self.args@,
            found_args: self.found_args,
            args_idx: self.args_idx,
            body: deep(self.body@),
        }
    }
}

/// A definition and the error on which its reading stopped, if it did.
pub struct Defined {
    pub definition: DefinitionView,
    pub error: Option<PreprocessErrorView>,
}

impl DefinitionView {
    /// The definition before the first symbol after `#define`: no name,
    /// no parameter in use, an empty body.
    pub open spec fn start() -> DefinitionView {
        DefinitionView {
            stage: DefineStage::Start,
            name: Seq::empty(),
            args: Seq::new(10, |i: int| UNUSED_PARAM),
            found_args: false,
            args_idx: 0,
            body: Seq::empty(),
        }
    }

    pub open spec fn into_body(self, symbol: SymbolView) -> DefinitionView {
        DefinitionView { stage: DefineStage::Body, body: self.body.push(symbol), ..self }
    }

    pub open spec fn read(self) -> Defined {
        Defined { definition: self, error: None }
    }

    /// The definition after one more symbol of its line.
    ///
    /// The first name is the name of the macro. A `(` right after it
    /// opens the list of parameters; any other symbol starts the body.
    /// In the list an integer `n` below ten says that `%n` stands for
    /// the argument at the place that the list has come to, a comma
    /// moves on to the next place, `%` says nothing, and `)` or a symbol
    /// set off by white space starts the body. The list fails on an
    /// integer that is no parameter and on any other symbol.
    pub open spec fn feed(self, symbol: SymbolView) -> Defined {
        let at = Located { text: symbol.text, range: symbol.range };
        match self.stage {
            DefineStage::Start => if self.name.len() == 0 && symbol.token_kind
                == TokenKind::Identifier {
                DefinitionView { name: symbol.text, ..self }.read()
            } else if symbol.delta.col == 0 && symbol.token_kind == TokenKind::LParen {
                DefinitionView { stage: DefineStage::Args, ..self }.read()
            } else {
                self.into_body(symbol).read()
            },
            DefineStage::Args => if symbol.delta.col != 0 {
                self.into_body(symbol).read()
            } else {
                match symbol.token_kind {
                    TokenKind::RParen => DefinitionView { stage: DefineStage::Body, ..self }.read(),
                    TokenKind::Literal(Literal::IntegerLiteral) => if symbol.int_value is Some
                        && symbol.int_value->Some_0 < self.args.len() {
                        DefinitionView {
                            args: self.args.update(symbol.int_value->Some_0 as int, self.args_idx),
                            found_args: true,
                            ..self
                        }.read()
                    } else {
                        Defined { definition: self, error: Some(PreprocessErrorView::ParseInt(at)) }
                    },
                    TokenKind::Comma => DefinitionView {
                        args_idx: if self.args_idx < i8::MAX {
                            (self.args_idx + 1) as i8
                        } else {
                            self.args_idx
                        },
                        ..self
                    }.read(),
                    TokenKind::Operator(Operator::Percent) => self.read(),
                    _ => Defined { definition: self, error: Some(PreprocessErrorView::Syntax(at)) },
                }
            },
            DefineStage::Body => self.into_body(symbol).read(),
        }
    }

    /// The macro that the definition defines.
    pub open spec fn defined_macro(self) -> MacroView {
        MacroView {
            args: if self.found_args {
                Some(self.args)
            } else {
                None
            },
            body: self.body,
        }
    }
}

impl Definition {
    pub fn new() -> (definition: Definition)
        ensures
            definition@ == DefinitionView::start(),
    {
        let definition = Definition {
            stage: DefineStage::Start,
            name: String::new(),
            args: [UNUSED_PARAM;10],
            found_args: false,
            args_idx: 0,
            body: Vec::new(),
        };
        proof {
            assert(definition@.args =~= DefinitionView::start().args);
            assert(definition@.body =~= DefinitionView::start().body);
        }
        definition
    }

    fn into_body(&mut self, symbol: &Symbol)
        ensures
            final(self)@ == old(self)@.into_body(symbol@),
    {
        let ghost before = self.body@;
        self.body.push(symbol.clone());
        proof {
            lemma_deep_push(before, self.body@.last());
        }
        self.stage = DefineStage::Body;
    }

    /// Takes one more symbol of the line into the definition.
    pub fn feed(&mut self, symbol: &Symbol) -> (result: Result<(), PreprocessError>)
        ensures
            final(self)@ == old(self)@.feed(symbol@).definition,
            match result {
                Ok(_) => old(self)@.feed(symbol@).error is None,
                Err(error) => old(self)@.feed(symbol@).error == Some(error@),
            },
    {
        match self.stage {
            DefineStage::Start => {
                let is_name = match symbol.token_kind {
                    TokenKind::Identifier => self.name.as_str().is_empty(),
                    _ => false,
                };
                let opens = match symbol.token_kind {
                    TokenKind::LParen => symbol.delta.col == 0,
                    _ => false,
                };
                if is_name {
                    self.name = symbol.text.clone();
                } else if opens {
                    self.stage = DefineStage::Args;
                } else {
                    self.into_body(symbol);
                }
                Ok(())
            },
            DefineStage::Args => {
                if symbol.delta.col != 0 {
                    self.into_body(symbol);
                    return Ok(());
                }
                match symbol.token_kind {
                    TokenKind::RParen => {
                        self.stage = DefineStage::Body;
                        Ok(())
                    },
                    TokenKind::Literal(Literal::IntegerLiteral) => {
                        match symbol.int_value {
                            Some(number) => {
                                if number < 10 {
                                    self.args[number as usize] = self.args_idx;
                                    self.found_args = true;
                                    return Ok(());
                                }
                            },
                            None => {},
                        }
                        Err(
                            PreprocessError::ParseInt(
                                ParseIntError::new(symbol.text.clone(), symbol.range),
                            ),
                        )
                    },
                    TokenKind::Comma => {
                        if self.args_idx < i8::MAX {
                            self.args_idx = self.args_idx + 1;
                        }
                        Ok(())
                    },
                    TokenKind::Operator(Operator::Percent) => Ok(()),
                    _ => Err(
                        PreprocessError::Syntax(SyntaxError::new(symbol.text.clone(), symbol.range)),
                    ),
                }
            },
            DefineStage::Body => {
                self.into_body(symbol);
                Ok(())
            },
        }
    }

    /// The macro that the definition defines, and its name.
    pub fn finish(self) -> (defined: (String, Macro))
        ensures
            defined.0@ == self@.name,
            defined.1@ == self@.defined_macro(),
    {
        let args = if self.found_args {
            Some(self.args)
        } else {
            None
        };
        (self.name, Macro { args, body: self.body })
    }
}

/// Whether a symbol ends a line or the text.
pub open spec fn ends_line(symbol: SymbolView) -> bool {
    symbol.token_kind == TokenKind::Newline || symbol.token_kind == TokenKind::Eof
}

/// How many lines a symbol takes beyond its first.
pub open spec fn lines_taken(symbol: SymbolView) -> nat {
    if symbol.range.end.line >= symbol.range.start.line {
        (symbol.range.end.line - symbol.range.start.line) as nat
    } else {
        0
    }
}

/// The column at which a text of this width ends when it starts a line;
/// the largest column where that is past it.
pub open spec fn width_col(text: Seq<char>) -> u32 {
    if text_width(text) <= u32::MAX {
        text_width(text) as u32
    } else {
        u32::MAX
    }
}

/// An include directive as it is written out: on one line, without the
/// white space around it.
pub open spec fn shown_include(symbol: SymbolView) -> SymbolView {
    SymbolView {
        token_kind: symbol.token_kind,
        text: trimmed(symbol.inline_text),
        inline_text: trimmed(symbol.inline_text),
        int_value: None,
        range: Range {
            start: symbol.range.start,
            end: Position {
                line: symbol.range.start.line,
                character: width_col(trimmed(symbol.inline_text)),
            },
        },
        delta: symbol.delta,
    }
}

impl PreprocessorView {
    /// A symbol of the line of a `#define` is written out as it is
    /// read: the white space before it, and its text unless it ends the
    /// line.
    pub open spec fn mirror(self, symbol: SymbolView) -> PreprocessorView {
        PreprocessorView {
            pos: self.pos + 1,
            current_line: if ends_line(symbol) {
                self.current_line + spaces(gap(symbol))
            } else {
                self.current_line + spaces(gap(symbol)) + symbol.text
            },
            prev_end: symbol.range.end.character,
            ..self
        }
    }

    /// Reads the line of a `#define` to its end or to the symbol on
    /// which the definition fails. The symbols that end the line are
    /// written out and no part of the definition.
    pub open spec fn define_loop(self, definition: DefinitionView) -> (PreprocessorView, Defined)
        decreases self.tokens.len() - self.pos,
    {
        if self.pos < self.tokens.len() && in_directive(self.tokens, self.pos) {
            let symbol = self.tokens[self.pos as int].symbol;
            let written = self.mirror(symbol);
            if ends_line(symbol) {
                written.define_loop(definition)
            } else {
                let fed = definition.feed(symbol);
                if fed.error is Some {
                    (written, fed)
                } else {
                    written.define_loop(fed.definition)
                }
            }
        } else {
            (self, definition.read())
        }
    }

    /// A `#define`: the directive and its line are written out as they
    /// stand, and the macro that the line defines is entered in the
    /// table, in place of an earlier macro of its name.
    pub open spec fn process_define_directive(self, symbol: SymbolView) -> Stepped {
        let end = self.push_symbol(symbol).define_loop(DefinitionView::start());
        match end.1.error {
            Some(error) => end.0.fail(error),
            None => PreprocessorView {
                macros: end.0.macros.insert(
                    end.1.definition.name,
                    end.1.definition.defined_macro(),
                ),
                ..end.0.end_line()
            }.proceed(),
        }
    }

    /// An `#include` or `#tryinclude`: the directive is written out on
    /// one line, with an empty line for each further line that it takes,
    /// and the caller is asked for the macros of the files that it
    /// names.
    pub open spec fn process_include_directive(self, symbol: SymbolView) -> Stepped {
        let written = self.push_symbol(shown_include(symbol));
        let state = if lines_taken(symbol) > 0 {
            written.end_line().push_empty_lines((lines_taken(symbol) - 1) as nat)
        } else {
            written
        };
        let paths = include_paths_of(trimmed(symbol.inline_text));
        Stepped {
            state,
            signal: if paths.len() > 0 {
                SignalView::Paused(paths)
            } else {
                SignalView::Continue
            },
        }
    }

    /// A directive in text that is emitted.
    pub open spec fn process_directive(self, directive: PreprocDir, symbol: SymbolView) -> Stepped {
        match directive {
            PreprocDir::MIf => self.process_if_directive(symbol).proceed(),
            PreprocDir::MElseif => self.process_elseif_directive(symbol),
            PreprocDir::MDefine => self.process_define_directive(symbol),
            PreprocDir::MEndif => self.process_endif_directive(symbol),
            PreprocDir::MElse => self.process_else_directive(symbol),
            PreprocDir::MInclude | PreprocDir::MTryinclude => self.process_include_directive(symbol),
            _ => self.push_symbol(symbol).proceed(),
        }
    }

    /// A symbol in text that is skipped.
    ///
    /// An `#if` opens a chain of which every branch is skipped; `#else`,
    /// `#elseif` and `#endif` are read as in emitted text. A newline ends
    /// the line and counts the line, from the column at which skipping
    /// started up to the newline, as skipped. A name is recorded. Every
    /// other symbol is dropped.
    pub open spec fn process_negative_condition(self, symbol: SymbolView) -> Stepped {
        match symbol.token_kind {
            TokenKind::PreprocDir(PreprocDir::MIf) => self.push_condition(
                ConditionState::Activated,
            ).proceed(),
            TokenKind::PreprocDir(PreprocDir::MEndif) => self.process_endif_directive(symbol),
            TokenKind::PreprocDir(PreprocDir::MElse) => self.process_else_directive(symbol),
            TokenKind::PreprocDir(PreprocDir::MElseif) => self.process_elseif_directive(symbol),
            TokenKind::Newline => PreprocessorView {
                skipped_lines: self.skipped_lines.push(
                    self.skipped_on_line(symbol, symbol.range.start.character),
                ),
                ..self.end_line()
            }.proceed(),
            TokenKind::Identifier => PreprocessorView {
                evaluated_define_symbols: self.evaluated_define_symbols.push(symbol),
                ..self
            }.proceed(),
            _ => self.proceed(),
        }
    }

    /// A name that has a macro: the symbols of its expansion are put on
    /// the expansion stack. Where the expansion stops on a name without a
    /// macro, the name is recorded.
    pub open spec fn expand_macro(self, symbol: SymbolView) -> Stepped {
        let expanded = expansion(
            setting_of(self.tokens, self.tokens.len(), self.macros, false),
            symbol,
            self.pos,
        );
        let state = PreprocessorView {
            expansion_stack: self.expansion_stack + expanded.emitted,
            pos: expanded.pos,
            ..self
        };
        match expanded.error {
            None => state.proceed(),
            Some(ExpansionErrorView::MacroNotFound(at)) => PreprocessorView {
                macro_not_found_errors: state.macro_not_found_errors.push(at),
                ..state
            }.fail(PreprocessErrorView::MacroNotFound(at)),
            Some(ExpansionErrorView::Parse(at)) => state.fail(PreprocessErrorView::ParseInt(at)),
        }
    }

    /// What is done with a symbol that has been taken.
    pub open spec fn process_symbol(self, symbol: SymbolView) -> Stepped {
        if !emitting(self.conditions_stack) {
            self.process_negative_condition(symbol)
        } else {
            match symbol.token_kind {
                TokenKind::PreprocDir(directive) => self.process_directive(directive, symbol),
                TokenKind::Newline => self.push_ws(symbol).end_line().proceed(),
                TokenKind::Identifier => if self.macros.contains_key(symbol.text) {
                    self.expand_macro(symbol)
                } else {
                    self.push_symbol(symbol).proceed()
                },
                TokenKind::Eof => Stepped {
                    state: self.push_ws(symbol).push_current_line(),
                    signal: SignalView::Finished,
                },
                _ => self.push_symbol(symbol).proceed(),
            }
        }
    }

    /// One step: the next symbol is taken, from the expansion stack
    /// while it holds one and else from the tokens, and dealt with.
    /// Where there is no next symbol the text is finished.
    pub open spec fn step(self) -> Stepped {
        if self.expansion_stack.len() > 0 {
            PreprocessorView {
                expansion_stack: self.expansion_stack.drop_last(),
                ..self
            }.process_symbol(self.expansion_stack.last())
        } else if self.pos < self.tokens.len() {
            PreprocessorView { pos: self.pos + 1, ..self }.process_symbol(
                self.tokens[self.pos as int].symbol,
            )
        } else {
            Stepped { state: self, signal: SignalView::Finished }
        }
    }
}

/// The line of a directive ends at or after the place where it is
/// asked for, within the tokens.
pub proof fn lemma_directive_end_bounds(tokens: Seq<TokenView>, pos: nat)
    requires
        pos <= tokens.len(),
    ensures
        pos <= directive_end(tokens, pos) <= tokens.len(),
    decreases tokens.len() - pos,
{
    if pos < tokens.len() && in_directive(tokens, pos) {
        lemma_directive_end_bounds(tokens, pos + 1);
    }
}

/// Reading the line of a `#define` reads the tokens forwards, within
/// their end, and leaves the tokens and the expansion stack as they are.
pub proof fn lemma_define_loop_bounds(state: PreprocessorView, definition: DefinitionView)
    requires
        state.pos <= state.tokens.len(),
    ensures
        state.pos <= state.define_loop(definition).0.pos <= state.tokens.len(),
        state.define_loop(definition).0.tokens == state.tokens,
        state.define_loop(definition).0.expansion_stack == state.expansion_stack,
        state.define_loop(definition).0.conditions_stack == state.conditions_stack,
    decreases state.tokens.len() - state.pos,
{
    if state.pos < state.tokens.len() && in_directive(state.tokens, state.pos) {
        let symbol = state.tokens[state.pos as int].symbol;
        let written = state.mirror(symbol);
        if ends_line(symbol) {
            lemma_define_loop_bounds(written, definition);
        } else {
            let fed = definition.feed(symbol);
            if fed.error is None {
                lemma_define_loop_bounds(written, fed.definition);
            }
        }
    }
}

/// Dealing with a symbol keeps the state well-formed, leaves the tokens
/// as they are and reads them forwards; and only a name that has a macro
/// adds to the expansion stack.
pub proof fn lemma_process_symbol(state: PreprocessorView, symbol: SymbolView)
    requires
        state.wf(),
    ensures
        state.process_symbol(symbol).state.wf(),
        state.process_symbol(symbol).state.tokens == state.tokens,
        state.process_symbol(symbol).state.pos >= state.pos,
        symbol.token_kind != TokenKind::Identifier ==> state.process_symbol(
            symbol,
        ).state.expansion_stack == state.expansion_stack,
{
    lemma_directive_end_bounds(state.tokens, state.pos);
    lemma_define_loop_bounds(state.push_symbol(symbol), DefinitionView::start());
    let setting = setting_of(state.tokens, state.tokens.len(), state.macros, false);
    lemma_expansion_pos(setting, symbol, state.pos);
    lemma_strict_expansion_gives_no_name(setting, symbol, state.pos);
}

/// A step keeps the state well-formed and leaves the tokens as they
/// are; and a step after which the next can follow has read a token or
/// taken a symbol off the expansion stack without reading one.
pub proof fn lemma_step_progress(state: PreprocessorView)
    requires
        state.wf(),
    ensures
        state.step().state.wf(),
        state.step().state.tokens == state.tokens,
        state.step().state.pos >= state.pos,
        state.step().signal == SignalView::Continue ==> state.step().state.pos > state.pos || (
        state.step().state.pos == state.pos && state.step().state.expansion_stack.len()
            < state.expansion_stack.len()),
{
    if state.expansion_stack.len() > 0 {
        let taken = PreprocessorView {
            expansion_stack: state.expansion_stack.drop_last(),
            ..state
        };
        lemma_process_symbol(taken, state.expansion_stack.last());
    } else if state.pos < state.tokens.len() {
        let taken = PreprocessorView { pos: state.pos + 1, ..state };
        lemma_process_symbol(taken, state.tokens[state.pos as int].symbol);
    }
}

impl PreprocessorView {
    /// Steps until the text is finished, the caller is asked for the
    /// macros of other files, or preprocessing fails.
    pub open spec fn run(self) -> Stepped
        decreases self.tokens.len() - self.pos, self.expansion_stack.len(),
        when self.wf()
    {
        let next = self.step();
        if next.signal == SignalView::Continue {
            proof {
                lemma_step_progress(self);
            }
            next.state.run()
        } else {
            next
        }
    }

    /// The macros of a file that the text names are taken over.
    pub open spec fn merge_macros(self, included: Map<Seq<char>, MacroView>) -> PreprocessorView {
        PreprocessorView { macros: merged(self.macros, included), ..self }
    }

    /// The text that has been written.
    pub open spec fn text(self) -> Seq<char> {
        joined(self.out)
    }
}

/// A stretch of text that the semantic analysis is to pass over.
#[derive(Debug)]
pub struct IgnoredToken {
    pub text: String,
    pub range: Range,
}

/// An ignored token as contracts see it.
pub struct IgnoredTokenView {
    pub text: Seq<char>,
    pub range: Range,
}

impl View for IgnoredToken {
    type V = IgnoredTokenView;

    open spec fn view(&self) -> IgnoredTokenView {
        IgnoredTokenView { text: self.text@, range: self.range }
    }
}

impl DeepView for IgnoredToken {
    type V = IgnoredTokenView;

    open spec fn deep_view(&self) -> IgnoredTokenView {
        self@
    }
}

/// The token that stands for a symbol: its text and its range.
pub open spec fn ignored_token(symbol: SymbolView) -> IgnoredTokenView {
    IgnoredTokenView { text: symbol.text, range: symbol.range }
}

impl PreprocessorView {
    /// The diagnostics of the state: on the text that was skipped, then
    /// on the names without a macro, then on the conditions that could
    /// not be read.
    pub open spec fn diagnostics(self) -> Seq<DiagnosticView> {
        disabled_diagnostics(self.skipped_lines) + self.macro_not_found_errors.map_values(
            |error: Located| macro_not_found_diagnostic(error),
        ) + self.evaluation_errors.map_values(|error: Located| evaluation_error_diagnostic(error))
    }
}

impl SourcepawnPreprocessor {
    /// A preprocessor for the document at `document_uri` with the text
    /// `input`, which the lexer must be able to run on.
    pub fn new(document_uri: String, input: &str) -> (preprocessor: SourcepawnPreprocessor)
        requires
            lexer_accepts(input@),
        ensures
            preprocessor@ == PreprocessorView::start(document_uri@, tokens_of(input@)),
            preprocessor@.wf(),
    {
        SourcepawnPreprocessor::from_tokens(document_uri, tokenize(input))
    }

    /// A preprocessor for the document at `document_uri` with the text
    /// `input`; none where the lexer cannot be run on the text.
    pub fn try_new(document_uri: String, input: &str) -> (preprocessor: Option<
        SourcepawnPreprocessor,
    >)
        ensures
            preprocessor is Some == lexer_accepts(input@),
            preprocessor is Some ==> preprocessor->Some_0@ == PreprocessorView::start(
                document_uri@,
                tokens_of(input@),
            ) && preprocessor->Some_0@.wf(),
    {
        if can_lex(input) {
            Some(SourcepawnPreprocessor::new(document_uri, input))
        } else {
            None
        }
    }

    /// A preprocessor for a document that has been lexed already.
    pub fn from_tokens(document_uri: String, tokens: Vec<Token>) -> (preprocessor:
        SourcepawnPreprocessor)
        ensures
            preprocessor@ == PreprocessorView::start(document_uri@, deep(tokens@)),
            preprocessor@.wf(),
    {
        let preprocessor = SourcepawnPreprocessor {
            tokens,
            pos: 0,
            macros: MacroTable::new(),
            expansion_stack: Vec::new(),
            skip_line_start_col: 0,
            skipped_lines: Vec::new(),
            macro_not_found_errors: Vec::new(),
            evaluation_errors: Vec::new(),
            evaluated_define_symbols: Vec::new(),
            document_uri,
            current_line: String::new(),
            prev_end: 0,
            conditions_stack: Vec::new(),
            out: Vec::new(),
        };
        proof {
            let view = preprocessor@;
            let start = PreprocessorView::start(document_uri@, deep(tokens@));
            assert(view.expansion_stack =~= start.expansion_stack);
            assert(view.skipped_lines =~= start.skipped_lines);
            assert(view.macro_not_found_errors =~= start.macro_not_found_errors);
            assert(view.evaluation_errors =~= start.evaluation_errors);
            assert(view.evaluated_define_symbols =~= start.evaluated_define_symbols);
            assert(view.conditions_stack =~= start.conditions_stack);
            assert(view.out =~= start.out);
        }
        preprocessor
    }

    fn push_ws(&mut self, symbol: &Symbol)
        ensures
            final(self)@ == old(self)@.push_ws(symbol@),
    {
        let col = symbol.delta.col;
        let width = if col >= 0 {
            col as usize
        } else {
            (-(col as i64)) as usize
        };
        push_spaces(&mut self.current_line, width);
    }

    fn push_current_line(&mut self)
        ensures
            final(self)@ == old(self)@.push_current_line(),
    {
        let ghost before = self.out@;
        self.out.push(self.current_line.clone());
        proof {
            lemma_deep_push(before, self.out@.last());
        }
    }

    fn end_line(&mut self)
        ensures
            final(self)@ == old(self)@.end_line(),
    {
        self.push_current_line();
        self.current_line = String::new();
        self.prev_end = 0;
    }

    fn push_empty_lines(&mut self, count: u32)
        ensures
            final(self)@ == old(self)@.push_empty_lines(count as nat),
    {
        let mut done: u32 = 0;
        proof {
            assert(self@.out + Seq::new(0nat, |i: int| Seq::<char>::empty()) =~= self@.out);
        }
        while done < count
            invariant
                done <= count,
                self@ == old(self)@.push_empty_lines(done as nat),
            decreases count - done,
        {
            let ghost before = self.out@;
            self.out.push(String::new());
            proof {
                lemma_deep_push(before, self.out@.last());
                assert(old(self)@.out + Seq::new(
                    (done + 1) as nat,
                    |i: int| Seq::<char>::empty(),
                ) =~= (old(self)@.out + Seq::new(done as nat, |i: int| Seq::<char>::empty())).push(
                    Seq::<char>::empty(),
                ));
            }
            done += 1;
        }
    }

    fn push_symbol(&mut self, symbol: &Symbol)
        ensures
            final(self)@ == old(self)@.push_symbol(symbol@),
    {
        match symbol.token_kind {
            TokenKind::Eof => {
                self.push_current_line();
            },
            _ => {
                self.push_ws(symbol);
                self.prev_end = symbol.range.end.character;
                self.current_line.append(symbol.text.as_str());
            },
        }
    }

    fn fail_unopened(symbol: &Symbol) -> (error: PreprocessError)
        ensures
            error@ == PreprocessorView::unopened(symbol@),
    {
        PreprocessError::Unbalanced(StructuralError::new(symbol.text.clone(), symbol.range))
    }

    fn process_if_directive(&mut self, symbol: &Symbol)
        requires
            old(self)@.pos <= old(self)@.tokens.len(),
        ensures
            final(self)@ == old(self)@.process_if_directive(symbol@),
    {
        let start = self.pos;
        let ghost names_before = self.evaluated_define_symbols@;
        proof {
            assert(deep(names_before) + names_between(deep(self.tokens@), start as nat, start as nat)
                =~= deep(names_before));
        }
        while self.pos < self.tokens.len() && self.pos > 0 && self.tokens[self.pos - 1].in_directive
            invariant
                start <= self.pos <= self.tokens@.len(),
                directive_end(deep(self.tokens@), self.pos as nat) == directive_end(
                    deep(self.tokens@),
                    start as nat,
                ),
                deep(self.evaluated_define_symbols@) == deep(names_before) + names_between(
                    deep(self.tokens@),
                    start as nat,
                    self.pos as nat,
                ),
                self@ == (PreprocessorView {
                    pos: self.pos as nat,
                    evaluated_define_symbols: deep(self.evaluated_define_symbols@),
                    ..old(self)@
                }),
            decreases self.tokens@.len() - self.pos,
        {
            let ghost recorded = self.evaluated_define_symbols@;
            match self.tokens[self.pos].symbol.token_kind {
                TokenKind::Identifier => {
                    self.evaluated_define_symbols.push(self.tokens[self.pos].symbol.clone());
                    proof {
                        lemma_deep_push(recorded, self.evaluated_define_symbols@.last());
                        assert(deep(names_before) + names_between(
                            deep(self.tokens@),
                            start as nat,
                            (self.pos + 1) as nat,
                        ) =~= (deep(names_before) + names_between(
                            deep(self.tokens@),
                            start as nat,
                            self.pos as nat,
                        )).push(self.tokens@[self.pos as int].symbol@));
                    }
                },
                _ => {},
            }
            self.pos = self.pos + 1;
        }
        let end = self.pos;
        let evaluation = evaluate_condition(&self.tokens, start, end, &self.macros, symbol.range);
        let value = evaluation.value;
        match evaluation.error {
            Some(error) => {
                let ghost errors_before = self.evaluation_errors@;
                self.evaluation_errors.push(error);
                proof {
                    lemma_deep_push(errors_before, error);
                }
            },
            None => {},
        }
        if value {
            self.conditions_stack.push(ConditionState::Active);
        } else {
            self.skip_line_start_col = symbol.range.end.character;
            self.conditions_stack.push(ConditionState::NotActivated);
        }
        let ghost missing_before = self.macro_not_found_errors@;
        let mut unresolved = evaluation.macro_not_found_errors;
        let ghost unresolved_before = unresolved@;
        self.macro_not_found_errors.append(&mut unresolved);
        proof {
            crate::symbol::lemma_deep_add(missing_before, unresolved_before);
        }
        let line_diff = if start < end && self.tokens[end - 1].symbol.range.end.line
            >= symbol.range.start.line {
            self.tokens[end - 1].symbol.range.end.line - symbol.range.start.line
        } else {
            0
        };
        self.push_empty_lines(line_diff);
        self.prev_end = 0;
    }

    fn process_elseif_directive(&mut self, symbol: &Symbol) -> (result: Result<(), PreprocessError>)
        requires
            old(self)@.pos <= old(self)@.tokens.len(),
        ensures
            final(self)@ == old(self)@.process_elseif_directive(symbol@).state,
            match result {
                Ok(_) => old(self)@.process_elseif_directive(symbol@).signal == SignalView::Continue,
                Err(error) => old(self)@.process_elseif_directive(symbol@).signal
                    == SignalView::Failed(error@),
            },
    {
        match self.conditions_stack.pop() {
            None => Err(Self::fail_unopened(symbol)),
            Some(ConditionState::NotActivated) => {
                self.process_if_directive(symbol);
                Ok(())
            },
            Some(_) => {
                self.conditions_stack.push(ConditionState::Activated);
                Ok(())
            },
        }
    }

    fn process_else_directive(&mut self, symbol: &Symbol) -> (result: Result<(), PreprocessError>)
        ensures
            final(self)@ == old(self)@.process_else_directive(symbol@).state,
            match result {
                Ok(_) => old(self)@.process_else_directive(symbol@).signal == SignalView::Continue,
                Err(error) => old(self)@.process_else_directive(symbol@).signal
                    == SignalView::Failed(error@),
            },
    {
        match self.conditions_stack.pop() {
            None => Err(Self::fail_unopened(symbol)),
            Some(ConditionState::NotActivated) => {
                self.conditions_stack.push(ConditionState::Active);
                Ok(())
            },
            Some(_) => {
                self.skip_line_start_col = symbol.range.end.character;
                self.conditions_stack.push(ConditionState::Activated);
                Ok(())
            },
        }
    }

    fn process_endif_directive(&mut self, symbol: &Symbol) -> (result: Result<(), PreprocessError>)
        ensures
            final(self)@ == old(self)@.process_endif_directive(symbol@).state,
            match result {
                Ok(_) => old(self)@.process_endif_directive(symbol@).signal == SignalView::Continue,
                Err(error) => old(self)@.process_endif_directive(symbol@).signal
                    == SignalView::Failed(error@),
            },
    {
        match self.conditions_stack.pop() {
            None => Err(Self::fail_unopened(symbol)),
            Some(_) => {
                if !is_emitting(&self.conditions_stack) {
                    self.skipped_lines.push(
                        Range::new(
                            Position::new(symbol.range.start.line, self.skip_line_start_col),
                            Position::new(symbol.range.start.line, symbol.range.end.character),
                        ),
                    );
                }
                Ok(())
            },
        }
    }

    fn process_define_directive(&mut self, symbol: &Symbol) -> (signal: Signal)
        requires
            old(self)@.pos <= old(self)@.tokens.len(),
        ensures
            final(self)@ == old(self)@.process_define_directive(symbol@).state,
            signal@ == old(self)@.process_define_directive(symbol@).signal,
    {
        self.push_symbol(symbol);
        let mut definition = Definition::new();
        let ghost goal = self@.define_loop(definition@);
        while self.pos < self.tokens.len() && self.pos > 0 && self.tokens[self.pos - 1].in_directive
            invariant
                self.pos <= self.tokens@.len(),
                self@.define_loop(definition@) == goal,
                goal == old(self)@.push_symbol(symbol@).define_loop(DefinitionView::start()),
            decreases self.tokens@.len() - self.pos,
        {
            let next = self.tokens[self.pos].symbol.clone();
            let ends = match next.token_kind {
                TokenKind::Newline | TokenKind::Eof => true,
                _ => false,
            };
            let ghost before = self@;
            self.push_ws(&next);
            self.prev_end = next.range.end.character;
            if !ends {
                self.current_line.append(next.text.as_str());
            }
            self.pos = self.pos + 1;
            proof {
                assert(self@ == before.mirror(next@));
            }
            if !ends {
                match definition.feed(&next) {
                    Err(error) => {
                        return Signal::Failed(error);
                    },
                    Ok(_) => {},
                }
            }
        }
        let defined = definition.finish();
        self.end_line();
        self.macros.insert(defined.0, defined.1);
        Signal::Continue
    }

    fn process_include_directive(&mut self, symbol: &Symbol) -> (signal: Signal)
        ensures
            final(self)@ == old(self)@.process_include_directive(symbol@).state,
            signal@ == old(self)@.process_include_directive(symbol@).signal,
    {
        let text = trim(symbol.inline_text.as_str());
        let lines = if symbol.range.end.line >= symbol.range.start.line {
            symbol.range.end.line - symbol.range.start.line
        } else {
            0
        };
        let width = text.as_str().len();
        let end_col = if width <= u32::MAX as usize {
            width as u32
        } else {
            u32::MAX
        };
        let shown = Symbol::new(
            symbol.token_kind,
            text.as_str(),
            Range::new(symbol.range.start, Position::new(symbol.range.start.line, end_col)),
            symbol.delta,
        );
        let paths = include_paths(text.as_str());
        self.push_symbol(&shown);
        if lines > 0 {
            self.end_line();
            self.push_empty_lines(lines - 1);
        }
        if paths.len() > 0 {
            Signal::Paused(paths)
        } else {
            Signal::Continue
        }
    }

    fn signal_of(result: Result<(), PreprocessError>) -> (signal: Signal)
        ensures
            match result {
                Ok(_) => signal@ == SignalView::Continue,
                Err(error) => signal@ == SignalView::Failed(error@),
            },
    {
        match result {
            Ok(_) => Signal::Continue,
            Err(error) => Signal::Failed(error),
        }
    }

    fn process_directive(&mut self, dir: PreprocDir, symbol: &Symbol) -> (signal: Signal)
        requires
            old(self)@.pos <= old(self)@.tokens.len(),
        ensures
            final(self)@ == old(self)@.process_directive(dir, symbol@).state,
            signal@ == old(self)@.process_directive(dir, symbol@).signal,
    {
        match dir {
            PreprocDir::MIf => {
                self.process_if_directive(symbol);
                Signal::Continue
            },
            PreprocDir::MElseif => Self::signal_of(self.process_elseif_directive(symbol)),
            PreprocDir::MDefine => self.process_define_directive(symbol),
            PreprocDir::MEndif => Self::signal_of(self.process_endif_directive(symbol)),
            PreprocDir::MElse => Self::signal_of(self.process_else_directive(symbol)),
            PreprocDir::MInclude | PreprocDir::MTryinclude => self.process_include_directive(symbol),
            _ => {
                self.push_symbol(symbol);
                Signal::Continue
            },
        }
    }

    fn process_negative_condition(&mut self, symbol: &Symbol) -> (signal: Signal)
        requires
            old(self)@.pos <= old(self)@.tokens.len(),
        ensures
            final(self)@ == old(self)@.process_negative_condition(symbol@).state,
            signal@ == old(self)@.process_negative_condition(symbol@).signal,
    {
        match symbol.token_kind {
            TokenKind::PreprocDir(PreprocDir::MIf) => {
                self.conditions_stack.push(ConditionState::Activated);
                Signal::Continue
            },
            TokenKind::PreprocDir(PreprocDir::MEndif) => Self::signal_of(
                self.process_endif_directive(symbol),
            ),
            TokenKind::PreprocDir(PreprocDir::MElse) => Self::signal_of(
                self.process_else_directive(symbol),
            ),
            TokenKind::PreprocDir(PreprocDir::MElseif) => Self::signal_of(
                self.process_elseif_directive(symbol),
            ),
            TokenKind::Newline => {
                self.push_current_line();
                self.skipped_lines.push(
                    Range::new(
                        Position::new(symbol.range.start.line, self.skip_line_start_col),
                        Position::new(symbol.range.start.line, symbol.range.start.character),
                    ),
                );
                self.current_line = String::new();
                self.prev_end = 0;
                Signal::Continue
            },
            TokenKind::Identifier => {
                let ghost before = self.evaluated_define_symbols@;
                self.evaluated_define_symbols.push(symbol.clone());
                proof {
                    lemma_deep_push(before, self.evaluated_define_symbols@.last());
                }
                Signal::Continue
            },
            _ => Signal::Continue,
        }
    }

    fn expand_macro(&mut self, symbol: &Symbol) -> (signal: Signal)
        ensures
            final(self)@ == old(self)@.expand_macro(symbol@).state,
            signal@ == old(self)@.expand_macro(symbol@).signal,
    {
        let limit = self.tokens.len();
        match expand_symbol(
            &self.tokens,
            &mut self.pos,
            limit,
            &self.macros,
            symbol,
            &mut self.expansion_stack,
            false,
        ) {
            Ok(_) => Signal::Continue,
            Err(ExpansionError::MacroNotFound(error)) => {
                let ghost before = self.macro_not_found_errors@;
                self.macro_not_found_errors.push(error.clone());
                proof {
                    lemma_deep_push(before, self.macro_not_found_errors@.last());
                }
                Signal::Failed(PreprocessError::MacroNotFound(error))
            },
            Err(ExpansionError::Parse(error)) => Signal::Failed(PreprocessError::ParseInt(error)),
        }
    }

    fn process_symbol(&mut self, symbol: &Symbol) -> (signal: Signal)
        requires
            old(self)@.pos <= old(self)@.tokens.len(),
        ensures
            final(self)@ == old(self)@.process_symbol(symbol@).state,
            signal@ == old(self)@.process_symbol(symbol@).signal,
    {
        if !is_emitting(&self.conditions_stack) {
            return self.process_negative_condition(symbol);
        }
        match symbol.token_kind {
            TokenKind::PreprocDir(dir) => self.process_directive(dir, symbol),
            TokenKind::Newline => {
                self.push_ws(symbol);
                self.end_line();
                Signal::Continue
            },
            TokenKind::Identifier => {
                if self.macros.contains(symbol.text.as_str()) {
                    self.expand_macro(symbol)
                } else {
                    self.push_symbol(symbol);
                    Signal::Continue
                }
            },
            TokenKind::Eof => {
                self.push_ws(symbol);
                self.push_current_line();
                Signal::Finished
            },
            _ => {
                self.push_symbol(symbol);
                Signal::Continue
            },
        }
    }

    /// Takes the next symbol and deals with it.
    pub fn step(&mut self) -> (signal: Signal)
        requires
            old(self)@.pos <= old(self)@.tokens.len(),
        ensures
            final(self)@ == old(self)@.step().state,
            signal@ == old(self)@.step().signal,
            old(self)@.wf() ==> final(self)@.wf(),
    {
        proof {
            if self@.wf() {
                lemma_step_progress(self@);
            }
        }
        let ghost stack_before = self.expansion_stack@;
        match self.expansion_stack.pop() {
            Some(symbol) => {
                proof {
                    lemma_deep_drop_last(stack_before);
                }
                self.process_symbol(&symbol)
            },
            None => {
                if self.pos < self.tokens.len() {
                    let symbol = self.tokens[self.pos].symbol.clone();
                    self.pos = self.pos + 1;
                    self.process_symbol(&symbol)
                } else {
                    Signal::Finished
                }
            },
        }
    }

    /// Preprocesses the text from where the preprocessor stands, up to
    /// its end, to an include directive that names a file, or to an
    /// error.
    ///
    /// At the end the text written is returned, its lines put together.
    /// At an include directive the paths that it names are returned: the
    /// caller preprocesses those files, hands their macros to
    /// [`Self::merge_macros`] and calls this function again. After an
    /// error no text is returned; the diagnostics gathered until then
    /// stay with the preprocessor.
    pub fn preprocess_input(&mut self) -> (result: Result<Progress, PreprocessError>)
        requires
            old(self)@.wf(),
        ensures
            final(self)@ == old(self)@.run().state,
            final(self)@.wf(),
            final(self)@.tokens == old(self)@.tokens,
            match result {
                Ok(Progress::Finished(text)) => old(self)@.run().signal == SignalView::Finished
                    && text@ == final(self)@.text(),
                Ok(Progress::Paused(paths)) => old(self)@.run().signal == SignalView::Paused(
                    deep(paths@),
                ),
                Err(error) => old(self)@.run().signal == SignalView::Failed(error@),
            },
    {
        loop
            invariant
                self@.wf(),
                self@.run() == old(self)@.run(),
                self@.tokens == old(self)@.tokens,
            decreases self@.tokens.len() - self@.pos, self@.expansion_stack.len(),
        {
            let ghost before = self@;
            proof {
                lemma_step_progress(before);
            }
            match self.step() {
                Signal::Continue => {},
                Signal::Finished => {
                    return Ok(Progress::Finished(join_lines(&self.out)));
                },
                Signal::Paused(paths) => {
                    return Ok(Progress::Paused(paths));
                },
                Signal::Failed(error) => {
                    return Err(error);
                },
            }
        }
    }

    /// Takes over the macros of a file that the text names. On a name
    /// that both hold, the macro of the file replaces the one held
    /// before.
    pub fn merge_macros(&mut self, included: MacroTable)
        ensures
            final(self)@ == old(self)@.merge_macros(included@),
            old(self)@.wf() ==> final(self)@.wf(),
    {
        self.macros.merge(included);
    }

    /// The symbols of the document.
    pub fn tokens(&self) -> (tokens: &Vec<Token>)
        ensures
            deep(tokens@) == self@.tokens,
    {
        &self.tokens
    }

    /// How many of the symbols have been read.
    pub fn position(&self) -> (pos: usize)
        ensures
            pos == self@.pos,
    {
        self.pos
    }

    /// The symbols that wait to be read before the next token, the
    /// last of them first.
    pub fn expansion_stack(&self) -> (stack: &Vec<Symbol>)
        ensures
            deep(stack@) == self@.expansion_stack,
    {
        &self.expansion_stack
    }

    /// The macros that are defined.
    pub fn macros(&self) -> (macros: &MacroTable)
        ensures
            macros@ == self@.macros,
    {
        &self.macros
    }

    /// The document that is being read.
    pub fn document_uri(&self) -> (uri: &String)
        ensures
            uri@ == self@.document_uri,
    {
        &self.document_uri
    }

    /// The lines that have been written.
    pub fn lines(&self) -> (lines: &Vec<String>)
        ensures
            deep(lines@) == self@.out,
    {
        &self.out
    }

    /// The stretches of text that were skipped, line by line.
    pub fn skipped_lines(&self) -> (ranges: &Vec<Range>)
        ensures
            ranges@ == self@.skipped_lines,
    {
        &self.skipped_lines
    }

    /// The names that were taken for macros and have none.
    pub fn macro_not_found_errors(&self) -> (errors: &Vec<MacroNotFoundError>)
        ensures
            deep(errors@) == self@.macro_not_found_errors,
    {
        &self.macro_not_found_errors
    }

    /// The conditions that could not be read.
    pub fn evaluation_errors(&self) -> (errors: &Vec<EvaluationError>)
        ensures
            deep(errors@) == self@.evaluation_errors,
    {
        &self.evaluation_errors
    }

    /// The names met in conditions and in skipped text.
    pub fn evaluated_define_symbols(&self) -> (symbols: &Vec<Symbol>)
        ensures
            deep(symbols@) == self@.evaluated_define_symbols,
    {
        &self.evaluated_define_symbols
    }

    /// The `#if` chains that are open, the innermost last.
    pub fn conditions_stack(&self) -> (stack: &Vec<ConditionState>)
        ensures
            stack@ == self@.conditions_stack,
    {
        &self.conditions_stack
    }

    /// Adds a token for every name that was met in a condition or in
    /// skipped text.
    pub fn add_ignored_tokens(&self, tokens: &mut Vec<IgnoredToken>)
        ensures
            deep(final(tokens)@) == deep(old(tokens)@) + self@.evaluated_define_symbols.map_values(
                |symbol: SymbolView| ignored_token(symbol),
            ),
    {
        let ghost goal = self@.evaluated_define_symbols.map_values(
            |symbol: SymbolView| ignored_token(symbol),
        );
        let mut i: usize = 0;
        proof {
            assert(deep(tokens@) + goal.take(0) =~= deep(tokens@));
        }
        while i < self.evaluated_define_symbols.len()
            invariant
                i <= self.evaluated_define_symbols.len(),
                goal == self@.evaluated_define_symbols.map_values(
                    |symbol: SymbolView| ignored_token(symbol),
                ),
                deep(tokens@) == deep(old(tokens)@) + goal.take(i as int),
            decreases self.evaluated_define_symbols.len() - i,
        {
            let ghost before = tokens@;
            let symbol = &self.evaluated_define_symbols[i];
            let token = IgnoredToken { text: symbol.text.clone(), range: symbol.range };
            tokens.push(token);
            proof {
                lemma_deep_push(before, token);
                assert(goal.take(i + 1) =~= goal.take(i as int).push(token@));
                assert(deep(before).push(token@) =~= deep(old(tokens)@) + goal.take(i + 1));
            }
            i += 1;
        }
        proof {
            assert(goal.take(self.evaluated_define_symbols@.len() as int) =~= goal);
        }
    }

    /// Adds the diagnostics that preprocessing has led to.
    pub fn add_diagnostics(&self, diagnostics: &mut Vec<Diagnostic>)
        ensures
            deep(final(diagnostics)@) == deep(old(diagnostics)@) + self@.diagnostics(),
    {
        get_disabled_diagnostics(&self.skipped_lines, diagnostics);
        get_macro_not_found_diagnostics(&self.macro_not_found_errors, diagnostics);
        get_evaluation_error_diagnostics(&self.evaluation_errors, diagnostics);
        proof {
            assert(deep(diagnostics@) =~= deep(old(diagnostics)@) + self@.diagnostics());
        }
    }

    /// Whether the preprocessor is well-formed: see [`PreprocessorView::wf`].
    pub fn is_wf(&self) -> (well_formed: bool)
        ensures
            well_formed == self@.wf(),
    {
        if self.pos > self.tokens.len() {
            return false;
        }
        let mut i: usize = 0;
        while i < self.expansion_stack.len()
            invariant
                i <= self.expansion_stack.len(),
                forall|j: int|
                    0 <= j < i ==> (#[trigger] self@.expansion_stack[j]).token_kind
                        != TokenKind::Identifier,
            decreases self.expansion_stack.len() - i,
        {
            match self.expansion_stack[i].token_kind {
                TokenKind::Identifier => {
                    assert(self@.expansion_stack[i as int].token_kind == TokenKind::Identifier);
                    return false;
                },
                _ => {},
            }
            i += 1;
        }
        true
    }
}

} // verus!

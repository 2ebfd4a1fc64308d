//! Line parity: the text that comes out has as many line breaks as the
//! text that went in, unless the run loses a line break: by skipping a
//! symbol that holds one, by a call of a macro that reads or writes one,
//! by a condition that the end of the text cuts short, or by ending
//! while symbols are skipped.
//!
//! [`start_keeping_lines`] and [`preprocess_keeping_lines`] test at run
//! time what the law asks of the text, of its tokens and of the run.

use crate::conditions::{emitting, is_emitting, ConditionState};
use crate::errors::PreprocessError;
use crate::lexer::{lexer_accepts, tokens_of, try_tokenize, Token, TokenView};
use crate::macros::{expansion, lemma_expansion_pos, setting_of};
use crate::preprocessor::{
    directive_end, ends_line, extra_lines, gap, in_directive, lemma_step_progress, lines_taken,
    shown_include, DefinitionView, PreprocessorView, Progress, Signal, SignalView,
    SourcepawnPreprocessor,
};
use crate::runs::{input_newlines, lemma_joined_push, lemma_spaces_hold_no_newline};
use crate::symbol::{deep, PreprocDir, Symbol, SymbolView, TokenKind};
use crate::text::{
    count_line_breaks, count_newlines, join_lines, joined, lemma_count_newlines_add, spaces, trim,
    trimmed,
};
use vstd::prelude::*;

verus! {

/// Whether a directive is one of conditional compilation or a
/// `#define`: one whose text is the directive's name and nothing else.
pub open spec fn fixed_directive(kind: TokenKind) -> bool {
    kind == TokenKind::PreprocDir(PreprocDir::MIf) || kind == TokenKind::PreprocDir(
        PreprocDir::MElseif,
    ) || kind == TokenKind::PreprocDir(PreprocDir::MElse) || kind == TokenKind::PreprocDir(
        PreprocDir::MEndif,
    ) || kind == TokenKind::PreprocDir(PreprocDir::MDefine)
}

/// What makes the token at place `i` tidy: it is laid out as the lexer
/// lays tokens out.
///
/// A newline holds one line break and ends the line of a directive.
/// Every symbol ends as many lines after its start as it holds line
/// breaks, and each token starts on the line on which the one before it
/// ends. A name, and a directive of conditional compilation or a
/// `#define`, holds no line break; a `#define` is read to the end of its
/// line; an include directive shows no line break. The line of a
/// directive ends at a newline or at the end of the text, which is the
/// last token and holds no line break.
pub open spec fn tidy_at(tokens: Seq<TokenView>, i: int) -> bool {
    let token = tokens[i];
    let symbol = token.symbol;
    &&& symbol.token_kind == TokenKind::Newline ==> count_newlines(symbol.text) == 1
        && !token.in_directive
    &&& symbol.range.end.line == symbol.range.start.line + count_newlines(symbol.text)
    &&& symbol.token_kind == TokenKind::Identifier || fixed_directive(symbol.token_kind)
        ==> count_newlines(symbol.text) == 0
    &&& i + 1 < tokens.len() ==> tokens[i + 1].symbol.range.start.line == symbol.range.end.line
    &&& symbol.token_kind == TokenKind::PreprocDir(PreprocDir::MDefine) ==> token.in_directive
    &&& symbol.token_kind == TokenKind::PreprocDir(PreprocDir::MInclude) || symbol.token_kind
        == TokenKind::PreprocDir(PreprocDir::MTryinclude) ==> count_newlines(
        trimmed(symbol.inline_text),
    ) == 0
    &&& i > 0 && tokens[i - 1].in_directive ==> ends_line(symbol) || token.in_directive
    &&& symbol.token_kind == TokenKind::Eof ==> i == tokens.len() - 1 && !token.in_directive
        && count_newlines(symbol.text) == 0
}

/// Whether the tokens are tidy: each of them is, and the end of the
/// text is the last of them.
pub open spec fn tidy(tokens: Seq<TokenView>) -> bool {
    &&& tokens.len() > 0
    &&& tokens.last().symbol.token_kind == TokenKind::Eof
    &&& forall|i: int| 0 <= i < tokens.len() ==> tidy_at(tokens, i)
}

/// Whether a symbol that waits on the expansion stack will be written
/// as it is, on the line that is under way: it holds no line break, and
/// is no name, no newline, not the end of the text, and no directive
/// that is read further than its own symbol.
pub open spec fn settled(symbol: SymbolView) -> bool {
    &&& count_newlines(symbol.text) == 0
    &&& symbol.token_kind != TokenKind::Identifier
    &&& symbol.token_kind != TokenKind::Newline
    &&& symbol.token_kind != TokenKind::Eof
    &&& !fixed_directive(symbol.token_kind)
    &&& symbol.token_kind != TokenKind::PreprocDir(PreprocDir::MInclude)
    &&& symbol.token_kind != TokenKind::PreprocDir(PreprocDir::MTryinclude)
}

/// How many line breaks the texts of the first `pos` tokens hold.
pub open spec fn read_newlines(tokens: Seq<TokenView>, pos: nat) -> nat
    decreases pos,
{
    if pos == 0 || pos > tokens.len() {
        0
    } else {
        read_newlines(tokens, (pos - 1) as nat) + count_newlines(tokens[pos - 1].symbol.text)
    }
}

/// How many line breaks the text would hold if the line that is under
/// way were written now.
pub open spec fn written_newlines(state: PreprocessorView) -> nat {
    count_newlines(joined(state.out)) + count_newlines(state.current_line) + if state.out.len()
        > 0 {
        1nat
    } else {
        0nat
    }
}

/// What a run keeps on tidy text: the state is well-formed, the tokens
/// are tidy, and the symbols that wait to be read again are settled.
/// Before the end of the text has been read, as many line breaks are
/// written as were read. Once it has been read, nothing waits to be read
/// again, and symbols are skipped, or else the line of a `#define` has
/// taken the end of the text for its end: then it is written, one line
/// break ahead, and no line is under way.
pub open spec fn in_step(state: PreprocessorView) -> bool {
    &&& state.wf()
    &&& tidy(state.tokens)
    &&& forall|i: int|
        0 <= i < state.expansion_stack.len() ==> settled(#[trigger] state.expansion_stack[i])
    &&& state.pos < state.tokens.len() ==> written_newlines(state) == read_newlines(
        state.tokens,
        state.pos,
    )
    &&& state.pos == state.tokens.len() ==> state.expansion_stack.len() == 0 && (!emitting(
        state.conditions_stack,
    ) || (written_newlines(state) == read_newlines(state.tokens, state.pos) + 1
        && state.current_line.len() == 0 && state.out.len() > 0))
}

/// Writing a symbol writes the line breaks that its text holds; the
/// white space before it holds none.
pub proof fn lemma_push_symbol_written(state: PreprocessorView, symbol: SymbolView)
    ensures
        symbol.token_kind != TokenKind::Eof ==> written_newlines(state.push_symbol(symbol))
            == written_newlines(state) + count_newlines(symbol.text),
        written_newlines(state.push_ws(symbol)) == written_newlines(state),
{
    lemma_spaces_hold_no_newline(gap(symbol));
    lemma_count_newlines_add(state.current_line, spaces(gap(symbol)));
    lemma_count_newlines_add(state.current_line + spaces(gap(symbol)), symbol.text);
}

/// Ending the line writes one more line break.
pub proof fn lemma_end_line_written(state: PreprocessorView)
    ensures
        written_newlines(state.end_line()) == written_newlines(state) + 1,
        count_newlines(joined(state.push_current_line().out)) == written_newlines(state),
{
    lemma_joined_push(state.out, state.current_line);
    assert(count_newlines(Seq::<char>::empty()) == 0);
}

/// Writing empty lines writes as many line breaks.
pub proof fn lemma_empty_lines_written(state: PreprocessorView, count: nat)
    ensures
        written_newlines(state.push_empty_lines(count)) == written_newlines(state) + count,
    decreases count,
{
    let blank = Seq::<char>::empty();
    assert(count_newlines(blank) == 0);
    if count == 0 {
        assert(state.out + Seq::new(0nat, |i: int| blank) =~= state.out);
    } else {
        let before = state.push_empty_lines((count - 1) as nat);
        lemma_empty_lines_written(state, (count - 1) as nat);
        assert(state.push_empty_lines(count).out =~= before.out.push(blank));
        lemma_joined_push(before.out, blank);
    }
}

/// On tidy tokens the line of a directive ends with a newline or with
/// the end of the text, and holds as many line breaks as it takes
/// lines.
pub proof fn lemma_directive_line(tokens: Seq<TokenView>, pos: nat, line: u32)
    requires
        tidy(tokens),
        0 < pos < tokens.len(),
        in_directive(tokens, pos),
        tokens[pos as int].symbol.range.start.line == line,
    ensures
        pos < directive_end(tokens, pos) <= tokens.len(),
        ends_line(tokens[directive_end(tokens, pos) - 1].symbol),
        tokens[directive_end(tokens, pos) - 1].symbol.token_kind == TokenKind::Newline
            <==> directive_end(tokens, pos) < tokens.len(),
        tokens[directive_end(tokens, pos) - 1].symbol.range.end.line >= line,
        !in_directive(tokens, directive_end(tokens, pos)),
        read_newlines(tokens, directive_end(tokens, pos)) == read_newlines(tokens, pos)
            + tokens[directive_end(tokens, pos) - 1].symbol.range.end.line - line,
        forall|i: int|
            pos <= i < directive_end(tokens, pos) - 1 ==> !ends_line((#[trigger] tokens[i]).symbol)
                && tokens[i].in_directive,
    decreases tokens.len() - pos,
{
    let token = tokens[pos as int];
    assert(tidy_at(tokens, pos as int));
    assert(tidy_at(tokens, pos - 1));
    assert(tidy_at(tokens, tokens.len() - 1));
    if token.in_directive {
        assert(token.symbol.token_kind != TokenKind::Newline);
        assert(token.symbol.token_kind != TokenKind::Eof);
        assert(pos + 1 < tokens.len());
        assert(tidy_at(tokens, (pos + 1) as int));
        lemma_directive_line(tokens, pos + 1, token.symbol.range.end.line);
        let end = directive_end(tokens, pos + 1);
        assert(directive_end(tokens, pos) == end);
    } else {
        assert(ends_line(token.symbol));
        assert(directive_end(tokens, pos + 1) == pos + 1);
        assert(directive_end(tokens, pos) == pos + 1);
    }
}

/// On tidy tokens the line of a `#define` is read to its end, or to
/// the symbol on which the definition fails, and is written out with the
/// line breaks that its symbols hold.
pub proof fn lemma_define_line(
    state: PreprocessorView,
    definition: DefinitionView,
    start: nat,
    end: nat,
)
    requires
        tidy(state.tokens),
        0 < start <= state.pos < end <= state.tokens.len(),
        end == directive_end(state.tokens, state.pos),
        in_directive(state.tokens, state.pos),
        ends_line(state.tokens[end - 1].symbol),
        forall|i: int|
            start <= i < end - 1 ==> !ends_line((#[trigger] state.tokens[i]).symbol)
                && state.tokens[i].in_directive,
        !in_directive(state.tokens, end),
    ensures
        state.define_loop(definition).1.error is None ==> {
            &&& state.define_loop(definition).0.pos == end
            &&& written_newlines(state.define_loop(definition).0) + read_newlines(
                state.tokens,
                state.pos,
            ) + count_newlines(state.tokens[end - 1].symbol.text) == written_newlines(state)
                + read_newlines(state.tokens, end)
            &&& state.define_loop(definition).0.tokens == state.tokens
            &&& state.define_loop(definition).0.expansion_stack == state.expansion_stack
            &&& state.define_loop(definition).0.conditions_stack == state.conditions_stack
        },
    decreases end - state.pos,
{
    let tokens = state.tokens;
    let symbol = tokens[state.pos as int].symbol;
    let written = state.mirror(symbol);
    assert(tidy_at(tokens, state.pos as int));
    lemma_spaces_hold_no_newline(gap(symbol));
    lemma_count_newlines_add(state.current_line, spaces(gap(symbol)));
    if state.pos == end - 1 {
        assert(ends_line(symbol));
        assert(!in_directive(tokens, written.pos));
        assert(written.define_loop(definition) == (written, definition.read()));
    } else {
        assert(tokens[state.pos as int].in_directive);
        assert(!ends_line(symbol));
        lemma_count_newlines_add(state.current_line + spaces(gap(symbol)), symbol.text);
        let fed = definition.feed(symbol);
        if fed.error is None {
            assert(directive_end(tokens, written.pos) == end);
            lemma_define_line(written, fed.definition, start, end);
        }
    }
}

/// What holds when a token has just been taken: the state is as a run
/// keeps it before the end of the text, but for the line breaks of that
/// token, which are read and not yet written; and nothing waits to be
/// read again.
pub open spec fn token_taken(taken: PreprocessorView, symbol: SymbolView) -> bool {
    &&& taken.wf()
    &&& tidy(taken.tokens)
    &&& taken.expansion_stack.len() == 0
    &&& 0 < taken.pos <= taken.tokens.len()
    &&& symbol == taken.tokens[taken.pos - 1].symbol
    &&& written_newlines(taken) == read_newlines(taken.tokens, (taken.pos - 1) as nat)
}

/// An `#if` on tidy tokens whose line ends before the end of the text
/// writes as many line breaks as its line holds.
pub proof fn lemma_if_directive(taken: PreprocessorView, symbol: SymbolView)
    requires
        token_taken(taken, symbol),
        fixed_directive(symbol.token_kind),
        directive_end(taken.tokens, taken.pos) < taken.tokens.len(),
    ensures
        in_step(taken.process_if_directive(symbol)),
{
    let tokens = taken.tokens;
    let pos = taken.pos;
    let after = taken.process_if_directive(symbol);
    let end = directive_end(tokens, pos);
    assert(tidy_at(tokens, pos - 1));
    assert(tidy_at(tokens, tokens.len() - 1));
    assert(pos < tokens.len());
    assert(tidy_at(tokens, pos as int));
    assert(read_newlines(tokens, pos) == read_newlines(tokens, (pos - 1) as nat));
    if in_directive(tokens, pos) {
        lemma_directive_line(tokens, pos, symbol.range.start.line);
    } else {
        assert(end == pos);
        assert(extra_lines(tokens, pos, end, symbol) == 0);
    }
    lemma_empty_lines_written(taken, extra_lines(tokens, pos, end, symbol));
    assert(written_newlines(after) == written_newlines(
        taken.push_empty_lines(extra_lines(tokens, pos, end, symbol)),
    ));
    assert(after.expansion_stack =~= taken.expansion_stack);
}

/// A `#define` on tidy tokens that does not fail writes its line with
/// the line breaks that the line holds.
pub proof fn lemma_define_directive(taken: PreprocessorView, symbol: SymbolView)
    requires
        token_taken(taken, symbol),
        emitting(taken.conditions_stack),
        symbol.token_kind == TokenKind::PreprocDir(PreprocDir::MDefine),
    ensures
        taken.process_define_directive(symbol).signal == SignalView::Continue
            || taken.process_define_directive(symbol).signal is Failed,
        taken.process_define_directive(symbol).signal == SignalView::Continue ==> in_step(
            taken.process_define_directive(symbol).state,
        ),
{
    let tokens = taken.tokens;
    let pos = taken.pos;
    let end = directive_end(tokens, pos);
    assert(tidy_at(tokens, pos - 1));
    assert(tidy_at(tokens, tokens.len() - 1));
    assert(pos < tokens.len());
    assert(tidy_at(tokens, pos as int));
    assert(read_newlines(tokens, pos) == read_newlines(tokens, (pos - 1) as nat));
    assert(in_directive(tokens, pos));
    lemma_directive_line(tokens, pos, symbol.range.start.line);
    assert(tidy_at(tokens, end - 1));
    let begun = taken.push_symbol(symbol);
    lemma_push_symbol_written(taken, symbol);
    let start = DefinitionView::start();
    lemma_define_line(begun, start, pos, end);
    let read = begun.define_loop(start);
    lemma_end_line_written(read.0);
    let after = taken.process_define_directive(symbol).state;
    if read.1.error is None {
        assert(after.expansion_stack =~= taken.expansion_stack);
    }
}

/// Whether skipping `symbol` loses no line break: it holds none, or it
/// is a newline, for which the line is ended.
pub open spec fn skipped_whole(symbol: SymbolView) -> bool {
    count_newlines(symbol.text) == 0 || symbol.token_kind == TokenKind::Newline
}

/// Whether the tokens from `from` up to `to` hold no line break.
pub open spec fn unbroken(tokens: Seq<TokenView>, from: nat, to: nat) -> bool {
    forall|i: int|
        from <= i < to && i < tokens.len() ==> count_newlines((#[trigger] tokens[i]).symbol.text)
            == 0
}

/// Whether the symbols are all settled.
pub open spec fn all_settled(symbols: Seq<SymbolView>) -> bool {
    forall|i: int| 0 <= i < symbols.len() ==> settled(#[trigger] symbols[i])
}

/// Whether the call that `symbol` starts, if it names a macro, loses no
/// line break: it reads tokens that hold none, stops before the end of
/// the text, and gives settled symbols only.
pub open spec fn call_kept(taken: PreprocessorView, symbol: SymbolView) -> bool {
    let expanded = expansion(
        setting_of(taken.tokens, taken.tokens.len(), taken.macros, false),
        symbol,
        taken.pos,
    );
    symbol.token_kind == TokenKind::Identifier && taken.macros.contains_key(symbol.text) ==> {
        &&& expanded.pos < taken.tokens.len()
        &&& unbroken(taken.tokens, taken.pos, expanded.pos)
        &&& all_settled(expanded.emitted)
    }
}

/// Tokens that hold no line break add none to what has been read.
pub proof fn lemma_unbroken_read(tokens: Seq<TokenView>, from: nat, to: nat)
    requires
        from <= to <= tokens.len(),
        unbroken(tokens, from, to),
    ensures
        read_newlines(tokens, to) == read_newlines(tokens, from),
    decreases to - from,
{
    if from < to {
        assert(count_newlines(tokens[to - 1].symbol.text) == 0);
        lemma_unbroken_read(tokens, from, (to - 1) as nat);
    }
}

/// Whether the condition that `symbol` starts, if it is an `#if` or an
/// `#elseif` whose condition is read, ends before the end of the text.
pub open spec fn condition_kept(taken: PreprocessorView, symbol: SymbolView) -> bool {
    symbol.token_kind == TokenKind::PreprocDir(PreprocDir::MIf) || symbol.token_kind
        == TokenKind::PreprocDir(PreprocDir::MElseif) ==> taken.process_symbol(symbol).state.pos
        < taken.tokens.len()
}

/// Dealing with a token of tidy text keeps what a run keeps, unless the
/// token is skipped and holds line breaks, starts a call that loses a
/// line break, or starts a condition that the end of the text cuts
/// short; and where it finishes the text, as many line breaks have been
/// written as were read.
pub proof fn lemma_token_processed(taken: PreprocessorView, symbol: SymbolView)
    requires
        token_taken(taken, symbol),
        emitting(taken.conditions_stack) || skipped_whole(symbol),
        emitting(taken.conditions_stack) ==> call_kept(taken, symbol),
        condition_kept(taken, symbol),
    ensures
        taken.process_symbol(symbol).signal == SignalView::Continue || taken.process_symbol(
            symbol,
        ).signal is Paused ==> in_step(taken.process_symbol(symbol).state),
        taken.process_symbol(symbol).signal == SignalView::Finished ==> count_newlines(
            joined(taken.process_symbol(symbol).state.out),
        ) == read_newlines(taken.tokens, taken.tokens.len()),
{
    let tokens = taken.tokens;
    let pos = taken.pos;
    let after = taken.process_symbol(symbol);
    assert(tidy_at(tokens, pos - 1));
    assert(tidy_at(tokens, tokens.len() - 1));
    assert(read_newlines(tokens, pos) == read_newlines(tokens, (pos - 1) as nat) + count_newlines(
        symbol.text,
    ));
    lemma_end_line_written(taken);
    lemma_end_line_written(taken.push_ws(symbol));
    lemma_push_symbol_written(taken, symbol);
    if !emitting(taken.conditions_stack) {
        match symbol.token_kind {
            TokenKind::PreprocDir(PreprocDir::MElseif) => {
                if taken.conditions_stack.len() > 0 && taken.conditions_stack.last()
                    == ConditionState::NotActivated {
                    lemma_if_directive(taken.pop_condition(), symbol);
                }
            },
            _ => {},
        }
    } else {
        match symbol.token_kind {
            TokenKind::PreprocDir(PreprocDir::MIf) => {
                lemma_if_directive(taken, symbol);
            },
            TokenKind::PreprocDir(PreprocDir::MElseif) => {
                if taken.conditions_stack.len() > 0 && taken.conditions_stack.last()
                    == ConditionState::NotActivated {
                    lemma_if_directive(taken.pop_condition(), symbol);
                }
            },
            TokenKind::PreprocDir(PreprocDir::MDefine) => {
                lemma_define_directive(taken, symbol);
            },
            TokenKind::PreprocDir(PreprocDir::MInclude) | TokenKind::PreprocDir(
                PreprocDir::MTryinclude,
            ) => {
                let shown = shown_include(symbol);
                let written = taken.push_symbol(shown);
                lemma_push_symbol_written(taken, shown);
                lemma_end_line_written(written);
                if lines_taken(symbol) > 0 {
                    lemma_empty_lines_written(
                        written.end_line(),
                        (lines_taken(symbol) - 1) as nat,
                    );
                }
            },
            TokenKind::Identifier => {
                if taken.macros.contains_key(symbol.text) {
                    let setting = setting_of(tokens, tokens.len(), taken.macros, false);
                    let expanded = expansion(setting, symbol, pos);
                    lemma_expansion_pos(setting, symbol, pos);
                    lemma_unbroken_read(tokens, pos, expanded.pos);
                    assert(after.state.expansion_stack =~= expanded.emitted);
                }
            },
            _ => {},
        }
    }
}

/// Whether the next step loses no line break: it takes no token that
/// holds line breaks while symbols are skipped, starts no call that
/// loses a line break, and starts no condition that the end of the text
/// cuts short.
pub open spec fn step_loses_nothing(state: PreprocessorView) -> bool {
    let taken = PreprocessorView { pos: state.pos + 1, ..state };
    let symbol = state.tokens[state.pos as int].symbol;
    state.expansion_stack.len() == 0 && state.pos < state.tokens.len() ==> {
        &&& condition_kept(taken, symbol)
        &&& if emitting(state.conditions_stack) {
            call_kept(taken, symbol)
        } else {
            skipped_whole(symbol)
        }
    }
}

/// Whether a run loses no line break: none of its steps does.
pub open spec fn loses_nothing(state: PreprocessorView) -> bool
    decreases state.tokens.len() - state.pos, state.expansion_stack.len(),
    when state.wf()
{
    step_loses_nothing(state) && if state.step().signal == SignalView::Continue {
        proof {
            lemma_step_progress(state);
        }
        loses_nothing(state.step().state)
    } else {
        true
    }
}

/// A step on tidy text that loses no line break keeps what a run
/// keeps; and where it finishes the text while symbols are
/// emitted, as many line breaks have been written as were read.
pub proof fn lemma_tidy_step(state: PreprocessorView)
    requires
        in_step(state),
        step_loses_nothing(state),
    ensures
        state.step().signal == SignalView::Continue || state.step().signal is Paused ==> in_step(
            state.step().state,
        ),
        state.step().signal == SignalView::Finished && emitting(state.step().state.conditions_stack)
            ==> count_newlines(joined(state.step().state.out)) == read_newlines(
            state.tokens,
            state.tokens.len(),
        ),
        state.step().state.tokens == state.tokens,
{
    lemma_step_progress(state);
    if state.expansion_stack.len() > 0 {
        let symbol = state.expansion_stack.last();
        let taken = PreprocessorView {
            expansion_stack: state.expansion_stack.drop_last(),
            ..state
        };
        assert(settled(symbol));
        lemma_push_symbol_written(taken, symbol);
        assert forall|i: int| 0 <= i < taken.expansion_stack.len() implies settled(
            #[trigger] taken.expansion_stack[i],
        ) by {
            assert(taken.expansion_stack[i] == state.expansion_stack[i]);
        }
    } else if state.pos < state.tokens.len() {
        let symbol = state.tokens[state.pos as int].symbol;
        let taken = PreprocessorView { pos: state.pos + 1, ..state };
        lemma_token_processed(taken, symbol);
    }
}

/// A run on tidy text that loses no line break keeps what a run keeps
/// up to the point at which it asks for the macros of other
/// files; and where it finishes the text while symbols are emitted, as
/// many line breaks have been written as were read.
pub proof fn lemma_tidy_run(state: PreprocessorView)
    requires
        in_step(state),
        loses_nothing(state),
    ensures
        state.run().signal is Paused ==> in_step(state.run().state),
        state.run().signal == SignalView::Finished && emitting(state.run().state.conditions_stack)
            ==> count_newlines(state.run().state.text()) == read_newlines(
            state.tokens,
            state.tokens.len(),
        ),
        state.run().state.tokens == state.tokens,
    decreases state.tokens.len() - state.pos, state.expansion_stack.len(),
{
    lemma_step_progress(state);
    lemma_tidy_step(state);
    if state.step().signal == SignalView::Continue {
        lemma_tidy_run(state.step().state);
    }
}

/// The line breaks read when all tokens have been read are the line
/// breaks of the tokens.
pub proof fn lemma_read_all(tokens: Seq<TokenView>, pos: nat)
    requires
        pos <= tokens.len(),
    ensures
        read_newlines(tokens, pos) + input_newlines(tokens, pos) == read_newlines(
            tokens,
            tokens.len(),
        ),
    decreases tokens.len() - pos,
{
    if pos < tokens.len() {
        lemma_read_all(tokens, pos + 1);
    }
}

/// A run loses no line break where its first step loses none and the
/// run from there on loses none.
pub proof fn lemma_loses_nothing_unfolds(state: PreprocessorView)
    requires
        state.wf(),
    ensures
        loses_nothing(state) == (step_loses_nothing(state) && (state.step().signal
            == SignalView::Continue ==> loses_nothing(state.step().state))),
        state.step().signal == SignalView::Continue ==> state.run() == state.step().state.run(),
        state.step().signal != SignalView::Continue ==> state.run() == state.step(),
{
    lemma_step_progress(state);
}

/// Taking over macros keeps what a run keeps.
pub proof fn lemma_merge_keeps_step(
    state: PreprocessorView,
    included: Map<Seq<char>, crate::macro_table::MacroView>,
)
    requires
        in_step(state),
    ensures
        in_step(state.merge_macros(included)),
{
}

/// The state before the first step of a run on tidy tokens is one that
/// a run keeps.
pub proof fn lemma_start_in_step(document_uri: Seq<char>, tokens: Seq<TokenView>)
    requires
        tidy(tokens),
    ensures
        in_step(PreprocessorView::start(document_uri, tokens)),
{
    let start = PreprocessorView::start(document_uri, tokens);
    assert(joined(start.out) =~= Seq::<char>::empty());
    assert(count_newlines(Seq::<char>::empty()) == 0);
    assert(tidy_at(tokens, tokens.len() - 1));
}

/// What line parity says of a run from `state`: where the run asks for
/// the macros of other files, it does so in a state that a run keeps;
/// and where it finishes the text while symbols are emitted, the text
/// that it has written has as many line breaks as the texts of the
/// tokens hold.
pub open spec fn kept_lines(state: PreprocessorView) -> bool {
    &&& state.run().signal is Paused ==> in_step(state.run().state)
    &&& state.run().signal == SignalView::Finished && emitting(state.run().state.conditions_stack)
        ==> count_newlines(state.run().state.text()) == input_newlines(state.tokens, 0)
}

/// Line parity on tidy text.
///
/// Take a run on tidy tokens, from its start ([`lemma_start_in_step`])
/// or from where it was taken up again after macros were taken over
/// ([`lemma_merge_keeps_step`]). Where the run loses no line break (see
/// [`step_loses_nothing`]), it either asks for the macros of other
/// files, in a state from which this holds again, or fails, or finishes
/// the text; and where it finishes the text while symbols are emitted,
/// the text that it has written has as many line breaks as the texts of
/// the tokens hold.
pub proof fn lemma_tidy_text_keeps_its_lines(state: PreprocessorView)
    requires
        in_step(state),
        loses_nothing(state),
    ensures
        kept_lines(state),
{
    lemma_tidy_run(state);
    lemma_read_all(state.tokens, 0);
}

/// Whether a symbol is settled.
pub fn is_settled(symbol: &Symbol) -> (ok: bool)
    ensures
        ok == settled(symbol@),
{
    match symbol.token_kind {
        TokenKind::Identifier
        | TokenKind::Newline
        | TokenKind::Eof
        | TokenKind::PreprocDir(PreprocDir::MInclude)
        | TokenKind::PreprocDir(PreprocDir::MTryinclude) => false,
        kind => !is_fixed_directive(kind) && count_line_breaks(symbol.text.as_str()) == 0,
    }
}

/// Whether the kind is that of a directive of conditional compilation
/// or of a `#define`.
fn is_fixed_directive(kind: TokenKind) -> (fixed: bool)
    ensures
        fixed == fixed_directive(kind),
{
    match kind {
        TokenKind::PreprocDir(PreprocDir::MIf)
        | TokenKind::PreprocDir(PreprocDir::MElseif)
        | TokenKind::PreprocDir(PreprocDir::MElse)
        | TokenKind::PreprocDir(PreprocDir::MEndif)
        | TokenKind::PreprocDir(PreprocDir::MDefine) => true,
        _ => false,
    }
}

/// Whether the token at place `i` is tidy.
fn is_tidy_at(tokens: &Vec<Token>, i: usize) -> (ok: bool)
    requires
        i < tokens@.len(),
    ensures
        ok == tidy_at(deep(tokens@), i as int),
{
    let count = tokens.len();
    let token = &tokens[i];
    let symbol = &token.symbol;
    let breaks: usize = count_line_breaks(symbol.text.as_str());
    let start: u32 = symbol.range.start.line;
    let end: u32 = symbol.range.end.line;
    let spans = end >= start && (end - start) as usize == breaks;
    let follows = i + 1 >= count || tokens[i + 1].symbol.range.start.line == end;
    let closes = i == 0 || !tokens[i - 1].in_directive || token.in_directive;
    let by_kind = match symbol.token_kind {
        TokenKind::Newline => breaks == 1 && !token.in_directive,
        TokenKind::Eof => i + 1 == count && !token.in_directive && breaks == 0,
        TokenKind::Identifier => breaks == 0 && closes,
        TokenKind::PreprocDir(PreprocDir::MDefine) => breaks == 0 && closes && token.in_directive,
        TokenKind::PreprocDir(PreprocDir::MInclude) | TokenKind::PreprocDir(
            PreprocDir::MTryinclude,
        ) => {
            let shown = trim(symbol.inline_text.as_str());
            closes && count_line_breaks(shown.as_str()) == 0
        },
        kind => closes && (!is_fixed_directive(kind) || breaks == 0),
    };
    spans && follows && by_kind
}

/// Whether the tokens are tidy: whether they are laid out as line
/// parity asks.
pub fn is_tidy(tokens: &Vec<Token>) -> (ok: bool)
    ensures
        ok == tidy(deep(tokens@)),
{
    let count = tokens.len();
    if count == 0 {
        return false;
    }
    match tokens[count - 1].symbol.token_kind {
        TokenKind::Eof => {},
        _ => {
            return false;
        },
    }
    let mut i: usize = 0;
    while i < count
        invariant
            i <= count == tokens@.len(),
            forall|j: int| 0 <= j < i ==> tidy_at(deep(tokens@), j),
        decreases count - i,
    {
        if !is_tidy_at(tokens, i) {
            return false;
        }
        i = i + 1;
    }
    true
}

/// A preprocessor for a document that has been lexed already, where
/// its tokens are tidy: it stands in a state that a run keeps. None
/// where they are not.
pub fn start_tidy(document_uri: String, tokens: Vec<Token>) -> (preprocessor: Option<
    SourcepawnPreprocessor,
>)
    ensures
        preprocessor is Some == tidy(deep(tokens@)),
        preprocessor is Some ==> preprocessor->Some_0@ == PreprocessorView::start(
            document_uri@,
            deep(tokens@),
        ) && in_step(preprocessor->Some_0@),
{
    if is_tidy(&tokens) {
        proof {
            lemma_start_in_step(document_uri@, deep(tokens@));
        }
        Some(SourcepawnPreprocessor::from_tokens(document_uri, tokens))
    } else {
        None
    }
}

/// The tokens from a place on hold at least the line breaks that those
/// from a later place on hold.
pub proof fn lemma_input_newlines_grow(tokens: Seq<TokenView>, from: nat, to: nat)
    requires
        from <= to,
    ensures
        input_newlines(tokens, from) >= input_newlines(tokens, to),
    decreases to - from,
{
    if from < to && from < tokens.len() {
        lemma_input_newlines_grow(tokens, from + 1, to);
    }
}

/// Whether the texts of the tokens hold as many line breaks as `input`
/// holds: whether no line break of the text was lost or added when the
/// tokens were made of it.
pub fn holds_every_break(input: &str, tokens: &Vec<Token>) -> (ok: bool)
    ensures
        ok == (input_newlines(deep(tokens@), 0) == count_newlines(input@)),
{
    let wanted: usize = count_line_breaks(input);
    let mut held: usize = 0;
    let mut i: usize = tokens.len();
    while i > 0
        invariant
            i <= tokens@.len(),
            held == input_newlines(deep(tokens@), i as nat),
            held <= wanted == count_newlines(input@),
        decreases i,
    {
        let breaks: usize = count_line_breaks(tokens[i - 1].symbol.text.as_str());
        if breaks > wanted - held {
            proof {
                lemma_input_newlines_grow(deep(tokens@), 0, (i - 1) as nat);
                assert(input_newlines(deep(tokens@), (i - 1) as nat) == breaks + held);
            }
            return false;
        }
        held = held + breaks;
        i = i - 1;
    }
    held == wanted
}

/// A preprocessor for the document at `document_uri` with the text
/// `input`, where line parity can be promised of the text: where the
/// lexer can be run on it, its tokens are tidy, and they hold as many
/// line breaks as the text. None for every other text.
pub fn start_keeping_lines(document_uri: String, input: &str) -> (preprocessor: Option<
    SourcepawnPreprocessor,
>)
    ensures
        preprocessor is Some == (lexer_accepts(input@) && tidy(tokens_of(input@))
            && input_newlines(tokens_of(input@), 0) == count_newlines(input@)),
        preprocessor is Some ==> preprocessor->Some_0@ == PreprocessorView::start(
            document_uri@,
            tokens_of(input@),
        ) && in_step(preprocessor->Some_0@),
{
    match try_tokenize(input) {
        Some(tokens) => {
            if holds_every_break(input, &tokens) {
                start_tidy(document_uri, tokens)
            } else {
                None
            }
        },
        None => None,
    }
}

/// Whether the tokens from `from` up to `to` hold no line break.
fn is_unbroken(tokens: &Vec<Token>, from: usize, to: usize) -> (ok: bool)
    ensures
        ok == unbroken(deep(tokens@), from as nat, to as nat),
{
    let mut i: usize = from;
    while i < to && i < tokens.len()
        invariant
            from <= i,
            unbroken(deep(tokens@), from as nat, i as nat),
        decreases tokens@.len() - i,
    {
        if count_line_breaks(tokens[i].symbol.text.as_str()) != 0 {
            assert(count_newlines(deep(tokens@)[i as int].symbol.text) != 0);
            return false;
        }
        i = i + 1;
    }
    true
}

/// Whether the symbols are all settled.
fn are_settled(symbols: &Vec<Symbol>) -> (ok: bool)
    ensures
        ok == all_settled(deep(symbols@)),
{
    let mut i: usize = 0;
    while i < symbols.len()
        invariant
            i <= symbols@.len(),
            forall|j: int| 0 <= j < i ==> settled(#[trigger] deep(symbols@)[j]),
        decreases symbols@.len() - i,
    {
        if !is_settled(&symbols[i]) {
            assert(!settled(deep(symbols@)[i as int]));
            return false;
        }
        i = i + 1;
    }
    true
}

/// What is known of the symbol that a step takes from the tokens,
/// before the step is made.
struct Taken {
    kind: TokenKind,
    whole: bool,
    named: bool,
    emits: bool,
    pos: usize,
}

/// Looks at the symbol that the next step takes from the tokens.
fn look_ahead(preprocessor: &SourcepawnPreprocessor) -> (taken: Taken)
    requires
        preprocessor@.pos < preprocessor@.tokens.len(),
    ensures
        taken.kind == preprocessor@.tokens[preprocessor@.pos as int].symbol.token_kind,
        taken.whole == skipped_whole(preprocessor@.tokens[preprocessor@.pos as int].symbol),
        taken.named == preprocessor@.macros.contains_key(
            preprocessor@.tokens[preprocessor@.pos as int].symbol.text,
        ),
        taken.emits == emitting(preprocessor@.conditions_stack),
        taken.pos == preprocessor@.pos,
{
    let pos = preprocessor.position();
    let symbol = &preprocessor.tokens()[pos].symbol;
    let breaks: usize = count_line_breaks(symbol.text.as_str());
    let whole = match symbol.token_kind {
        TokenKind::Newline => true,
        _ => breaks == 0,
    };
    Taken {
        kind: symbol.token_kind,
        whole,
        named: preprocessor.macros().contains(symbol.text.as_str()),
        emits: is_emitting(preprocessor.conditions_stack()),
        pos,
    }
}

/// Makes one step, as [`SourcepawnPreprocessor::step`] does, and says
/// whether the step lost no line break.
pub fn step_keeping_lines(preprocessor: &mut SourcepawnPreprocessor) -> (result: (Signal, bool))
    requires
        old(preprocessor)@.pos <= old(preprocessor)@.tokens.len(),
    ensures
        final(preprocessor)@ == old(preprocessor)@.step().state,
        result.0@ == old(preprocessor)@.step().signal,
        result.1 == step_loses_nothing(old(preprocessor)@),
        old(preprocessor)@.wf() ==> final(preprocessor)@.wf(),
{
    if preprocessor.expansion_stack().len() > 0 || preprocessor.position()
        >= preprocessor.tokens().len() {
        return (preprocessor.step(), true);
    }
    let ghost before = preprocessor@;
    let taken = look_ahead(preprocessor);
    let signal = preprocessor.step();
    let ghost state = PreprocessorView { pos: before.pos + 1, ..before };
    let ghost symbol = before.tokens[before.pos as int].symbol;
    proof {
        assert(before.expansion_stack =~= Seq::<SymbolView>::empty());
        assert(preprocessor@ == state.process_symbol(symbol).state);
    }
    let count = preprocessor.tokens().len();
    let conditional = match taken.kind {
        TokenKind::PreprocDir(PreprocDir::MIf) | TokenKind::PreprocDir(PreprocDir::MElseif) => true,
        _ => false,
    };
    let condition = !conditional || preprocessor.position() < count;
    if !taken.emits {
        return (signal, condition && taken.whole);
    }
    let call = match taken.kind {
        TokenKind::Identifier => taken.named,
        _ => false,
    };
    if !call {
        return (signal, condition);
    }
    proof {
        let expanded = expansion(
            setting_of(state.tokens, state.tokens.len(), state.macros, false),
            symbol,
            state.pos,
        );
        assert(state.expansion_stack + expanded.emitted =~= expanded.emitted);
        assert(preprocessor@.expansion_stack == expanded.emitted);
        assert(preprocessor@.pos == expanded.pos);
        assert(preprocessor@.tokens == before.tokens);
    }
    let kept = preprocessor.position() < count && is_unbroken(
        preprocessor.tokens(),
        taken.pos + 1,
        preprocessor.position(),
    ) && are_settled(preprocessor.expansion_stack());
    (signal, kept)
}

/// Preprocesses the text as [`SourcepawnPreprocessor::preprocess_input`]
/// does, and says whether the run lost no line break.
///
/// On tidy tokens ([`is_tidy`]), and from a state that a run keeps, a
/// run that lost no line break has kept the lines ([`kept_lines`]):
/// where it finished the text while symbols were emitted, the text
/// returned has as many line breaks as the texts of the tokens hold.
pub fn preprocess_keeping_lines(preprocessor: &mut SourcepawnPreprocessor) -> (result: (
    Result<Progress, PreprocessError>,
    bool,
))
    requires
        old(preprocessor)@.wf(),
    ensures
        final(preprocessor)@ == old(preprocessor)@.run().state,
        final(preprocessor)@.wf(),
        final(preprocessor)@.tokens == old(preprocessor)@.tokens,
        match result.0 {
            Ok(Progress::Finished(text)) => old(preprocessor)@.run().signal
                == SignalView::Finished && text@ == final(preprocessor)@.text(),
            Ok(Progress::Paused(paths)) => old(preprocessor)@.run().signal == SignalView::Paused(
                deep(paths@),
            ),
            Err(error) => old(preprocessor)@.run().signal == SignalView::Failed(error@),
        },
        result.1 == loses_nothing(old(preprocessor)@),
        in_step(old(preprocessor)@) && result.1 ==> kept_lines(old(preprocessor)@),
{
    proof {
        if in_step(preprocessor@) && loses_nothing(preprocessor@) {
            lemma_tidy_text_keeps_its_lines(preprocessor@);
        }
    }
    let mut kept = true;
    loop
        invariant
            old(preprocessor)@.wf(),
            preprocessor@.wf(),
            preprocessor@.run() == old(preprocessor)@.run(),
            preprocessor@.tokens == old(preprocessor)@.tokens,
            loses_nothing(old(preprocessor)@) == (kept && loses_nothing(preprocessor@)),
            in_step(old(preprocessor)@) && loses_nothing(old(preprocessor)@) ==> kept_lines(
                old(preprocessor)@,
            ),
        decreases
                preprocessor@.tokens.len() - preprocessor@.pos,
                preprocessor@.expansion_stack.len(),
    {
        proof {
            lemma_step_progress(preprocessor@);
            lemma_loses_nothing_unfolds(preprocessor@);
        }
        let (signal, whole) = step_keeping_lines(preprocessor);
        kept = kept && whole;
        match signal {
            Signal::Continue => {},
            Signal::Finished => {
                return (Ok(Progress::Finished(join_lines(preprocessor.lines()))), kept);
            },
            Signal::Paused(paths) => {
                return (Ok(Progress::Paused(paths)), kept);
            },
            Signal::Failed(error) => {
                return (Err(error), kept);
            },
        }
    }
}

} // verus!

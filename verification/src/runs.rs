//! What holds of every run of the preprocessor.

use crate::errors::{Located, PreprocessErrorView};
use crate::lexer::TokenView;
use crate::macro_table::MacroView;
use crate::preprocessor::{
    gap, lemma_define_loop_bounds, lemma_step_progress, DefinitionView,
    PreprocessorView, SignalView, Stepped,
};
use crate::symbol::{PreprocDir, SymbolView, TokenKind};
use crate::text::{count_newlines, joined, lemma_count_newlines_add, line_break, spaces};
use vstd::prelude::*;

verus! {

/// The symbol that the next step takes, if there is one.
pub open spec fn next_symbol(state: PreprocessorView) -> Option<SymbolView> {
    if state.expansion_stack.len() > 0 {
        Some(state.expansion_stack.last())
    } else if state.pos < state.tokens.len() {
        Some(state.tokens[state.pos as int].symbol)
    } else {
        None
    }
}

/// The symbols that the steps of a run take, in their order.
pub open spec fn trace(state: PreprocessorView) -> Seq<SymbolView>
    decreases state.tokens.len() - state.pos, state.expansion_stack.len(),
    when state.wf()
{
    let own = match next_symbol(state) {
        Some(symbol) => seq![symbol],
        None => Seq::empty(),
    };
    if state.step().signal == SignalView::Continue {
        proof {
            lemma_step_progress(state);
        }
        own + trace(state.step().state)
    } else {
        own
    }
}

/// How many of the symbols are the given directive.
pub open spec fn count_directive(symbols: Seq<SymbolView>, directive: PreprocDir) -> nat
    decreases symbols.len(),
{
    if symbols.len() == 0 {
        0
    } else {
        count_directive(symbols.drop_first(), directive) + if symbols[0].token_kind
            == TokenKind::PreprocDir(directive) {
            1nat
        } else {
            0nat
        }
    }
}

/// A directive that continues or closes an `#if` fails where none is
/// open, with the directive as the error.
pub proof fn lemma_unopened_directive_fails(state: PreprocessorView, symbol: SymbolView)
    requires
        state.conditions_stack.len() == 0,
        symbol.token_kind == TokenKind::PreprocDir(PreprocDir::MElse) || symbol.token_kind
            == TokenKind::PreprocDir(PreprocDir::MElseif) || symbol.token_kind
            == TokenKind::PreprocDir(PreprocDir::MEndif),
    ensures
        state.process_symbol(symbol) == (Stepped {
            state,
            signal: SignalView::Failed(
                PreprocessErrorView::Unbalanced(Located { text: symbol.text, range: symbol.range }),
            ),
        }),
{
}

/// A step that does not fail opens a chain if it takes an `#if`, closes
/// one if it takes an `#endif`, and else leaves as many open as there
/// were.
pub proof fn lemma_step_balance(state: PreprocessorView)
    requires
        state.wf(),
        !(state.step().signal is Failed),
    ensures
        state.step().state.conditions_stack.len() + count_directive(
            match next_symbol(state) {
                Some(symbol) => seq![symbol],
                None => Seq::empty(),
            },
            PreprocDir::MEndif,
        ) == state.conditions_stack.len() + count_directive(
            match next_symbol(state) {
                Some(symbol) => seq![symbol],
                None => Seq::empty(),
            },
            PreprocDir::MIf,
        ),
{
    match next_symbol(state) {
        None => {},
        Some(symbol) => {
            let one = seq![symbol];
            assert(one.drop_first() =~= Seq::<SymbolView>::empty());
            assert(count_directive(one.drop_first(), PreprocDir::MIf) == 0);
            assert(count_directive(one.drop_first(), PreprocDir::MEndif) == 0);
            let taken = if state.expansion_stack.len() > 0 {
                PreprocessorView { expansion_stack: state.expansion_stack.drop_last(), ..state }
            } else {
                PreprocessorView { pos: state.pos + 1, ..state }
            };
            lemma_define_loop_bounds(taken.push_symbol(symbol), DefinitionView::start());
        },
    }
}

/// Counting a directive in a concatenation adds up.
pub proof fn lemma_count_directive_add(
    left: Seq<SymbolView>,
    right: Seq<SymbolView>,
    directive: PreprocDir,
)
    ensures
        count_directive(left + right, directive) == count_directive(left, directive)
            + count_directive(right, directive),
    decreases left.len(),
{
    if left.len() == 0 {
        assert(left + right =~= right);
    } else {
        assert((left + right).drop_first() =~= left.drop_first() + right);
        lemma_count_directive_add(left.drop_first(), right, directive);
    }
}

/// After a run that does not fail, as many chains are open as were open
/// before, and one more for every `#if` that the run took, and one less
/// for every `#endif`.
pub proof fn lemma_run_balance(state: PreprocessorView)
    requires
        state.wf(),
        !(state.run().signal is Failed),
    ensures
        state.run().state.conditions_stack.len() + count_directive(
            trace(state),
            PreprocDir::MEndif,
        ) == state.conditions_stack.len() + count_directive(trace(state), PreprocDir::MIf),
    decreases state.tokens.len() - state.pos, state.expansion_stack.len(),
{
    let own = match next_symbol(state) {
        Some(symbol) => seq![symbol],
        None => Seq::empty(),
    };
    lemma_step_progress(state);
    lemma_step_balance(state);
    if state.step().signal == SignalView::Continue {
        let next = state.step().state;
        lemma_run_balance(next);
        lemma_count_directive_add(own, trace(next), PreprocDir::MIf);
        lemma_count_directive_add(own, trace(next), PreprocDir::MEndif);
    }
}

/// The condition stack is balanced: a run that starts with no chain
/// open, does not fail and takes as many `#endif` as `#if` ends with no
/// chain open.
pub proof fn lemma_balanced_run_closes_every_chain(state: PreprocessorView)
    requires
        state.wf(),
        state.conditions_stack.len() == 0,
        !(state.run().signal is Failed),
        count_directive(trace(state), PreprocDir::MIf) == count_directive(
            trace(state),
            PreprocDir::MEndif,
        ),
    ensures
        state.run().state.conditions_stack.len() == 0,
{
    lemma_run_balance(state);
}

/// Whether the tokens are plain text for the macros: no directive among
/// them, and no name that has a macro.
pub open spec fn plain_text(tokens: Seq<TokenView>, macros: Map<Seq<char>, MacroView>) -> bool {
    forall|i: int|
        0 <= i < tokens.len() ==> !((#[trigger] tokens[i]).symbol.token_kind is PreprocDir) && !(
        tokens[i].symbol.token_kind == TokenKind::Identifier && macros.contains_key(
            tokens[i].symbol.text,
        ))
}

/// The lines that the tokens from `pos` on spell, after the lines `out`
/// and the line `line` that is under way: each symbol stands after as
/// many spaces as its delta has columns, a newline ends the line, and
/// what follows the end of the text is left out.
pub open spec fn rendered(
    tokens: Seq<TokenView>,
    pos: nat,
    out: Seq<Seq<char>>,
    line: Seq<char>,
) -> Seq<Seq<char>>
    decreases tokens.len() - pos,
{
    if pos >= tokens.len() {
        out
    } else {
        let symbol = tokens[pos as int].symbol;
        match symbol.token_kind {
            TokenKind::Newline => rendered(
                tokens,
                pos + 1,
                out.push(line + spaces(gap(symbol))),
                Seq::empty(),
            ),
            TokenKind::Eof => out.push(line + spaces(gap(symbol))),
            _ => rendered(tokens, pos + 1, out, line + spaces(gap(symbol)) + symbol.text),
        }
    }
}

/// On plain text, with no chain open and nothing waiting to be read
/// again, a run comes to the end of the text, writes the lines that the
/// tokens spell, and changes nothing else.
pub proof fn lemma_plain_run(state: PreprocessorView)
    requires
        state.wf(),
        plain_text(state.tokens, state.macros),
        state.expansion_stack.len() == 0,
        state.conditions_stack.len() == 0,
    ensures
        state.run().signal == SignalView::Finished,
        state.run().state.out == rendered(state.tokens, state.pos, state.out, state.current_line),
        state.run().state.macros == state.macros,
        state.run().state.conditions_stack == state.conditions_stack,
        state.run().state.skipped_lines == state.skipped_lines,
        state.run().state.macro_not_found_errors == state.macro_not_found_errors,
        state.run().state.evaluation_errors == state.evaluation_errors,
    decreases state.tokens.len() - state.pos,
{
    lemma_step_progress(state);
    if state.pos < state.tokens.len() {
        let symbol = state.tokens[state.pos as int].symbol;
        let next = state.step().state;
        if state.step().signal == SignalView::Continue {
            assert(next.expansion_stack =~= state.expansion_stack);
            lemma_plain_run(next);
        }
    }
}

/// Preprocessing is the identity on text without directives and
/// macros: the text that comes out is the text that the tokens spell,
/// symbol by symbol, each after the white space that its delta asks
/// for; and nothing is reported.
pub proof fn lemma_plain_text_is_written_as_it_stands(
    document_uri: Seq<char>,
    tokens: Seq<TokenView>,
)
    requires
        plain_text(tokens, PreprocessorView::start(document_uri, tokens).macros),
    ensures
        PreprocessorView::start(document_uri, tokens).run().signal == SignalView::Finished,
        PreprocessorView::start(document_uri, tokens).run().state.text() == joined(
            rendered(tokens, 0, Seq::empty(), Seq::empty()),
        ),
        PreprocessorView::start(document_uri, tokens).run().state.diagnostics().len() == 0,
{
    let start = PreprocessorView::start(document_uri, tokens);
    lemma_plain_run(start);
    let end = start.run().state;
    assert(end.skipped_lines =~= Seq::<crate::range::Range>::empty());
    assert(crate::diagnostics::coalesced(end.skipped_lines) =~= Seq::<
        crate::range::Range,
    >::empty());
}

/// How many line breaks the texts of the tokens from `pos` on hold.
pub open spec fn input_newlines(tokens: Seq<TokenView>, pos: nat) -> nat
    decreases tokens.len() - pos,
{
    if pos >= tokens.len() {
        0
    } else {
        count_newlines(tokens[pos as int].symbol.text) + input_newlines(tokens, pos + 1)
    }
}

/// Whether the tokens are laid out as a lexer lays them out: the end of
/// the text is the last token and no other, it holds no line break, and
/// a newline holds one.
pub open spec fn well_ended(tokens: Seq<TokenView>) -> bool {
    &&& tokens.len() > 0
    &&& tokens.last().symbol.token_kind == TokenKind::Eof
    &&& forall|i: int|
        0 <= i < tokens.len() - 1 ==> (#[trigger] tokens[i]).symbol.token_kind != TokenKind::Eof
    &&& forall|i: int|
        0 <= i < tokens.len() && (#[trigger] tokens[i]).symbol.token_kind == TokenKind::Eof
            ==> count_newlines(tokens[i].symbol.text) == 0
    &&& forall|i: int|
        0 <= i < tokens.len() && (#[trigger] tokens[i]).symbol.token_kind == TokenKind::Newline
            ==> count_newlines(tokens[i].symbol.text) == 1
}

/// Spaces hold no line break.
pub proof fn lemma_spaces_hold_no_newline(count: nat)
    ensures
        count_newlines(spaces(count)) == 0,
    decreases count,
{
    if count > 0 {
        assert(spaces(count).drop_last() =~= spaces((count - 1) as nat));
        lemma_spaces_hold_no_newline((count - 1) as nat);
    }
}

/// A further line adds its own line breaks to a text, and the one that
/// sets it off from the line before it.
pub proof fn lemma_joined_push(lines: Seq<Seq<char>>, line: Seq<char>)
    ensures
        count_newlines(joined(lines.push(line))) == count_newlines(joined(lines)) + count_newlines(
            line,
        ) + if lines.len() > 0 {
            1nat
        } else {
            0nat
        },
{
    let longer = lines.push(line);
    assert(longer.drop_last() =~= lines);
    if lines.len() > 0 {
        lemma_count_newlines_add(joined(lines) + line_break(), line);
        lemma_count_newlines_add(joined(lines), line_break());
        assert(line_break().len() == 1);
        assert(line_break().last() == '\n');
        assert(line_break().drop_last() =~= Seq::<char>::empty());
        assert(count_newlines(line_break().drop_last()) == 0);
        assert(count_newlines(line_break()) == 1);
    } else {
        assert(joined(lines) =~= Seq::<char>::empty());
    }
}

/// The lines that tokens spell hold the line breaks of the lines before
/// them and those of the tokens.
pub proof fn lemma_rendered_newlines(
    tokens: Seq<TokenView>,
    pos: nat,
    out: Seq<Seq<char>>,
    line: Seq<char>,
)
    requires
        well_ended(tokens),
        pos < tokens.len(),
    ensures
        count_newlines(joined(rendered(tokens, pos, out, line))) == count_newlines(
            joined(out.push(line)),
        ) + input_newlines(tokens, pos),
    decreases tokens.len() - pos,
{
    let symbol = tokens[pos as int].symbol;
    let gap_text = spaces(gap(symbol));
    lemma_spaces_hold_no_newline(gap(symbol));
    lemma_count_newlines_add(line, gap_text);
    lemma_joined_push(out, line);
    lemma_joined_push(out, line + gap_text);
    match symbol.token_kind {
        TokenKind::Newline => {
            assert(pos + 1 < tokens.len());
            lemma_rendered_newlines(tokens, pos + 1, out.push(line + gap_text), Seq::empty());
            lemma_joined_push(out.push(line + gap_text), Seq::empty());
        },
        TokenKind::Eof => {
            assert(pos == tokens.len() - 1);
            assert(input_newlines(tokens, pos + 1) == 0);
        },
        _ => {
            assert(pos + 1 < tokens.len());
            lemma_rendered_newlines(tokens, pos + 1, out, line + gap_text + symbol.text);
            lemma_count_newlines_add(line + gap_text, symbol.text);
            lemma_joined_push(out, line + gap_text + symbol.text);
        },
    }
}

/// Line parity on plain text: where the text holds no directive, the
/// text that comes out has as many line breaks as the texts of the
/// tokens that went in.
pub proof fn lemma_plain_text_keeps_its_lines(document_uri: Seq<char>, tokens: Seq<TokenView>)
    requires
        well_ended(tokens),
        plain_text(tokens, PreprocessorView::start(document_uri, tokens).macros),
    ensures
        PreprocessorView::start(document_uri, tokens).run().signal == SignalView::Finished,
        count_newlines(PreprocessorView::start(document_uri, tokens).run().state.text())
            == input_newlines(tokens, 0),
{
    lemma_plain_text_is_written_as_it_stands(document_uri, tokens);
    lemma_rendered_newlines(tokens, 0, Seq::empty(), Seq::empty());
    let none = Seq::<Seq<char>>::empty();
    let blank = Seq::<char>::empty();
    lemma_joined_push(none, blank);
    assert(joined(none) =~= blank);
}

} // verus!

use sourcepawn_lsp::lexer::{tokenize, Token};
use sourcepawn_lsp::line_parity::{
    holds_every_break, is_settled, is_tidy, preprocess_keeping_lines, start_keeping_lines,
    start_tidy, step_keeping_lines,
};
use sourcepawn_lsp::macro_table::MacroTable;
use sourcepawn_lsp::preprocessor::{Progress, Signal, SourcepawnPreprocessor};
use sourcepawn_lsp::range::{Position, Range};
use sourcepawn_lsp::symbol::{Comment, Delta, Literal, PreprocDir, Symbol, TokenKind};
use sourcepawn_lsp::text::count_line_breaks;

fn laid_out(kind: TokenKind, text: &str, start: u32, end: u32, in_directive: bool) -> Token {
    let range = Range::new(Position::new(start, 0), Position::new(end, 0));
    Token::new(Symbol::new(kind, text, range, Delta { line: 0, col: 0 }), in_directive)
}

fn run_keeping_lines(input: &str) -> (String, bool) {
    let mut preprocessor = start_keeping_lines("file:///a.sp".to_string(), input)
        .expect("the text is lexed into tidy tokens");
    let mut kept = true;
    loop {
        let (result, whole) = preprocess_keeping_lines(&mut preprocessor);
        kept = kept && whole;
        match result {
            Ok(Progress::Finished(text)) => return (text, kept),
            Ok(Progress::Paused(_)) => preprocessor.merge_macros(MacroTable::new()),
            Err(error) => panic!("unexpected error: {:?}", error),
        }
    }
}

#[test]
fn line_breaks_are_counted() {
    assert_eq!(count_line_breaks(""), 0);
    assert_eq!(count_line_breaks("a"), 0);
    assert_eq!(count_line_breaks("\n"), 1);
    assert_eq!(count_line_breaks("a\nb\r\nc\r"), 2);
    assert_eq!(count_line_breaks("\n\n\n"), 3);
}

#[test]
fn lexed_text_is_tidy() {
    let inputs = [
        "",
        "int x;",
        "int x;\n",
        "#define FOO 42\nint x = FOO;\n",
        "#define ADD(%1,%2) %1+%2\nint x = ADD(1,\n2);\n",
        "#if 0\n/* a\nb */\n#endif\n",
        "#include <sourcemod>\n#pragma semicolon 1\n",
        "#define LONG 1 + \\\n 2\nint x = LONG;\n",
    ];
    for input in inputs {
        assert!(is_tidy(&tokenize(input)), "input {:?}", input);
    }
}

#[test]
fn tokens_without_an_end_are_not_tidy() {
    assert!(!is_tidy(&Vec::new()));
    let open = vec![laid_out(TokenKind::Other, "int", 0, 0, false)];
    assert!(!is_tidy(&open));
    let closed = vec![
        laid_out(TokenKind::Other, "int", 0, 0, false),
        laid_out(TokenKind::Eof, "\0", 0, 0, false),
    ];
    assert!(is_tidy(&closed));
    let twice = vec![
        laid_out(TokenKind::Eof, "\0", 0, 0, false),
        laid_out(TokenKind::Eof, "\0", 0, 0, false),
    ];
    assert!(!is_tidy(&twice));
}

#[test]
fn tokens_on_the_wrong_lines_are_not_tidy() {
    let newline_on_one_line = vec![
        laid_out(TokenKind::Newline, "\n", 0, 0, false),
        laid_out(TokenKind::Eof, "\0", 0, 0, false),
    ];
    assert!(!is_tidy(&newline_on_one_line));
    let next_starts_late = vec![
        laid_out(TokenKind::Newline, "\n", 0, 1, false),
        laid_out(TokenKind::Eof, "\0", 2, 2, false),
    ];
    assert!(!is_tidy(&next_starts_late));
    let in_order = vec![
        laid_out(TokenKind::Newline, "\n", 0, 1, false),
        laid_out(TokenKind::Eof, "\0", 1, 1, false),
    ];
    assert!(is_tidy(&in_order));
    let name_with_a_break = vec![
        laid_out(TokenKind::Identifier, "a\nb", 0, 1, false),
        laid_out(TokenKind::Eof, "\0", 1, 1, false),
    ];
    assert!(!is_tidy(&name_with_a_break));
    let comment_with_a_break = vec![
        laid_out(TokenKind::Comment(Comment::BlockComment), "/*\n*/", 0, 1, false),
        laid_out(TokenKind::Eof, "\0", 1, 1, false),
    ];
    assert!(is_tidy(&comment_with_a_break));
}

#[test]
fn directive_lines_must_end_at_a_newline() {
    let define_outside = vec![
        laid_out(TokenKind::PreprocDir(PreprocDir::MDefine), "#define", 0, 0, false),
        laid_out(TokenKind::Eof, "\0", 0, 0, false),
    ];
    assert!(!is_tidy(&define_outside));
    let define_inside = vec![
        laid_out(TokenKind::PreprocDir(PreprocDir::MDefine), "#define", 0, 0, true),
        laid_out(TokenKind::Identifier, "A", 0, 0, true),
        laid_out(TokenKind::Eof, "\0", 0, 0, false),
    ];
    assert!(is_tidy(&define_inside));
    let line_runs_on = vec![
        laid_out(TokenKind::PreprocDir(PreprocDir::MDefine), "#define", 0, 0, true),
        laid_out(TokenKind::Identifier, "A", 0, 0, false),
        laid_out(TokenKind::Eof, "\0", 0, 0, false),
    ];
    assert!(!is_tidy(&line_runs_on));
    let newline_in_the_line = vec![
        laid_out(TokenKind::PreprocDir(PreprocDir::MIf), "#if", 0, 0, true),
        laid_out(TokenKind::Newline, "\n", 0, 1, true),
        laid_out(TokenKind::Eof, "\0", 1, 1, false),
    ];
    assert!(!is_tidy(&newline_in_the_line));
}

#[test]
fn include_that_shows_a_line_break_is_not_tidy() {
    let mut shown = Symbol::new(
        TokenKind::PreprocDir(PreprocDir::MInclude),
        "#include <a>",
        Range::new(Position::new(0, 0), Position::new(0, 12)),
        Delta { line: 0, col: 0 },
    );
    shown.inline_text = " #include\n<a> ".to_string();
    let broken = vec![Token::new(shown, true), laid_out(TokenKind::Eof, "\0", 0, 0, false)];
    assert!(!is_tidy(&broken));
    let mut padded = Symbol::new(
        TokenKind::PreprocDir(PreprocDir::MInclude),
        "#include <a>",
        Range::new(Position::new(0, 0), Position::new(0, 12)),
        Delta { line: 0, col: 0 },
    );
    padded.inline_text = "\n#include <a>\n".to_string();
    let whole = vec![Token::new(padded, true), laid_out(TokenKind::Eof, "\0", 0, 0, false)];
    assert!(is_tidy(&whole));
}

#[test]
fn settled_symbols_are_written_as_they_are() {
    let settled = |kind: TokenKind, text: &str| {
        is_settled(&Symbol::new(
            kind,
            text,
            Range::new(Position::new(0, 0), Position::new(0, 0)),
            Delta { line: 0, col: 0 },
        ))
    };
    assert!(settled(TokenKind::Other, "int"));
    assert!(settled(TokenKind::Literal(Literal::IntegerLiteral), "1"));
    assert!(settled(TokenKind::PreprocDir(PreprocDir::MPragma), "#pragma x"));
    assert!(!settled(TokenKind::Comment(Comment::BlockComment), "/*\n*/"));
    assert!(!settled(TokenKind::Identifier, "a"));
    assert!(!settled(TokenKind::Newline, "\n"));
    assert!(!settled(TokenKind::Eof, "\0"));
    assert!(!settled(TokenKind::PreprocDir(PreprocDir::MIf), "#if"));
    assert!(!settled(TokenKind::PreprocDir(PreprocDir::MEndif), "#endif"));
    assert!(!settled(TokenKind::PreprocDir(PreprocDir::MDefine), "#define"));
    assert!(!settled(TokenKind::PreprocDir(PreprocDir::MInclude), "#include <a>"));
}

#[test]
fn start_is_made_for_tidy_tokens_only() {
    assert!(start_tidy("file:///a.sp".to_string(), tokenize("int x;\n")).is_some());
    assert!(start_tidy("file:///a.sp".to_string(), Vec::new()).is_none());
    let untidy = vec![
        laid_out(TokenKind::Newline, "\n", 0, 0, false),
        laid_out(TokenKind::Eof, "\0", 0, 0, false),
    ];
    assert!(start_tidy("file:///a.sp".to_string(), untidy).is_none());
}

#[test]
fn runs_that_lose_nothing_keep_the_lines() {
    let inputs = [
        "",
        "int x;",
        "int x;\n",
        "#define FOO 42\nint x = FOO;\n",
        "#define A #pragma x\nint y;\n",
        "#define A #pragma x\nA\nint y;\n",
        "#define ADD(%1,%2) %1+%2\nint x = ADD(1, 2);\nint y;\n",
        "#define A 1\n#if A\na\n#else\nb\n#endif\n",
        "#if 0\n#if 1\na\n#endif\nb\n#endif\nc\n",
        "#define LONG 1 + \\\n 2\nint x = LONG;\n",
        "#if 1 && \\\n 1\na\n#endif\n",
        "/* a\n b */ int x;\n",
        "#pragma semicolon 1\n#include <sourcemod>\nint x;\n",
        "#if 1\na\n#endif",
        "a\n#define X 1",
    ];
    for input in inputs {
        let (text, kept) = run_keeping_lines(input);
        assert!(kept, "input {:?}", input);
        assert_eq!(
            text.matches('\n').count(),
            input.matches('\n').count(),
            "input {:?} gave {:?}",
            input,
            text
        );
    }
}

#[test]
fn call_over_two_lines_loses_a_line() {
    let input = "#define ADD(%1,%2) %1+%2\nint x = ADD(1,\n2);\nint y;\n";
    let (text, kept) = run_keeping_lines(input);
    assert!(!kept);
    assert_eq!(text, "#define ADD(%1,%2) %1+%2\nint x = 1+2;\nint y;\n");
    assert_eq!(text.matches('\n').count() + 1, input.matches('\n').count());
}

#[test]
fn skipped_comment_over_two_lines_loses_a_line() {
    let input = "#if 0\n/* a\nb */\n#endif\nc\n";
    let (text, kept) = run_keeping_lines(input);
    assert!(!kept);
    assert_eq!(text.matches('\n').count() + 1, input.matches('\n').count());
}

#[test]
fn condition_at_the_end_of_the_text_is_told() {
    let (_, kept) = run_keeping_lines("a\n#if 1");
    assert!(!kept);
    let (text, kept) = run_keeping_lines("a\n#if 1\n");
    assert!(kept);
    assert_eq!(text.matches('\n').count(), 2);
}

#[test]
fn call_at_the_end_of_the_text_is_told() {
    let (_, kept) = run_keeping_lines("#define F(%1) %1\nF(1");
    assert!(!kept);
    let (text, kept) = run_keeping_lines("#define F(%1) %1\nF(1)");
    assert!(kept);
    assert_eq!(text, "#define F(%1) %1\n 1");
    let (text, kept) = run_keeping_lines("#define A 1\nA");
    assert!(kept);
    assert_eq!(text, "#define A 1\n1");
}

#[test]
fn steps_tell_whether_they_lose_a_line() {
    let tokens = tokenize("#if 0\n/* a\nb */\n#endif\n");
    let mut watched = SourcepawnPreprocessor::from_tokens("file:///a.sp".to_string(), tokens.clone());
    let mut plain = SourcepawnPreprocessor::from_tokens("file:///a.sp".to_string(), tokens);
    let mut verdicts = Vec::new();
    loop {
        let (signal, kept) = step_keeping_lines(&mut watched);
        let expected = plain.step();
        assert_eq!(format!("{:?}", signal), format!("{:?}", expected));
        assert_eq!(watched.position(), plain.position());
        assert_eq!(watched.lines(), plain.lines());
        verdicts.push(kept);
        if !matches!(signal, Signal::Continue) {
            break;
        }
    }
    assert_eq!(verdicts, vec![true, false, true, true, true, true]);
}

#[test]
fn paused_run_is_taken_up_again_in_step() {
    let input = "#include <a>\nint x = A;\n#if B\nb\n#endif\n";
    let mut preprocessor =
        start_tidy("file:///a.sp".to_string(), tokenize(input)).expect("the tokens are tidy");
    let (result, kept) = preprocess_keeping_lines(&mut preprocessor);
    assert!(kept);
    match result {
        Ok(Progress::Paused(paths)) => assert_eq!(paths, vec!["a".to_string()]),
        other => panic!("unexpected result: {:?}", other),
    }
    let mut included = SourcepawnPreprocessor::new("file:///a.inc".to_string(), "#define A 1\n#define B 1\n");
    assert!(matches!(included.preprocess_input(), Ok(Progress::Finished(_))));
    preprocessor.merge_macros(included.macros().clone());
    let (result, kept) = preprocess_keeping_lines(&mut preprocessor);
    assert!(kept);
    match result {
        Ok(Progress::Finished(text)) => {
            assert_eq!(text, "#include <a>\nint x = 1;\n\nb\n\n");
            assert_eq!(text.matches('\n').count(), input.matches('\n').count());
        },
        other => panic!("unexpected result: {:?}", other),
    }
}

#[test]
fn tokens_are_held_against_their_text() {
    assert!(holds_every_break("", &tokenize("")));
    assert!(holds_every_break("a\nb\n", &tokenize("a\nb\n")));
    assert!(holds_every_break("/* a\nb */ \"c\\\nd\"\n", &tokenize("/* a\nb */ \"c\\\nd\"\n")));
    assert!(!holds_every_break("a\n\n", &tokenize("a\n")));
    assert!(!holds_every_break("a", &tokenize("a\n")));
    assert!(!holds_every_break("a\n", &Vec::new()));
    assert!(holds_every_break("a", &Vec::new()));
}

#[test]
fn start_on_a_text_is_made_where_parity_can_be_promised() {
    assert!(start_keeping_lines("file:///a.sp".to_string(), "").is_some());
    assert!(start_keeping_lines("file:///a.sp".to_string(), "int x;\n").is_some());
    assert!(start_keeping_lines("file:///a.sp".to_string(), "#pragma a /* b */ /* c */\n").is_none());
    let preprocessor = start_keeping_lines("file:///a.sp".to_string(), "a\nb").expect("plain text");
    assert_eq!(preprocessor.document_uri(), "file:///a.sp");
    assert_eq!(preprocessor.tokens().len(), 4);
    assert_eq!(preprocessor.position(), 0);
    assert!(preprocessor.expansion_stack().is_empty());
}

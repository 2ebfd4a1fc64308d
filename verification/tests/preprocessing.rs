use sourcepawn_lsp::diagnostics::{Diagnostic, Severity};
use sourcepawn_lsp::errors::PreprocessError;
use sourcepawn_lsp::macro_table::MacroTable;
use sourcepawn_lsp::conditions::ConditionState;
use sourcepawn_lsp::lexer::Token;
use sourcepawn_lsp::preprocessor::{Progress, Signal, SourcepawnPreprocessor};
use sourcepawn_lsp::range::{Position, Range};
use sourcepawn_lsp::symbol::{Delta, PreprocDir, Symbol};
use sourcepawn_lsp::symbol::{Literal, TokenKind};

fn preprocess(input: &str) -> (String, SourcepawnPreprocessor) {
    let mut preprocessor = SourcepawnPreprocessor::new("file:///main.sp".to_string(), input);
    loop {
        match preprocessor.preprocess_input() {
            Ok(Progress::Finished(text)) => return (text, preprocessor),
            Ok(Progress::Paused(_)) => continue,
            Err(error) => panic!("preprocessing failed: {:?}", error),
        }
    }
}

fn fail(input: &str) -> (PreprocessError, SourcepawnPreprocessor) {
    let mut preprocessor = SourcepawnPreprocessor::new("file:///main.sp".to_string(), input);
    loop {
        match preprocessor.preprocess_input() {
            Ok(Progress::Finished(text)) => panic!("preprocessing succeeded: {:?}", text),
            Ok(Progress::Paused(_)) => continue,
            Err(error) => return (error, preprocessor),
        }
    }
}

fn newlines(text: &str) -> usize {
    text.matches('\n').count()
}

#[test]
fn object_like_macro_is_substituted() {
    let (text, preprocessor) = preprocess("#define FOO 42\nint x = FOO;\n");
    assert_eq!(text, "#define FOO 42\nint x = 42;\n");
    let foo = preprocessor.macros().get("FOO").expect("FOO is defined");
    assert!(foo.args.is_none());
    assert_eq!(foo.body.len(), 1);
    assert_eq!(foo.body[0].text, "42");
    assert_eq!(foo.body[0].token_kind, TokenKind::Literal(Literal::IntegerLiteral));
}

#[test]
fn function_like_macro_substitutes_its_arguments() {
    let (text, preprocessor) = preprocess("#define ADD(%0,%1) ((%0)+(%1))\nint y = ADD(1, 2);\n");
    let lines: Vec<&str> = text.split('\n').collect();
    assert_eq!(lines[0], "#define ADD(%0,%1) ((%0)+(%1))");
    assert_eq!(lines[1], "int y = ((1)+(2));");
    let add = preprocessor.macros().get("ADD").expect("ADD is defined");
    assert_eq!(add.args, Some([0, 1, -1, -1, -1, -1, -1, -1, -1, -1]));
}

#[test]
fn parameters_may_come_in_any_order() {
    let (text, preprocessor) = preprocess("#define SUB(%1,%0) %0 - %1\nint y = SUB(1, 2);\n");
    let lines: Vec<&str> = text.split('\n').collect();
    assert_eq!(lines[1], "int y = 2 - 1;");
    let sub = preprocessor.macros().get("SUB").expect("SUB is defined");
    assert_eq!(sub.args, Some([1, 0, -1, -1, -1, -1, -1, -1, -1, -1]));
}

#[test]
fn escaped_percent_in_a_string_is_kept() {
    let (text, _) = preprocess("#define P \"%%d\"\nchar* s = P;\n");
    let lines: Vec<&str> = text.split('\n').collect();
    assert_eq!(lines[1], "char* s = \"%%d\";");
}

#[test]
fn doubled_percent_in_a_body_gives_one() {
    let (text, _) = preprocess("#define MOD(%0) %0 %% 2\nint y = MOD(7);\n");
    let lines: Vec<&str> = text.split('\n').collect();
    assert_eq!(lines[1], "int y = 7 % 2;");
}

#[test]
fn else_branch_is_skipped_when_the_condition_holds() {
    let (text, preprocessor) = preprocess("#define A 1\n#if A\na\n#else\nb\n#endif\n");
    assert_eq!(text, "#define A 1\n\na\n\n\n\n");
    assert_eq!(preprocessor.skipped_lines().len(), 2);
    assert_eq!(preprocessor.skipped_lines()[0].start.line, 3);
    assert_eq!(preprocessor.skipped_lines()[0].start.character, 5);
    assert_eq!(preprocessor.skipped_lines()[1].start.line, 4);
    assert_eq!(preprocessor.skipped_lines()[1].end.character, 1);
    assert!(preprocessor.conditions_stack().is_empty());
    let mut diagnostics: Vec<Diagnostic> = Vec::new();
    preprocessor.add_diagnostics(&mut diagnostics);
    assert_eq!(diagnostics.len(), 1);
    assert_eq!(diagnostics[0].severity, Severity::Hint);
    assert!(diagnostics[0].unnecessary);
    assert_eq!(diagnostics[0].message, "Code disabled by the preprocessor.");
    assert_eq!(diagnostics[0].range.start.line, 3);
    assert_eq!(diagnostics[0].range.end.line, 4);
}

#[test]
fn if_branch_is_skipped_when_the_condition_fails() {
    let (text, preprocessor) = preprocess("#if 0\na\n#else\nb\n#endif\nc\n");
    assert_eq!(text, "\n\n\nb\n\nc\n");
    assert_eq!(preprocessor.evaluated_define_symbols().len(), 1);
    assert_eq!(preprocessor.evaluated_define_symbols()[0].text, "a");
}

#[test]
fn elseif_takes_the_first_branch_that_holds() {
    let (text, _) = preprocess("#if 0\na\n#elseif 1\nb\n#elseif 1\nc\n#else\nd\n#endif\n");
    assert_eq!(text, "\n\n\nb\n\n\n\n\n\n");
}

#[test]
fn nested_chain_in_skipped_text_is_skipped() {
    let (text, preprocessor) = preprocess("#if 0\n#if 1\na\n#endif\nb\n#endif\nc\n");
    assert_eq!(text, "\n\n\n\n\n\nc\n");
    assert!(preprocessor.conditions_stack().is_empty());
}

#[test]
fn top_level_name_without_a_macro_is_written_as_it_is() {
    let (text, preprocessor) = preprocess("int z = UNDEF;\n");
    assert_eq!(text, "int z = UNDEF;\n");
    assert!(preprocessor.macro_not_found_errors().is_empty());
}

#[test]
fn name_without_a_macro_in_a_body_is_reported() {
    let (error, preprocessor) = fail("#define FOO UNDEF\nint z = FOO;\n");
    match error {
        PreprocessError::MacroNotFound(error) => {
            assert_eq!(error.macro_name, "UNDEF");
            assert_eq!(error.range.start.line, 0);
            assert_eq!(error.range.start.character, 12);
        }
        other => panic!("unexpected error: {:?}", other),
    }
    assert_eq!(preprocessor.macro_not_found_errors().len(), 1);
    assert_eq!(preprocessor.macro_not_found_errors()[0].macro_name, "UNDEF");
    let mut diagnostics: Vec<Diagnostic> = Vec::new();
    preprocessor.add_diagnostics(&mut diagnostics);
    assert_eq!(diagnostics.len(), 1);
    assert_eq!(diagnostics[0].message, "Macro UNDEF not found.");
    assert_eq!(diagnostics[0].severity, Severity::Error);
    assert!(!diagnostics[0].unnecessary);
}

#[test]
fn name_without_a_macro_in_a_condition_is_reported_and_counts_as_false() {
    let (text, preprocessor) = preprocess("#if UNDEF\na\n#endif\n");
    assert_eq!(text, "\n\n\n");
    assert_eq!(preprocessor.macro_not_found_errors().len(), 1);
    assert_eq!(preprocessor.macro_not_found_errors()[0].macro_name, "UNDEF");
    assert!(preprocessor.evaluation_errors().is_empty());
    assert_eq!(preprocessor.evaluated_define_symbols().len(), 2);
}

#[test]
fn unreadable_condition_is_reported_and_counts_as_false() {
    let (text, preprocessor) = preprocess("#if 1 +\na\n#endif\n");
    assert_eq!(text, "\n\n\n");
    assert_eq!(preprocessor.evaluation_errors().len(), 1);
    let mut diagnostics: Vec<Diagnostic> = Vec::new();
    preprocessor.add_diagnostics(&mut diagnostics);
    assert_eq!(diagnostics.len(), 2);
    assert_eq!(diagnostics[1].message, "Preprocessor condition is invalid: ");
    assert_eq!(diagnostics[1].severity, Severity::Error);
}

#[test]
fn merged_macros_are_used() {
    let (_, included) = preprocess("#define M 7\n");
    let mut preprocessor =
        SourcepawnPreprocessor::new("file:///main.sp".to_string(), "#include <a>\nint x = M;\n");
    let mut table: Option<MacroTable> = Some(included.macros().clone());
    let text = loop {
        match preprocessor.preprocess_input() {
            Ok(Progress::Finished(text)) => break text,
            Ok(Progress::Paused(paths)) => {
                assert_eq!(paths, vec!["a".to_string()]);
                preprocessor.merge_macros(table.take().expect("one include"));
            }
            Err(error) => panic!("preprocessing failed: {:?}", error),
        }
    };
    assert_eq!(text, "#include <a>\nint x = 7;\n");
    assert!(preprocessor.macros().contains("M"));
    assert_eq!(preprocessor.document_uri(), "file:///main.sp");
}

#[test]
fn try_include_asks_for_its_file_too() {
    let mut preprocessor =
        SourcepawnPreprocessor::new("file:///main.sp".to_string(), "#tryinclude \"b.inc\"  \nint x;\n");
    match preprocessor.preprocess_input() {
        Ok(Progress::Paused(paths)) => assert_eq!(paths, vec!["b.inc".to_string()]),
        other => panic!("unexpected result: {:?}", other),
    }
    match preprocessor.preprocess_input() {
        Ok(Progress::Finished(text)) => assert_eq!(text, "#tryinclude \"b.inc\"\nint x;\n"),
        other => panic!("unexpected result: {:?}", other),
    }
}

#[test]
fn later_include_wins_on_a_name_that_both_define() {
    let (_, first) = preprocess("#define M 1\n#define N 1\n");
    let (_, second) = preprocess("#define M 2\n");
    let mut preprocessor = SourcepawnPreprocessor::new(
        "file:///main.sp".to_string(),
        "#define L 0\n#define M 0\n#include <a>\n#include <b>\nint x = L + M + N;\n",
    );
    let mut tables = vec![second.macros().clone(), first.macros().clone()];
    let text = loop {
        match preprocessor.preprocess_input() {
            Ok(Progress::Finished(text)) => break text,
            Ok(Progress::Paused(_)) => preprocessor.merge_macros(tables.pop().expect("two includes")),
            Err(error) => panic!("preprocessing failed: {:?}", error),
        }
    };
    let lines: Vec<&str> = text.split('\n').collect();
    assert_eq!(lines[4], "int x = 0 + 2 + 1;");
}

#[test]
fn unbalanced_endif_is_an_error() {
    let (error, preprocessor) = fail("a\n#endif\n");
    match error {
        PreprocessError::Unbalanced(error) => {
            assert_eq!(error.directive, "#endif");
            assert_eq!(error.range.start.line, 1);
        }
        other => panic!("unexpected error: {:?}", other),
    }
    assert_eq!(preprocessor.lines().len(), 1);
}

#[test]
fn unbalanced_else_and_elseif_are_errors() {
    assert!(matches!(fail("#else\n").0, PreprocessError::Unbalanced(_)));
    assert!(matches!(fail("#elseif 1\n").0, PreprocessError::Unbalanced(_)));
}

#[test]
fn parameter_that_is_no_parameter_is_an_error() {
    let (error, _) = fail("#define F(%0) %1\nint x = F(1);\n");
    match error {
        PreprocessError::ParseInt(error) => assert_eq!(error.text, "1"),
        other => panic!("unexpected error: {:?}", other),
    }
    assert!(matches!(fail("#define F(%0) %12\nint x = F(1);\n").0, PreprocessError::ParseInt(_)));
    assert!(matches!(fail("#define F(%12) x\n").0, PreprocessError::ParseInt(_)));
}

#[test]
fn symbol_that_is_no_parameter_is_a_syntax_error() {
    let (error, _) = fail("#define F(a) a\n");
    match error {
        PreprocessError::Syntax(error) => {
            assert_eq!(error.text, "a");
            assert_eq!(error.range.start.character, 10);
        }
        other => panic!("unexpected error: {:?}", other),
    }
}

#[test]
fn expansion_stops_at_the_depth_limit() {
    let input = "#define A B\n#define B C\n#define C D\n#define D 1\nint x = A;\n";
    let (text, _) = preprocess(input);
    assert_eq!(text.split('\n').nth(4), Some("int x = 1;"));
    let input = "#define A B\n#define B C\n#define C D\n#define D E\n#define E 1\nint x = A;\n";
    let (text, _) = preprocess(input);
    assert_eq!(text.split('\n').nth(5), Some("int x =;"));
    let (text, _) = preprocess("#define A A\nint x = A;\n");
    assert_eq!(text, "#define A A\nint x =;\n");
}

#[test]
fn plain_text_comes_out_as_it_went_in() {
    let input = "int  x = 1;\n\nvoid f() {\n\treturn;\n}\n";
    let (text, preprocessor) = preprocess(input);
    assert_eq!(text, "int  x = 1;\n\nvoid f() {\n return;\n}\n");
    let mut diagnostics: Vec<Diagnostic> = Vec::new();
    preprocessor.add_diagnostics(&mut diagnostics);
    assert!(diagnostics.is_empty());
}

#[test]
fn output_has_as_many_lines_as_the_input() {
    let inputs = [
        "int x;",
        "int x;\n",
        "#define FOO 42\nint x = FOO;\n",
        "#define A 1\n#if A\na\n#else\nb\n#endif\n",
        "#if 0\n#if 1\na\n#endif\nb\n#endif\nc\n",
        "#define LONG 1 + \\\n 2\nint x = LONG;\n",
        "#if 1 && \\\n 1\na\n#endif\n",
        "/* a\n b */ int x;\n",
        "#pragma semicolon 1\n#include <sourcemod>\nint x;\n",
        "#if 1\na\n#endif",
        "a\n#define X 1",
        "#include <sourcemod> /* core */\n#include \\\n <b>\nint x;\n",
        "#pragma a \\\n b\n",
    ];
    for input in inputs {
        let (text, _) = preprocess(input);
        assert_eq!(newlines(&text), newlines(input), "input {:?} gave {:?}", input, text);
    }
}

#[test]
fn balanced_input_leaves_no_chain_open() {
    let (_, preprocessor) = preprocess("#if 1\n#if 0\n#else\n#endif\n#endif\n");
    assert!(preprocessor.conditions_stack().is_empty());
    let (_, preprocessor) = preprocess("#if 1\n#if 0\n#endif\n");
    assert_eq!(preprocessor.conditions_stack().len(), 1);
}

#[test]
fn names_in_skipped_text_are_kept_as_tokens() {
    let (_, preprocessor) = preprocess("#if 0\nfoo bar\n#endif\n");
    let mut tokens = Vec::new();
    preprocessor.add_ignored_tokens(&mut tokens);
    assert_eq!(tokens.len(), 2);
    assert_eq!(tokens[0].text, "foo");
    assert_eq!(tokens[1].text, "bar");
    assert_eq!(tokens[1].range.start.line, 1);
    assert_eq!(tokens[1].range.start.character, 4);
}

#[test]
fn preprocessor_is_made_only_for_text_that_can_be_lexed() {
    assert!(SourcepawnPreprocessor::try_new("file:///a.sp".to_string(), "#include <a> /* c */ /* d */")
        .is_none());
    let mut preprocessor =
        SourcepawnPreprocessor::try_new("file:///a.sp".to_string(), "int x;").expect("a preprocessor");
    assert!(preprocessor.is_wf());
    assert!(matches!(preprocessor.preprocess_input(), Ok(Progress::Finished(_))));
    assert!(preprocessor.is_wf());
}

fn token(kind: TokenKind, text: &str, line: u32, col: i32, in_directive: bool) -> Token {
    let end = match kind {
        TokenKind::Newline => Position::new(line + 1, 0),
        _ => Position::new(line, text.len() as u32),
    };
    let symbol = Symbol::new(kind, text, Range::new(Position::new(line, 0), end), Delta { line: 0, col });
    Token::new(symbol, in_directive)
}

#[test]
fn symbols_are_written_after_the_gap_of_their_delta() {
    let tokens = vec![
        token(TokenKind::Other, "int", 0, 0, false),
        token(TokenKind::Identifier, "x", 0, 3, false),
        token(TokenKind::Other, ";", 0, -2, false),
        token(TokenKind::Newline, "\n", 0, 1, false),
        token(TokenKind::Comment(sourcepawn_lsp::symbol::Comment::BlockComment), "/* a\nb */", 1, 0, false),
        token(TokenKind::Eof, "\0", 2, 2, false),
        token(TokenKind::Identifier, "never", 2, 0, false),
    ];
    let mut preprocessor = SourcepawnPreprocessor::from_tokens("file:///a.sp".to_string(), tokens);
    match preprocessor.preprocess_input() {
        Ok(Progress::Finished(text)) => assert_eq!(text, "int   x  ; \n/* a\nb */  "),
        other => panic!("unexpected result: {:?}", other),
    }
    assert_eq!(preprocessor.lines().len(), 2);
}

#[test]
fn steps_tell_what_they_ask() {
    let tokens = vec![
        token(TokenKind::PreprocDir(PreprocDir::MIf), "#if", 0, 0, true),
        token(TokenKind::Literal(Literal::IntegerLiteral), "0", 0, 1, true),
        token(TokenKind::Newline, "\n", 0, 0, false),
        token(TokenKind::PreprocDir(PreprocDir::MInclude), "#include <a>", 1, 0, false),
        token(TokenKind::PreprocDir(PreprocDir::MElse), "#else", 2, 0, true),
        token(TokenKind::PreprocDir(PreprocDir::MInclude), "#include <b> ", 3, 0, false),
        token(TokenKind::PreprocDir(PreprocDir::MEndif), "#endif", 4, 0, true),
        token(TokenKind::PreprocDir(PreprocDir::MEndif), "#endif", 5, 0, true),
    ];
    let mut preprocessor = SourcepawnPreprocessor::from_tokens("file:///a.sp".to_string(), tokens);
    assert!(matches!(preprocessor.step(), Signal::Continue));
    assert_eq!(preprocessor.conditions_stack(), &vec![ConditionState::NotActivated]);
    assert_eq!(preprocessor.lines(), &vec![String::new()]);
    assert!(matches!(preprocessor.step(), Signal::Continue));
    assert!(matches!(preprocessor.step(), Signal::Continue));
    assert_eq!(preprocessor.conditions_stack(), &vec![ConditionState::Active]);
    match preprocessor.step() {
        Signal::Paused(paths) => assert_eq!(paths, vec!["b".to_string()]),
        other => panic!("unexpected signal: {:?}", other),
    }
    assert!(matches!(preprocessor.step(), Signal::Continue));
    assert!(preprocessor.conditions_stack().is_empty());
    match preprocessor.step() {
        Signal::Failed(PreprocessError::Unbalanced(error)) => assert_eq!(error.range.start.line, 5),
        other => panic!("unexpected signal: {:?}", other),
    }
    assert!(matches!(preprocessor.step(), Signal::Finished));
    assert!(matches!(preprocessor.preprocess_input(), Ok(Progress::Finished(_))));
}

#[test]
fn a_whole_file_is_preprocessed_line_by_line() {
    let input = "#define MAX_PLAYERS 64\n#define MIN(%0,%1) ((%0) < (%1) ? 1 : 2)\n#define DEBUG\n\n/**\n * Doc comment\n */\npublic void OnPluginStart()\n{\n#if defined DEBUG && MAX_PLAYERS > 32\n\tPrintToServer(\"big %d\", MIN(16, MAX_PLAYERS));\n#elseif defined DEBUG\n\tPrintToServer(\"small\");\n#else\n\t// nothing\n#endif\n\tint x[MAX_PLAYERS + 1]; // trailing\n}\n";
    let (text, preprocessor) = preprocess(input);
    let lines: Vec<&str> = text.split('\n').collect();
    assert_eq!(
        lines,
        vec![
            "#define MAX_PLAYERS 64",
            "#define MIN(%0,%1) ((%0) < (%1) ? 1 : 2)",
            "#define DEBUG",
            "",
            "/**",
            " * Doc comment",
            " */",
            "public void OnPluginStart()",
            "{",
            "",
            " PrintToServer(\"big %d\", ((16) < ( 64) ? 1 : 2));",
            "",
            "",
            "",
            "",
            "",
            " int x[64 + 1]; // trailing",
            "}",
            "",
        ]
    );
    let mut diagnostics: Vec<Diagnostic> = Vec::new();
    preprocessor.add_diagnostics(&mut diagnostics);
    assert_eq!(diagnostics.len(), 1);
    assert_eq!(diagnostics[0].range, Range::new(Position::new(11, 0), Position::new(14, 11)));
    assert_eq!(preprocessor.evaluated_define_symbols().len(), 4);
}

#[test]
fn a_condition_over_two_lines_leaves_two_lines() {
    let (text, preprocessor) = preprocess("#if 1 && \\\n 1\na\n#endif\n");
    assert_eq!(text, "\n\na\n\n");
    assert!(preprocessor.skipped_lines().is_empty());
}

#[test]
fn an_include_over_two_lines_leaves_two_lines() {
    let mut preprocessor = SourcepawnPreprocessor::new(
        "file:///main.sp".to_string(),
        "#include \\\n <a> /* core */\nint x;\n",
    );
    match preprocessor.preprocess_input() {
        Ok(Progress::Paused(paths)) => assert_eq!(paths, vec!["a".to_string()]),
        other => panic!("unexpected result: {:?}", other),
    }
    match preprocessor.preprocess_input() {
        Ok(Progress::Finished(text)) => assert_eq!(text, "#include  <a>\n/* core */\nint x;\n"),
        other => panic!("unexpected result: {:?}", other),
    }
}

#[test]
fn argument_in_parentheses_keeps_both_parentheses() {
    let (text, _) = preprocess("#define ADD(%1,%2) %1+%2\nint x = ADD((1,2),3);\n");
    assert_eq!(text, "#define ADD(%1,%2) %1+%2\nint x = (1,2)+3;\n");
    let (text, _) = preprocess("#define TWICE(%1) %1*2\nint y = TWICE(((4)));\n");
    assert_eq!(text, "#define TWICE(%1) %1*2\nint y = ((4))*2;\n");
}

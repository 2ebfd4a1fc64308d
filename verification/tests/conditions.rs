use sourcepawn_lsp::conditions::{is_emitting, ConditionState};
use sourcepawn_lsp::diagnostics::{
    coalesce, get_disabled_diagnostics, get_evaluation_error_diagnostics,
    get_macro_not_found_diagnostics, Diagnostic, Severity,
};
use sourcepawn_lsp::errors::{EvaluationError, MacroNotFoundError};
use sourcepawn_lsp::evaluator::{evaluate_condition, read_condition};
use sourcepawn_lsp::inclusion::include_paths;
use sourcepawn_lsp::lexer::tokenize;
use sourcepawn_lsp::macro_table::{Macro, MacroTable};
use sourcepawn_lsp::preprocessor::{DefineStage, Definition};
use sourcepawn_lsp::range::{Position, Range};
use sourcepawn_lsp::symbol::{Delta, Literal, Operator, Symbol, TokenKind};
use sourcepawn_lsp::text::{contains_char, join_lines, push_spaces, text_eq};

fn line(number: u32, from: u32, to: u32) -> Range {
    Range::new(Position::new(number, from), Position::new(number, to))
}

fn fallback() -> Range {
    line(9, 0, 3)
}

fn value_of(condition: &str) -> Result<i32, String> {
    let tokens = tokenize(condition);
    let flat: Vec<Symbol> = tokens
        .iter()
        .map(|token| token.symbol.clone())
        .filter(|symbol| symbol.token_kind != TokenKind::Eof)
        .collect();
    read_condition(&flat, &MacroTable::new(), fallback()).map_err(|error| error.text)
}

#[test]
fn arithmetic_binds_as_in_c() {
    assert_eq!(value_of("1 + 2 * 3"), Ok(7));
    assert_eq!(value_of("(1 + 2) * 3"), Ok(9));
    assert_eq!(value_of("10 - 4 - 3"), Ok(3));
    assert_eq!(value_of("7 / 2"), Ok(3));
    assert_eq!(value_of("7 % 4"), Ok(3));
    assert_eq!(value_of("-7 / 2"), Ok(-3));
    assert_eq!(value_of("-7 % 4"), Ok(-3));
    assert_eq!(value_of("2 + 3 << 1"), Ok(10));
    assert_eq!(value_of("1 << 4 >> 2"), Ok(4));
    assert_eq!(value_of("-8 >> 1"), Ok(-4));
    assert_eq!(value_of("-8 >>> 28"), Ok(15));
    assert_eq!(value_of("6 & 3 | 8 ^ 1"), Ok(11));
    assert_eq!(value_of("~0"), Ok(-1));
    assert_eq!(value_of("- - 3"), Ok(3));
}

#[test]
fn comparisons_and_logic_give_one_or_zero() {
    assert_eq!(value_of("1 < 2"), Ok(1));
    assert_eq!(value_of("2 <= 1"), Ok(0));
    assert_eq!(value_of("2 > 1"), Ok(1));
    assert_eq!(value_of("1 >= 2"), Ok(0));
    assert_eq!(value_of("3 == 3"), Ok(1));
    assert_eq!(value_of("3 != 3"), Ok(0));
    assert_eq!(value_of("2 && 0"), Ok(0));
    assert_eq!(value_of("2 && 5"), Ok(1));
    assert_eq!(value_of("0 || 5"), Ok(1));
    assert_eq!(value_of("0 || 0"), Ok(0));
    assert_eq!(value_of("!5"), Ok(0));
    assert_eq!(value_of("!0"), Ok(1));
    assert_eq!(value_of("1 || 0 && 0"), Ok(1));
    assert_eq!(value_of("1 + 1 == 2 && 3 > 2"), Ok(1));
}

#[test]
fn numbers_have_thirty_two_bits() {
    assert_eq!(value_of("2147483647 + 1"), Ok(i32::MIN));
    assert_eq!(value_of("0x10"), Ok(16));
    assert_eq!(value_of("4294967295"), Ok(-1));
    assert_eq!(value_of("65536 * 65536"), Ok(0));
    assert_eq!(value_of("1 << 33"), Ok(2));
    assert_eq!(value_of("(0 - 2147483647 - 1) / -1"), Ok(i32::MIN));
    assert_eq!(value_of("(0 - 2147483647 - 1) % -1"), Ok(0));
}

#[test]
fn conditions_that_cannot_be_read_name_the_symbol() {
    assert_eq!(value_of("1 / 0"), Err("/".to_string()));
    assert_eq!(value_of("1 % 0"), Err("%".to_string()));
    assert_eq!(value_of("1 +"), Err(String::new()));
    assert_eq!(value_of(""), Err(String::new()));
    assert_eq!(value_of("(1"), Err(String::new()));
    assert_eq!(value_of("1 2"), Err("2".to_string()));
    assert_eq!(value_of("* 2"), Err("*".to_string()));
    assert_eq!(value_of("\"a\""), Err("\"a\"".to_string()));
    assert_eq!(value_of("1.5"), Err("1.5".to_string()));
    assert_eq!(value_of("0xFF"), Err("0xFF".to_string()));
    assert_eq!(value_of("defined"), Err(String::new()));
    assert_eq!(value_of("defined(1)"), Err("(".to_string()));
    let tokens = tokenize("1 +");
    let evaluation = evaluate_condition(&tokens, 0, tokens.len(), &MacroTable::new(), fallback());
    assert!(!evaluation.value);
    assert_eq!(evaluation.error.expect("an error").range, fallback());
}

#[test]
fn defined_asks_the_table_and_expands_nothing() {
    let mut macros = MacroTable::new();
    let mut body = Symbol::new(
        TokenKind::Literal(Literal::IntegerLiteral),
        "0",
        line(0, 0, 1),
        Delta { line: 0, col: 1 },
    );
    body.int_value = Some(0);
    macros.insert("ZERO".to_string(), Macro::new(None, vec![body]));
    let check = |condition: &str| {
        let tokens = tokenize(condition);
        let evaluation = evaluate_condition(&tokens, 0, tokens.len(), &macros, fallback());
        (evaluation.value, evaluation.macro_not_found_errors.len(), evaluation.error.is_some())
    };
    assert_eq!(check("defined ZERO"), (true, 0, false));
    assert_eq!(check("defined(ZERO)"), (true, 0, false));
    assert_eq!(check("defined OTHER"), (false, 0, false));
    assert_eq!(check("!defined(OTHER) && defined ZERO"), (true, 0, false));
    assert_eq!(check("ZERO"), (false, 0, false));
    assert_eq!(check("ZERO == 0"), (true, 0, false));
    assert_eq!(check("OTHER == 0"), (false, 1, false));
    assert_eq!(check("1 || OTHER || MORE"), (false, 2, false));
    assert_eq!(check("ZERO + /* c */ 1"), (true, 0, false));
}

#[test]
fn condition_reads_the_arguments_of_its_macros() {
    let source = tokenize("#define TWICE(%0) (%0 * 2)\n");
    let mut definition = Definition::new();
    for token in &source[1..source.len() - 2] {
        definition.feed(&token.symbol).expect("a definition");
    }
    assert_eq!(definition.stage, DefineStage::Body);
    let (name, value) = definition.finish();
    assert_eq!(name, "TWICE");
    let mut macros = MacroTable::new();
    macros.insert(name, value);
    let tokens = tokenize("TWICE(3) == 6 && TWICE(1) + TWICE(2) == 6");
    let evaluation = evaluate_condition(&tokens, 0, tokens.len(), &macros, fallback());
    assert!(evaluation.error.is_none());
    assert!(evaluation.value);
    let tokens = tokenize("1 TWICE(3)");
    assert!(evaluate_condition(&tokens, 0, 1, &macros, fallback()).value);
}

#[test]
fn definition_reads_name_parameters_and_body() {
    let source = tokenize("#define F(%1,%0) %0 (x)\n");
    let mut definition = Definition::new();
    for token in &source[1..source.len() - 2] {
        definition.feed(&token.symbol).expect("a definition");
    }
    let (name, value) = definition.finish();
    assert_eq!(name, "F");
    assert_eq!(value.args, Some([1, 0, -1, -1, -1, -1, -1, -1, -1, -1]));
    let body: Vec<String> = value.body.iter().map(|symbol| symbol.text.clone()).collect();
    assert_eq!(body, vec!["%", "0", "(", "x", ")"]);
    let source = tokenize("#define G (x)\n");
    let mut definition = Definition::new();
    for token in &source[1..source.len() - 2] {
        definition.feed(&token.symbol).expect("a definition");
    }
    let (_, value) = definition.finish();
    assert!(value.args.is_none());
    assert_eq!(value.body.len(), 3);
}

#[test]
fn contiguous_ranges_collapse_into_one() {
    let ranges = vec![line(3, 5, 5), line(4, 0, 1), line(5, 0, 7)];
    assert_eq!(coalesce(&ranges), vec![Range::new(Position::new(3, 5), Position::new(5, 7))]);
    let ranges = vec![line(1, 2, 3), line(2, 0, 4), line(7, 1, 2), line(8, 0, 9), line(8, 0, 1)];
    assert_eq!(
        coalesce(&ranges),
        vec![
            Range::new(Position::new(1, 2), Position::new(2, 4)),
            Range::new(Position::new(7, 1), Position::new(8, 9)),
            line(8, 0, 1),
        ]
    );
    assert!(coalesce(&Vec::new()).is_empty());
    let ranges = vec![line(u32::MAX, 0, 1), line(0, 0, 1)];
    assert_eq!(coalesce(&ranges), ranges);
}

#[test]
fn diagnostics_carry_their_messages() {
    let mut diagnostics: Vec<Diagnostic> = Vec::new();
    get_disabled_diagnostics(&vec![line(1, 0, 2), line(2, 0, 2), line(5, 0, 1)], &mut diagnostics);
    get_macro_not_found_diagnostics(
        &vec![MacroNotFoundError::new("FOO".to_string(), line(6, 1, 4))],
        &mut diagnostics,
    );
    get_evaluation_error_diagnostics(
        &vec![EvaluationError::new("+".to_string(), line(7, 2, 3))],
        &mut diagnostics,
    );
    assert_eq!(diagnostics.len(), 4);
    assert_eq!(diagnostics[0].range, Range::new(Position::new(1, 0), Position::new(2, 2)));
    assert_eq!(diagnostics[1].range, line(5, 0, 1));
    assert_eq!(diagnostics[1].severity, Severity::Hint);
    assert!(diagnostics[1].unnecessary);
    assert_eq!(diagnostics[2].message, "Macro FOO not found.");
    assert_eq!(diagnostics[2].range, line(6, 1, 4));
    assert_eq!(diagnostics[3].message, "Preprocessor condition is invalid: +");
    assert_eq!(diagnostics[3].severity, Severity::Error);
}

#[test]
fn include_paths_are_read_from_the_directive() {
    assert_eq!(include_paths("#include <sourcemod>"), vec!["sourcemod"]);
    assert_eq!(include_paths("#include \"dir/file.inc\""), vec!["dir/file.inc"]);
    assert_eq!(include_paths("#include <a> \"b\""), vec!["a", "b"]);
    assert!(include_paths("#include sourcemod").is_empty());
    assert!(include_paths("#include <>").is_empty());
    assert!(include_paths("#include <a").is_empty());
    assert!(include_paths("\"\"").is_empty());
    assert!(include_paths("\"a>\"").is_empty());
    assert_eq!(include_paths("<<a>"), vec!["<a"]);
    assert_eq!(include_paths("<>x<b\nc>"), vec!["b\nc"]);
    assert_eq!(include_paths("<a><b>"), vec!["a"]);
    assert_eq!(include_paths("\"x\" \"y\""), vec!["x\" \"y"]);
    assert_eq!(include_paths("\"a>\"b\""), vec!["b"]);
    assert_eq!(include_paths("\"\"\""), vec!["\""]);
    assert_eq!(include_paths("\"\u{e9}<\"c\">\""), vec!["\"c\"", "\u{e9}<\"c"]);
    assert_eq!(include_paths("x\"<q>\"y\"z"), vec!["q", "y"]);
}

#[test]
fn emitting_depends_on_the_innermost_chain() {
    assert!(is_emitting(&vec![]));
    assert!(is_emitting(&vec![ConditionState::NotActivated, ConditionState::Active]));
    assert!(!is_emitting(&vec![ConditionState::Active, ConditionState::NotActivated]));
    assert!(!is_emitting(&vec![ConditionState::Activated]));
}

#[test]
fn text_helpers_do_what_they_say() {
    assert!(text_eq("abc", "abc"));
    assert!(!text_eq("abc", "abd"));
    assert!(contains_char("a#b", '#'));
    assert!(!contains_char("ab", '#'));
    let mut text = "x".to_string();
    push_spaces(&mut text, 3);
    assert_eq!(text, "x   ");
    assert_eq!(join_lines(&vec!["a".to_string(), String::new(), "b".to_string()]), "a\n\nb");
    assert_eq!(join_lines(&Vec::new()), "");
    let operator = Symbol::new(
        TokenKind::Operator(Operator::Plus),
        "+",
        line(2, 4, 5),
        Delta { line: 0, col: -2 },
    );
    assert_eq!(operator.with_delta(Delta { line: 1, col: 0 }).delta.line, 1);
    assert_eq!(operator.text(), "+");
    assert_eq!(operator.inline_text(), "+");
    assert_eq!(operator.to_int(), None);
    assert_eq!(operator.inlined().range, line(2, 4, 5));
    assert!(line(2, 4, 5).contains(Position::new(2, 5)));
    assert!(!line(2, 4, 5).contains(Position::new(2, 6)));
}

fn angle_by_hand(text: &[char]) -> Option<String> {
    for start in 0..text.len() {
        if text[start] != '<' {
            continue;
        }
        let close = (start + 1..text.len()).find(|&at| text[at] == '>').unwrap_or(text.len());
        if start + 1 < close && close < text.len() {
            return Some(text[start + 1..close].iter().collect());
        }
    }
    None
}

fn quoted_by_hand(text: &[char]) -> Option<String> {
    for start in 0..text.len() {
        if text[start] != '"' {
            continue;
        }
        let stop = (start + 1..text.len()).find(|&at| text[at] == '>').unwrap_or(text.len());
        if let Some(close) = (start + 2..stop).rev().find(|&at| text[at] == '"') {
            return Some(text[start + 1..close].iter().collect());
        }
    }
    None
}

#[test]
fn include_paths_are_what_a_reading_by_hand_gives() {
    let pieces = ['<', '>', '"', 'a', ' ', '\n', '\u{e9}', '/', '\\', '#'];
    let mut state = 99u64;
    let mut next = move || {
        state = state.wrapping_mul(6364136223846793005).wrapping_add(1442695040888963407);
        (state >> 33) as usize
    };
    for _ in 0..1500 {
        let length = next() % 9;
        let text: Vec<char> = (0..length).map(|_| pieces[next() % pieces.len()]).collect();
        let mut expected = Vec::new();
        expected.extend(angle_by_hand(&text));
        expected.extend(quoted_by_hand(&text));
        let input: String = text.iter().collect();
        assert_eq!(include_paths(&input), expected, "{:?}", input);
    }
}

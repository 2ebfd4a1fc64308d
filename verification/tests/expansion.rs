use sourcepawn_lsp::errors::ExpansionError;
use sourcepawn_lsp::lexer::{can_lex, symbol_number, tokenize, try_tokenize, Token};
use sourcepawn_lsp::macro_table::{Macro, MacroTable};
use sourcepawn_lsp::macros::{
    collect_arguments, expand_macro, expand_non_macro_define, expand_symbol, Collector, WorkItem,
};
use sourcepawn_lsp::range::{Position, Range};
use sourcepawn_lsp::symbol::{Comment, Delta, Literal, Operator, PreprocDir, Symbol, TokenKind};

fn symbol(kind: TokenKind, text: &str, col: i32) -> Symbol {
    Symbol::new(
        kind,
        text,
        Range::new(Position::new(0, 0), Position::new(0, text.len() as u32)),
        Delta { line: 0, col },
    )
}

fn name(text: &str) -> Symbol {
    symbol(TokenKind::Identifier, text, 1)
}

fn number(text: &str, value: u32) -> Symbol {
    let mut number = symbol(TokenKind::Literal(Literal::IntegerLiteral), text, 0);
    number.int_value = Some(value);
    number
}

fn stream(symbols: Vec<Symbol>) -> Vec<Token> {
    symbols.into_iter().map(|symbol| Token::new(symbol, false)).collect()
}

fn texts(symbols: &[Symbol]) -> Vec<String> {
    symbols.iter().map(|symbol| symbol.text.clone()).collect()
}

#[test]
fn tokenize_ends_with_the_end_of_the_text() {
    let tokens = tokenize("int x;\n");
    let kinds: Vec<TokenKind> = tokens.iter().map(|token| token.symbol.token_kind).collect();
    assert_eq!(
        kinds,
        vec![TokenKind::Other, TokenKind::Identifier, TokenKind::Other, TokenKind::Newline, TokenKind::Eof]
    );
    assert_eq!(tokens[0].symbol.text, "int");
    assert_eq!(tokens[1].symbol.text, "x");
    assert_eq!(tokens[1].symbol.delta, Delta { line: 0, col: 1 });
    assert_eq!(tokens[1].symbol.range, Range::new(Position::new(0, 4), Position::new(0, 5)));
    assert_eq!(tokens[3].symbol.range.end, Position::new(1, 0));
    assert!(tokens.iter().all(|token| !token.in_directive));
}

#[test]
fn tokenize_reads_kinds_texts_and_numbers() {
    let tokens = tokenize("#define F(%0) 0x10 + \"a\\\nb\" // c\n");
    let kinds: Vec<TokenKind> = tokens.iter().map(|token| token.symbol.token_kind).collect();
    assert_eq!(
        kinds,
        vec![
            TokenKind::PreprocDir(PreprocDir::MDefine),
            TokenKind::Identifier,
            TokenKind::LParen,
            TokenKind::Operator(Operator::Percent),
            TokenKind::Literal(Literal::IntegerLiteral),
            TokenKind::RParen,
            TokenKind::Literal(Literal::HexLiteral),
            TokenKind::Operator(Operator::Plus),
            TokenKind::Literal(Literal::StringLiteral),
            TokenKind::Comment(Comment::LineComment),
            TokenKind::Newline,
            TokenKind::Eof,
        ]
    );
    assert_eq!(tokens[0].symbol.text, "#define");
    assert_eq!(tokens[4].symbol.int_value, Some(0));
    assert_eq!(tokens[6].symbol.int_value, Some(16));
    assert_eq!(tokens[8].symbol.text, "\"a\\\nb\"");
    assert_eq!(tokens[8].symbol.inline_text, "\"ab\"");
    assert_eq!(tokens[8].symbol.range.end.line, 1);
    let flags: Vec<bool> = tokens.iter().map(|token| token.in_directive).collect();
    assert_eq!(
        flags,
        vec![true, true, true, true, true, true, true, true, true, true, false, false]
    );
}

#[test]
fn tokenize_gives_a_character_the_sum_of_its_text() {
    let tokens = tokenize("'a' defined ,");
    assert_eq!(tokens[0].symbol.token_kind, TokenKind::Literal(Literal::CharLiteral));
    assert_eq!(tokens[0].symbol.int_value, Some(175));
    assert_eq!(tokens[1].symbol.token_kind, TokenKind::Defined);
    assert_eq!(tokens[1].symbol.int_value, None);
    assert_eq!(tokens[2].symbol.token_kind, TokenKind::Comma);
    assert_eq!(tokens[3].symbol.token_kind, TokenKind::Eof);
}

#[test]
fn symbols_denote_the_numbers_of_their_literals() {
    assert_eq!(symbol_number(TokenKind::Literal(Literal::IntegerLiteral), "1_000"), Some(1000));
    assert_eq!(symbol_number(TokenKind::Literal(Literal::IntegerLiteral), "99999999999"), None);
    assert_eq!(symbol_number(TokenKind::Literal(Literal::HexLiteral), "0x10"), Some(16));
    assert_eq!(symbol_number(TokenKind::Literal(Literal::FloatLiteral), "2.75"), Some(2));
    assert_eq!(symbol_number(TokenKind::Literal(Literal::StringLiteral), "\"1\""), None);
    assert_eq!(symbol_number(TokenKind::Literal(Literal::CharLiteral), "'b'"), Some(176));
    let long = format!("'{}'", "\u{10FFFF}".repeat(511));
    assert_eq!(long.len(), 2046);
    assert_eq!(
        symbol_number(TokenKind::Literal(Literal::CharLiteral), &long),
        Some(78 + 511 * 0x10FFFF)
    );
    let longer = format!("'{}'", "a".repeat(2046));
    assert_eq!(symbol_number(TokenKind::Literal(Literal::CharLiteral), &longer), None);
    assert_eq!(symbol_number(TokenKind::Identifier, "12"), None);
    assert_eq!(symbol_number(TokenKind::Other, "12"), None);
}

#[test]
fn arguments_hold_what_stands_in_inner_parentheses() {
    let tokens = tokenize("(f(1,2), 3)");
    let mut pos = 0;
    let mut args_stack = Vec::new();
    let args = collect_arguments(&tokens, &mut pos, tokens.len(), &mut args_stack);
    assert_eq!(pos, 10);
    assert_eq!(texts(&args[0]), vec!["f", "(", "1", ",", "2", ")"]);
    assert_eq!(texts(&args[1]), vec!["3"]);
    let mut queued = Vec::new();
    while let Some(symbol) = args_stack.pop() {
        queued.push(symbol.text);
    }
    assert_eq!(queued, vec!["(", "1", ",", "2", ")"]);
}

#[test]
fn kinds_are_read_from_their_names() {
    assert_eq!(TokenKind::from_tag("Identifier"), TokenKind::Identifier);
    assert_eq!(TokenKind::from_tag("Operator(Ushr)"), TokenKind::Operator(Operator::Ushr));
    assert_eq!(TokenKind::from_tag("PreprocDir(MTryinclude)"), TokenKind::PreprocDir(PreprocDir::MTryinclude));
    assert_eq!(TokenKind::from_tag("Literal(FloatLiteral)"), TokenKind::Literal(Literal::FloatLiteral));
    assert_eq!(TokenKind::from_tag("Comment(BlockComment)"), TokenKind::Comment(Comment::BlockComment));
    assert_eq!(TokenKind::from_tag("While"), TokenKind::Other);
    assert_eq!(TokenKind::from_tag(""), TokenKind::Other);
    assert_eq!(Operator::from_tag("Operator(Nothing)"), None);
    assert_eq!(Literal::from_tag("IntegerLiteral"), None);
}

#[test]
fn collector_sorts_symbols_into_arguments() {
    let tokens = stream(vec![
        symbol(TokenKind::LParen, "(", 0),
        number("1", 1),
        symbol(TokenKind::Comma, ",", 0),
        name("a"),
        name("b"),
        symbol(TokenKind::RParen, ")", 0),
        name("after"),
    ]);
    let mut pos = 0;
    let mut args_stack = Vec::new();
    let args = collect_arguments(&tokens, &mut pos, tokens.len(), &mut args_stack);
    assert_eq!(pos, 6);
    assert_eq!(args.len(), 10);
    assert_eq!(texts(&args[0]), vec!["1"]);
    assert_eq!(texts(&args[1]), vec!["a", "b"]);
    assert!(args[2].is_empty());
    assert!(args_stack.is_empty());
}

#[test]
fn collector_queues_inner_calls() {
    let tokens = stream(vec![
        symbol(TokenKind::LParen, "(", 0),
        name("F"),
        symbol(TokenKind::LParen, "(", 0),
        number("1", 1),
        symbol(TokenKind::RParen, ")", 0),
        symbol(TokenKind::RParen, ")", 0),
    ]);
    let mut pos = 0;
    let mut args_stack = Vec::new();
    let args = collect_arguments(&tokens, &mut pos, tokens.len(), &mut args_stack);
    assert_eq!(pos, 6);
    assert_eq!(texts(&args[0]), vec!["F", "(", "1", ")"]);
    assert_eq!(texts(&args_stack), vec![")", "1", "("]);
}

#[test]
fn collector_stops_at_the_limit_and_drops_an_eleventh_argument() {
    let mut symbols = vec![symbol(TokenKind::LParen, "(", 0)];
    for i in 0..11u32 {
        symbols.push(number(&i.to_string(), i));
        symbols.push(symbol(TokenKind::Comma, ",", 0));
    }
    let tokens = stream(symbols);
    let mut pos = 0;
    let mut args_stack = Vec::new();
    let args = collect_arguments(&tokens, &mut pos, tokens.len() - 1, &mut args_stack);
    assert_eq!(pos, tokens.len() - 1);
    assert_eq!(texts(&args[9]), vec!["9"]);
    assert_eq!(args.iter().map(|arg| arg.len()).sum::<usize>(), 10);
}

#[test]
fn collector_reads_queued_symbols_first() {
    let tokens = stream(vec![name("x"), symbol(TokenKind::RParen, ")", 0)]);
    let mut pos = 0;
    let mut args_stack = vec![symbol(TokenKind::LParen, "(", 0)];
    let args = collect_arguments(&tokens, &mut pos, tokens.len(), &mut args_stack);
    assert_eq!(pos, 2);
    assert_eq!(texts(&args[0]), vec!["x"]);
    let mut collector = Collector::new();
    collector.feed(symbol(TokenKind::RParen, ")", 0));
    assert_eq!(collector.paren_depth, -1);
    assert!(!collector.done);
}

#[test]
fn object_like_body_is_scheduled_with_the_delta_of_its_head() {
    let definition = Macro::new(None, vec![number("1", 1), symbol(TokenKind::Operator(Operator::Plus), "+", 2)]);
    let mut stack: Vec<WorkItem> = Vec::new();
    let head = symbol(TokenKind::Identifier, "A", 7);
    expand_non_macro_define(&definition, &mut stack, &head, 2);
    assert_eq!(stack.len(), 2);
    assert_eq!(stack[0].delta.col, 7);
    assert_eq!(stack[0].depth, 3);
    assert_eq!(stack[1].delta.col, 2);
    assert_eq!(stack[1].symbol.text, "+");
}

#[test]
fn function_like_body_takes_its_arguments() {
    let percent = symbol(TokenKind::Operator(Operator::Percent), "%", 3);
    let definition = Macro::new(
        Some([1, 0, -1, -1, -1, -1, -1, -1, -1, -1]),
        vec![percent.clone(), number("0", 0), percent.clone(), percent.clone(), number("1", 1)],
    );
    let mut args: Vec<Vec<Symbol>> = (0..10).map(|_| Vec::new()).collect();
    args[0] = vec![name("first")];
    args[1] = vec![name("second"), name("third")];
    let mut stack: Vec<WorkItem> = Vec::new();
    let head = symbol(TokenKind::Identifier, "F", 9);
    assert!(expand_macro(&args, &definition, &mut stack, &head, 0).is_ok());
    let scheduled: Vec<String> = stack.iter().map(|item| item.symbol.text.clone()).collect();
    assert_eq!(scheduled, vec!["second", "third", "%", "1"]);
    assert_eq!(stack[0].delta.col, 3);
    assert_eq!(stack[1].delta.col, 1);
    assert!(stack.iter().all(|item| item.depth == 1));
    let broken = Macro::new(Some([-1; 10]), vec![percent.clone(), number("0", 0)]);
    let mut untouched: Vec<WorkItem> = Vec::new();
    let error = expand_macro(&args, &broken, &mut untouched, &head, 0).unwrap_err();
    assert_eq!(error.text, "0");
    assert!(untouched.is_empty());
}

#[test]
fn expansion_lets_names_through_only_where_allowed() {
    let mut macros = MacroTable::new();
    macros.insert("A".to_string(), Macro::new(None, vec![name("other"), number("2", 2)]));
    let tokens: Vec<Token> = Vec::new();
    let head = name("A");
    let mut pos = 0;
    let mut stack = Vec::new();
    let expanded = expand_symbol(&tokens, &mut pos, 0, &macros, &head, &mut stack, true).unwrap();
    assert_eq!(texts(&expanded), vec!["A"]);
    assert_eq!(texts(&stack), vec!["2", "other"]);
    let mut stack = Vec::new();
    match expand_symbol(&tokens, &mut pos, 0, &macros, &head, &mut stack, false) {
        Err(ExpansionError::MacroNotFound(error)) => assert_eq!(error.macro_name, "other"),
        other => panic!("unexpected result: {:?}", other),
    }
    assert_eq!(texts(&stack), vec!["2"]);
}

#[test]
fn expansion_puts_literals_on_one_line_and_drops_line_ends() {
    let mut text = symbol(TokenKind::Literal(Literal::StringLiteral), "\"a\\\nb\"", 1);
    text.inline_text = "\"ab\"".to_string();
    text.range = Range::new(Position::new(3, 5), Position::new(4, 2));
    let mut macros = MacroTable::new();
    macros.insert(
        "S".to_string(),
        Macro::new(
            None,
            vec![
                text,
                symbol(TokenKind::LineContinuation, "\\\n", 0),
                symbol(TokenKind::Comment(Comment::LineComment), "// c", 1),
                symbol(TokenKind::Comment(Comment::BlockComment), "/* d */", 1),
                symbol(TokenKind::Newline, "\n", 0),
            ],
        ),
    );
    let tokens: Vec<Token> = Vec::new();
    let mut pos = 0;
    let mut stack = Vec::new();
    expand_symbol(&tokens, &mut pos, 0, &macros, &name("S"), &mut stack, false).unwrap();
    assert_eq!(texts(&stack), vec!["/* d */", "\"ab\""]);
    assert_eq!(stack[1].range, Range::new(Position::new(3, 5), Position::new(3, 9)));
}

#[test]
fn macro_table_holds_what_was_entered() {
    let mut table = MacroTable::new();
    assert!(!table.contains("A"));
    assert!(table.get("A").is_none());
    table.insert("A".to_string(), Macro::new(None, vec![number("1", 1)]));
    table.insert("A".to_string(), Macro::new(None, vec![number("2", 2)]));
    table.insert("B".to_string(), Macro::new(Some([0; 10]), vec![]));
    assert!(table.contains("A"));
    assert_eq!(table.get("A").unwrap().body[0].text, "2");
    let mut other = MacroTable::new();
    other.insert("B".to_string(), Macro::new(None, vec![number("3", 3)]));
    other.insert("C".to_string(), Macro::new(None, vec![]));
    let copy = table.clone();
    table.merge(other);
    assert_eq!(table.get("A").unwrap().body[0].text, "2");
    assert_eq!(table.get("B").unwrap().body[0].text, "3");
    assert!(table.get("B").unwrap().args.is_none());
    assert!(table.contains("C"));
    assert!(copy.get("B").unwrap().args.is_some());
    assert!(!copy.contains("C"));
}

#[test]
fn lexer_is_kept_from_lines_that_it_loses_its_place_on() {
    let accepted = [
        "",
        "/* a */ int x; /* b */\n#include <a>\n/* c\n */ #define A 1 /* d */ /* e */\n",
        "#pragma semicolon 1 // c /* d */\n#if 1 /* c */ /* d */\n#endif\n",
        "int x;\n#include <sourcemod> /* core */\n",
        "#include <a> /* c */ x",
        "#include <a> /* c */\t \n/* d */\n",
        "#tryinclude <a> \\\n <b>\n/* c */ /* d */\n",
        "#pragma a \\\r\n b /* c \\\n d */ e\n",
        "#include <a> /* c\n */ /* d */\n",
        "#pragma /*\u{e9}*/ x \u{3000}\n",
        "#pragma x \\",
    ];
    for input in accepted {
        assert!(can_lex(input), "{:?}", input);
        assert!(!tokenize(input).is_empty());
    }
    let refused = [
        "#pragma /* */ /* */ x /* */",
        "#include <a> /* c */ x /* d */\n",
        "#pragma a \\\n /* c */ b /* d */\n",
        "#pragma /*\u{e9}*/\u{3000}x",
        "#pragma /* c */ \u{e9}",
        "#tryinclude /**//**/",
        "#include <a> /* c */ x /**/",
        "#pragma semicolon 1 // c /* d */ /* e */\n",
        "\"#include/*\" #include <a> */* // */ x /* c */ y",
        "\"#include/*\" #include <a> */* b */\u{a0}x",
        "\"#include\" /* c */ /* d */\n",
    ];
    for input in refused {
        assert!(!can_lex(input), "{:?}", input);
        assert!(try_tokenize(input).is_none());
    }
    assert_eq!(try_tokenize("int x;").map(|tokens| tokens.len()), Some(4));
}

#[test]
fn expansion_stops_on_a_parameter_that_is_none() {
    let percent = symbol(TokenKind::Operator(Operator::Percent), "%", 1);
    let mut macros = MacroTable::new();
    macros.insert(
        "F".to_string(),
        Macro::new(Some([0, -1, -1, -1, -1, -1, -1, -1, -1, -1]), vec![percent, number("1", 1)]),
    );
    let tokens = stream(vec![
        symbol(TokenKind::LParen, "(", 0),
        number("7", 7),
        symbol(TokenKind::RParen, ")", 0),
        name("rest"),
    ]);
    let mut pos = 0;
    let mut stack = Vec::new();
    match expand_symbol(&tokens, &mut pos, tokens.len(), &macros, &name("F"), &mut stack, true) {
        Err(ExpansionError::Parse(error)) => assert_eq!(error.text, "1"),
        other => panic!("unexpected result: {:?}", other),
    }
    assert_eq!(pos, 3);
    assert!(stack.is_empty());
}

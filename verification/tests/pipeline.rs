use rustlox::ast::Expr;
use rustlox::interpreter::{interpret, Value};
use rustlox::parser::Parser;
use rustlox::scanner::Scanner;
use rustlox::token::{Token, TokenType};

fn scan_source(src: &str) -> Vec<Token> {
    let mut scanner = Scanner::new(String::from(src));
    match scanner.scan_tokens() {
        Ok(()) => scanner.tokens,
        Err(_) => panic!("scanning failed on {:?}", src),
    }
}

fn parse_source(src: &str) -> Expr {
    let mut parser = Parser::from_tokens(scan_source(src));
    match parser.parse() {
        Ok(e) => e,
        Err(_) => panic!("parsing failed on {:?}", src),
    }
}

fn eval_source(src: &str) -> Value {
    match interpret(&parse_source(src)) {
        Ok(v) => v,
        Err(_) => panic!("evaluation failed on {:?}", src),
    }
}

#[test]
fn addition_binds_weaker_than_multiplication() {
    let v = eval_source("1 + 2 * 3");
    assert!(matches!(v, Value::Num(7)));
    assert_eq!(v.to_string(), "7");
}

#[test]
fn grouping_overrides_precedence() {
    let v = eval_source("(1 + 2) * 3");
    assert!(matches!(v, Value::Num(9)));
    assert_eq!(v.to_string(), "9");
}

#[test]
fn negated_factors_multiply() {
    let v = eval_source("-2 * -3");
    assert!(matches!(v, Value::Num(6)));
    assert_eq!(v.to_string(), "6");
}

#[test]
fn bang_true_flips_to_false() {
    let v = eval_source("!true");
    assert!(matches!(v, Value::Bool(false)));
    assert_eq!(v.to_string(), "false");
}

#[test]
fn bang_true_compared_with_eqeq_is_rejected() {
    // `==` has rules for numbers only, so even two booleans cannot be
    // compared with it; see the evaluator's rule table.
    let e = parse_source("!true == false");
    assert!(interpret(&e).is_err());
}

#[test]
fn string_repetition() {
    let v = eval_source("\"ab\" * 3");
    assert!(matches!(&v, Value::Str(s) if s == "ababab"));
    assert_eq!(v.to_string(), "ababab");
}

#[test]
fn number_times_string_repeats_too() {
    let v = eval_source("2 * \"xy\"");
    assert!(matches!(&v, Value::Str(s) if s == "xyxy"));
}

#[test]
fn string_concatenation_has_no_separator() {
    let v = eval_source("\"a\" + \"b\"");
    assert!(matches!(&v, Value::Str(s) if s == "ab"));
}

#[test]
fn deep_nesting_evaluates() {
    let mut src = String::new();
    for _ in 0..100 {
        src.push('(');
    }
    src.push('1');
    for _ in 0..100 {
        src.push(')');
    }
    let v = eval_source(&src);
    assert!(matches!(v, Value::Num(1)));
}

#[test]
fn scan_ends_in_exactly_one_eof() {
    let tokens = scan_source("1 + 2");
    assert_eq!(tokens.len(), 4);
    assert!(matches!(tokens[3].token_type, TokenType::Eof));
    for t in &tokens[..3] {
        assert!(!matches!(t.token_type, TokenType::Eof));
    }
}

#[test]
fn scanner_reports_terminating_line() {
    let tokens = scan_source("1\n2\n3");
    let last = tokens.last().unwrap();
    assert!(matches!(last.token_type, TokenType::Eof));
    assert_eq!(last.line, 3);
}

#[test]
fn string_token_carries_its_text() {
    let tokens = scan_source("\"hi there\"");
    assert!(matches!(&tokens[0].token_type, TokenType::Str(s) if s == "hi there"));
}

#[test]
fn multiline_string_counts_lines() {
    let tokens = scan_source("\"a\nb\"");
    assert!(matches!(&tokens[0].token_type, TokenType::Str(s) if s == "a\nb"));
    assert_eq!(tokens[0].line, 2);
}

#[test]
fn identifier_token_carries_its_text() {
    let tokens = scan_source("foo_bar1");
    assert!(matches!(&tokens[0].token_type, TokenType::Identifier(s) if s == "foo_bar1"));
}

#[test]
fn keywords_are_recognized() {
    let tokens = scan_source("true false nil while");
    assert!(matches!(tokens[0].token_type, TokenType::True));
    assert!(matches!(tokens[1].token_type, TokenType::False));
    assert!(matches!(tokens[2].token_type, TokenType::Nil));
    assert!(matches!(tokens[3].token_type, TokenType::While));
}

#[test]
fn two_char_operators_scan_and_compare() {
    assert!(matches!(eval_source("1 <= 2"), Value::Bool(true)));
    assert!(matches!(eval_source("1 >= 2"), Value::Bool(false)));
    assert!(matches!(eval_source("1 != 2"), Value::Bool(true)));
    assert!(matches!(eval_source("2 < 1"), Value::Bool(false)));
    assert!(matches!(eval_source("2 > 1"), Value::Bool(true)));
    assert!(matches!(eval_source("2 == 2"), Value::Bool(true)));
}

#[test]
fn comments_are_skipped() {
    let v = eval_source("1 + 2 // the rest of this line is ignored");
    assert!(matches!(v, Value::Num(3)));
}

#[test]
fn fractional_part_is_consumed_lexically() {
    let tokens = scan_source("3.75");
    assert_eq!(tokens.len(), 2);
    assert!(matches!(tokens[0].token_type, TokenType::Num(3)));
}

#[test]
fn subtraction_folds_to_the_left() {
    let v = eval_source("1 - 2 - 3");
    assert!(matches!(v, Value::Num(-4)));
    let e = parse_source("1 - 2 - 3");
    assert_eq!(e.to_string(), "1 - 2 - 3");
}

#[test]
fn division_folds_to_the_left() {
    let v = eval_source("8 / 2 / 2");
    assert!(matches!(v, Value::Num(2)));
}

#[test]
fn double_minus_restores_a_number() {
    let v = eval_source("--5");
    assert!(matches!(v, Value::Num(5)));
}

#[test]
fn double_bang_is_truthiness() {
    assert!(matches!(eval_source("!!nil"), Value::Bool(false)));
    assert!(matches!(eval_source("!!3"), Value::Bool(true)));
    assert!(matches!(eval_source("!!\"\""), Value::Bool(true)));
    assert!(matches!(eval_source("!!false"), Value::Bool(false)));
}

#[test]
fn printed_expression_parses_back_flat() {
    let e = parse_source("1 + 2 * 3");
    let printed = e.to_string();
    assert_eq!(printed, "1 + 2 * 3");
    let e2 = parse_source(&printed);
    assert_eq!(e2.to_string(), printed);
    assert!(matches!(interpret(&e2), Ok(Value::Num(7))));
}

#[test]
fn printed_expression_parses_back_grouped() {
    let e = parse_source("(1 + 2) * -3");
    let printed = e.to_string();
    assert_eq!(printed, "(1 + 2) * -3");
    let e2 = parse_source(&printed);
    assert_eq!(e2.to_string(), printed);
    assert!(matches!(interpret(&e2), Ok(Value::Num(-9))));
}

#[test]
fn printed_string_literal_round_trips() {
    let e = parse_source("\"ab\" * 3");
    let printed = e.to_string();
    assert_eq!(printed, "\"ab\" * 3");
    let e2 = parse_source(&printed);
    assert!(matches!(interpret(&e2), Ok(Value::Str(s)) if s == "ababab"));
}

#[test]
fn values_print_without_quotes_or_noise() {
    assert_eq!(eval_source("nil").to_string(), "nil");
    assert_eq!(eval_source("false").to_string(), "false");
    assert_eq!(eval_source("\"raw text\"").to_string(), "raw text");
    assert_eq!(eval_source("0 - 42").to_string(), "-42");
    assert_eq!(eval_source("0").to_string(), "0");
}

#[test]
fn division_truncates_toward_zero() {
    assert!(matches!(eval_source("7 / 2"), Value::Num(3)));
    assert!(matches!(eval_source("(0 - 7) / 2"), Value::Num(-3)));
}

#[test]
fn token_new_keeps_kind_and_line() {
    let t = Token::new(TokenType::Plus, 3);
    assert!(matches!(t.token_type, TokenType::Plus));
    assert_eq!(t.line, 3);
}

#[test]
fn token_kinds_compare_by_tag_and_payload() {
    assert!(TokenType::Plus == TokenType::Plus);
    assert!(TokenType::Plus != TokenType::Minus);
    assert!(TokenType::Num(1) == TokenType::Num(1));
    assert!(TokenType::Num(1) != TokenType::Num(2));
    assert!(TokenType::Str(String::from("a")) == TokenType::Str(String::from("a")));
    assert!(TokenType::Str(String::from("a")) != TokenType::Str(String::from("b")));
    assert!(TokenType::Identifier(String::from("a")) != TokenType::Str(String::from("a")));
}

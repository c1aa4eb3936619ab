use rustlox::ast::Expr;
use rustlox::interpreter::{interpret, OpName, RuntimeError, ValueKind};
use rustlox::parser::{ParseError, ParseErrorKind, Parser};
use rustlox::scanner::{LexError, LexErrorKind, Scanner};
use rustlox::token::Token;

fn scan_err(src: &str) -> LexError {
    let mut scanner = Scanner::new(String::from(src));
    match scanner.scan_tokens() {
        Ok(()) => panic!("scanning unexpectedly succeeded on {:?}", src),
        Err(e) => e,
    }
}

fn parse_err(src: &str) -> ParseError {
    let mut scanner = Scanner::new(String::from(src));
    match scanner.scan_tokens() {
        Ok(()) => {}
        Err(_) => panic!("scanning failed on {:?}", src),
    }
    let mut parser = Parser::from_tokens(scanner.tokens);
    match parser.parse() {
        Ok(_) => panic!("parsing unexpectedly succeeded on {:?}", src),
        Err(e) => e,
    }
}

fn eval_err(src: &str) -> RuntimeError {
    let mut scanner = Scanner::new(String::from(src));
    match scanner.scan_tokens() {
        Ok(()) => {}
        Err(_) => panic!("scanning failed on {:?}", src),
    }
    let mut parser = Parser::from_tokens(scanner.tokens);
    let expr: Expr = match parser.parse() {
        Ok(e) => e,
        Err(_) => panic!("parsing failed on {:?}", src),
    };
    match interpret(&expr) {
        Ok(_) => panic!("evaluation unexpectedly succeeded on {:?}", src),
        Err(e) => e,
    }
}

#[test]
fn empty_input_is_a_parse_error() {
    let e = parse_err("");
    assert_eq!(e.line, 1);
}

#[test]
fn blank_input_is_a_parse_error() {
    parse_err("  \t\r\n// only a comment\n   ");
    parse_err("// nothing but this comment");
    parse_err("\n\n\n");
}

#[test]
fn unrecognized_character_is_a_lex_error() {
    let e = scan_err("@");
    assert!(matches!(e.kind, LexErrorKind::UnexpectedChar('@')));
    assert_eq!(e.line, 1);
}

#[test]
fn unrecognized_character_reports_its_line() {
    let e = scan_err("1 + 2\n#");
    assert!(matches!(e.kind, LexErrorKind::UnexpectedChar('#')));
    assert_eq!(e.line, 2);
}

#[test]
fn unterminated_string_is_a_lex_error() {
    let e = scan_err("\"unterminated");
    assert!(matches!(e.kind, LexErrorKind::UnterminatedString));
    assert_eq!(e.line, 1);
}

#[test]
fn unterminated_string_reports_the_line_reached() {
    let e = scan_err("\"abc\ndef");
    assert!(matches!(e.kind, LexErrorKind::UnterminatedString));
    assert_eq!(e.line, 2);
}

#[test]
fn oversized_number_literal_is_a_lex_error() {
    let e = scan_err("99999999999999999999");
    assert!(matches!(e.kind, LexErrorKind::NumberTooLarge));
    assert_eq!(e.line, 1);
}

#[test]
fn largest_number_literal_still_scans() {
    let mut scanner = Scanner::new(String::from("9223372036854775807"));
    assert!(scanner.scan_tokens().is_ok());
}

#[test]
fn dangling_operator_is_a_parse_error() {
    let e = parse_err("1 +");
    assert!(matches!(e.kind, ParseErrorKind::UnexpectedToken));
    assert_eq!(e.line, 1);
}

#[test]
fn leading_operator_is_a_parse_error() {
    let e = parse_err("* 2");
    assert!(matches!(e.kind, ParseErrorKind::UnexpectedToken));
    assert_eq!(e.line, 1);
}

#[test]
fn doubled_operator_is_a_parse_error() {
    let e = parse_err("1 + * 2");
    assert!(matches!(e.kind, ParseErrorKind::UnexpectedToken));
    assert_eq!(e.line, 1);
}

#[test]
fn missing_close_paren_is_a_parse_error() {
    let e = parse_err("(1 + 2");
    assert!(matches!(e.kind, ParseErrorKind::MissingToken));
    assert_eq!(e.line, 1);
}

#[test]
fn parse_error_reports_the_offending_line() {
    let e = parse_err("1 +\n* 2");
    assert!(matches!(e.kind, ParseErrorKind::UnexpectedToken));
    assert_eq!(e.line, 2);
}

#[test]
fn bare_identifier_is_a_parse_error() {
    let e = parse_err("foo");
    assert!(matches!(e.kind, ParseErrorKind::UnexpectedToken));
}

#[test]
fn reserved_keyword_is_a_parse_error() {
    let e = parse_err("and");
    assert!(matches!(e.kind, ParseErrorKind::UnexpectedToken));
}

#[test]
fn empty_token_list_is_a_parse_error() {
    let tokens: Vec<Token> = Vec::new();
    let mut parser = Parser::from_tokens(tokens);
    let e = match parser.parse() {
        Ok(_) => panic!("parsing an empty token list unexpectedly succeeded"),
        Err(e) => e,
    };
    assert!(matches!(e.kind, ParseErrorKind::UnexpectedEnd));
    assert_eq!(e.line, 0);
}

#[test]
fn bool_comparison_with_eqeq_is_a_runtime_error() {
    let e = eval_err("1 < 2 == true");
    assert!(matches!(
        e,
        RuntimeError::BinaryTypeError {
            op: OpName::EqEq,
            left: ValueKind::Bool,
            right: ValueKind::Bool,
        }
    ));
}

#[test]
fn minus_on_nil_is_a_unary_type_error() {
    let e = eval_err("-nil");
    assert!(matches!(
        e,
        RuntimeError::UnaryTypeError { op: OpName::Minus, operand: ValueKind::Nil }
    ));
}

#[test]
fn nil_operand_is_a_binary_type_error() {
    let e = eval_err("1 + nil");
    assert!(matches!(
        e,
        RuntimeError::BinaryTypeError {
            op: OpName::Plus,
            left: ValueKind::Num,
            right: ValueKind::Nil,
        }
    ));
}

#[test]
fn string_plus_number_is_a_binary_type_error() {
    let e = eval_err("\"a\" + 1");
    assert!(matches!(
        e,
        RuntimeError::BinaryTypeError {
            op: OpName::Plus,
            left: ValueKind::Str,
            right: ValueKind::Num,
        }
    ));
}

#[test]
fn string_equality_is_a_binary_type_error() {
    let e = eval_err("\"a\" == \"a\"");
    assert!(matches!(
        e,
        RuntimeError::BinaryTypeError {
            op: OpName::EqEq,
            left: ValueKind::Str,
            right: ValueKind::Str,
        }
    ));
}

#[test]
fn negative_repetition_is_a_runtime_error() {
    let e = eval_err("\"ab\" * -1");
    assert!(matches!(e, RuntimeError::NegativeRepeat));
}

#[test]
fn addition_overflow_is_a_runtime_error() {
    let e = eval_err("9223372036854775807 + 1");
    assert!(matches!(e, RuntimeError::Overflow { op: OpName::Plus }));
}

#[test]
fn subtraction_overflow_is_a_runtime_error() {
    let e = eval_err("0 - 9223372036854775807 - 2");
    assert!(matches!(e, RuntimeError::Overflow { op: OpName::Minus }));
}

#[test]
fn division_by_zero_is_a_runtime_error() {
    let e = eval_err("1 / 0");
    assert!(matches!(e, RuntimeError::DivisionByZero));
}

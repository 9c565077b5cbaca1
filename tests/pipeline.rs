use jlox::expression::{AstPrinter, Expr, LiteralValue};
use jlox::interpreter::{Interpreter, LoxValue};
use jlox::lox::Lox;
use jlox::parser::Parser;
use jlox::scanner::{keyword_kind, Scanner};
use jlox::token::{Literal, Token, TokenType};

fn scan(source: &str) -> (Vec<Token>, Lox) {
    let mut lox = Lox::new();
    let mut scanner = Scanner::new(source.to_string());
    let tokens = scanner.scan_tokens(&mut lox);
    (tokens, lox)
}

fn parse(source: &str) -> (Result<Expr, String>, Lox) {
    let (tokens, mut lox) = scan(source);
    let mut parser = Parser::new(tokens);
    let expr = parser.parse(&mut lox);
    (expr, lox)
}

fn evaluate(source: &str) -> LoxValue {
    let (expr, lox) = parse(source);
    assert!(!lox.had_error);
    let mut interpreter = Interpreter::new();
    match interpreter.evaluate(&expr.unwrap()) {
        Ok(v) => v,
        Err(e) => panic!("runtime error: {}", e.message),
    }
}

fn number(n: f64) -> u64 {
    n.to_bits()
}

fn kinds(tokens: &[Token]) -> Vec<TokenType> {
    tokens.iter().map(|t| t.token_type).collect()
}

#[test]
fn test_ast_printer_literal() {
    let expression = Expr::Literal(LiteralValue::Number(number(123.0)));
    let mut printer = AstPrinter;
    assert_eq!(printer.print(&expression), "123");
}

#[test]
fn test_ast_printer_binary_expression() {
    let expression = Expr::Binary(
        Box::new(Expr::Literal(LiteralValue::Number(number(1.0)))),
        Token::new(TokenType::Plus, "+".into(), None, 1),
        Box::new(Expr::Literal(LiteralValue::Number(number(2.0)))),
    );
    let mut printer = AstPrinter;
    assert_eq!(printer.print(&expression), "(+ 1 2)");
}

#[test]
fn single_number_scans_parses_and_prints() {
    let (tokens, lox) = scan("123");
    assert!(!lox.had_error);
    assert_eq!(tokens.len(), 2);
    assert_eq!(tokens[0].token_type, TokenType::Literal);
    assert!(matches!(tokens[0].literal, Some(Literal::Number(n)) if n == number(123.0)));
    assert_eq!(tokens[1].token_type, TokenType::Eof);
    let (expr, _) = parse("123");
    let expr = expr.unwrap();
    assert!(matches!(expr, Expr::Literal(LiteralValue::Number(n)) if n == number(123.0)));
    assert_eq!(AstPrinter.print(&expr), "123");
}

#[test]
fn sum_scans_parses_prints_and_evaluates() {
    let (tokens, _) = scan("1+2");
    assert_eq!(
        kinds(&tokens),
        vec![TokenType::Literal, TokenType::Plus, TokenType::Literal, TokenType::Eof]
    );
    let (expr, _) = parse("1+2");
    let expr = expr.unwrap();
    match &expr {
        Expr::Binary(l, op, r) => {
            assert!(matches!(**l, Expr::Literal(LiteralValue::Number(n)) if n == number(1.0)));
            assert_eq!(op.token_type, TokenType::Plus);
            assert!(matches!(**r, Expr::Literal(LiteralValue::Number(n)) if n == number(2.0)));
        }
        _ => panic!("expected a binary node"),
    }
    assert_eq!(AstPrinter.print(&expr), "(+ 1 2)");
    assert!(matches!(evaluate("1+2"), LoxValue::Number(n) if n == number(3.0)));
}

#[test]
fn strings_concatenate() {
    assert!(matches!(evaluate("\"a\" + \"b\""), LoxValue::String(ref s) if s == "ab"));
}

#[test]
fn less_than_compares_numbers() {
    assert!(matches!(evaluate("1 < 2"), LoxValue::Boolean(true)));
    assert!(matches!(evaluate("2 <= 1"), LoxValue::Boolean(false)));
    assert!(matches!(evaluate("2 > 1"), LoxValue::Boolean(true)));
    assert!(matches!(evaluate("1 >= 1"), LoxValue::Boolean(true)));
}

#[test]
fn unterminated_string_is_a_lex_error_without_token() {
    let (tokens, lox) = scan("\"unterminated");
    assert!(lox.had_error);
    assert_eq!(lox.diagnostics.len(), 1);
    assert_eq!(lox.diagnostics[0].line, 1);
    assert_eq!(lox.diagnostics[0].message, "Unterminated string");
    assert_eq!(kinds(&tokens), vec![TokenType::Eof]);
    let (_, lox) = scan("\n\"multi\nline");
    assert_eq!(lox.diagnostics[0].line, 3);
}

#[test]
fn division_by_zero_gives_nil() {
    assert!(matches!(evaluate("10 / 0"), LoxValue::Nil));
    assert!(matches!(evaluate("10 / 4"), LoxValue::Number(n) if n == number(2.5)));
}

#[test]
fn arithmetic_follows_doubles() {
    assert!(matches!(evaluate("6 * 7"), LoxValue::Number(n) if n == number(42.0)));
    assert!(matches!(evaluate("1 - 3"), LoxValue::Number(n) if n == number(-2.0)));
    assert!(matches!(evaluate("-(2.5)"), LoxValue::Number(n) if n == number(-2.5)));
    assert!(matches!(evaluate("0.1 + 0.2"), LoxValue::Number(n) if n == number(0.1 + 0.2)));
    assert!(matches!(evaluate("1 + 2 * 3"), LoxValue::Number(n) if n == number(7.0)));
    assert!(matches!(evaluate("(1 + 2) * 3"), LoxValue::Number(n) if n == number(9.0)));
    assert!(matches!(evaluate("8 - 2 - 1"), LoxValue::Number(n) if n == number(5.0)));
}

#[test]
fn truthiness_table() {
    assert!(!LoxValue::Nil.is_truthy());
    assert!(!LoxValue::Boolean(false).is_truthy());
    assert!(LoxValue::Boolean(true).is_truthy());
    assert!(LoxValue::Number(number(0.0)).is_truthy());
    assert!(LoxValue::String(String::new()).is_truthy());
    assert!(matches!(evaluate("!nil"), LoxValue::Boolean(true)));
    assert!(matches!(evaluate("!0"), LoxValue::Boolean(false)));
    assert!(matches!(evaluate("!!\"\""), LoxValue::Boolean(true)));
}

#[test]
fn equality_discriminates_kinds() {
    let one = LoxValue::Number(number(1.0));
    let text = LoxValue::String("1".to_string());
    assert!(!one.is_equal(&text));
    assert!(!text.is_equal(&one));
    assert!(one.is_equal(&one));
    assert!(text.is_equal(&text));
    assert!(LoxValue::Nil.is_equal(&LoxValue::Nil));
    let nan = LoxValue::Number(number(f64::NAN));
    assert!(!nan.is_equal(&nan));
    assert!(LoxValue::Number(number(0.0)).is_equal(&LoxValue::Number(number(-0.0))));
    assert!(matches!(evaluate("1 == \"1\""), LoxValue::Boolean(false)));
    assert!(matches!(evaluate("1 != \"1\""), LoxValue::Boolean(true)));
    assert!(matches!(evaluate("nil == nil"), LoxValue::Boolean(true)));
    assert!(matches!(evaluate("true == true"), LoxValue::Boolean(true)));
}

#[test]
fn type_errors_name_the_operator() {
    let cases = [
        ("1 + \"a\"", "Operands must be two numbers or two strings."),
        ("\"a\" - 1", "Operands must be numbers."),
        ("true * 2", "Operands must be numbers."),
        ("nil / 1", "Operands must be numbers."),
        ("\"a\" < \"b\"", "Operands must be numbers."),
        ("-\"a\"", "Operand must be a number."),
    ];
    for (source, message) in cases {
        let (expr, _) = parse(source);
        let mut interpreter = Interpreter::new();
        let err = interpreter.evaluate(&expr.unwrap()).unwrap_err();
        assert_eq!(err.message, message);
        assert_eq!(err.token.line, 1);
    }
}

#[test]
fn interpret_stringifies_values() {
    let mut interpreter = Interpreter::new();
    let (expr, _) = parse("\"x\" + \"y\"");
    assert_eq!(interpreter.interpret(&expr.unwrap()).unwrap(), "xy");
    let (expr, _) = parse("1 == 1");
    assert_eq!(interpreter.interpret(&expr.unwrap()).unwrap(), "true");
    let (expr, _) = parse("nil");
    assert_eq!(interpreter.interpret(&expr.unwrap()).unwrap(), "nil");
    let (expr, _) = parse("2 + 5");
    assert_eq!(interpreter.interpret(&expr.unwrap()).unwrap(), "7");
}

#[test]
fn lexer_reads_operators_comments_and_keywords() {
    let (tokens, lox) = scan("!= == <= >= ! = < > // comment\n(){},.-+;*/");
    assert!(!lox.had_error);
    assert_eq!(
        kinds(&tokens),
        vec![
            TokenType::BangEqual,
            TokenType::EqualEqual,
            TokenType::LessEqual,
            TokenType::GreaterEqual,
            TokenType::Bang,
            TokenType::Equal,
            TokenType::Less,
            TokenType::Greater,
            TokenType::LeftParen,
            TokenType::RightParen,
            TokenType::LeftBrace,
            TokenType::RightBrace,
            TokenType::Comma,
            TokenType::Dot,
            TokenType::Minus,
            TokenType::Plus,
            TokenType::Semicolon,
            TokenType::Star,
            TokenType::Slash,
            TokenType::Eof,
        ]
    );
    assert_eq!(tokens[8].line, 2);
    let (tokens, _) = scan("and class else false for fun if nil or print return super this true var while foo_1");
    assert_eq!(tokens[0].token_type, TokenType::And);
    assert_eq!(tokens[15].token_type, TokenType::While);
    assert!(matches!(tokens[16].literal, Some(Literal::Identifier(ref s)) if s == "foo_1"));
    assert_eq!(keyword_kind(&"nil".to_string()), Some(TokenType::Nil));
    assert_eq!(keyword_kind(&"nilly".to_string()), None);
}

#[test]
fn lexer_reads_strings_and_numbers() {
    let (tokens, _) = scan("\"hi\" 12.5 7. \"a\nb\"");
    assert!(matches!(tokens[0].literal, Some(Literal::String(ref s)) if s == "hi"));
    assert_eq!(tokens[0].lexeme, "\"hi\"");
    assert!(matches!(tokens[1].literal, Some(Literal::Number(n)) if n == number(12.5)));
    assert_eq!(tokens[1].lexeme, "12.5");
    assert!(matches!(tokens[2].literal, Some(Literal::Number(n)) if n == number(7.0)));
    assert_eq!(tokens[3].token_type, TokenType::Dot);
    assert!(matches!(tokens[4].literal, Some(Literal::String(ref s)) if s == "a\nb"));
    assert_eq!(tokens[4].line, 1);
    assert_eq!(tokens[5].line, 2);
}

#[test]
fn literal_lines_count_newlines_before_them() {
    let (tokens, _) = scan("1\n\n2 // x\nfoo");
    assert_eq!(tokens[0].line, 1);
    assert_eq!(tokens[1].line, 3);
    assert_eq!(tokens[2].line, 4);
}

#[test]
fn unexpected_characters_are_reported_and_skipped() {
    let (tokens, lox) = scan("1 @ 2 #");
    assert_eq!(lox.diagnostics.len(), 2);
    assert_eq!(lox.diagnostics[0].message, "Unexpected character.");
    assert_eq!(kinds(&tokens), vec![TokenType::Literal, TokenType::Literal, TokenType::Eof]);
}

#[test]
fn parse_errors_are_reported_at_the_token() {
    let (expr, lox) = parse("(1 + 2");
    assert!(expr.is_err());
    assert_eq!(lox.diagnostics.len(), 1);
    assert_eq!(lox.diagnostics[0].location, "at end");
    assert_eq!(lox.diagnostics[0].message, "Expected ')' after expression.");
    let (expr, lox) = parse("1 + )");
    assert!(expr.is_err());
    assert_eq!(lox.diagnostics[0].location, "at ')'");
    assert_eq!(lox.diagnostics[0].message, "Expected expression.");
    let (expr, lox) = parse("foo");
    assert!(expr.is_err());
    assert_eq!(lox.diagnostics[0].location, "at 'foo'");
}

#[test]
fn printer_parenthesizes_every_node() {
    let (expr, _) = parse("-1 * (2 - \"s\") == !true");
    assert_eq!(AstPrinter.print(&expr.unwrap()), "(== (* (- 1) (group (- 2 \"s\"))) (! true))");
    let (expr, _) = parse("1 - 2 - 3");
    assert_eq!(AstPrinter.print(&expr.unwrap()), "(- (- 1 2) 3)");
}

#[test]
fn run_prints_tree_or_nothing() {
    let mut lox = Lox::new();
    assert_eq!(lox.run("1 + 2".to_string()), Some("(+ 1 2)".to_string()));
    assert_eq!(lox.run("1 +".to_string()), None);
    assert!(lox.had_error);
}

#[test]
fn token_to_string_describes_it() {
    let (tokens, _) = scan("+ \"ab\" 2 x");
    assert_eq!(tokens[0].to_string(), "Plus +");
    assert_eq!(tokens[1].to_string(), "Literal \"ab\" ab");
    assert_eq!(tokens[2].to_string(), "Literal 2 2");
    assert_eq!(tokens[3].to_string(), "Literal x x");
}

#[test]
fn synchronize_stops_after_semicolon_or_before_statement_keyword() {
    let (tokens, _) = scan("1 + ; var x");
    let mut parser = Parser::new(tokens);
    parser.synchronize();
    assert_eq!(parser.current, 3);
    let (tokens, _) = scan("1 2 print 3");
    let mut parser = Parser::new(tokens);
    parser.synchronize();
    assert_eq!(parser.current, 2);
    let (tokens, _) = scan("1 2 3");
    let mut parser = Parser::new(tokens);
    parser.synchronize();
    assert_eq!(parser.current, 3);
}

#[test]
fn multi_line_string_records_its_start_line() {
    let (tokens, _) = scan("1\n\"x\ny\nz\" 2");
    assert_eq!(tokens[1].line, 2);
    assert_eq!(tokens[2].line, 4);
    assert_eq!(tokens[3].line, 4);
}

#[test]
fn numbers_print_without_exponent_for_integers() {
    let (expr, _) = parse("10000 + 2.5");
    assert_eq!(AstPrinter.print(&expr.unwrap()), "(+ 10000 2.5)");
    let mut interpreter = Interpreter::new();
    let (expr, _) = parse("100000 * 1000");
    assert_eq!(interpreter.interpret(&expr.unwrap()).unwrap(), "100000000");
}

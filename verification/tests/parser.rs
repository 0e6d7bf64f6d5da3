use lacon::ast::{BinOp, Expr, TopLevel, TypeExpr};
use lacon::host::{Answer, Host, Question};
use lacon::lexer::lex;
use lacon::parser::{parse_expr, parse_module, ParseError};
use lacon::report::token_text;
use lacon::token::Token;

/// A host that does float arithmetic with `f64`.
struct StdHost;

impl Host for StdHost {
    fn parse_float(&self, text: &str) -> u64 {
        text.parse::<f64>().map(|f| f.to_bits()).unwrap_or(0)
    }
    fn float_text(&self, bits: u64) -> String {
        format!("{}", f64::from_bits(bits))
    }
    fn answer(&self, q: Question) -> Answer {
        match q {
            Question::Arith(op, a, b) => {
                let (x, y) = (f64::from_bits(a), f64::from_bits(b));
                let r = match op {
                    BinOp::Add => x + y,
                    BinOp::Sub => x - y,
                    BinOp::Mul => x * y,
                    _ => x / y,
                };
                Answer::Bits(r.to_bits())
            }
            Question::Compare(op, a, b) => {
                let (x, y) = (f64::from_bits(a), f64::from_bits(b));
                Answer::Truth(match op {
                    BinOp::Eq => x == y,
                    BinOp::Neq => x != y,
                    BinOp::Lt => x < y,
                    BinOp::Gt => x > y,
                    BinOp::Leq => x <= y,
                    _ => x >= y,
                })
            }
            Question::Neg(a) => Answer::Bits((-f64::from_bits(a)).to_bits()),
            Question::FromInt(n) => Answer::Bits((n as f64).to_bits()),
        }
    }
}

#[test]
fn parse_binop_precedence() {
    let (e, errs) = parse_expr(lex("1 + 2 * 3", &StdHost).unwrap());
    assert!(errs.is_empty());
    let e = e.unwrap();
    assert_eq!(e.span, 0..9);
    match e.node {
        Expr::BinOp { op: BinOp::Add, lhs, rhs } => {
            assert!(matches!(lhs.node, Expr::Int(1)));
            assert!(matches!(rhs.node, Expr::BinOp { op: BinOp::Mul, .. }));
        },
        _ => panic!("expected an addition"),
    }
}

#[test]
fn parse_application_expands_tuples() {
    let (e, _) = parse_expr(lex("f(a, b)", &StdHost).unwrap());
    match e.unwrap().node {
        Expr::App { func, arg } => {
            assert!(matches!(arg.node, Expr::Var(ref s) if s == "b"));
            assert!(matches!(func.node, Expr::App { .. }));
        },
        _ => panic!("expected an application"),
    }
}

#[test]
fn parse_module_definition() {
    let src = "fn add(x: Int, y: Int) -> Int { x + y }";
    let (m, errs) = parse_module(lex(src, &StdHost).unwrap());
    assert!(errs.is_empty());
    let m = m.unwrap();
    assert_eq!(m.items.len(), 1);
    match &m.items[0].node {
        TopLevel::Def { name, params, return_type, is_async, .. } => {
            assert_eq!(name, "add");
            assert_eq!(params.len(), 2);
            assert_eq!(params[1].0, "y");
            assert!(matches!(return_type, TypeExpr::Named(ref s) if s == "Int"));
            assert!(!is_async);
        },
        _ => panic!("expected a definition"),
    }
}

#[test]
fn parse_error_reports_found_and_expected() {
    let (m, errs) = parse_module(lex("fn 1", &StdHost).unwrap());
    assert!(m.is_none());
    assert_eq!(errs.len(), 1);
    assert_eq!(errs[0].span, 3..4);
    let msg = errs[0].message(&StdHost);
    assert!(msg.starts_with("unexpected `1`"));
}

#[test]
fn parse_error_at_end_of_input() {
    let (e, errs) = parse_expr(lex("1 +", &StdHost).unwrap());
    assert!(e.is_none());
    assert_eq!(errs[0].span, 0..usize::MAX);
    assert!(errs[0].message(&StdHost).starts_with("unexpected end of input"));
}

#[test]
fn parse_error_message_lists_expected_tokens() {
    let e = ParseError {
        span: 3..4,
        found: Some(Token::Int(1)),
        expected: vec![Token::Ident(String::from("x")), Token::LParen],
    };
    assert_eq!(e.message(&StdHost), "unexpected `1`, expected `x`, `(`");
    let e = ParseError { span: 0..usize::MAX, found: None, expected: Vec::new() };
    assert_eq!(e.message(&StdHost), "unexpected end of input");
}

#[test]
fn token_texts() {
    assert_eq!(token_text(&Token::Str(String::from("a b")), &StdHost), "\"a b\"");
    assert_eq!(token_text(&Token::Int(-4), &StdHost), "-4");
    assert_eq!(token_text(&Token::Float(2.5f64.to_bits()), &StdHost), "2.5");
    assert_eq!(token_text(&Token::LBrace, &StdHost), "{");
    assert_eq!(token_text(&Token::BackSlash, &StdHost), "\\");
    assert_eq!(token_text(&Token::Dedent, &StdHost), "<dedent>");
    assert_eq!(token_text(&Token::TypeIdent(String::from("Ok")), &StdHost), "Ok");
}

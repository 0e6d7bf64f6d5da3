use lacon::ast::BinOp;
use lacon::host::{Answer, Host, Question};
use lacon::layout::apply_layout;
use lacon::lexer::{lex, tokenize};
use lacon::report::token_text;
use lacon::token::Token;

/// A host that does float arithmetic with `f64`.
struct StdHost;

impl Host for StdHost {
    fn parse_float(&self, text: &str) -> u64 {
        text.parse::<f64>().map(|f| f.to_bits()).unwrap_or(0)
    }
    fn float_text(&self, bits: u64) -> String {
        format!("{}", f64::from_bits(bits))
    }
    fn answer(&self, q: Question) -> Answer {
        match q {
            Question::Arith(op, a, b) => {
                let (x, y) = (f64::from_bits(a), f64::from_bits(b));
                let r = match op {
                    BinOp::Add => x + y,
                    BinOp::Sub => x - y,
                    BinOp::Mul => x * y,
                    _ => x / y,
                };
                Answer::Bits(r.to_bits())
            }
            Question::Compare(op, a, b) => {
                let (x, y) = (f64::from_bits(a), f64::from_bits(b));
                Answer::Truth(match op {
                    BinOp::Eq => x == y,
                    BinOp::Neq => x != y,
                    BinOp::Lt => x < y,
                    BinOp::Gt => x > y,
                    BinOp::Leq => x <= y,
                    _ => x >= y,
                })
            }
            Question::Neg(a) => Answer::Bits((-f64::from_bits(a)).to_bits()),
            Question::FromInt(n) => Answer::Bits((n as f64).to_bits()),
        }
    }
}

fn kinds(src: &str) -> Vec<Token> {
    lex(src, &StdHost).unwrap().into_iter().map(|(t, _)| t).collect()
}

fn ident(s: &str) -> Token {
    Token::Ident(String::from(s))
}

#[test]
fn lex_integers() {
    let tokens = lex("42 0 100", &StdHost).unwrap();
    let toks: Vec<_> = tokens.into_iter().map(|(t, _)| t).collect();
    assert_eq!(toks, vec![Token::Int(42), Token::Int(0), Token::Int(100)]);
}

#[test]
fn lex_simple_def() {
    let src = "add x y = x + y";
    let tokens = lex(src, &StdHost).unwrap();
    let toks: Vec<_> = tokens.into_iter().map(|(t, _)| t).collect();
    assert_eq!(
        toks,
        vec![
            Token::Ident(String::from("add")),
            Token::Ident(String::from("x")),
            Token::Ident(String::from("y")),
            Token::Eq,
            Token::Ident(String::from("x")),
            Token::Plus,
            Token::Ident(String::from("y")),
        ]
    );
}

#[test]
fn lex_keywords() {
    let src = "match let in if then else type use async when";
    let tokens = lex(src, &StdHost).unwrap();
    let toks: Vec<_> = tokens.into_iter().map(|(t, _)| t).collect();
    assert_eq!(
        toks,
        vec![
            Token::Match,
            Token::Let,
            Token::In,
            Token::If,
            Token::Then,
            Token::Else,
            Token::Type,
            Token::Use,
            Token::Async,
            Token::When
        ]
    );
}

#[test]
fn lex_spans_are_byte_offsets() {
    let tokens = lex("ab  12", &StdHost).unwrap();
    assert_eq!(tokens[0].1, 0..2);
    assert_eq!(tokens[1].1, 4..6);
    let tokens = lex("\"é\" x", &StdHost).unwrap();
    assert_eq!(tokens[0], (Token::Str(String::from("é")), 0..4));
    assert_eq!(tokens[1], (ident("x"), 5..6));
}

#[test]
fn lex_keyword_prefix_is_identifier() {
    assert_eq!(kinds("iffy in_ _x"), vec![ident("iffy"), ident("in_"), ident("_x")]);
    assert_eq!(kinds("true false fn"), vec![Token::True, Token::False, Token::Fn]);
}

#[test]
fn lex_type_identifiers_and_strings() {
    assert_eq!(
        kinds("Ok \"hi there\" Maybe2"),
        vec![
            Token::TypeIdent(String::from("Ok")),
            Token::Str(String::from("hi there")),
            Token::TypeIdent(String::from("Maybe2")),
        ]
    );
}

#[test]
fn lex_floats_and_dots() {
    let toks = kinds("3.25 1..2 4.x");
    assert_eq!(toks[0], Token::Float(3.25f64.to_bits()));
    assert_eq!(
        toks[1..].to_vec(),
        vec![Token::Int(1), Token::DotDot, Token::Int(2), Token::Int(4), Token::Dot, ident("x")]
    );
}

#[test]
fn lex_operators_longest_first() {
    assert_eq!(
        kinds("|> <| >> :: -> <- => == != <= >= && || . = + - * / % < > ! \\ | , : ( ) [ ] { }"),
        vec![
            Token::PipeRight,
            Token::PipeLeft,
            Token::Compose,
            Token::DoubleColon,
            Token::Arrow,
            Token::BindArrow,
            Token::FatArrow,
            Token::EqEq,
            Token::Neq,
            Token::Leq,
            Token::Geq,
            Token::And,
            Token::Or,
            Token::Dot,
            Token::Eq,
            Token::Plus,
            Token::Minus,
            Token::Star,
            Token::Slash,
            Token::Percent,
            Token::Lt,
            Token::Gt,
            Token::Bang,
            Token::BackSlash,
            Token::Pipe,
            Token::Comma,
            Token::Colon,
            Token::LParen,
            Token::RParen,
            Token::LBrack,
            Token::RBrack,
            Token::LBrace,
            Token::RBrace,
        ]
    );
}

#[test]
fn lex_comments_are_dropped() {
    assert_eq!(kinds("x -- a comment"), vec![ident("x")]);
    let (raw, errs) = tokenize("a -- note\nb", &StdHost);
    assert!(errs.is_empty());
    assert_eq!(raw[1], (Token::Comment, 2..9));
    assert_eq!(raw[2], (Token::RawNewline, 9..10));
}

#[test]
fn lex_errors_are_spans() {
    assert_eq!(lex("a & b", &StdHost).unwrap_err(), vec![2..3]);
    assert_eq!(lex("x @ é", &StdHost).unwrap_err(), vec![2..3, 4..6]);
    assert_eq!(lex("say \"open", &StdHost).unwrap_err(), vec![4..9]);
    assert_eq!(lex("99999999999999999999 1", &StdHost).unwrap_err(), vec![0..20]);
}

#[test]
fn lex_int_limits() {
    assert_eq!(kinds("9223372036854775807"), vec![Token::Int(i64::MAX)]);
    assert!(lex("9223372036854775808", &StdHost).is_err());
    assert_eq!(kinds("007"), vec![Token::Int(7)]);
}

#[test]
fn layout_indents_and_dedents() {
    let toks = kinds("a\n  b\n  c\nd");
    assert_eq!(
        toks,
        vec![
            ident("a"),
            Token::Newline,
            Token::Indent,
            ident("b"),
            Token::Newline,
            ident("c"),
            Token::Newline,
            Token::Dedent,
            ident("d"),
        ]
    );
}

#[test]
fn layout_closes_levels_at_end() {
    let toks = kinds("a\n  b\n    c");
    assert_eq!(
        toks,
        vec![
            ident("a"),
            Token::Newline,
            Token::Indent,
            ident("b"),
            Token::Newline,
            Token::Indent,
            ident("c"),
            Token::Dedent,
            Token::Dedent,
        ]
    );
    let spans: Vec<_> = lex("a\n  b\n    c", &StdHost).unwrap().into_iter().map(|(_, s)| s).collect();
    assert_eq!(spans[7], 11..11);
}

#[test]
fn layout_blank_and_comment_lines() {
    let toks = kinds("a\n\n  -- c\n  b");
    assert_eq!(
        toks,
        vec![
            ident("a"),
            Token::Newline,
            Token::Indent,
            Token::Newline,
            Token::Newline,
            ident("b"),
            Token::Dedent,
        ]
    );
}

#[test]
fn layout_balances_levels() {
    let toks = kinds("a\n  b\n      c\n    d\ne\n  f");
    let ind = toks.iter().filter(|t| **t == Token::Indent).count();
    let ded = toks.iter().filter(|t| **t == Token::Dedent).count();
    assert_eq!(ind, ded);
    assert!(!toks.contains(&Token::RawNewline));
}

#[test]
fn apply_layout_on_empty() {
    assert!(apply_layout(Vec::new()).is_empty());
    let out = apply_layout(vec![(Token::Comment, 0..3)]);
    assert!(out.is_empty());
}

#[test]
fn token_text_lexes_back() {
    let toks = vec![
        Token::Let,
        Token::When,
        Token::PipeRight,
        Token::Arrow,
        Token::Minus,
        Token::LBrace,
        Token::Int(42),
        Token::Ident(String::from("foo_1")),
        Token::TypeIdent(String::from("Maybe")),
        Token::Str(String::from("a b")),
    ];
    for t in toks {
        let text = token_text(&t, &StdHost);
        let (ts, errs) = tokenize(&text, &StdHost);
        assert!(errs.is_empty());
        assert_eq!(ts.len(), 1);
        assert_eq!(ts[0].1, 0..text.len());
        assert_eq!(ts[0].0, t);
    }
}

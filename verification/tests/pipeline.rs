use lacon::ast::BinOp;
use lacon::host::{Answer, Host, Question};
use lacon::lexer::lex;
use lacon::parser::parse_module;
use lacon::pipeline::{run_module, Exit};
use lacon::report::lex_error_line;

/// A host that does float arithmetic with `f64`.
struct StdHost;

impl Host for StdHost {
    fn parse_float(&self, text: &str) -> u64 {
        text.parse::<f64>().map(|f| f.to_bits()).unwrap_or(0)
    }
    fn float_text(&self, bits: u64) -> String {
        format!("{}", f64::from_bits(bits))
    }
    fn answer(&self, q: Question) -> Answer {
        match q {
            Question::Arith(op, a, b) => {
                let (x, y) = (f64::from_bits(a), f64::from_bits(b));
                let r = match op {
                    BinOp::Add => x + y,
                    BinOp::Sub => x - y,
                    BinOp::Mul => x * y,
                    _ => x / y,
                };
                Answer::Bits(r.to_bits())
            }
            Question::Compare(op, a, b) => {
                let (x, y) = (f64::from_bits(a), f64::from_bits(b));
                Answer::Truth(match op {
                    BinOp::Eq => x == y,
                    BinOp::Neq => x != y,
                    BinOp::Lt => x < y,
                    BinOp::Gt => x > y,
                    BinOp::Leq => x <= y,
                    _ => x >= y,
                })
            }
            Question::Neg(a) => Answer::Bits((-f64::from_bits(a)).to_bits()),
            Question::FromInt(n) => Answer::Bits((n as f64).to_bits()),
        }
    }
}

fn run(src: &str) -> (Vec<String>, Exit) {
    let (_, lines, exit) = run_all(src);
    (lines, exit)
}

fn run_all(src: &str) -> (Vec<String>, Vec<String>, Exit) {
    let toks = lex(src, &StdHost).unwrap();
    let (m, errs) = parse_module(toks);
    assert!(errs.is_empty());
    let (trace, lines, exit) = run_module(&m.unwrap(), StdHost);
    (trace.printed().clone(), lines, exit)
}

#[test]
fn run_ok_unit_is_quiet() {
    let (lines, exit) = run("fn main() -> Unit { Ok Unit }");
    assert!(lines.is_empty());
    assert_eq!(exit.code, 0);
    assert!(exit.stdout.is_none() && exit.stderr.is_none());
}

#[test]
fn run_prints_plain_value() {
    let (_, exit) = run("fn main() -> Int { 1 + 2 }");
    assert_eq!(exit.code, 0);
    assert_eq!(exit.stdout.as_deref(), Some("3"));
}

#[test]
fn run_prints_ok_payload() {
    let (_, exit) = run("fn main() -> Result<Int, String> { Ok [1, 2] }");
    assert_eq!(exit.code, 0);
    assert_eq!(exit.stdout.as_deref(), Some("[1, 2]"));
}

#[test]
fn run_err_fails() {
    let (_, exit) = run("fn main() -> Result<Int, String> { Err \"bad\" }");
    assert_eq!(exit.code, 1);
    assert_eq!(exit.stderr.as_deref(), Some("error: bad"));
    let (_, exit) = run("fn main() -> Result<Int, Int> { Err 4 }");
    assert_eq!(exit.stderr.as_deref(), Some("error: 4"));
}

#[test]
fn run_without_main_fails() {
    let (_, exit) = run("fn f(x: Int) -> Int { x }");
    assert_eq!(exit.code, 1);
    assert_eq!(exit.stderr.as_deref(), Some("error: no `main` defined"));
}

#[test]
fn run_reports_failing_definition() {
    let (lines, exit) = run("fn bad() -> Int { 1 / 0 }\nfn main() -> Int { 2 }");
    assert_eq!(lines, vec![String::from("error evaluating bad: division by zero")]);
    assert_eq!(exit.stdout.as_deref(), Some("2"));
}

#[test]
fn run_recursion_through_globals() {
    let src = "fn fact(n: Int) -> Int { if n == 0 then 1 else n * fact (n - 1) }\nfn main() -> Int { fact 10 }";
    let (_, exit) = run(src);
    assert_eq!(exit.stdout.as_deref(), Some("3628800"));
}

#[test]
fn run_block_body_and_indentation() {
    let src = "fn main() -> Int {\n  print 1\n  print 2\n  3\n}";
    let (printed, _, exit) = run_all(src);
    assert_eq!(printed, vec![String::from("1"), String::from("2")]);
    assert_eq!(exit.stdout.as_deref(), Some("3"));
}

#[test]
fn run_other_constructor_is_quiet() {
    let (_, exit) = run("fn main() -> Unit { Done }");
    assert_eq!(exit.code, 0);
    assert!(exit.stdout.is_none());
}

#[test]
fn lex_error_lines() {
    let spans = lex("a & b", &StdHost).unwrap_err();
    assert_eq!(lex_error_line(&spans[0]), "lexer error at 2..3");
}

#[test]
fn run_deep_but_finite_recursion() {
    let src = "fn sum(n: Int) -> Int { if n == 0 then 0 else n + sum (n - 1) }\nfn main() -> Int { sum 500 }";
    let (lines, exit) = run(src);
    assert!(lines.is_empty());
    assert_eq!(exit.stdout.as_deref(), Some("125250"));
}

#[test]
fn run_block_with_floats() {
    let src = "fn main() -> Float {\n  print (1.5 + 1.0)\n  4.0 - 1.5\n}";
    let (printed, lines, exit) = run_all(src);
    assert_eq!(printed, vec![String::from("2.5")]);
    assert!(lines.is_empty());
    assert_eq!(exit.code, 0);
    assert_eq!(exit.stdout.as_deref(), Some("2.5"));
}

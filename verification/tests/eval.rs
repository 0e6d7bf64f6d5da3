use lacon::ast::{BinOp, Expr, Pattern, Spanned};
use lacon::display::display;
use lacon::eval::{eval_binop, match_pattern, EvalError, Evaluator};
use lacon::host::{Answer, Host, Question, Trace};
use lacon::lexer::lex;
use lacon::parser::parse_expr;
use lacon::value::{copy_value, Env, Value};

/// A host that does float arithmetic with `f64`.
struct StdHost;

impl Host for StdHost {
    fn parse_float(&self, text: &str) -> u64 {
        text.parse::<f64>().map(|f| f.to_bits()).unwrap_or(0)
    }
    fn float_text(&self, bits: u64) -> String {
        format!("{}", f64::from_bits(bits))
    }
    fn answer(&self, q: Question) -> Answer {
        match q {
            Question::Arith(op, a, b) => {
                let (x, y) = (f64::from_bits(a), f64::from_bits(b));
                let r = match op {
                    BinOp::Add => x + y,
                    BinOp::Sub => x - y,
                    BinOp::Mul => x * y,
                    _ => x / y,
                };
                Answer::Bits(r.to_bits())
            }
            Question::Compare(op, a, b) => {
                let (x, y) = (f64::from_bits(a), f64::from_bits(b));
                Answer::Truth(match op {
                    BinOp::Eq => x == y,
                    BinOp::Neq => x != y,
                    BinOp::Lt => x < y,
                    BinOp::Gt => x > y,
                    BinOp::Leq => x <= y,
                    _ => x >= y,
                })
            }
            Question::Neg(a) => Answer::Bits((-f64::from_bits(a)).to_bits()),
            Question::FromInt(n) => Answer::Bits((n as f64).to_bits()),
        }
    }
}

fn parse(src: &str) -> Spanned<Expr> {
    let toks = lex(src, &StdHost).unwrap();
    let (e, errs) = parse_expr(toks);
    assert!(errs.is_empty());
    e.unwrap()
}

fn run(src: &str) -> Result<String, EvalError> {
    let ev = Evaluator::new(StdHost);
    let e = parse(src);
    let mut out = Trace::new();
    let r = ev.eval(&Env::new(), &e, &mut out);
    r.map(|v| display(&v, &StdHost, &mut out))
}

fn ev_in(ev: &Evaluator<StdHost>, env: &Env, e: &Spanned<Expr>) -> Result<Value, EvalError> {
    ev.eval(env, e, &mut Trace::new())
}

fn ok(src: &str) -> String {
    run(src).unwrap()
}

fn type_error(src: &str) -> String {
    match run(src) {
        Err(EvalError::TypeError(m)) => m,
        other => panic!("expected a type error, got {:?}", other),
    }
}

fn sp(e: Expr) -> Box<Spanned<Expr>> {
    Box::new(Spanned::new(e, 0..0))
}

#[test]
fn eval_int_arithmetic() {
    assert_eq!(ok("1 + 2 * 3"), "7");
    assert_eq!(ok("(1 + 2) * 3"), "9");
    assert_eq!(ok("10 / 3"), "3");
    assert_eq!(ok("-7 / 2"), "-3");
    assert_eq!(ok("-7 % 2"), "-1");
    assert_eq!(ok("10 - 2 - 3"), "5");
}

#[test]
fn eval_int_wraps() {
    assert_eq!(ok("9223372036854775807 + 1"), "-9223372036854775808");
    assert_eq!(ok("-9223372036854775807 - 2"), "9223372036854775807");
}

#[test]
fn eval_division_by_zero() {
    assert!(matches!(run("10 / 0"), Err(EvalError::DivisionByZero)));
    assert!(matches!(run("10 % 0"), Err(EvalError::DivisionByZero)));
    assert!(matches!(run("(-9223372036854775807 - 1) / -1"), Err(EvalError::Overflow)));
    assert!(matches!(run("(-9223372036854775807 - 1) % -1"), Err(EvalError::Overflow)));
}

#[test]
fn eval_comparisons_and_logic() {
    assert_eq!(ok("1 + 2 == 3 && 2 < 1 || true"), "true");
    assert_eq!(ok("3 >= 3"), "true");
    assert_eq!(ok("3 != 3"), "false");
    assert_eq!(ok("\"a\" == \"a\""), "true");
    assert_eq!(ok("true == false"), "false");
}

#[test]
fn eval_strings_concatenate() {
    assert_eq!(ok("\"ab\" + \"cd\""), "abcd");
}

#[test]
fn eval_let_and_if() {
    assert_eq!(ok("let x = 5 in x * 2"), "10");
    assert_eq!(ok("if 1 < 2 then \"yes\" else \"no\""), "yes");
    assert_eq!(type_error("if 1 then 2 else 3"), "if condition must be Bool, got 1");
}

#[test]
fn eval_lambdas_and_application() {
    assert_eq!(ok("(\\x y -> x - y) 10 3"), "7");
    assert_eq!(ok("(\\x y -> x - y)(10, 3)"), "7");
    assert_eq!(ok("let f = \\x y -> x in f 1"), "<fn>");
    assert_eq!(ok("3 |> \\x -> x * 2"), "6");
    assert_eq!(type_error("1 2"), "cannot apply non-function: 1");
}

#[test]
fn eval_builtins() {
    assert_eq!(ok("map (\\x -> x * 2) [1, 2, 3]"), "[2, 4, 6]");
    assert_eq!(ok("filter (\\x -> x > 1) [1, 2, 3]"), "[2, 3]");
    assert_eq!(ok("fold 0 (\\a x -> a + x) [1, 2, 3]"), "6");
    assert_eq!(ok("head [4, 5]"), "4");
    assert_eq!(ok("tail [4, 5]"), "[5]");
    assert_eq!(ok("len [1, 2, 3]"), "3");
    assert_eq!(ok("print 5"), "()");
    let ev = Evaluator::new(StdHost);
    let mut out = Trace::new();
    let v = ev.eval(&Env::new(), &parse("print [1, 2]"), &mut out).unwrap();
    assert!(matches!(v, Value::Unit));
    assert_eq!(*out.printed(), vec![String::from("[1, 2]")]);
    let mut out = Trace::new();
    ev.eval(&Env::new(), &parse("map print [1.5, 2]"), &mut out).unwrap();
    assert_eq!(*out.printed(), vec![String::from("1.5"), String::from("2")]);
    assert_eq!(type_error("head []"), "head: empty list");
    assert_eq!(type_error("tail []"), "tail: empty list");
    assert_eq!(type_error("len 3"), "len: expected List, got 3");
    assert_eq!(type_error("map (\\x -> x) 3"), "map: expected List, got 3");
    assert_eq!(type_error("filter (\\x -> 1) [1]"), "filter predicate must return Bool, got 1");
}

#[test]
fn eval_tuples_lists_constructors() {
    assert_eq!(ok("(1, \"a\", true)"), "(1, a, true)");
    assert_eq!(ok("[]"), "[]");
    assert_eq!(ok("Ok 5"), "(Ok 5)");
    assert_eq!(ok("Nothing"), "Nothing");
    assert_eq!(ok("Pair 1 [2]"), "(Pair 1 [2])");
}

#[test]
fn eval_match() {
    assert_eq!(ok("match Just 3 { | Just x => x + 1 | Nothing => 0 }"), "4");
    assert_eq!(ok("match Nothing { | Just x => x | Nothing => 0 }"), "0");
    assert_eq!(ok("match 5 { | x when x > 3 => \"big\" | _ => \"small\" }"), "big");
    assert_eq!(ok("match 2 { | x when x > 3 => \"big\" | _ => \"small\" }"), "small");
    assert_eq!(ok("match (1, 2) { | (a, b) => a + b }"), "3");
    assert_eq!(ok("match \"hi\" { | \"hi\" => 1 | _ => 2 }"), "1");
    assert!(matches!(run("match 1 { | 2 => 0 }"), Err(EvalError::NonExhaustiveMatch)));
    assert_eq!(type_error("match 1 { | x when 1 => 0 }"), "match guard must be Bool, got 1");
}

#[test]
fn eval_errors() {
    assert!(matches!(run("y"), Err(EvalError::Undefined(ref s)) if s == "y"));
    assert_eq!(type_error("-\"a\""), "cannot negate a");
    assert_eq!(type_error("1 + true"), "operator Add not applicable to 1 and true");
    assert_eq!(type_error("\"a\" - \"b\""), "operator Sub not applicable to a and b");
}

#[test]
fn eval_floats() {
    assert_eq!(ok("1.5 + 2"), "3.5");
    assert_eq!(ok("2.0 * 3.0"), "6");
    assert_eq!(ok("1.5 < 2.5"), "true");
    assert_eq!(ok("-1.5"), "-1.5");
    assert_eq!(ok("7 / 2.0"), "3.5");
    assert_eq!(ok("1.0 / 0.0"), "inf");
    assert_eq!(type_error("1.5 % 2.0"), "operator Mod not applicable to 1.5 and 2");
    assert_eq!(type_error("1 < 2.5"), "operator Lt not applicable to 1 and 2.5");
    assert_eq!(ok("match 1.5 { | 1.5 => \"x\" | _ => \"y\" }"), "x");
    assert_eq!(ok("match 2.5 { | 1.5 => \"x\" | _ => \"y\" }"), "y");
}

#[test]
fn float_operands_go_to_the_host_in_order() {
    let (a, b) = (5.0f64.to_bits(), 2.0f64.to_bits());
    let mut t = Trace::new();
    let r = eval_binop(BinOp::Sub, Value::Float(a), Value::Float(b), &StdHost, &mut t);
    assert!(matches!(r, Ok(Value::Float(z)) if f64::from_bits(z) == 3.0));
    assert_eq!(t.answers().len(), 1);
    assert!(t.answers()[0].0 == Question::Arith(BinOp::Sub, a, b));
    assert!(t.answers()[0].1 == Answer::Bits(3.0f64.to_bits()));
    let r = eval_binop(BinOp::Div, Value::Int(1), Value::Float(4.0f64.to_bits()), &StdHost, &mut t);
    assert!(matches!(r, Ok(Value::Float(z)) if f64::from_bits(z) == 0.25));
    assert!(t.answers()[1].0 == Question::FromInt(1));
    let r = eval_binop(BinOp::Geq, Value::Float(a), Value::Float(b), &StdHost, &mut t);
    assert!(matches!(r, Ok(Value::Bool(true))));
}

#[test]
fn host_asked_each_question_once() {
    let ev = Evaluator::new(StdHost);
    let mut t = Trace::new();
    let v = ev.eval(&Env::new(), &parse("(1.5 + 2.5) * (1.5 + 2.5)"), &mut t).unwrap();
    assert_eq!(display(&v, &StdHost, &mut Trace::new()), "16");
    assert_eq!(t.answers().len(), 2);
    assert!(t.printed().is_empty());
    assert!(t.texts().is_empty());
}

#[test]
fn display_keeps_each_float_text_once() {
    let mut t = Trace::new();
    let h = 0.5f64.to_bits();
    let mut fields = Vec::new();
    fields.push((String::from("b"), Value::Float(h)));
    fields.push((String::from("a"), Value::List(vec![Value::Float(h), Value::Int(2)])));
    let s = display(&Value::Record(fields), &StdHost, &mut t);
    assert_eq!(s, "{ a = [0.5, 2], b = 0.5 }");
    assert_eq!(t.texts().len(), 1);
    assert_eq!(t.texts()[0].1, "0.5");
}

#[test]
fn float_pattern_asks_the_host() {
    let mut t = Trace::new();
    let one = 1.0f64.to_bits();
    let r = match_pattern(&Pattern::Float(one), &Value::Float(one), &StdHost, &mut t);
    assert!(matches!(r, Some(b) if b.is_empty()));
    let r = match_pattern(&Pattern::Float(one), &Value::Float(2.0f64.to_bits()), &StdHost, &mut t);
    assert!(r.is_none());
    assert_eq!(t.answers().len(), 2);
    let r = match_pattern(&Pattern::Float(one), &Value::Int(1), &StdHost, &mut t);
    assert!(r.is_none());
    assert_eq!(t.answers().len(), 2);
}

#[test]
fn eval_arity_error() {
    let ev = Evaluator::new(StdHost);
    let f = Value::Closure { env: Env::new(), params: Vec::new(), body: sp(Expr::Int(1)) };
    let env = Env::new().extend(String::from("f"), f);
    let r = ev_in(&ev, &env, &parse("f 1"));
    assert!(matches!(r, Err(EvalError::Arity { expected: 0, got: 1 })));
}

#[test]
fn eval_records() {
    let ev = Evaluator::new(StdHost);
    let rec = Expr::Record(vec![
        (String::from("name"), sp(Expr::Str(String::from("dan")))),
        (String::from("age"), sp(Expr::Int(35))),
    ]);
    let v = ev_in(&ev, &Env::new(), &Spanned::new(rec, 0..0)).unwrap();
    assert_eq!(display(&v, &StdHost, &mut Trace::new()), "{ age = 35, name = dan }");
    let env = Env::new().extend(String::from("r"), v);
    let upd = Expr::RecordUpdate {
        base: sp(Expr::Var(String::from("r"))),
        fields: vec![(String::from("age"), sp(Expr::Int(36)))],
    };
    let v2 = ev_in(&ev, &env, &Spanned::new(upd, 0..0)).unwrap();
    assert_eq!(display(&v2, &StdHost, &mut Trace::new()), "{ age = 36, name = dan }");
    assert_eq!(display(&ev_in(&ev, &env, &parse("r.name")).unwrap(), &StdHost, &mut Trace::new()), "dan");
    match ev_in(&ev, &env, &parse("r.height")) {
        Err(EvalError::TypeError(m)) => assert_eq!(m, "no field `height`"),
        _ => panic!("expected a type error"),
    }
}

#[test]
fn eval_local_shadows_global() {
    let ev = Evaluator::new(StdHost);
    let env = Env::new().extend(String::from("len"), Value::Int(3));
    assert_eq!(display(&ev_in(&ev, &env, &parse("len")).unwrap(), &StdHost, &mut Trace::new()), "3");
}

#[test]
fn eval_error_messages() {
    assert_eq!(EvalError::Undefined(String::from("x")).message(), "undefined variable: x");
    assert_eq!(EvalError::TypeError(String::from("t")).message(), "type error: t");
    assert_eq!(EvalError::NonExhaustiveMatch.message(), "non-exhaustive match");
    assert_eq!(EvalError::DivisionByZero.message(), "division by zero");
    assert_eq!(EvalError::Overflow.message(), "integer overflow");
    assert_eq!(EvalError::Arity { expected: 2, got: 1 }.message(), "arity error: expected 2 args, got 1");
}

#[test]
fn env_get_after_extend() {
    let env = Env::new().extend(String::from("a"), Value::Int(1));
    let env2 = env.extend(String::from("a"), Value::Int(2)).extend(String::from("b"), Value::Bool(true));
    assert!(matches!(env2.get("a"), Some(Value::Int(2))));
    assert!(matches!(env.get("a"), Some(Value::Int(1))));
    assert!(matches!(env2.get("b"), Some(Value::Bool(true))));
    assert!(env.get("b").is_none());
    let env3 = env.extend_many(vec![(String::from("c"), Value::Int(3)), (String::from("c"), Value::Int(4))]);
    assert!(matches!(env3.get("c"), Some(Value::Int(4))));
    assert!(matches!(env3.get("a"), Some(Value::Int(1))));
}

#[test]
fn eval_depth_limit() {
    let mut ev = Evaluator::with_max_depth(StdHost, 300);
    assert!(ev.define(String::from("f"), vec![String::from("n")], parse("f n"), &mut Trace::new()).is_none());
    assert!(matches!(ev_in(&ev, &Env::new(), &parse("f 1")), Err(EvalError::DepthExceeded)));
    assert_eq!(display(&ev_in(&ev, &Env::new(), &parse("1 + 1")).unwrap(), &StdHost, &mut Trace::new()), "2");
    assert!(matches!(ev.define(String::from("g"), Vec::new(), parse("f 2"), &mut Trace::new()), Some(EvalError::DepthExceeded)));
    assert!(matches!(ev.global_env().get("g"), Some(Value::Unit)));
}

#[test]
fn eval_define_constant_and_closure() {
    let mut ev = Evaluator::new(StdHost);
    assert!(ev.define(String::from("k"), Vec::new(), parse("2 * 21"), &mut Trace::new()).is_none());
    assert!(ev.define(String::from("inc"), vec![String::from("x")], parse("x + k"), &mut Trace::new()).is_none());
    assert_eq!(display(&ev_in(&ev, &Env::new(), &parse("inc 1")).unwrap(), &StdHost, &mut Trace::new()), "43");
    assert!(matches!(ev.global_env().get("k"), Some(Value::Int(42))));
}

#[test]
fn extend_many_is_each_extend_in_turn() {
    let env = Env::new().extend(String::from("a"), Value::Int(1));
    let bs = vec![
        (String::from("b"), Value::Int(2)),
        (String::from("a"), Value::Int(3)),
        (String::from("b"), Value::Int(4)),
    ];
    let many = env.extend_many(bs);
    let each = env
        .extend(String::from("b"), Value::Int(2))
        .extend(String::from("a"), Value::Int(3))
        .extend(String::from("b"), Value::Int(4));
    for k in ["a", "b", "c"] {
        assert_eq!(
            many.get(k).map(|v| display(v, &StdHost, &mut Trace::new())),
            each.get(k).map(|v| display(v, &StdHost, &mut Trace::new()))
        );
    }
    assert!(matches!(env.get("a"), Some(Value::Int(1))));
    assert!(env.get("b").is_none());
}

#[test]
fn define_prints_only_what_is_run() {
    let mut ev = Evaluator::new(StdHost);
    let mut t = Trace::new();
    assert!(ev.define(String::from("f"), vec![String::from("x")], parse("print x"), &mut t).is_none());
    assert!(t.printed().is_empty());
    assert!(ev.define(String::from("k"), Vec::new(), parse("f 7"), &mut t).is_none());
    assert_eq!(*t.printed(), vec![String::from("7")]);
    let v = ev.eval(&Env::new(), &parse("(print 1) |> (\\u -> print 2)"), &mut t).unwrap();
    assert!(matches!(v, Value::Unit));
    assert_eq!(*t.printed(), vec![String::from("7"), String::from("1"), String::from("2")]);
}

#[test]
fn comparisons_swap_operands() {
    let mut t = Trace::new();
    let (a, b) = (1.5f64.to_bits(), 2.5f64.to_bits());
    for (l, r) in [(Value::Float(a), Value::Float(b)), (Value::Int(3), Value::Int(-2))] {
        let lt = eval_binop(BinOp::Lt, copy_value(&l), copy_value(&r), &StdHost, &mut t);
        let gt = eval_binop(BinOp::Gt, copy_value(&r), copy_value(&l), &StdHost, &mut t);
        assert_eq!(format!("{:?}", lt.map(|v| display(&v, &StdHost, &mut Trace::new()))),
                   format!("{:?}", gt.map(|v| display(&v, &StdHost, &mut Trace::new()))));
        let eq = eval_binop(BinOp::Eq, copy_value(&l), copy_value(&r), &StdHost, &mut t).unwrap();
        let ne = eval_binop(BinOp::Neq, copy_value(&l), copy_value(&r), &StdHost, &mut t).unwrap();
        assert!(matches!((eq, ne), (Value::Bool(x), Value::Bool(y)) if x != y));
    }
}

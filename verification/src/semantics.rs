//! The meaning of lacon programs: a big-step semantics over the models of
//! expressions and values, and the text of values.
//!
//! The semantics is indexed by a depth budget: every evaluation of an
//! expression and every application spends one unit of it, and running out
//! is the error `DepthExceeded`. Floating-point arithmetic, comparison and
//! text are the host's: the semantics takes a model of the host (an answer
//! to every question about floats, and the text of floats as far as it is
//! known) and says what is computed whatever the host answers.

use vstd::prelude::*;
use vstd::utf8::encode_utf8;

use crate::ast::{BinOp, SArm, SExpr, SPattern, SSp};
use crate::text::int_text;
use crate::host::{h_bits, h_truth, HostModel, Question};
use crate::value::{lookup, SEnv, SValue};

verus! {

/// The model of an evaluation error.
pub enum SErr {
    Undefined(Seq<char>),
    /// A type error and its message; `None` where the message shows a
    /// float whose text the host model does not give.
    TypeError(Option<Seq<char>>),
    /// An integer division whose quotient does not fit (`i64::MIN / -1`).
    Overflow,
    NonExhaustiveMatch,
    DivisionByZero,
    Arity { expected: usize, got: usize },
    DepthExceeded,
}

/// The result of an evaluation; `None` where the depth budget runs out
/// before the semantics can say.
pub type Outcome = Option<Result<SValue, SErr>>;

pub open spec fn ok<T>(v: T) -> Option<Result<T, SErr>> {
    Some(Ok(v))
}

pub open spec fn fail<T>(e: SErr) -> Option<Result<T, SErr>> {
    Some(Err(e))
}

/// A type error with a message known in full.
pub open spec fn type_msg(m: Seq<char>) -> SErr {
    SErr::TypeError(Some(m))
}

/// Whether an error is the one the model gives: the same, or any type error
/// where the model leaves the message to the host.
pub open spec fn err_fits(e: SErr, o: SErr) -> bool {
    e == o || (e is TypeError && o == SErr::TypeError(None))
}

/// Whether a result is the one the model gives, as `err_fits` says of errors.
pub open spec fn fits<T>(a: Result<T, SErr>, o: Result<T, SErr>) -> bool {
    match (a, o) {
        (Ok(x), Ok(y)) => x == y,
        (Err(x), Err(y)) => err_fits(x, y),
        _ => false,
    }
}

// ── Text of values ────────────────────────────────────────────────────────────

/// Byte strings in lexicographic order.
pub open spec fn bytes_lt(a: Seq<u8>, b: Seq<u8>) -> bool
    decreases a.len(),
{
    if a.len() == 0 {
        b.len() > 0
    } else if b.len() == 0 {
        false
    } else if a[0] != b[0] {
        a[0] < b[0]
    } else {
        bytes_lt(a.drop_first(), b.drop_first())
    }
}

/// The order of field names: that of `str`, on their UTF-8 bytes.
pub open spec fn key_lt(a: Seq<char>, b: Seq<char>) -> bool {
    bytes_lt(encode_utf8(a), encode_utf8(b))
}

/// Inserts `x` after the pairs whose names are not greater than its own.
pub open spec fn insert_pair(x: (Seq<char>, Seq<char>), s: Seq<(Seq<char>, Seq<char>)>) -> Seq<
    (Seq<char>, Seq<char>),
>
    decreases s.len(),
{
    if s.len() == 0 {
        seq![x]
    } else if key_lt(x.0, s[0].0) {
        seq![x] + s
    } else {
        seq![s[0]] + insert_pair(x, s.drop_first())
    }
}

/// The pairs sorted by name, stably.
pub open spec fn sort_pairs(s: Seq<(Seq<char>, Seq<char>)>) -> Seq<(Seq<char>, Seq<char>)>
    decreases s.len(),
{
    if s.len() == 0 {
        s
    } else {
        insert_pair(s.last(), sort_pairs(s.drop_last()))
    }
}

/// "name = text" for each pair, separated by ", ".
pub open spec fn join_pairs(s: Seq<(Seq<char>, Seq<char>)>) -> Seq<char>
    decreases s.len(),
{
    if s.len() == 0 {
        Seq::empty()
    } else if s.len() == 1 {
        s[0].0 + " = "@ + s[0].1
    } else {
        join_pairs(s.drop_last()) + ", "@ + s.last().0 + " = "@ + s.last().1
    }
}

pub open spec fn cat(a: Option<Seq<char>>, b: Option<Seq<char>>) -> Option<Seq<char>> {
    match (a, b) {
        (Some(x), Some(y)) => Some(x + y),
        _ => None,
    }
}

/// What the host writes for floats, as far as it is known: the text of the
/// float with the given bits, or `None`.
pub type TextModel = spec_fn(u64) -> Option<Seq<char>>;

/// No float's text known.
pub open spec fn no_text() -> TextModel {
    |b: u64| None::<Seq<char>>
}

/// The text of a value, as its `Display` writes it; `None` where a float
/// appears in it.
pub open spec fn show(v: SValue) -> Option<Seq<char>> {
    show_in(no_text(), v)
}

/// The text of a value, as its `Display` writes it, with the texts of
/// floats as `tm` gives them; `None` where `tm` gives none.
pub open spec fn show_in(tm: TextModel, v: SValue) -> Option<Seq<char>>
    decreases v,
{
    match v {
        SValue::Int(n) => Some(int_text(n as int)),
        SValue::Float(b) => tm(b),
        SValue::Bool(b) => Some(
            if b {
                "true"@
            } else {
                "false"@
            },
        ),
        SValue::Str(s) => Some(s),
        SValue::Unit => Some("()"@),
        SValue::List(items) => cat(cat(Some("["@), show_join(tm, items)), Some("]"@)),
        SValue::Tuple(items) => cat(cat(Some("("@), show_join(tm, items)), Some(")"@)),
        SValue::Record(fields) => match show_fields(tm, fields) {
            Some(ps) => Some("{ "@ + join_pairs(sort_pairs(ps)) + " }"@),
            None => None,
        },
        SValue::Constructor(name, args) => if args.len() == 0 {
            Some(name)
        } else {
            cat(cat(Some("("@ + name), show_args(tm, args)), Some(")"@))
        },
        SValue::Closure { .. } => Some("<fn>"@),
    }
}

/// The texts of the values, separated by ", ".
pub open spec fn show_join(tm: TextModel, items: Seq<SValue>) -> Option<Seq<char>>
    decreases items,
{
    if items.len() == 0 {
        Some(Seq::empty())
    } else if items.len() == 1 {
        show_in(tm, items[0])
    } else {
        cat(cat(show_join(tm, items.drop_last()), Some(", "@)), show_in(tm, items.last()))
    }
}

/// Each field's name with the text of its value.
pub open spec fn show_fields(tm: TextModel, fields: Seq<(Seq<char>, SValue)>) -> Option<
    Seq<(Seq<char>, Seq<char>)>,
>
    decreases fields,
{
    if fields.len() == 0 {
        Some(Seq::empty())
    } else {
        match (show_fields(tm, fields.drop_last()), show_in(tm, fields.last().1)) {
            (Some(ps), Some(t)) => Some(ps.push((fields.last().0, t))),
            _ => None,
        }
    }
}

/// " value" for each value.
pub open spec fn show_args(tm: TextModel, args: Seq<SValue>) -> Option<Seq<char>>
    decreases args,
{
    if args.len() == 0 {
        Some(Seq::empty())
    } else {
        cat(show_args(tm, args.drop_last()), cat(Some(" "@), show_in(tm, args.last())))
    }
}

/// A text known without the host is the text under any text model.
pub proof fn show_known(tm: TextModel, v: SValue)
    ensures
        show_in(no_text(), v) matches Some(t) ==> show_in(tm, v) == Some(t),
    decreases v,
{
    match v {
        SValue::List(items) => join_known(tm, items),
        SValue::Tuple(items) => join_known(tm, items),
        SValue::Record(fields) => fields_known(tm, fields),
        SValue::Constructor(_, args) => args_known(tm, args),
        _ => {},
    }
}

proof fn join_known(tm: TextModel, items: Seq<SValue>)
    ensures
        show_join(no_text(), items) matches Some(t) ==> show_join(tm, items) == Some(t),
    decreases items,
{
    if items.len() == 1 {
        show_known(tm, items[0]);
    } else if items.len() > 1 {
        join_known(tm, items.drop_last());
        show_known(tm, items.last());
    }
}

proof fn fields_known(tm: TextModel, fields: Seq<(Seq<char>, SValue)>)
    ensures
        show_fields(no_text(), fields) matches Some(ps) ==> show_fields(tm, fields) == Some(ps),
    decreases fields,
{
    if fields.len() > 0 {
        fields_known(tm, fields.drop_last());
        show_known(tm, fields.last().1);
    }
}

proof fn args_known(tm: TextModel, args: Seq<SValue>)
    ensures
        show_args(no_text(), args) matches Some(t) ==> show_args(tm, args) == Some(t),
    decreases args,
{
    if args.len() > 0 {
        args_known(tm, args.drop_last());
        show_known(tm, args.last());
    }
}

/// A type error whose message is `prefix` followed by the text of `v`.
pub open spec fn type_error<T>(hm: HostModel, prefix: Seq<char>, v: SValue) -> Option<Result<T, SErr>> {
    match show_in(hm.1, v) {
        Some(t) => fail(type_msg(prefix + t)),
        None => fail(SErr::TypeError(None)),
    }
}

// ── Operators ─────────────────────────────────────────────────────────────────

/// The name of an operator, as its `Debug` writes it.
pub open spec fn op_name(op: BinOp) -> Seq<char> {
    match op {
        BinOp::Add => "Add"@,
        BinOp::Sub => "Sub"@,
        BinOp::Mul => "Mul"@,
        BinOp::Div => "Div"@,
        BinOp::Mod => "Mod"@,
        BinOp::Eq => "Eq"@,
        BinOp::Neq => "Neq"@,
        BinOp::Lt => "Lt"@,
        BinOp::Gt => "Gt"@,
        BinOp::Leq => "Leq"@,
        BinOp::Geq => "Geq"@,
        BinOp::And => "And"@,
        BinOp::Or => "Or"@,
        BinOp::Compose => "Compose"@,
    }
}

/// `a / b` truncated toward zero, and `a % b` with the sign of `a`, for
/// `b != 0`: an overflow for `i64::MIN` and `-1`.
pub open spec fn int_div(op: BinOp, a: i64, b: i64) -> Outcome {
    let q = if op is Div {
        a.checked_div(b)
    } else {
        a.checked_rem(b)
    };
    match q {
        Some(x) => ok(SValue::Int(x)),
        None => fail(SErr::Overflow),
    }
}

/// Whether a value is a number.
pub open spec fn is_num(v: SValue) -> bool {
    v is Int || v is Float
}

/// The operators of arithmetic on floats.
pub open spec fn is_arith(op: BinOp) -> bool {
    op is Add || op is Sub || op is Mul || op is Div
}

/// The comparisons.
pub open spec fn is_compare(op: BinOp) -> bool {
    op is Eq || op is Neq || op is Lt || op is Gt || op is Leq || op is Geq
}

/// An operation the host performs on floats: arithmetic on two numbers one
/// of which is a float, or a comparison of two floats.
pub open spec fn host_binop(op: BinOp, l: SValue, r: SValue) -> bool {
    (is_arith(op) && is_num(l) && is_num(r) && (l is Float || r is Float)) || (is_compare(op)
        && l is Float && r is Float)
}

pub open spec fn int_neg(n: i64) -> i64 {
    if n == i64::MIN {
        i64::MIN
    } else {
        (-n) as i64
    }
}

/// A binary operator applied to two values.
pub open spec fn sem_binop(hm: HostModel, op: BinOp, l: SValue, r: SValue) -> Outcome {
    match (l, r) {
        (SValue::Int(a), SValue::Int(b)) => match op {
            BinOp::Add => ok(SValue::Int(a.wrapping_add(b))),
            BinOp::Sub => ok(SValue::Int(a.wrapping_sub(b))),
            BinOp::Mul => ok(SValue::Int(a.wrapping_mul(b))),
            BinOp::Div | BinOp::Mod => if b == 0 {
                fail(SErr::DivisionByZero)
            } else {
                int_div(op, a, b)
            },
            BinOp::Eq => ok(SValue::Bool(a == b)),
            BinOp::Neq => ok(SValue::Bool(a != b)),
            BinOp::Lt => ok(SValue::Bool(a < b)),
            BinOp::Gt => ok(SValue::Bool(a > b)),
            BinOp::Leq => ok(SValue::Bool(a <= b)),
            BinOp::Geq => ok(SValue::Bool(a >= b)),
            _ => binop_error(hm, op, l, r),
        },
        (SValue::Str(a), SValue::Str(b)) => match op {
            BinOp::Add => ok(SValue::Str(a + b)),
            BinOp::Eq => ok(SValue::Bool(a == b)),
            BinOp::Neq => ok(SValue::Bool(a != b)),
            _ => binop_error(hm, op, l, r),
        },
        (SValue::Bool(a), SValue::Bool(b)) => match op {
            BinOp::Eq => ok(SValue::Bool(a == b)),
            BinOp::Neq => ok(SValue::Bool(a != b)),
            BinOp::And => ok(SValue::Bool(a && b)),
            BinOp::Or => ok(SValue::Bool(a || b)),
            _ => binop_error(hm, op, l, r),
        },
        _ => if host_binop(op, l, r) {
            Some(host_result(hm, op, l, r))
        } else {
            binop_error(hm, op, l, r)
        },
    }
}

/// The result of an operation the host performs on floats, as the host
/// model answers: arithmetic converts an integer operand first.
pub open spec fn host_result(hm: HostModel, op: BinOp, l: SValue, r: SValue) -> Result<SValue, SErr> {
    match (l, r) {
        (SValue::Float(a), SValue::Float(b)) => if is_arith(op) {
            Ok(SValue::Float(h_bits(hm, Question::Arith(op, a, b))))
        } else {
            Ok(SValue::Bool(h_truth(hm, Question::Compare(op, a, b))))
        },
        (SValue::Int(i), SValue::Float(b)) => Ok(
            SValue::Float(h_bits(hm, Question::Arith(op, h_bits(hm, Question::FromInt(i)), b))),
        ),
        (SValue::Float(a), SValue::Int(j)) => Ok(
            SValue::Float(h_bits(hm, Question::Arith(op, a, h_bits(hm, Question::FromInt(j))))),
        ),
        _ => Err(SErr::TypeError(None)),
    }
}

/// "operator Op not applicable to l and r".
pub open spec fn binop_error(hm: HostModel, op: BinOp, l: SValue, r: SValue) -> Outcome {
    match (show_in(hm.1, l), show_in(hm.1, r)) {
        (Some(a), Some(b)) => fail(
            type_msg("operator "@ + op_name(op) + " not applicable to "@ + a + " and "@ + b),
        ),
        _ => fail(SErr::TypeError(None)),
    }
}

// ── Patterns ──────────────────────────────────────────────────────────────────

/// The outcome of matching a value against a pattern.
pub enum MatchRes {
    NoMatch,
    Binds(SEnv),
}

/// The index of the first field named `name` at or after `i`.
pub open spec fn find_field(fields: Seq<(Seq<char>, SValue)>, name: Seq<char>, i: int) -> Option<int>
    decreases fields.len() - i,
{
    if i < 0 || i >= fields.len() {
        None
    } else if fields[i].0 == name {
        Some(i)
    } else {
        find_field(fields, name, i + 1)
    }
}

/// The value of the first field named `name`.
pub open spec fn field_get(fields: Seq<(Seq<char>, SValue)>, name: Seq<char>) -> Option<SValue> {
    match find_field(fields, name, 0) {
        Some(i) => Some(fields[i].1),
        None => None,
    }
}

pub open spec fn sem_match(hm: HostModel, p: SPattern, v: SValue) -> MatchRes
    decreases p,
{
    match p {
        SPattern::Wildcard => MatchRes::Binds(seq![]),
        SPattern::Var(name) => MatchRes::Binds(seq![(name, v)]),
        SPattern::Int(n) => match v {
            SValue::Int(m) => if n == m {
                MatchRes::Binds(seq![])
            } else {
                MatchRes::NoMatch
            },
            _ => MatchRes::NoMatch,
        },
        SPattern::Float(a) => match v {
            SValue::Float(b) => if h_truth(hm, Question::Compare(BinOp::Eq, a, b)) {
                MatchRes::Binds(seq![])
            } else {
                MatchRes::NoMatch
            },
            _ => MatchRes::NoMatch,
        },
        SPattern::Str(a) => match v {
            SValue::Str(b) => if a == b {
                MatchRes::Binds(seq![])
            } else {
                MatchRes::NoMatch
            },
            _ => MatchRes::NoMatch,
        },
        SPattern::Bool(a) => match v {
            SValue::Bool(b) => if a == b {
                MatchRes::Binds(seq![])
            } else {
                MatchRes::NoMatch
            },
            _ => MatchRes::NoMatch,
        },
        SPattern::Constructor(name, pats) => match v {
            SValue::Constructor(vname, vals) => if name != vname || pats.len() != vals.len() {
                MatchRes::NoMatch
            } else {
                sem_match_all(hm, pats, vals)
            },
            _ => MatchRes::NoMatch,
        },
        SPattern::Tuple(pats) => match v {
            SValue::Tuple(vals) => if pats.len() != vals.len() {
                MatchRes::NoMatch
            } else {
                sem_match_all(hm, pats, vals)
            },
            _ => MatchRes::NoMatch,
        },
        SPattern::Record(fields) => match v {
            SValue::Record(map) => sem_match_fields(hm, fields, map),
            _ => MatchRes::NoMatch,
        },
    }
}

/// The bindings a pattern makes of a value it matches: each of its variables
/// bound to the part of the value it stands for, in order.
pub open spec fn pat_binds(p: SPattern, v: SValue) -> SEnv
    decreases p,
{
    match p {
        SPattern::Var(name) => seq![(name, v)],
        SPattern::Constructor(_, pats) => match v {
            SValue::Constructor(_, vals) => binds_all(pats, vals),
            _ => seq![],
        },
        SPattern::Tuple(pats) => match v {
            SValue::Tuple(vals) => binds_all(pats, vals),
            _ => seq![],
        },
        SPattern::Record(fields) => match v {
            SValue::Record(map) => binds_fields(fields, map),
            _ => seq![],
        },
        _ => seq![],
    }
}

/// The bindings of the patterns of the values, in order.
pub open spec fn binds_all(pats: Seq<SPattern>, vals: Seq<SValue>) -> SEnv
    decreases pats,
{
    if pats.len() == 0 {
        seq![]
    } else {
        pat_binds(pats[0], vals[0]) + binds_all(pats.drop_first(), vals.drop_first())
    }
}

/// The bindings of the field patterns of the record's fields, in order.
pub open spec fn binds_fields(fields: Seq<(Seq<char>, SPattern)>, map: Seq<(Seq<char>, SValue)>) -> SEnv
    decreases fields,
{
    if fields.len() == 0 {
        seq![]
    } else {
        match field_get(map, fields[0].0) {
            Some(x) => pat_binds(fields[0].1, x) + binds_fields(fields.drop_first(), map),
            None => binds_fields(fields.drop_first(), map),
        }
    }
}

/// Matches the values against the patterns in order; the bindings are
/// concatenated.
pub open spec fn sem_match_all(hm: HostModel, pats: Seq<SPattern>, vals: Seq<SValue>) -> MatchRes
    decreases pats,
{
    if pats.len() == 0 {
        MatchRes::Binds(seq![])
    } else {
        match sem_match(hm, pats[0], vals[0]) {
            MatchRes::Binds(b) => match sem_match_all(hm, pats.drop_first(), vals.drop_first()) {
                MatchRes::Binds(rest) => MatchRes::Binds(b + rest),
                other => other,
            },
            other => other,
        }
    }
}

/// Matches each named field of the record against its pattern.
pub open spec fn sem_match_fields(hm: HostModel, fields: Seq<(Seq<char>, SPattern)>, map: Seq<(Seq<char>, SValue)>) -> MatchRes
    decreases fields,
{
    if fields.len() == 0 {
        MatchRes::Binds(seq![])
    } else {
        match field_get(map, fields[0].0) {
            None => MatchRes::NoMatch,
            Some(v) => match sem_match(hm, fields[0].1, v) {
                MatchRes::Binds(b) => match sem_match_fields(hm, fields.drop_first(), map) {
                    MatchRes::Binds(rest) => MatchRes::Binds(b + rest),
                    other => other,
                },
                other => other,
            },
        }
    }
}

// ── Records ───────────────────────────────────────────────────────────────────

/// Sets the field `name` to `v`: in place where the record has it, else at
/// the end.
pub open spec fn field_set(fields: Seq<(Seq<char>, SValue)>, name: Seq<char>, v: SValue) -> Seq<
    (Seq<char>, SValue),
> {
    match find_field(fields, name, 0) {
        Some(i) => fields.update(i, (name, v)),
        None => fields.push((name, v)),
    }
}

// ── Evaluation ────────────────────────────────────────────────────────────────

pub open spec fn builtin_prefix() -> Seq<char> {
    "__builtin_"@
}

/// A variable name that stands for a built-in function.
pub open spec fn is_builtin(s: Seq<char>) -> bool {
    builtin_prefix().len() <= s.len() && s.take(builtin_prefix().len() as int) == builtin_prefix()
}

/// Evaluates `e` in the local environment `env`; names it does not bind are
/// looked up in the global environment `g`.
pub open spec fn sem_eval(hm: HostModel, fuel: nat, g: SEnv, env: SEnv, e: SExpr) -> Outcome
    decreases fuel, 0nat, 0nat,
{
    if fuel == 0 {
        fail(SErr::DepthExceeded)
    } else {
        let f = (fuel - 1) as nat;
        match e {
            SExpr::Int(n) => ok(SValue::Int(n)),
            SExpr::Float(b) => ok(SValue::Float(b)),
            SExpr::Str(s) => ok(SValue::Str(s)),
            SExpr::Bool(b) => ok(SValue::Bool(b)),
            SExpr::Var(name) => match lookup(env, name) {
                Some(v) => ok(v),
                None => match lookup(g, name) {
                    Some(v) => ok(v),
                    None => fail(SErr::Undefined(name)),
                },
            },
            SExpr::Constructor(name) => ok(SValue::Constructor(name, seq![])),
            SExpr::Neg(inner) => match sem_eval(hm, f, g, env, inner.node) {
                Some(Ok(v)) => match v {
                    SValue::Int(n) => ok(SValue::Int(int_neg(n))),
                    SValue::Float(b) => ok(SValue::Float(h_bits(hm, Question::Neg(b)))),
                    _ => type_error(hm, "cannot negate "@, v),
                },
                o => o,
            },
            SExpr::Not(inner) => match sem_eval(hm, f, g, env, inner.node) {
                Some(Ok(v)) => match v {
                    SValue::Bool(b) => ok(SValue::Bool(!b)),
                    _ => type_error(hm, "cannot `not` "@, v),
                },
                o => o,
            },
            SExpr::BinOp { op, lhs, rhs } => match sem_eval(hm, f, g, env, lhs.node) {
                Some(Ok(l)) => match sem_eval(hm, f, g, env, rhs.node) {
                    Some(Ok(r)) => sem_binop(hm, op, l, r),
                    o => o,
                },
                o => o,
            },
            SExpr::Lambda { params, body } => ok(SValue::Closure { env, params, body }),
            SExpr::App { func, arg } => match sem_eval(hm, f, g, env, func.node) {
                Some(Ok(fv)) => match sem_eval(hm, f, g, env, arg.node) {
                    Some(Ok(av)) => sem_apply(hm, f, g, fv, av),
                    o => o,
                },
                o => o,
            },
            SExpr::Let { name, value, body } => match sem_eval(hm, f, g, env, value.node) {
                Some(Ok(v)) => sem_eval(hm, f, g, env.push((name, v)), body.node),
                o => o,
            },
            SExpr::If { cond, then_, else_ } => match sem_eval(hm, f, g, env, cond.node) {
                Some(Ok(c)) => match c {
                    SValue::Bool(true) => sem_eval(hm, f, g, env, then_.node),
                    SValue::Bool(false) => sem_eval(hm, f, g, env, else_.node),
                    _ => type_error(hm, "if condition must be Bool, got "@, c),
                },
                o => o,
            },
            SExpr::Match { scrutinee, arms } => match sem_eval(hm, f, g, env, scrutinee.node) {
                Some(Ok(v)) => sem_arms(hm, f, g, env, arms, v),
                o => o,
            },
            SExpr::Pipe { lhs, rhs } => match sem_eval(hm, f, g, env, lhs.node) {
                Some(Ok(lv)) => match sem_eval(hm, f, g, env, rhs.node) {
                    Some(Ok(fv)) => sem_apply(hm, f, g, fv, lv),
                    o => o,
                },
                o => o,
            },
            SExpr::List(items) => match sem_items(hm, f, g, env, items) {
                Some(Ok(vs)) => ok(SValue::List(vs)),
                Some(Err(e)) => fail(e),
                None => None,
            },
            SExpr::Tuple(items) => match sem_items(hm, f, g, env, items) {
                Some(Ok(vs)) => ok(SValue::Tuple(vs)),
                Some(Err(e)) => fail(e),
                None => None,
            },
            SExpr::Record(fields) => match sem_record(hm, f, g, env, fields, seq![]) {
                Some(Ok(m)) => ok(SValue::Record(m)),
                Some(Err(e)) => fail(e),
                None => None,
            },
            SExpr::Field { record, field } => match sem_eval(hm, f, g, env, record.node) {
                Some(Ok(v)) => match v {
                    SValue::Record(m) => match field_get(m, field) {
                        Some(x) => ok(x),
                        None => fail(type_msg("no field `"@ + field + "`"@)),
                    },
                    _ => type_error(hm, "field access on non-record: "@, v),
                },
                o => o,
            },
            SExpr::RecordUpdate { base, fields } => match sem_eval(hm, f, g, env, base.node) {
                Some(Ok(v)) => match v {
                    SValue::Record(m) => match sem_record(hm, f, g, env, fields, m) {
                        Some(Ok(m2)) => ok(SValue::Record(m2)),
                        Some(Err(e)) => fail(e),
                        None => None,
                    },
                    _ => type_error(hm, "record update on non-record: "@, v),
                },
                o => o,
            },
            SExpr::Bind { .. } => fail(
                type_msg("async bind `<-` used outside async context"@),
            ),
            SExpr::Block(stmts) => sem_block(hm, f, g, env, stmts, SValue::Unit),
        }
    }
}

/// Evaluates the expressions in order, up to the first error.
pub open spec fn sem_items(hm: HostModel, fuel: nat, g: SEnv, env: SEnv, items: Seq<SSp>) -> Option<
    Result<Seq<SValue>, SErr>,
>
    decreases fuel, 1nat, items.len(),
{
    if items.len() == 0 {
        ok(seq![])
    } else {
        match sem_eval(hm, fuel, g, env, items[0].node) {
            Some(Ok(v)) => match sem_items(hm, fuel, g, env, items.drop_first()) {
                Some(Ok(vs)) => ok(seq![v] + vs),
                Some(Err(e)) => fail(e),
                None => None,
            },
            Some(Err(e)) => fail(e),
            None => None,
        }
    }
}

/// Evaluates the field expressions in order and sets each field of `acc`.
pub open spec fn sem_record(hm: HostModel, 
    fuel: nat,
    g: SEnv,
    env: SEnv,
    fields: Seq<(Seq<char>, SSp)>,
    acc: Seq<(Seq<char>, SValue)>,
) -> Option<Result<Seq<(Seq<char>, SValue)>, SErr>>
    decreases fuel, 1nat, fields.len(),
{
    if fields.len() == 0 {
        ok(acc)
    } else {
        match sem_eval(hm, fuel, g, env, fields[0].1.node) {
            Some(Ok(v)) => sem_record(hm, fuel, g, env, fields.drop_first(), field_set(acc, fields[0].0, v)),
            Some(Err(e)) => fail(e),
            None => None,
        }
    }
}

/// Evaluates the statements in order; the value is that of the last one.
pub open spec fn sem_block(hm: HostModel, fuel: nat, g: SEnv, env: SEnv, stmts: Seq<SSp>, last: SValue) -> Outcome
    decreases fuel, 1nat, stmts.len(),
{
    if stmts.len() == 0 {
        ok(last)
    } else {
        match sem_eval(hm, fuel, g, env, stmts[0].node) {
            Some(Ok(v)) => sem_block(hm, fuel, g, env, stmts.drop_first(), v),
            o => o,
        }
    }
}

/// Tries the arms in order against `v`.
pub open spec fn sem_arms(hm: HostModel, fuel: nat, g: SEnv, env: SEnv, arms: Seq<SArm>, v: SValue) -> Outcome
    decreases fuel, 1nat, arms.len(),
{
    if arms.len() == 0 {
        fail(SErr::NonExhaustiveMatch)
    } else {
        match sem_match(hm, arms[0].pat, v) {
            MatchRes::NoMatch => sem_arms(hm, fuel, g, env, arms.drop_first(), v),
            MatchRes::Binds(b) => {
                let env2 = env + b;
                match arms[0].guard {
                    Some(gd) => match sem_eval(hm, fuel, g, env2, gd.node) {
                        Some(Ok(c)) => match c {
                            SValue::Bool(true) => sem_eval(hm, fuel, g, env2, arms[0].body.node),
                            SValue::Bool(false) => sem_arms(hm, fuel, g, env, arms.drop_first(), v),
                            _ => type_error(hm, "match guard must be Bool, got "@, c),
                        },
                        o => o,
                    },
                    None => sem_eval(hm, fuel, g, env2, arms[0].body.node),
                }
            },
        }
    }
}

/// Applies a function value to an argument.
pub open spec fn sem_apply(hm: HostModel, fuel: nat, g: SEnv, func: SValue, arg: SValue) -> Outcome
    decreases fuel, 0nat, 0nat,
{
    if fuel == 0 {
        fail(SErr::DepthExceeded)
    } else {
        let f = (fuel - 1) as nat;
        match func {
            SValue::Closure { env, params, body } => if params.len() == 0 {
                fail(SErr::Arity { expected: 0, got: 1 })
            } else {
                let env2 = env.push((params[0], arg));
                if params.len() == 1 {
                    match body.node {
                        SExpr::Var(s) => if is_builtin(s) {
                            sem_builtin(hm, f, g, s, env2)
                        } else {
                            sem_eval(hm, f, g, env2, body.node)
                        },
                        _ => sem_eval(hm, f, g, env2, body.node),
                    }
                } else {
                    ok(SValue::Closure { env: env2, params: params.drop_first(), body })
                }
            },
            SValue::Constructor(name, args) => ok(SValue::Constructor(name, args.push(arg))),
            _ => type_error(hm, "cannot apply non-function: "@, func),
        }
    }
}

/// A built-in function, named by `s`, run in `env`, which binds its
/// parameters.
pub open spec fn sem_builtin(hm: HostModel, fuel: nat, g: SEnv, s: Seq<char>, env: SEnv) -> Outcome
    decreases fuel, 4nat, 0nat,
{
    if s == "__builtin_print__"@ {
        ok(SValue::Unit)
    } else if s == "__builtin_map__"@ {
        match lookup(env, "f"@) {
            None => fail(SErr::Undefined("f"@)),
            Some(fv) => match lookup(env, "xs"@) {
                None => fail(SErr::Undefined("xs"@)),
                Some(xs) => match xs {
                    SValue::List(items) => match sem_map(hm, fuel, g, fv, items) {
                        Some(Ok(vs)) => ok(SValue::List(vs)),
                        Some(Err(e)) => fail(e),
                        None => None,
                    },
                    _ => type_error(hm, "map: expected List, got "@, xs),
                },
            },
        }
    } else if s == "__builtin_filter__"@ {
        match lookup(env, "f"@) {
            None => fail(SErr::Undefined("f"@)),
            Some(fv) => match lookup(env, "xs"@) {
                None => fail(SErr::Undefined("xs"@)),
                Some(xs) => match xs {
                    SValue::List(items) => match sem_filter(hm, fuel, g, fv, items) {
                        Some(Ok(vs)) => ok(SValue::List(vs)),
                        Some(Err(e)) => fail(e),
                        None => None,
                    },
                    _ => type_error(hm, "filter: expected List, got "@, xs),
                },
            },
        }
    } else if s == "__builtin_fold__"@ {
        match lookup(env, "init"@) {
            None => fail(SErr::Undefined("init"@)),
            Some(init) => match lookup(env, "f"@) {
                None => fail(SErr::Undefined("f"@)),
                Some(fv) => match lookup(env, "xs"@) {
                    None => fail(SErr::Undefined("xs"@)),
                    Some(xs) => match xs {
                        SValue::List(items) => sem_fold(hm, fuel, g, fv, init, items),
                        _ => type_error(hm, "fold: expected List, got "@, xs),
                    },
                },
            },
        }
    } else if s == "__builtin_head__"@ {
        match lookup(env, "xs"@) {
            None => fail(SErr::Undefined("xs"@)),
            Some(xs) => match xs {
                SValue::List(items) => if items.len() > 0 {
                    ok(items[0])
                } else {
                    fail(type_msg("head: empty list"@))
                },
                _ => type_error(hm, "head: expected List, got "@, xs),
            },
        }
    } else if s == "__builtin_tail__"@ {
        match lookup(env, "xs"@) {
            None => fail(SErr::Undefined("xs"@)),
            Some(xs) => match xs {
                SValue::List(items) => if items.len() > 0 {
                    ok(SValue::List(items.drop_first()))
                } else {
                    fail(type_msg("tail: empty list"@))
                },
                _ => type_error(hm, "tail: expected List, got "@, xs),
            },
        }
    } else if s == "__builtin_len__"@ {
        match lookup(env, "xs"@) {
            None => fail(SErr::Undefined("xs"@)),
            Some(xs) => match xs {
                SValue::List(items) => ok(SValue::Int(items.len() as i64)),
                _ => type_error(hm, "len: expected List, got "@, xs),
            },
        }
    } else {
        fail(SErr::Undefined(s))
    }
}

/// Applies `fv` to each item in order.
pub open spec fn sem_map(hm: HostModel, fuel: nat, g: SEnv, fv: SValue, items: Seq<SValue>) -> Option<
    Result<Seq<SValue>, SErr>,
>
    decreases fuel, 3nat, items.len(),
{
    if items.len() == 0 {
        ok(seq![])
    } else {
        match sem_apply(hm, fuel, g, fv, items[0]) {
            Some(Ok(v)) => match sem_map(hm, fuel, g, fv, items.drop_first()) {
                Some(Ok(vs)) => ok(seq![v] + vs),
                Some(Err(e)) => fail(e),
                None => None,
            },
            Some(Err(e)) => fail(e),
            None => None,
        }
    }
}

/// The items for which `fv` answers `true`, in order.
pub open spec fn sem_filter(hm: HostModel, fuel: nat, g: SEnv, fv: SValue, items: Seq<SValue>) -> Option<
    Result<Seq<SValue>, SErr>,
>
    decreases fuel, 3nat, items.len(),
{
    if items.len() == 0 {
        ok(seq![])
    } else {
        match sem_apply(hm, fuel, g, fv, items[0]) {
            Some(Ok(c)) => match c {
                SValue::Bool(true) => match sem_filter(hm, fuel, g, fv, items.drop_first()) {
                    Some(Ok(vs)) => ok(seq![items[0]] + vs),
                    Some(Err(e)) => fail(e),
                    None => None,
                },
                SValue::Bool(false) => sem_filter(hm, fuel, g, fv, items.drop_first()),
                _ => type_error(hm, "filter predicate must return Bool, got "@, c),
            },
            Some(Err(e)) => fail(e),
            None => None,
        }
    }
}

/// Folds the items from the left: `acc = fv acc item`.
pub open spec fn sem_fold(hm: HostModel, fuel: nat, g: SEnv, fv: SValue, acc: SValue, items: Seq<SValue>) -> Outcome
    decreases fuel, 3nat, items.len(),
{
    if items.len() == 0 {
        ok(acc)
    } else {
        match sem_apply(hm, fuel, g, fv, acc) {
            Some(Ok(partial)) => match sem_apply(hm, fuel, g, partial, items[0]) {
                Some(Ok(acc2)) => sem_fold(hm, fuel, g, fv, acc2, items.drop_first()),
                o => o,
            },
            o => o,
        }
    }
}

// ── What `print` writes ───────────────────────────────────────────────────────

/// What `print` prints: the value bound to its parameter, or `Unit`.
pub open spec fn print_arg(env: SEnv) -> SValue {
    match lookup(env, "x"@) {
        Some(v) => v,
        None => SValue::Unit,
    }
}

/// The line `print` writes, with floats written as the host model says.
pub open spec fn print_line(hm: HostModel, env: SEnv) -> Seq<char> {
    match show_in(hm.1, print_arg(env)) {
        Some(t) => t,
        None => Seq::empty(),
    }
}

/// Whether an outcome is a value.
pub open spec fn is_ok<T>(o: Option<Result<T, SErr>>) -> bool {
    o matches Some(Ok(_))
}

/// The lines printed when `p` has been printed and then `e` is evaluated as
/// `sem_eval` does.
pub open spec fn prints_eval(hm: HostModel, fuel: nat, g: SEnv, env: SEnv, e: SExpr, p: Seq<Seq<char>>) -> Seq<
    Seq<char>,
>
    decreases fuel, 0nat, 0nat,
{
    if fuel == 0 {
        p
    } else {
        let f = (fuel - 1) as nat;
        match e {
            SExpr::Neg(inner) => prints_eval(hm, f, g, env, inner.node, p),
            SExpr::Not(inner) => prints_eval(hm, f, g, env, inner.node, p),
            SExpr::BinOp { lhs, rhs, .. } => {
                let p1 = prints_eval(hm, f, g, env, lhs.node, p);
                if is_ok(sem_eval(hm, f, g, env, lhs.node)) {
                    prints_eval(hm, f, g, env, rhs.node, p1)
                } else {
                    p1
                }
            },
            SExpr::App { func, arg } => {
                let p1 = prints_eval(hm, f, g, env, func.node, p);
                match sem_eval(hm, f, g, env, func.node) {
                    Some(Ok(fv)) => {
                        let p2 = prints_eval(hm, f, g, env, arg.node, p1);
                        match sem_eval(hm, f, g, env, arg.node) {
                            Some(Ok(av)) => prints_apply(hm, f, g, fv, av, p2),
                            _ => p2,
                        }
                    },
                    _ => p1,
                }
            },
            SExpr::Let { name, value, body } => {
                let p1 = prints_eval(hm, f, g, env, value.node, p);
                match sem_eval(hm, f, g, env, value.node) {
                    Some(Ok(v)) => prints_eval(hm, f, g, env.push((name, v)), body.node, p1),
                    _ => p1,
                }
            },
            SExpr::If { cond, then_, else_ } => {
                let p1 = prints_eval(hm, f, g, env, cond.node, p);
                match sem_eval(hm, f, g, env, cond.node) {
                    Some(Ok(SValue::Bool(true))) => prints_eval(hm, f, g, env, then_.node, p1),
                    Some(Ok(SValue::Bool(false))) => prints_eval(hm, f, g, env, else_.node, p1),
                    _ => p1,
                }
            },
            SExpr::Match { scrutinee, arms } => {
                let p1 = prints_eval(hm, f, g, env, scrutinee.node, p);
                match sem_eval(hm, f, g, env, scrutinee.node) {
                    Some(Ok(v)) => prints_arms(hm, f, g, env, arms, v, p1),
                    _ => p1,
                }
            },
            SExpr::Pipe { lhs, rhs } => {
                let p1 = prints_eval(hm, f, g, env, lhs.node, p);
                match sem_eval(hm, f, g, env, lhs.node) {
                    Some(Ok(lv)) => {
                        let p2 = prints_eval(hm, f, g, env, rhs.node, p1);
                        match sem_eval(hm, f, g, env, rhs.node) {
                            Some(Ok(fv)) => prints_apply(hm, f, g, fv, lv, p2),
                            _ => p2,
                        }
                    },
                    _ => p1,
                }
            },
            SExpr::List(items) => prints_items(hm, f, g, env, items, p),
            SExpr::Tuple(items) => prints_items(hm, f, g, env, items, p),
            SExpr::Record(fields) => prints_record(hm, f, g, env, fields, seq![], p),
            SExpr::Field { record, .. } => prints_eval(hm, f, g, env, record.node, p),
            SExpr::RecordUpdate { base, fields } => {
                let p1 = prints_eval(hm, f, g, env, base.node, p);
                match sem_eval(hm, f, g, env, base.node) {
                    Some(Ok(SValue::Record(m))) => prints_record(hm, f, g, env, fields, m, p1),
                    _ => p1,
                }
            },
            SExpr::Block(stmts) => prints_block(hm, f, g, env, stmts, SValue::Unit, p),
            _ => p,
        }
    }
}

/// The lines printed by `sem_items`.
pub open spec fn prints_items(hm: HostModel, fuel: nat, g: SEnv, env: SEnv, items: Seq<SSp>, p: Seq<Seq<char>>) -> Seq<
    Seq<char>,
>
    decreases fuel, 1nat, items.len(),
{
    if items.len() == 0 {
        p
    } else {
        let p1 = prints_eval(hm, fuel, g, env, items[0].node, p);
        if is_ok(sem_eval(hm, fuel, g, env, items[0].node)) {
            prints_items(hm, fuel, g, env, items.drop_first(), p1)
        } else {
            p1
        }
    }
}

/// The lines printed by `sem_record`.
pub open spec fn prints_record(
    hm: HostModel,
    fuel: nat,
    g: SEnv,
    env: SEnv,
    fields: Seq<(Seq<char>, SSp)>,
    acc: Seq<(Seq<char>, SValue)>,
    p: Seq<Seq<char>>,
) -> Seq<Seq<char>>
    decreases fuel, 1nat, fields.len(),
{
    if fields.len() == 0 {
        p
    } else {
        let p1 = prints_eval(hm, fuel, g, env, fields[0].1.node, p);
        match sem_eval(hm, fuel, g, env, fields[0].1.node) {
            Some(Ok(v)) => prints_record(hm, fuel, g, env, fields.drop_first(), field_set(acc, fields[0].0, v), p1),
            _ => p1,
        }
    }
}

/// The lines printed by `sem_block`.
pub open spec fn prints_block(
    hm: HostModel,
    fuel: nat,
    g: SEnv,
    env: SEnv,
    stmts: Seq<SSp>,
    last: SValue,
    p: Seq<Seq<char>>,
) -> Seq<Seq<char>>
    decreases fuel, 1nat, stmts.len(),
{
    if stmts.len() == 0 {
        p
    } else {
        let p1 = prints_eval(hm, fuel, g, env, stmts[0].node, p);
        match sem_eval(hm, fuel, g, env, stmts[0].node) {
            Some(Ok(v)) => prints_block(hm, fuel, g, env, stmts.drop_first(), v, p1),
            _ => p1,
        }
    }
}

/// The lines printed by `sem_arms`.
pub open spec fn prints_arms(
    hm: HostModel,
    fuel: nat,
    g: SEnv,
    env: SEnv,
    arms: Seq<SArm>,
    v: SValue,
    p: Seq<Seq<char>>,
) -> Seq<Seq<char>>
    decreases fuel, 1nat, arms.len(),
{
    if arms.len() == 0 {
        p
    } else {
        match sem_match(hm, arms[0].pat, v) {
            MatchRes::NoMatch => prints_arms(hm, fuel, g, env, arms.drop_first(), v, p),
            MatchRes::Binds(b) => {
                let env2 = env + b;
                match arms[0].guard {
                    Some(gd) => {
                        let p1 = prints_eval(hm, fuel, g, env2, gd.node, p);
                        match sem_eval(hm, fuel, g, env2, gd.node) {
                            Some(Ok(SValue::Bool(true))) => prints_eval(hm, fuel, g, env2, arms[0].body.node, p1),
                            Some(Ok(SValue::Bool(false))) => prints_arms(hm, fuel, g, env, arms.drop_first(), v, p1),
                            _ => p1,
                        }
                    },
                    None => prints_eval(hm, fuel, g, env2, arms[0].body.node, p),
                }
            },
        }
    }
}

/// The lines printed by `sem_apply`.
pub open spec fn prints_apply(hm: HostModel, fuel: nat, g: SEnv, func: SValue, arg: SValue, p: Seq<Seq<char>>) -> Seq<
    Seq<char>,
>
    decreases fuel, 0nat, 0nat,
{
    if fuel == 0 {
        p
    } else {
        let f = (fuel - 1) as nat;
        match func {
            SValue::Closure { env, params, body } => if params.len() == 1 {
                let env2 = env.push((params[0], arg));
                match body.node {
                    SExpr::Var(s) => if is_builtin(s) {
                        prints_builtin(hm, f, g, s, env2, p)
                    } else {
                        prints_eval(hm, f, g, env2, body.node, p)
                    },
                    _ => prints_eval(hm, f, g, env2, body.node, p),
                }
            } else {
                p
            },
            _ => p,
        }
    }
}

/// The lines printed by `sem_builtin`: `print` writes one line.
pub open spec fn prints_builtin(hm: HostModel, fuel: nat, g: SEnv, s: Seq<char>, env: SEnv, p: Seq<Seq<char>>) -> Seq<
    Seq<char>,
>
    decreases fuel, 4nat, 0nat,
{
    if s == "__builtin_print__"@ {
        p.push(print_line(hm, env))
    } else if s == "__builtin_map__"@ {
        match (lookup(env, "f"@), lookup(env, "xs"@)) {
            (Some(fv), Some(SValue::List(items))) => prints_map(hm, fuel, g, fv, items, p),
            _ => p,
        }
    } else if s == "__builtin_filter__"@ {
        match (lookup(env, "f"@), lookup(env, "xs"@)) {
            (Some(fv), Some(SValue::List(items))) => prints_filter(hm, fuel, g, fv, items, p),
            _ => p,
        }
    } else if s == "__builtin_fold__"@ {
        match (lookup(env, "init"@), lookup(env, "f"@), lookup(env, "xs"@)) {
            (Some(init), Some(fv), Some(SValue::List(items))) => prints_fold(hm, fuel, g, fv, init, items, p),
            _ => p,
        }
    } else {
        p
    }
}

/// The lines printed by `sem_map`.
pub open spec fn prints_map(hm: HostModel, fuel: nat, g: SEnv, fv: SValue, items: Seq<SValue>, p: Seq<Seq<char>>) -> Seq<
    Seq<char>,
>
    decreases fuel, 3nat, items.len(),
{
    if items.len() == 0 {
        p
    } else {
        let p1 = prints_apply(hm, fuel, g, fv, items[0], p);
        if is_ok(sem_apply(hm, fuel, g, fv, items[0])) {
            prints_map(hm, fuel, g, fv, items.drop_first(), p1)
        } else {
            p1
        }
    }
}

/// The lines printed by `sem_filter`.
pub open spec fn prints_filter(hm: HostModel, fuel: nat, g: SEnv, fv: SValue, items: Seq<SValue>, p: Seq<Seq<char>>) -> Seq<
    Seq<char>,
>
    decreases fuel, 3nat, items.len(),
{
    if items.len() == 0 {
        p
    } else {
        let p1 = prints_apply(hm, fuel, g, fv, items[0], p);
        match sem_apply(hm, fuel, g, fv, items[0]) {
            Some(Ok(SValue::Bool(_))) => prints_filter(hm, fuel, g, fv, items.drop_first(), p1),
            _ => p1,
        }
    }
}

/// The lines printed by `sem_fold`.
pub open spec fn prints_fold(
    hm: HostModel,
    fuel: nat,
    g: SEnv,
    fv: SValue,
    acc: SValue,
    items: Seq<SValue>,
    p: Seq<Seq<char>>,
) -> Seq<Seq<char>>
    decreases fuel, 3nat, items.len(),
{
    if items.len() == 0 {
        p
    } else {
        let p1 = prints_apply(hm, fuel, g, fv, acc, p);
        match sem_apply(hm, fuel, g, fv, acc) {
            Some(Ok(partial)) => {
                let p2 = prints_apply(hm, fuel, g, partial, items[0], p1);
                match sem_apply(hm, fuel, g, partial, items[0]) {
                    Some(Ok(acc2)) => prints_fold(hm, fuel, g, fv, acc2, items.drop_first(), p2),
                    _ => p2,
                }
            },
            _ => p1,
        }
    }
}

// ══ Laws ═════════════════════════════════════════════════════════════════════

/// `fold` is a left fold with the accumulator first: over no items it gives
/// the initial value; over one item `x` it gives `f acc x`, applying the
/// function to the accumulator and then the result to the item (and prints
/// what those two applications print, in that order); and over `xs + ys` it
/// folds `ys` from what folding `xs` gives.
pub proof fn fold_is_left_fold(
    hm: HostModel,
    fuel: nat,
    g: SEnv,
    fv: SValue,
    acc: SValue,
    x: SValue,
    xs: Seq<SValue>,
    ys: Seq<SValue>,
    p: Seq<Seq<char>>,
)
    ensures
        sem_fold(hm, fuel, g, fv, acc, seq![]) == ok(acc),
        sem_fold(hm, fuel, g, fv, acc, seq![x]) == match sem_apply(hm, fuel, g, fv, acc) {
            Some(Ok(partial)) => sem_apply(hm, fuel, g, partial, x),
            o => o,
        },
        prints_fold(hm, fuel, g, fv, acc, seq![x], p) == match sem_apply(hm, fuel, g, fv, acc) {
            Some(Ok(partial)) => prints_apply(hm, fuel, g, partial, x, prints_apply(hm, fuel, g, fv, acc, p)),
            _ => prints_apply(hm, fuel, g, fv, acc, p),
        },
        sem_fold(hm, fuel, g, fv, acc, xs + ys) == match sem_fold(hm, fuel, g, fv, acc, xs) {
            Some(Ok(a)) => sem_fold(hm, fuel, g, fv, a, ys),
            o => o,
        },
    decreases xs.len(),
{
    let one = seq![x];
    assert(one.drop_first() =~= Seq::<SValue>::empty());
    if let Some(Ok(partial)) = sem_apply(hm, fuel, g, fv, acc) {
        let p2 = prints_apply(hm, fuel, g, partial, x, prints_apply(hm, fuel, g, fv, acc, p));
        if let Some(Ok(a2)) = sem_apply(hm, fuel, g, partial, x) {
            assert(sem_fold(hm, fuel, g, fv, a2, one.drop_first()) == ok(a2));
            assert(prints_fold(hm, fuel, g, fv, a2, one.drop_first(), p2) == p2);
        }
    }
    if xs.len() > 0 {
        assert((xs + ys).drop_first() =~= xs.drop_first() + ys);
        assert((xs + ys)[0] == xs[0]);
        match sem_apply(hm, fuel, g, fv, acc) {
            Some(Ok(partial)) => match sem_apply(hm, fuel, g, partial, xs[0]) {
                Some(Ok(a2)) => {
                    fold_is_left_fold(hm, fuel, g, fv, a2, x, xs.drop_first(), ys, p);
                },
                _ => {},
            },
            _ => {},
        }
    } else {
        assert(xs + ys =~= ys);
    }
}

/// Folding one item with a function of two parameters `\acc x -> body` runs
/// the body with the accumulator bound to the first parameter and the item
/// to the second.
pub proof fn fold_binds_accumulator_first(
    hm: HostModel,
    fuel: nat,
    g: SEnv,
    env: SEnv,
    params: Seq<Seq<char>>,
    body: SSp,
    acc: SValue,
    x: SValue,
)
    requires
        fuel > 0,
        params.len() == 2,
        !(body.node matches SExpr::Var(s) && is_builtin(s)),
    ensures
        sem_fold(hm, fuel, g, SValue::Closure { env, params, body }, acc, seq![x]) == sem_eval(
            hm,
            (fuel - 1) as nat,
            g,
            env.push((params[0], acc)).push((params[1], x)),
            body.node,
        ),
{
    let fv = SValue::Closure { env, params, body };
    let partial = SValue::Closure { env: env.push((params[0], acc)), params: params.drop_first(), body };
    assert(sem_apply(hm, fuel, g, fv, acc) == ok(partial));
    assert(params.drop_first()[0] == params[1]);
    fold_is_left_fold(hm, fuel, g, fv, acc, x, seq![], seq![], seq![]);
}

/// `lhs |> rhs` is `rhs lhs`: where both sides evaluate, a pipe gives what
/// applying the right side to the left one gives.
pub proof fn pipe_is_application(hm: HostModel, fuel: nat, g: SEnv, env: SEnv, lhs: SSp, rhs: SSp)
    requires
        fuel == 0 || (sem_eval(hm, (fuel - 1) as nat, g, env, lhs.node) matches Some(Ok(_))
            && sem_eval(hm, (fuel - 1) as nat, g, env, rhs.node) matches Some(Ok(_))),
    ensures
        sem_eval(hm, fuel, g, env, SExpr::Pipe { lhs, rhs }) == sem_eval(hm, 
            fuel,
            g,
            env,
            SExpr::App { func: rhs, arg: lhs },
        ),
{
}

proof fn lemma_find_field(fields: Seq<(Seq<char>, SValue)>, name: Seq<char>, j: int)
    requires
        0 <= j,
    ensures
        match find_field(fields, name, j) {
            Some(k) => j <= k < fields.len() && fields[k].0 == name && forall|m: int|
                j <= m < k ==> (#[trigger] fields[m]).0 != name,
            None => forall|m: int| j <= m < fields.len() ==> (#[trigger] fields[m]).0 != name,
        },
    decreases fields.len() - j,
{
    if j < fields.len() && fields[j].0 != name {
        lemma_find_field(fields, name, j + 1);
    }
}

/// A record field read right after it is set gives the value just set; every
/// other field gives what it gave before.
pub proof fn field_after_set(fields: Seq<(Seq<char>, SValue)>, name: Seq<char>, v: SValue, other: Seq<char>)
    ensures
        field_get(field_set(fields, name, v), name) == Some(v),
        other != name ==> field_get(field_set(fields, name, v), other) == field_get(fields, other),
{
    let after = field_set(fields, name, v);
    lemma_find_field(fields, name, 0);
    lemma_find_field(fields, other, 0);
    lemma_find_field(after, name, 0);
    lemma_find_field(after, other, 0);
    match find_field(fields, name, 0) {
        Some(i) => {
            assert(after == fields.update(i, (name, v)));
            match find_field(after, name, 0) {
                Some(k) => {
                    if k > i {
                        assert(after[i].0 == name);
                    }
                    if k < i {
                        assert(after[k] == fields[k]);
                    }
                },
                None => {
                    assert(after[i].0 == name);
                },
            }
            if other != name {
                match (find_field(after, other, 0), find_field(fields, other, 0)) {
                    (Some(k1), Some(k2)) => {
                        if k1 < k2 {
                            assert(after[k1] == fields[k1]);
                        }
                        if k2 < k1 {
                            assert(after[k2] == fields[k2]);
                        }
                    },
                    (Some(k1), None) => {
                        assert(after[k1] == fields[k1]);
                    },
                    (None, Some(k2)) => {
                        assert(after[k2] == fields[k2]);
                    },
                    (None, None) => {},
                }
            }
        },
        None => {
            assert(after == fields.push((name, v)));
            match find_field(after, name, 0) {
                Some(k) => {
                    if k < fields.len() {
                        assert(after[k] == fields[k]);
                    }
                },
                None => {
                    assert(after[fields.len() as int].0 == name);
                },
            }
            if other != name {
                match (find_field(after, other, 0), find_field(fields, other, 0)) {
                    (Some(k1), Some(k2)) => {
                        if k1 < k2 {
                            assert(after[k1] == fields[k1]);
                        }
                        if k2 < k1 {
                            assert(after[k2] == fields[k2]);
                        }
                    },
                    (Some(k1), None) => {
                        assert(after[k1] == fields[k1]);
                    },
                    (None, Some(k2)) => {
                        assert(after[k2] == fields[k2]);
                    },
                    (None, None) => {},
                }
            }
        },
    }
}

/// Whether no two fields share a name.
pub open spec fn distinct_names(fields: Seq<(Seq<char>, SValue)>) -> bool {
    forall|a: int, b: int| 0 <= a < b < fields.len() ==> (#[trigger] fields[a]).0 != (#[trigger] fields[b]).0
}

/// Setting a field keeps the names of a record distinct.
pub proof fn field_set_keeps_names_distinct(fields: Seq<(Seq<char>, SValue)>, name: Seq<char>, v: SValue)
    requires
        distinct_names(fields),
    ensures
        distinct_names(field_set(fields, name, v)),
{
    lemma_find_field(fields, name, 0);
    let after = field_set(fields, name, v);
    match find_field(fields, name, 0) {
        Some(i) => {
            assert forall|a: int, b: int| 0 <= a < b < after.len() implies (#[trigger] after[a]).0
                != (#[trigger] after[b]).0 by {
                assert(fields[a].0 != fields[b].0);
                if a == i {
                    assert(after[a].0 == fields[i].0);
                }
                if b == i {
                    assert(after[b].0 == fields[i].0);
                }
            }
        },
        None => {
            assert forall|a: int, b: int| 0 <= a < b < after.len() implies (#[trigger] after[a]).0
                != (#[trigger] after[b]).0 by {
                if b < fields.len() {
                    assert(fields[a].0 != fields[b].0);
                } else {
                    assert(after[a] == fields[a]);
                }
            }
        },
    }
}

/// A record built from one whose names are distinct has distinct names: a
/// record never holds a name twice.
pub proof fn record_names_distinct(hm: HostModel, 
    fuel: nat,
    g: SEnv,
    env: SEnv,
    fields: Seq<(Seq<char>, SSp)>,
    acc: Seq<(Seq<char>, SValue)>,
)
    requires
        distinct_names(acc),
    ensures
        sem_record(hm, fuel, g, env, fields, acc) matches Some(Ok(m)) ==> distinct_names(m),
    decreases fields.len(),
{
    if fields.len() > 0 {
        match sem_eval(hm, fuel, g, env, fields[0].1.node) {
            Some(Ok(v)) => {
                field_set_keeps_names_distinct(acc, fields[0].0, v);
                record_names_distinct(hm, fuel, g, env, fields.drop_first(), field_set(acc, fields[0].0, v));
            },
            _ => {},
        }
    }
}

/// A variable is looked up in the local environment first, and in the
/// global one only where no local binding has its name; so a definition sees
/// every definition registered before it is run, its own included.
pub proof fn variables_resolve_locally_first(hm: HostModel, fuel: nat, g: SEnv, env: SEnv, name: Seq<char>)
    requires
        fuel > 0,
    ensures
        lookup(env, name) matches Some(v) ==> sem_eval(hm, fuel, g, env, SExpr::Var(name)) == ok(v),
        lookup(env, name) is None ==> sem_eval(hm, fuel, g, env, SExpr::Var(name)) == match lookup(g, name) {
            Some(v) => ok(v),
            None => fail(SErr::Undefined(name)),
        },
{
}

/// Applying a function of several parameters to one argument binds the first
/// and awaits the rest; applying a constructor adds the argument to its
/// payload.
pub proof fn application_is_curried(hm: HostModel, fuel: nat, g: SEnv, func: SValue, arg: SValue)
    requires
        fuel > 0,
    ensures
        match func {
            SValue::Closure { env, params, body } => params.len() >= 2 ==> sem_apply(hm, fuel, g, func, arg)
                == ok(
                SValue::Closure { env: env.push((params[0], arg)), params: params.drop_first(), body },
            ),
            SValue::Constructor(name, args) => sem_apply(hm, fuel, g, func, arg) == ok(
                SValue::Constructor(name, args.push(arg)),
            ),
            _ => true,
        },
{
}

/// A host model whose comparisons of floats relate as IEEE-754's do: `!=`
/// is the negation of `==`, `==` does not depend on the order of its
/// operands, and `<` and `<=` are `>` and `>=` with the operands swapped.
pub open spec fn consistent_compare(hm: HostModel) -> bool {
    &&& forall|a: u64, b: u64|
        #![trigger h_truth(hm, Question::Compare(BinOp::Neq, a, b))]
        h_truth(hm, Question::Compare(BinOp::Neq, a, b)) == !h_truth(hm, Question::Compare(BinOp::Eq, a, b))
    &&& forall|a: u64, b: u64|
        #![trigger h_truth(hm, Question::Compare(BinOp::Eq, a, b))]
        h_truth(hm, Question::Compare(BinOp::Eq, a, b)) == h_truth(hm, Question::Compare(BinOp::Eq, b, a))
    &&& forall|a: u64, b: u64|
        #![trigger h_truth(hm, Question::Compare(BinOp::Lt, a, b))]
        h_truth(hm, Question::Compare(BinOp::Lt, a, b)) == h_truth(hm, Question::Compare(BinOp::Gt, b, a))
    &&& forall|a: u64, b: u64|
        #![trigger h_truth(hm, Question::Compare(BinOp::Leq, a, b))]
        h_truth(hm, Question::Compare(BinOp::Leq, a, b)) == h_truth(hm, Question::Compare(BinOp::Geq, b, a))
}

/// `==` and `!=` are complements and neither depends on the order of its
/// operands, and `<` and `<=` are `>` and `>=` with the operands swapped:
/// on any two values but two floats, and on two floats where the host's
/// comparisons relate as IEEE-754's do.
pub proof fn equality_laws(hm: HostModel, l: SValue, r: SValue)
    requires
        l is Float && r is Float ==> consistent_compare(hm),
    ensures
        sem_binop(hm, BinOp::Eq, l, r) matches Some(Ok(SValue::Bool(b))) ==> sem_binop(hm, BinOp::Neq, l, r)
            == ok(SValue::Bool(!b)),
        sem_binop(hm, BinOp::Eq, l, r) matches Some(Ok(_)) ==> sem_binop(hm, BinOp::Eq, r, l) == sem_binop(
            hm,
            BinOp::Eq,
            l,
            r,
        ),
        sem_binop(hm, BinOp::Neq, l, r) matches Some(Ok(_)) ==> sem_binop(hm, BinOp::Neq, r, l)
            == sem_binop(hm, BinOp::Neq, l, r),
        sem_binop(hm, BinOp::Lt, l, r) matches Some(Ok(_)) ==> sem_binop(hm, BinOp::Gt, r, l) == sem_binop(
            hm,
            BinOp::Lt,
            l,
            r,
        ),
        sem_binop(hm, BinOp::Leq, l, r) matches Some(Ok(_)) ==> sem_binop(hm, BinOp::Geq, r, l)
            == sem_binop(hm, BinOp::Leq, l, r),
{
}

} // verus!

//! The evaluator: big-step evaluation of expressions in environments.

use vstd::prelude::*;
use vstd::string::*;

use crate::ast::{
    arms_v, copy_expr, copy_pat, copy_strings, fields_v, group_ast_views, lemma_arms_v, lemma_fields_v,
    lemma_pat_fields_v, lemma_pats_v, lemma_sps_v, pat_fields_v, pats_v, sp_v, spe, sps_v, strs_v,
    BinOp, Expr, MatchArm, Pattern, SExpr, SPattern, SSp, SpExpr, Spanned,
};
use crate::display::display;
use crate::host::{agrees, agrees_earlier, ask_bits, ask_truth, grows, texts_agree, Host, HostModel, Question, Trace};
use crate::semantics::{
    binop_error, err_fits, host_binop, is_arith, is_compare, field_get, field_set, find_field, fits, int_div, int_neg, is_builtin,
    type_msg, show_in, TextModel,
    op_name, pat_binds, binds_all, binds_fields, sem_apply, sem_arms, sem_binop, sem_block, sem_builtin, sem_eval, sem_filter,
    sem_fold, sem_items, sem_map, sem_match, sem_match_all, sem_match_fields, sem_record, show,
    MatchRes, Outcome, SErr, print_arg, print_line, prints_apply, prints_arms, prints_block, prints_builtin,
    prints_eval, prints_filter, prints_fold, prints_items, prints_map, prints_record,
};
use crate::text::{has_prefix, push_str, str_eq, string_of};
use crate::token::Span;
use crate::value::{
    copy_value, copy_values, group_value_views, lemma_rec_v, lemma_vals_v, lookup,
    rec_v, val_v, vals_v, Env, SEnv, SValue, Value,
};

verus! {

broadcast use agrees_earlier;

/// The depth of evaluation an evaluator allows unless told otherwise:
/// evaluations of expressions and applications nested deeper than this fail
/// with `DepthExceeded`. The bound only makes the termination of evaluation
/// evident; no evaluation on a real machine nests this deep.
pub const MAX_DEPTH: u64 = 0xffff_ffff_ffff_ffff;

#[derive(Debug)]
pub enum EvalError {
    Undefined(String),
    TypeError(String),
    NonExhaustiveMatch,
    /// An integer division whose quotient does not fit (`i64::MIN / -1`).
    Overflow,
    DivisionByZero,
    Arity { expected: usize, got: usize },
    /// Evaluation nested deeper than the evaluator allows.
    DepthExceeded,
}

pub type EvalResult = Result<Value, EvalError>;

pub open spec fn err_v(e: EvalError) -> SErr {
    match e {
        EvalError::Undefined(s) => SErr::Undefined(s@),
        EvalError::TypeError(s) => SErr::TypeError(Some(s@)),
        EvalError::Overflow => SErr::Overflow,
        EvalError::NonExhaustiveMatch => SErr::NonExhaustiveMatch,
        EvalError::DivisionByZero => SErr::DivisionByZero,
        EvalError::Arity { expected, got } => SErr::Arity { expected, got },
        EvalError::DepthExceeded => SErr::DepthExceeded,
    }
}

pub open spec fn res_v(r: EvalResult) -> Result<SValue, SErr> {
    match r {
        Ok(v) => Ok(v@),
        Err(e) => Err(err_v(e)),
    }
}

pub open spec fn vres_v(r: Result<Vec<Value>, EvalError>) -> Result<Seq<SValue>, SErr> {
    match r {
        Ok(v) => Ok(vals_v(v@)),
        Err(e) => Err(err_v(e)),
    }
}

pub open spec fn rres_v(r: Result<Vec<(String, Value)>, EvalError>) -> Result<
    Seq<(Seq<char>, SValue)>,
    SErr,
> {
    match r {
        Ok(v) => Ok(rec_v(v@)),
        Err(e) => Err(err_v(e)),
    }
}

/// A type error whose message is `prefix` followed by the text of `v`.
fn type_error_x<H: Host>(prefix: &str, v: &Value, host: &H, out: &mut Trace) -> (r: EvalError)
    requires
        old(out).wf(),
    ensures
        final(out).wf(),
        grows(*old(out), *final(out)),
        final(out).printed_v() == old(out).printed_v(),
        final(out).answers_v() == old(out).answers_v(),
        r is TypeError,
        forall|hm: HostModel| #![all_triggers] agrees(hm, *final(out)) ==> (
            show_in(hm.1, v@) matches Some(t)
                ==> err_v(r) == type_msg(prefix@ + t)),
        show(v@) matches Some(t) ==> err_v(r) == type_msg(prefix@ + t),
{
    let mut msg = string_of(prefix);
    let t = display(v, host, out);
    push_str(&mut msg, t.as_str());
    EvalError::TypeError(msg)
}

fn type_error_lit(msg: &str) -> (r: EvalError)
    ensures
        err_v(r) == type_msg(msg@),
{
    EvalError::TypeError(string_of(msg))
}

fn op_name_x(op: BinOp) -> (r: &'static str)
    ensures
        r@ == op_name(op),
{
    match op {
        BinOp::Add => "Add",
        BinOp::Sub => "Sub",
        BinOp::Mul => "Mul",
        BinOp::Div => "Div",
        BinOp::Mod => "Mod",
        BinOp::Eq => "Eq",
        BinOp::Neq => "Neq",
        BinOp::Lt => "Lt",
        BinOp::Gt => "Gt",
        BinOp::Leq => "Leq",
        BinOp::Geq => "Geq",
        BinOp::And => "And",
        BinOp::Or => "Or",
        BinOp::Compose => "Compose",
    }
}

fn binop_error_x<H: Host>(op: BinOp, l: &Value, r: &Value, host: &H, out: &mut Trace) -> (e: EvalError)
    requires
        old(out).wf(),
    ensures
        final(out).wf(),
        grows(*old(out), *final(out)),
        final(out).printed_v() == old(out).printed_v(),
        final(out).answers_v() == old(out).answers_v(),
        forall|hm: HostModel| #![all_triggers] agrees(hm, *final(out)) ==> (
            binop_error(hm, op, l@, r@) matches Some(
                Err(x),
                ) ==> err_fits(err_v(e), x)),
{
    let mut msg = string_of("operator ");
    push_str(&mut msg, op_name_x(op));
    push_str(&mut msg, " not applicable to ");
    let a = display(l, host, out);
    push_str(&mut msg, a.as_str());
    push_str(&mut msg, " and ");
    let b = display(r, host, out);
    push_str(&mut msg, b.as_str());
    EvalError::TypeError(msg)
}

/// `a / b` or `a % b` for `b != 0`, or the overflow of `i64::MIN` by `-1`.
fn int_div_x(op: BinOp, a: i64, b: i64) -> (r: EvalResult)
    requires
        b != 0,
    ensures
        int_div(op, a, b) == Some(res_v(r)),
{
    let q = match op {
        BinOp::Div => a.checked_div(b),
        _ => a.checked_rem(b),
    };
    match q {
        Some(x) => Ok(Value::Int(x)),
        None => Err(EvalError::Overflow),
    }
}

fn int_neg_x(n: i64) -> (r: i64)
    ensures
        r == int_neg(n),
{
    if n == i64::MIN {
        i64::MIN
    } else {
        -n
    }
}

/// The index of the first field named `name`.
fn find_field_x(fields: &Vec<(String, Value)>, name: &str) -> (r: Option<usize>)
    ensures
        match r {
            Some(i) => find_field(rec_v(fields@), name@, 0) == Some(i as int) && i < fields@.len(),
            None => find_field(rec_v(fields@), name@, 0) is None,
        },
{
    let ghost fv = rec_v(fields@);
    proof {
        lemma_rec_v(fields@);
    }
    let mut i: usize = 0;
    while i < fields.len()
        invariant
            i <= fields@.len(),
            fv == rec_v(fields@),
            fv.len() == fields@.len(),
            forall|j: int| 0 <= j < fv.len() ==> fv[j].0 == fields@[j].0@,
            find_field(fv, name@, 0) == find_field(fv, name@, i as int),
        decreases fields@.len() - i,
    {
        if str_eq(fields[i].0.as_str(), name) {
            return Some(i);
        }
        i = i + 1;
    }
    None
}

/// Sets the field `name` to `v`: in place where the record has it, else at
/// the end.
fn field_set_x(fields: &mut Vec<(String, Value)>, name: String, v: Value)
    ensures
        rec_v(final(fields)@) == field_set(rec_v(old(fields)@), name@, v@),
{
    broadcast use group_value_views;

    let ghost before = rec_v(fields@);
    match find_field_x(fields, name.as_str()) {
        Some(i) => {
            proof {
                lemma_rec_v(fields@);
            }
            fields.set(i, (name, v));
            proof {
                lemma_rec_v(fields@);
            }
            assert(rec_v(fields@) =~= before.update(i as int, (name@, v@)));
        },
        None => {
            let ghost nv = (name@, v@);
            fields.push((name, v));
            assert(rec_v(fields@) =~= before.push(nv));
        },
    }
}


// ── Patterns ──────────────────────────────────────────────────────────────────

/// Matches a value against a pattern: the bindings it makes, or `None`. A
/// float pattern matches a float where the host says the two are equal.
pub fn match_pattern<H: Host>(p: &Pattern, v: &Value, host: &H, out: &mut Trace) -> (r: Option<Vec<(String, Value)>>)
    requires
        old(out).wf(),
    ensures
        grows(*old(out), *final(out)),
        final(out).wf(),
        final(out).printed_v() == old(out).printed_v(),
        forall|hm: HostModel| #![all_triggers] agrees(hm, *final(out)) ==> (
            match sem_match(hm, p@, v@) {
                MatchRes::Binds(b) => r matches Some(x) && rec_v(x@) == b,
                MatchRes::NoMatch => r is None,
                }),
        r matches Some(b) ==> rec_v(b@) == pat_binds(p@, v@),
    decreases p, 0int,
{
    broadcast use group_value_views;

    match p {
        Pattern::Wildcard => {
            let bs: Vec<(String, Value)> = Vec::new();
            assert(rec_v(bs@) =~= seq![]);
            Some(bs)
        },
        Pattern::Var(name) => {
            let mut bs: Vec<(String, Value)> = Vec::new();
            let c = copy_value(v);
            let ghost bv = (name@, c@);
            bs.push((name.clone(), c));
            assert(rec_v(bs@) =~= seq![bv]);
            Some(bs)
        },
        Pattern::Int(n) => match v {
            Value::Int(m) => if *n == *m {
                let bs: Vec<(String, Value)> = Vec::new();
                assert(rec_v(bs@) =~= seq![]);
                Some(bs)
            } else {
                None
            },
            _ => None,
        },
        Pattern::Float(a) => match v {
            Value::Float(b) => if ask_truth(host, out, Question::Compare(BinOp::Eq, *a, *b)) {
                let bs: Vec<(String, Value)> = Vec::new();
                assert(rec_v(bs@) =~= seq![]);
                Some(bs)
            } else {
                None
            },
            _ => None,
        },
        Pattern::Str(a) => match v {
            Value::Str(b) => if *a == *b {
                let bs: Vec<(String, Value)> = Vec::new();
                assert(rec_v(bs@) =~= seq![]);
                Some(bs)
            } else {
                None
            },
            _ => None,
        },
        Pattern::Bool(a) => match v {
            Value::Bool(b) => if *a == *b {
                let bs: Vec<(String, Value)> = Vec::new();
                assert(rec_v(bs@) =~= seq![]);
                Some(bs)
            } else {
                None
            },
            _ => None,
        },
        Pattern::Constructor(name, pats) => match v {
            Value::Constructor(vname, vals) => {
                proof {
                    lemma_pats_v(pats@);
                    lemma_vals_v(vals@);
                }
                if *name != *vname || pats.len() != vals.len() {
                    None
                } else {
                    assert(pats_v(pats@).skip(0) =~= pats_v(pats@));
                    assert(vals_v(vals@).skip(0) =~= vals_v(vals@));
                    match_all(pats, vals, 0, host, out)
                }
            },
            _ => None,
        },
        Pattern::Tuple(pats) => match v {
            Value::Tuple(vals) => {
                proof {
                    lemma_pats_v(pats@);
                    lemma_vals_v(vals@);
                }
                if pats.len() != vals.len() {
                    None
                } else {
                    assert(pats_v(pats@).skip(0) =~= pats_v(pats@));
                    assert(vals_v(vals@).skip(0) =~= vals_v(vals@));
                    match_all(pats, vals, 0, host, out)
                }
            },
            _ => None,
        },
        Pattern::Record(fields) => match v {
            Value::Record(map) => {
                assert(pat_fields_v(fields@).skip(0) =~= pat_fields_v(fields@));
                match_fields(fields, 0, map, host, out)
            },
            _ => None,
        },
    }
}

fn match_all<H: Host>(pats: &Vec<Pattern>, vals: &Vec<Value>, i: usize, host: &H, out: &mut Trace) -> (r: Option<
    Vec<(String, Value)>,
>)
    requires
        i <= pats@.len(),
        pats@.len() == vals@.len(),
        old(out).wf(),
    ensures
        grows(*old(out), *final(out)),
        final(out).wf(),
        final(out).printed_v() == old(out).printed_v(),
        forall|hm: HostModel| #![all_triggers] agrees(hm, *final(out)) ==> (
            match sem_match_all(hm, pats_v(pats@).skip(i as int), vals_v(vals@).skip(i as int)) {
                MatchRes::Binds(b) => r matches Some(x) && rec_v(x@) == b,
                MatchRes::NoMatch => r is None,
                }),
        r matches Some(x) ==> rec_v(x@) == binds_all(
            pats_v(pats@).skip(i as int),
            vals_v(vals@).skip(i as int),
        ),
    decreases pats, pats@.len() - i,
{
    broadcast use group_value_views;
    broadcast use group_ast_views;

    let ghost ps = pats_v(pats@).skip(i as int);
    let ghost vs = vals_v(vals@).skip(i as int);
    if i == pats.len() {
        let bs: Vec<(String, Value)> = Vec::new();
        assert(rec_v(bs@) =~= seq![]);
        return Some(bs);
    }
    assert(ps[0] == pats@[i as int]@);
    assert(vs[0] == vals@[i as int]@);
    assert(ps.drop_first() =~= pats_v(pats@).skip(i + 1));
    assert(vs.drop_first() =~= vals_v(vals@).skip(i + 1));
    match match_pattern(&pats[i], &vals[i], host, out) {
        None => None,
        Some(mut b) => match match_all(pats, vals, i + 1, host, out) {
            None => None,
            Some(mut rest) => {
                let ghost bv = rec_v(b@);
                let ghost rv = rec_v(rest@);
                b.append(&mut rest);
                assert(rec_v(b@) =~= bv + rv);
                Some(b)
            },
        },
    }
}

fn match_fields<H: Host>(
    fields: &Vec<(String, Pattern)>,
    i: usize,
    map: &Vec<(String, Value)>,
    host: &H,
    out: &mut Trace,
) -> (r: Option<Vec<(String, Value)>>)
    requires
        i <= fields@.len(),
        old(out).wf(),
    ensures
        grows(*old(out), *final(out)),
        final(out).wf(),
        final(out).printed_v() == old(out).printed_v(),
        forall|hm: HostModel| #![all_triggers] agrees(hm, *final(out)) ==> (
            match sem_match_fields(hm, pat_fields_v(fields@).skip(i as int), rec_v(map@)) {
                MatchRes::Binds(b) => r matches Some(x) && rec_v(x@) == b,
                MatchRes::NoMatch => r is None,
                }),
        r matches Some(x) ==> rec_v(x@) == binds_fields(pat_fields_v(fields@).skip(i as int), rec_v(map@)),
    decreases fields, fields@.len() - i,
{
    broadcast use group_value_views;
    broadcast use group_ast_views;

    let ghost fs = pat_fields_v(fields@).skip(i as int);
    if i == fields.len() {
        let bs: Vec<(String, Value)> = Vec::new();
        assert(rec_v(bs@) =~= seq![]);
        return Some(bs);
    }
    assert(fs[0] == (fields@[i as int].0@, fields@[i as int].1@));
    assert(fs.drop_first() =~= pat_fields_v(fields@).skip(i + 1));
    match find_field_x(map, fields[i].0.as_str()) {
        None => None,
        Some(k) => {
            proof {
                lemma_rec_v(map@);
            }
            assert(field_get(rec_v(map@), fields@[i as int].0@) == Some(map@[k as int].1@));
            match match_pattern(&fields[i].1, &map[k].1, host, out) {
                None => None,
                Some(mut b) => match match_fields(fields, i + 1, map, host, out) {
                    None => None,
                    Some(mut rest) => {
                        let ghost bv = rec_v(b@);
                        let ghost rv = rec_v(rest@);
                        b.append(&mut rest);
                        assert(rec_v(b@) =~= bv + rv);
                        Some(b)
                    },
                },
            }
        },
    }
}

// ── Operators ─────────────────────────────────────────────────────────────────

/// A binary operator applied to two values. Arithmetic on floats answers a
/// float and a comparison of floats a boolean: the host's answers to the
/// questions that name the operator and the operands in order, an integer
/// operand first turned into a float by the host.
pub fn eval_binop<H: Host>(op: BinOp, l: Value, r: Value, host: &H, out: &mut Trace) -> (res: EvalResult)
    requires
        old(out).wf(),
    ensures
        grows(*old(out), *final(out)),
        final(out).wf(),
        final(out).printed_v() == old(out).printed_v(),
        forall|hm: HostModel| #![all_triggers] agrees(hm, *final(out)) ==> (
            sem_binop(hm, op, l@, r@) matches Some(o) ==> fits(res_v(res), o)
        ),
        host_binop(op, l@, r@) && is_arith(op) ==> res matches Ok(Value::Float(_)),
        host_binop(op, l@, r@) && is_compare(op) ==> res matches Ok(Value::Bool(_)),
{
    let v = match (&l, &r) {
        (Value::Int(a), Value::Int(b)) => {
            let a = *a;
            let b = *b;
            match op {
                BinOp::Add => Ok(Value::Int(a.wrapping_add(b))),
                BinOp::Sub => Ok(Value::Int(a.wrapping_sub(b))),
                BinOp::Mul => Ok(Value::Int(a.wrapping_mul(b))),
                BinOp::Div | BinOp::Mod => if b == 0 {
                    Err(EvalError::DivisionByZero)
                } else {
                    int_div_x(op, a, b)
                },
                BinOp::Eq => Ok(Value::Bool(a == b)),
                BinOp::Neq => Ok(Value::Bool(a != b)),
                BinOp::Lt => Ok(Value::Bool(a < b)),
                BinOp::Gt => Ok(Value::Bool(a > b)),
                BinOp::Leq => Ok(Value::Bool(a <= b)),
                BinOp::Geq => Ok(Value::Bool(a >= b)),
                _ => Err(binop_error_x(op, &l, &r, host, out)),
            }
        },
        (Value::Float(a), Value::Float(b)) => match op {
            BinOp::Add | BinOp::Sub | BinOp::Mul | BinOp::Div => {
                let z = ask_bits(host, out, Question::Arith(op, *a, *b));
                return Ok(Value::Float(z));
            },
            BinOp::Eq | BinOp::Neq | BinOp::Lt | BinOp::Gt | BinOp::Leq | BinOp::Geq => {
                let c = ask_truth(host, out, Question::Compare(op, *a, *b));
                return Ok(Value::Bool(c));
            },
            _ => Err(binop_error_x(op, &l, &r, host, out)),
        },
        (Value::Int(a), Value::Float(b)) => match op {
            BinOp::Add | BinOp::Sub | BinOp::Mul | BinOp::Div => {
                let x = ask_bits(host, out, Question::FromInt(*a));
                let z = ask_bits(host, out, Question::Arith(op, x, *b));
                return Ok(Value::Float(z));
            },
            _ => Err(binop_error_x(op, &l, &r, host, out)),
        },
        (Value::Float(a), Value::Int(b)) => match op {
            BinOp::Add | BinOp::Sub | BinOp::Mul | BinOp::Div => {
                let y = ask_bits(host, out, Question::FromInt(*b));
                let z = ask_bits(host, out, Question::Arith(op, *a, y));
                return Ok(Value::Float(z));
            },
            _ => Err(binop_error_x(op, &l, &r, host, out)),
        },
        (Value::Str(a), Value::Str(b)) => match op {
            BinOp::Add => {
                let mut s = a.clone();
                push_str(&mut s, b.as_str());
                Ok(Value::Str(s))
            },
            BinOp::Eq => Ok(Value::Bool(*a == *b)),
            BinOp::Neq => Ok(Value::Bool(!(*a == *b))),
            _ => Err(binop_error_x(op, &l, &r, host, out)),
        },
        (Value::Bool(a), Value::Bool(b)) => match op {
            BinOp::Eq => Ok(Value::Bool(*a == *b)),
            BinOp::Neq => Ok(Value::Bool(*a != *b)),
            BinOp::And => Ok(Value::Bool(*a && *b)),
            BinOp::Or => Ok(Value::Bool(*a || *b)),
            _ => Err(binop_error_x(op, &l, &r, host, out)),
        },
        _ => Err(binop_error_x(op, &l, &r, host, out)),
    };
    v
}


// ── Built-in functions ────────────────────────────────────────────────────────

/// Whether `a` is `b` with some elements left out, the rest in order.
pub open spec fn is_subseq(a: Seq<SValue>, b: Seq<SValue>) -> bool
    decreases b.len(),
{
    if b.len() == 0 {
        a.len() == 0
    } else if a.len() > 0 && a[0] == b[0] && is_subseq(a.drop_first(), b.drop_first()) {
        true
    } else {
        is_subseq(a, b.drop_first())
    }
}

/// A bound value that is not a list.
pub open spec fn non_list(v: Option<SValue>) -> bool {
    match v {
        Some(x) => !(x is List),
        None => false,
    }
}

/// Mapping over a list keeps its length.
pub open spec fn map_kept(xs: Option<SValue>, r: EvalResult) -> bool {
    match (xs, r) {
        (Some(SValue::List(items)), Ok(Value::List(vs))) => vs@.len() == items.len(),
        _ => true,
    }
}

/// Filtering a list keeps some of its items, in order.
pub open spec fn filter_kept(xs: Option<SValue>, r: EvalResult) -> bool {
    match (xs, r) {
        (Some(SValue::List(items)), Ok(Value::List(vs))) => is_subseq(vals_v(vs@), items),
        _ => true,
    }
}

/// The built-in functions that take a list `xs`.
pub open spec fn list_builtin(s: Seq<char>) -> bool {
    s == "__builtin_map__"@ || s == "__builtin_filter__"@ || s == "__builtin_fold__"@ || s
        == "__builtin_head__"@ || s == "__builtin_tail__"@ || s == "__builtin_len__"@
}

/// Whether the parameters a built-in function reads before its list are bound.
pub open spec fn args_bound(s: Seq<char>, env: SEnv) -> bool {
    (s == "__builtin_map__"@ || s == "__builtin_filter__"@ ==> lookup(env, "f"@) is Some) && (s
        == "__builtin_fold__"@ ==> lookup(env, "init"@) is Some && lookup(env, "f"@) is Some)
}

proof fn lemma_builtin_names_distinct()
    ensures
        !list_builtin("__builtin_print__"@),
        "__builtin_map__"@ != "__builtin_filter__"@,
        "__builtin_map__"@ != "__builtin_fold__"@,
        "__builtin_filter__"@ != "__builtin_fold__"@,
{
    reveal_strlit("__builtin_print__");
    reveal_strlit("__builtin_map__");
    reveal_strlit("__builtin_filter__");
    reveal_strlit("__builtin_fold__");
    reveal_strlit("__builtin_head__");
    reveal_strlit("__builtin_tail__");
    reveal_strlit("__builtin_len__");
    assert("__builtin_print__"@[10] != "__builtin_map__"@[10]);
    assert("__builtin_print__"@[10] != "__builtin_filter__"@[10]);
    assert("__builtin_print__"@[10] != "__builtin_fold__"@[10]);
    assert("__builtin_print__"@[10] != "__builtin_head__"@[10]);
    assert("__builtin_print__"@[10] != "__builtin_tail__"@[10]);
    assert("__builtin_print__"@[10] != "__builtin_len__"@[10]);
    assert("__builtin_map__"@[10] != "__builtin_filter__"@[10]);
    assert("__builtin_map__"@[10] != "__builtin_fold__"@[10]);
    assert("__builtin_filter__"@[11] != "__builtin_fold__"@[11]);
}

/// A built-in function: a closure over nothing whose body names it.
pub open spec fn builtin_closure(params: Seq<Seq<char>>, sentinel: Seq<char>) -> SValue {
    SValue::Closure {
        env: Seq::empty(),
        params,
        body: Box::new(
            Spanned { node: SExpr::Var(sentinel), span: std::ops::Range { start: 0, end: 0 } },
        ),
    }
}

/// The global environment before any definition: the built-in functions.
pub open spec fn builtin_globals() -> SEnv {
    seq![
        ("print"@, builtin_closure(seq!["x"@], "__builtin_print__"@)),
        ("map"@, builtin_closure(seq!["f"@, "xs"@], "__builtin_map__"@)),
        ("filter"@, builtin_closure(seq!["f"@, "xs"@], "__builtin_filter__"@)),
        ("fold"@, builtin_closure(seq!["init"@, "f"@, "xs"@], "__builtin_fold__"@)),
        ("head"@, builtin_closure(seq!["xs"@], "__builtin_head__"@)),
        ("tail"@, builtin_closure(seq!["xs"@], "__builtin_tail__"@)),
        ("len"@, builtin_closure(seq!["xs"@], "__builtin_len__"@)),
    ]
}

fn builtin_value(params: Vec<String>, sentinel: &str) -> (r: Value)
    ensures
        r@ == builtin_closure(strs_v(params@), sentinel@),
{
    let body = Spanned::new(Expr::Var(string_of(sentinel)), std::ops::Range { start: 0, end: 0 });
    Value::Closure { env: Env::new(), params, body: Box::new(body) }
}

fn names1(a: &str) -> (r: Vec<String>)
    ensures
        strs_v(r@) == seq![a@],
{
    let mut v: Vec<String> = Vec::new();
    v.push(string_of(a));
    assert(strs_v(v@) =~= seq![a@]);
    v
}

fn names2(a: &str, b: &str) -> (r: Vec<String>)
    ensures
        strs_v(r@) == seq![a@, b@],
{
    let mut v: Vec<String> = Vec::new();
    v.push(string_of(a));
    v.push(string_of(b));
    assert(strs_v(v@) =~= seq![a@, b@]);
    v
}

fn names3(a: &str, b: &str, c: &str) -> (r: Vec<String>)
    ensures
        strs_v(r@) == seq![a@, b@, c@],
{
    let mut v: Vec<String> = Vec::new();
    v.push(string_of(a));
    v.push(string_of(b));
    v.push(string_of(c));
    assert(strs_v(v@) =~= seq![a@, b@, c@]);
    v
}

/// The environment of the built-in functions.
fn builtin_env() -> (r: Env)
    ensures
        r@ == builtin_globals(),
{
    let mut env = Env::new();
    env = env.extend(string_of("print"), builtin_value(names1("x"), "__builtin_print__"));
    env = env.extend(string_of("map"), builtin_value(names2("f", "xs"), "__builtin_map__"));
    env = env.extend(string_of("filter"), builtin_value(names2("f", "xs"), "__builtin_filter__"));
    env = env.extend(
        string_of("fold"),
        builtin_value(names3("init", "f", "xs"), "__builtin_fold__"),
    );
    env = env.extend(string_of("head"), builtin_value(names1("xs"), "__builtin_head__"));
    env = env.extend(string_of("tail"), builtin_value(names1("xs"), "__builtin_tail__"));
    env = env.extend(string_of("len"), builtin_value(names1("xs"), "__builtin_len__"));
    assert(env@ =~= builtin_globals());
    env
}

// ── Evaluator ─────────────────────────────────────────────────────────────────

impl<H: Host + Default> Default for Evaluator<H> {
    /// An evaluator with the host's default, as `new` makes it.
    fn default() -> (r: Self)
        ensures
            r.globals() == builtin_globals(),
            r.max_depth() == MAX_DEPTH,
    {
        Self::new(H::default())
    }
}

/// An evaluator: a global environment of definitions, and the host that does
/// float arithmetic and gives floats their text. What `print` writes, and the
/// host's answers, go to the `Trace` each evaluation is handed.
pub struct Evaluator<H: Host> {
    global: Env,
    host: H,
    depth: u64,
}

impl<H: Host> Evaluator<H> {
    /// The model of the global environment.
    pub closed spec fn globals(&self) -> SEnv {
        self.global@
    }

    /// The depth of evaluation allowed.
    pub closed spec fn max_depth(&self) -> nat {
        self.depth as nat
    }

    /// An evaluator whose global environment holds the built-in functions,
    /// allowing evaluation to nest `MAX_DEPTH` deep.
    pub fn new(host: H) -> (r: Self)
        ensures
            r.globals() == builtin_globals(),
            r.max_depth() == MAX_DEPTH,
    {
        Evaluator { global: builtin_env(), host, depth: MAX_DEPTH }
    }

    /// An evaluator whose global environment holds the built-in functions,
    /// allowing evaluation to nest `depth` deep.
    pub fn with_max_depth(host: H, depth: u64) -> (r: Self)
        ensures
            r.globals() == builtin_globals(),
            r.max_depth() == depth,
    {
        Evaluator { global: builtin_env(), host, depth }
    }

    /// The global environment: the built-in functions, then the definitions.
    pub fn global_env(&self) -> (r: &Env)
        ensures
            r@ == self.globals(),
    {
        &self.global
    }

    /// The host the evaluator was made with.
    pub closed spec fn host_value(&self) -> H {
        self.host
    }

    /// The host the evaluator was made with.
    pub fn host(&self) -> (r: &H)
        ensures
            *r == self.host_value(),
    {
        &self.host
    }

    /// Registers a top-level definition in the global environment. With
    /// parameters it binds a closure over the current global environment;
    /// without, it evaluates the body there at once and binds the value, or
    /// `Unit` and answers the error where the evaluation fails.
    pub fn define(&mut self, name: String, params: Vec<String>, body: Spanned<Expr>, out: &mut Trace) -> (r: Option<
        EvalError,
    >)
        requires
            old(out).wf(),
        ensures
            grows(*old(out), *final(out)),
            final(out).wf(),
            final(self).globals().len() == old(self).globals().len() + 1,
            final(self).globals().drop_last() == old(self).globals(),
            final(self).globals().last().0 == name@,
            final(self).max_depth() == old(self).max_depth(),
            params@.len() > 0 ==> r is None && final(self).globals().last().1 == (SValue::Closure {
                env: old(self).globals(),
                params: strs_v(params@),
                body: Box::new(spe(body)),
            }),
            forall|hm: HostModel| #![all_triggers] agrees(hm, *final(out)) ==> (
                params@.len() == 0 ==> (sem_eval(hm,
                    old(self).max_depth(),
                    old(self).globals(),
                    old(self).globals(),
                    body.node@,
                    ) matches Some(o) ==> match o {
                    Ok(v) => r is None && final(self).globals().last().1 == v,
                    Err(e) => r matches Some(x) && err_fits(err_v(x), e) && final(self).globals().last().1
                        == SValue::Unit,
                    })),
            params@.len() > 0 ==> final(out).printed_v() == old(out).printed_v() && final(out).answers_v()
                == old(out).answers_v() && final(out).texts_v() == old(out).texts_v(),
            forall|hm: HostModel| #![all_triggers] agrees(hm, *final(out)) ==> (
                params@.len() == 0 && sem_eval(
                    hm,
                    old(self).max_depth(),
                    old(self).globals(),
                    old(self).globals(),
                    body.node@,
                ) is Some ==> strs_v(final(out).printed_v()) == prints_eval(
                    hm,
                    old(self).max_depth(),
                    old(self).globals(),
                    old(self).globals(),
                    body.node@,
                    strs_v(old(out).printed_v()),
                )
            ),
    {
        let g = self.global.share();
        let mut err: Option<EvalError> = None;
        let value = if params.len() == 0 {
            match self.ev(&g, &body.node, self.depth, out) {
                Ok(v) => v,
                Err(e) => {
                    err = Some(e);
                    Value::Unit
                },
            }
        } else {
            Value::Closure { env: g, params, body: Box::new(body) }
        };
        let ghost old_g = self.global@;
        self.global = self.global.extend(name, value);
        assert(self.global@.drop_last() =~= old_g);
        err
    }

    /// Evaluates an expression in a given environment; names it does not bind
    /// are looked up in the global environment. The result is the one the
    /// semantics gives under every model of the host that agrees with the
    /// trace: what is computed, whatever the host answers.
    pub fn eval(&self, env: &Env, expr: &Spanned<Expr>, out: &mut Trace) -> (r: EvalResult)
        requires
            old(out).wf(),
        ensures
            grows(*old(out), *final(out)),
            final(out).wf(),
            forall|hm: HostModel| #![all_triggers] agrees(hm, *final(out)) ==> (
                sem_eval(hm, self.max_depth(), self.globals(), env@, expr.node@) matches Some(o) ==> fits(
                    res_v(r),
                    o,
            )),
            forall|hm: HostModel| #![all_triggers] agrees(hm, *final(out)) ==> (
                sem_eval(hm, self.max_depth(), self.globals(), env@, expr.node@) is Some ==> strs_v(final(out).printed_v()) == prints_eval(hm, self.max_depth(), self.globals(), env@, expr.node@, strs_v(old(out).printed_v()))
            ),
    {
        self.ev(env, &expr.node, self.depth, out)
    }

    fn ev(&self, env: &Env, e: &Expr, fuel: u64, out: &mut Trace) -> (r: EvalResult)
        requires
            old(out).wf(),
        ensures
            grows(*old(out), *final(out)),
            final(out).wf(),
            forall|hm: HostModel| #![all_triggers] agrees(hm, *final(out)) ==> (
                sem_eval(hm, fuel as nat, self.globals(), env@, e@) matches Some(o) ==> fits(res_v(r), o)
            ),
            forall|hm: HostModel| #![all_triggers] agrees(hm, *final(out)) ==> (
                sem_eval(hm, fuel as nat, self.globals(), env@, e@) is Some ==> strs_v(final(out).printed_v()) == prints_eval(hm, fuel as nat, self.globals(), env@, e@, strs_v(old(out).printed_v()))
            ),
        decreases fuel, 0int, 0int,
    {
        if fuel == 0 {
            return Err(EvalError::DepthExceeded);
        }
        let f = fuel - 1;
        match e {
            Expr::Int(n) => Ok(Value::Int(*n)),
            Expr::Float(b) => Ok(Value::Float(*b)),
            Expr::Str(s) => Ok(Value::Str(s.clone())),
            Expr::Bool(b) => Ok(Value::Bool(*b)),
            Expr::Var(name) => match env.get(name.as_str()) {
                Some(v) => Ok(copy_value(v)),
                None => match self.global.get(name.as_str()) {
                    Some(v) => Ok(copy_value(v)),
                    None => Err(EvalError::Undefined(name.clone())),
                },
            },
            Expr::Constructor(name) => {
                let v: Vec<Value> = Vec::new();
                assert(vals_v(v@) =~= seq![]);
                Ok(Value::Constructor(name.clone(), v))
            },
            Expr::Neg(inner) => self.ev_neg(env, inner, f, out),
            Expr::Not(inner) => self.ev_not(env, inner, f, out),
            Expr::BinOp { op, lhs, rhs } => {
                let l = self.ev(env, &lhs.node, f, out)?;
                let r = self.ev(env, &rhs.node, f, out)?;
                eval_binop(*op, l, r, &self.host, out)
            },
            Expr::Lambda { params, body } => {
                let b = copy_expr(body);
                Ok(Value::Closure { env: env.share(), params: copy_strings(params), body: Box::new(b) })
            },
            Expr::App { func, arg } => {
                let fv = self.ev(env, &func.node, f, out)?;
                let av = self.ev(env, &arg.node, f, out)?;
                self.ap(fv, av, f, out)
            },
            Expr::Let { name, value, body } => {
                let v = self.ev(env, &value.node, f, out)?;
                let env2 = env.extend(name.clone(), v);
                self.ev(&env2, &body.node, f, out)
            },
            Expr::If { cond, then_, else_ } => self.ev_if(env, cond, then_, else_, f, out),
            Expr::Match { scrutinee, arms } => {
                let v = self.ev(env, &scrutinee.node, f, out)?;
                assert(arms_v(arms@).skip(0) =~= arms_v(arms@));
                self.ev_arms(env, arms, 0, &v, f, out)
            },
            Expr::Pipe { lhs, rhs } => {
                let lv = self.ev(env, &lhs.node, f, out)?;
                let fv = self.ev(env, &rhs.node, f, out)?;
                self.ap(fv, lv, f, out)
            },
            Expr::List(items) => {
                assert(sps_v(items@).skip(0) =~= sps_v(items@));
                let vs = self.ev_items(env, items, 0, f, out)?;
                Ok(Value::List(vs))
            },
            Expr::Tuple(items) => {
                assert(sps_v(items@).skip(0) =~= sps_v(items@));
                let vs = self.ev_items(env, items, 0, f, out)?;
                Ok(Value::Tuple(vs))
            },
            Expr::Record(fields) => {
                assert(fields_v(fields@).skip(0) =~= fields_v(fields@));
                let acc: Vec<(String, Value)> = Vec::new();
                assert(rec_v(acc@) =~= seq![]);
                let m = self.ev_record(env, fields, 0, acc, f, out)?;
                Ok(Value::Record(m))
            },
            Expr::Field { record, field } => self.ev_field(env, record, field, f, out),
            Expr::RecordUpdate { base, fields } => self.ev_update(env, base, fields, f, out),
            Expr::Bind { .. } => Err(type_error_lit("async bind `<-` used outside async context")),
            Expr::Block(stmts) => {
                assert(sps_v(stmts@).skip(0) =~= sps_v(stmts@));
                self.ev_block(env, stmts, 0, Value::Unit, f, out)
            },
        }
    }

    fn ev_neg(&self, env: &Env, inner: &SpExpr, f: u64, out: &mut Trace) -> (r: EvalResult)
        requires
            old(out).wf(),
        ensures
            grows(*old(out), *final(out)),
            final(out).wf(),
            forall|hm: HostModel| #![all_triggers] agrees(hm, *final(out)) ==> (
                sem_eval(hm, (f + 1) as nat, self.globals(), env@, SExpr::Neg(sp_v(*inner))) matches Some(o)
                    ==> fits(res_v(r), o)),
            forall|hm: HostModel| #![all_triggers] agrees(hm, *final(out)) ==> (
                sem_eval(hm, (f + 1) as nat, self.globals(), env@, SExpr::Neg(sp_v(*inner))) is Some ==> strs_v(final(out).printed_v()) == prints_eval(hm, (f + 1) as nat, self.globals(), env@, SExpr::Neg(sp_v(*inner)), strs_v(old(out).printed_v()))
            ),
        decreases f, 1int, 0int,
    {
        let v = self.ev(env, &inner.node, f, out)?;
        match &v {
            Value::Int(n) => Ok(Value::Int(int_neg_x(*n))),
            Value::Float(b) => Ok(Value::Float(ask_bits(&self.host, out, Question::Neg(*b)))),
            _ => Err(type_error_x("cannot negate ", &v, &self.host, out)),
        }
    }

    fn ev_not(&self, env: &Env, inner: &SpExpr, f: u64, out: &mut Trace) -> (r: EvalResult)
        requires
            old(out).wf(),
        ensures
            grows(*old(out), *final(out)),
            final(out).wf(),
            forall|hm: HostModel| #![all_triggers] agrees(hm, *final(out)) ==> (
                sem_eval(hm, (f + 1) as nat, self.globals(), env@, SExpr::Not(sp_v(*inner))) matches Some(o)
                    ==> fits(res_v(r), o)),
            forall|hm: HostModel| #![all_triggers] agrees(hm, *final(out)) ==> (
                sem_eval(hm, (f + 1) as nat, self.globals(), env@, SExpr::Not(sp_v(*inner))) is Some ==> strs_v(final(out).printed_v()) == prints_eval(hm, (f + 1) as nat, self.globals(), env@, SExpr::Not(sp_v(*inner)), strs_v(old(out).printed_v()))
            ),
        decreases f, 1int, 0int,
    {
        let v = self.ev(env, &inner.node, f, out)?;
        match &v {
            Value::Bool(b) => Ok(Value::Bool(!*b)),
            _ => Err(type_error_x("cannot `not` ", &v, &self.host, out)),
        }
    }

    fn ev_if(&self, env: &Env, cond: &SpExpr, then_: &SpExpr, else_: &SpExpr, f: u64, out: &mut Trace) -> (r:
        EvalResult)
        requires
            old(out).wf(),
        ensures
            grows(*old(out), *final(out)),
            final(out).wf(),
            forall|hm: HostModel| #![all_triggers] agrees(hm, *final(out)) ==> (sem_eval(hm, 
                (f + 1) as nat,
                self.globals(),
                env@,
                SExpr::If { cond: sp_v(*cond), then_: sp_v(*then_), else_: sp_v(*else_) },
            ) matches Some(o) ==> fits(res_v(r), o)),
            forall|hm: HostModel| #![all_triggers] agrees(hm, *final(out)) ==> (
                sem_eval(hm, (f + 1) as nat, self.globals(), env@, SExpr::If { cond: sp_v(*cond), then_: sp_v(*then_), else_: sp_v(*else_) }) is Some
                    ==> strs_v(final(out).printed_v()) == prints_eval(
                    hm,
                    (f + 1) as nat,
                    self.globals(),
                    env@,
                    SExpr::If { cond: sp_v(*cond), then_: sp_v(*then_), else_: sp_v(*else_) },
                    strs_v(old(out).printed_v()),
                )
            ),
        decreases f, 1int, 0int,
    {
        let c = self.ev(env, &cond.node, f, out)?;
        match &c {
            Value::Bool(true) => self.ev(env, &then_.node, f, out),
            Value::Bool(false) => self.ev(env, &else_.node, f, out),
            _ => Err(type_error_x("if condition must be Bool, got ", &c, &self.host, out)),
        }
    }

    fn ev_field(&self, env: &Env, record: &SpExpr, field: &String, f: u64, out: &mut Trace) -> (r: EvalResult)
        requires
            old(out).wf(),
        ensures
            grows(*old(out), *final(out)),
            final(out).wf(),
            forall|hm: HostModel| #![all_triggers] agrees(hm, *final(out)) ==> (sem_eval(hm, 
                (f + 1) as nat,
                self.globals(),
                env@,
                SExpr::Field { record: sp_v(*record), field: field@ },
            ) matches Some(o) ==> fits(res_v(r), o)),
            forall|hm: HostModel| #![all_triggers] agrees(hm, *final(out)) ==> (
                sem_eval(hm, (f + 1) as nat, self.globals(), env@, SExpr::Field { record: sp_v(*record), field: field@ }) is Some
                    ==> strs_v(final(out).printed_v()) == prints_eval(
                    hm,
                    (f + 1) as nat,
                    self.globals(),
                    env@,
                    SExpr::Field { record: sp_v(*record), field: field@ },
                    strs_v(old(out).printed_v()),
                )
            ),
        decreases f, 1int, 0int,
    {
        let v = self.ev(env, &record.node, f, out)?;
        match &v {
            Value::Record(m) => match find_field_x(m, field.as_str()) {
                Some(k) => {
                    proof {
                        lemma_rec_v(m@);
                    }
                    Ok(copy_value(&m[k].1))
                },
                None => {
                    let mut msg = string_of("no field `");
                    push_str(&mut msg, field.as_str());
                    push_str(&mut msg, "`");
                    Err(EvalError::TypeError(msg))
                },
            },
            _ => Err(type_error_x("field access on non-record: ", &v, &self.host, out)),
        }
    }

    fn ev_update(&self, env: &Env, base: &SpExpr, fields: &Vec<(String, SpExpr)>, f: u64, out: &mut Trace) -> (r:
        EvalResult)
        requires
            old(out).wf(),
        ensures
            grows(*old(out), *final(out)),
            final(out).wf(),
            forall|hm: HostModel| #![all_triggers] agrees(hm, *final(out)) ==> (sem_eval(hm, 
                (f + 1) as nat,
                self.globals(),
                env@,
                SExpr::RecordUpdate { base: sp_v(*base), fields: fields_v(fields@) },
            ) matches Some(o) ==> fits(res_v(r), o)),
            forall|hm: HostModel| #![all_triggers] agrees(hm, *final(out)) ==> (
                sem_eval(hm, (f + 1) as nat, self.globals(), env@, SExpr::RecordUpdate { base: sp_v(*base), fields: fields_v(fields@) }) is Some
                    ==> strs_v(final(out).printed_v()) == prints_eval(
                    hm,
                    (f + 1) as nat,
                    self.globals(),
                    env@,
                    SExpr::RecordUpdate { base: sp_v(*base), fields: fields_v(fields@) },
                    strs_v(old(out).printed_v()),
                )
            ),
        decreases f, 2int, 0int,
    {
        let v = self.ev(env, &base.node, f, out)?;
        match v {
            Value::Record(m) => {
                assert(fields_v(fields@).skip(0) =~= fields_v(fields@));
                let m2 = self.ev_record(env, fields, 0, m, f, out)?;
                Ok(Value::Record(m2))
            },
            other => Err(type_error_x("record update on non-record: ", &other, &self.host, out)),
        }
    }

    fn ev_items(&self, env: &Env, items: &Vec<SpExpr>, i: usize, f: u64, out: &mut Trace) -> (r: Result<
        Vec<Value>,
        EvalError,
    >)
        requires
            old(out).wf(),
            i <= items@.len(),
        ensures
            grows(*old(out), *final(out)),
            final(out).wf(),
            forall|hm: HostModel| #![all_triggers] agrees(hm, *final(out)) ==> (
                sem_items(hm, f as nat, self.globals(), env@, sps_v(items@).skip(i as int)) matches Some(o)
                    ==> fits(vres_v(r), o)),
            forall|hm: HostModel| #![all_triggers] agrees(hm, *final(out)) ==> (
                sem_items(hm, f as nat, self.globals(), env@, sps_v(items@).skip(i as int)) is Some ==> strs_v(final(out).printed_v()) == prints_items(hm, f as nat, self.globals(), env@, sps_v(items@).skip(i as int), strs_v(old(out).printed_v()))
            ),
        decreases f, 1int, items@.len() - i,
    {
        broadcast use group_ast_views;
        broadcast use group_value_views;

        let ghost s = sps_v(items@).skip(i as int);
        if i == items.len() {
            let vs: Vec<Value> = Vec::new();
            assert(vals_v(vs@) =~= seq![]);
            return Ok(vs);
        }
        assert(s[0] == sp_v(items@[i as int]));
        assert(s.drop_first() =~= sps_v(items@).skip(i + 1));
        let v = self.ev(env, &items[i].node, f, out)?;
        let mut rest = self.ev_items(env, items, i + 1, f, out)?;
        let ghost rv = vals_v(rest@);
        let ghost vv = v@;
        rest.insert(0, v);
        assert(vals_v(rest@) =~= seq![vv] + rv);
        Ok(rest)
    }

    fn ev_record(
        &self,
        env: &Env,
        fields: &Vec<(String, SpExpr)>,
        i: usize,
        acc: Vec<(String, Value)>,
        f: u64,
        out: &mut Trace,
    ) -> (r: Result<Vec<(String, Value)>, EvalError>)
        requires
            old(out).wf(),
            i <= fields@.len(),
        ensures
            grows(*old(out), *final(out)),
            final(out).wf(),
            forall|hm: HostModel| #![all_triggers] agrees(hm, *final(out)) ==> (sem_record(hm, 
                f as nat,
                self.globals(),
                env@,
                fields_v(fields@).skip(i as int),
                rec_v(acc@),
            ) matches Some(o) ==> fits(rres_v(r), o)),
            forall|hm: HostModel| #![all_triggers] agrees(hm, *final(out)) ==> (
                sem_record(hm, f as nat, self.globals(), env@, fields_v(fields@).skip(i as int), rec_v(acc@))
                    is Some ==> strs_v(final(out).printed_v()) == prints_record(
                    hm,
                    f as nat,
                    self.globals(),
                    env@,
                    fields_v(fields@).skip(i as int),
                    rec_v(acc@),
                    strs_v(old(out).printed_v()),
                )
            ),
        decreases f, 1int, fields@.len() - i,
    {
        broadcast use group_ast_views;

        let ghost s = fields_v(fields@).skip(i as int);
        if i == fields.len() {
            return Ok(acc);
        }
        assert(s[0] == (fields@[i as int].0@, sp_v(fields@[i as int].1)));
        assert(s.drop_first() =~= fields_v(fields@).skip(i + 1));
        let v = self.ev(env, &fields[i].1.node, f, out)?;
        let mut acc = acc;
        field_set_x(&mut acc, fields[i].0.clone(), v);
        self.ev_record(env, fields, i + 1, acc, f, out)
    }

    fn ev_block(&self, env: &Env, stmts: &Vec<SpExpr>, i: usize, last: Value, f: u64, out: &mut Trace) -> (r:
        EvalResult)
        requires
            old(out).wf(),
            i <= stmts@.len(),
        ensures
            grows(*old(out), *final(out)),
            final(out).wf(),
            forall|hm: HostModel| #![all_triggers] agrees(hm, *final(out)) ==> (
                sem_block(hm, f as nat, self.globals(), env@, sps_v(stmts@).skip(i as int), last@) matches Some(
                    o,
                    ) ==> fits(res_v(r), o)),
            forall|hm: HostModel| #![all_triggers] agrees(hm, *final(out)) ==> (
                sem_block(hm, f as nat, self.globals(), env@, sps_v(stmts@).skip(i as int), last@) is Some ==> strs_v(final(out).printed_v()) == prints_block(hm, f as nat, self.globals(), env@, sps_v(stmts@).skip(i as int), last@, strs_v(old(out).printed_v()))
            ),
        decreases f, 1int, stmts@.len() - i,
    {
        broadcast use group_ast_views;

        let ghost s = sps_v(stmts@).skip(i as int);
        if i == stmts.len() {
            return Ok(last);
        }
        assert(s[0] == sp_v(stmts@[i as int]));
        assert(s.drop_first() =~= sps_v(stmts@).skip(i + 1));
        let v = self.ev(env, &stmts[i].node, f, out)?;
        self.ev_block(env, stmts, i + 1, v, f, out)
    }

    fn ev_arms(&self, env: &Env, arms: &Vec<MatchArm>, i: usize, v: &Value, f: u64, out: &mut Trace) -> (r:
        EvalResult)
        requires
            old(out).wf(),
            i <= arms@.len(),
        ensures
            grows(*old(out), *final(out)),
            final(out).wf(),
            forall|hm: HostModel| #![all_triggers] agrees(hm, *final(out)) ==> (
                sem_arms(hm, f as nat, self.globals(), env@, arms_v(arms@).skip(i as int), v@) matches Some(o)
                    ==> fits(res_v(r), o)),
            forall|hm: HostModel| #![all_triggers] agrees(hm, *final(out)) ==> (
                sem_arms(hm, f as nat, self.globals(), env@, arms_v(arms@).skip(i as int), v@) is Some ==> strs_v(final(out).printed_v()) == prints_arms(hm, f as nat, self.globals(), env@, arms_v(arms@).skip(i as int), v@, strs_v(old(out).printed_v()))
            ),
        decreases f, 1int, arms@.len() - i,
    {
        broadcast use group_ast_views;

        let ghost s = arms_v(arms@).skip(i as int);
        if i == arms.len() {
            return Err(EvalError::NonExhaustiveMatch);
        }
        assert(s[0] == crate::ast::arm_v(arms@[i as int]));
        assert(s.drop_first() =~= arms_v(arms@).skip(i + 1));
        match match_pattern(&arms[i].pat, v, &self.host, out) {
            None => self.ev_arms(env, arms, i + 1, v, f, out),
            Some(b) => {
                let env2 = env.extend_many(b);
                match &arms[i].guard {
                    Some(gd) => {
                        let c = self.ev(&env2, &gd.node, f, out)?;
                        match &c {
                            Value::Bool(true) => self.ev(&env2, &arms[i].body.node, f, out),
                            Value::Bool(false) => self.ev_arms(env, arms, i + 1, v, f, out),
                            _ => Err(type_error_x("match guard must be Bool, got ", &c, &self.host, out)),
                        }
                    },
                    None => self.ev(&env2, &arms[i].body.node, f, out),
                }
            },
        }
    }

    fn ap(&self, func: Value, arg: Value, fuel: u64, out: &mut Trace) -> (r: EvalResult)
        requires
            old(out).wf(),
        ensures
            grows(*old(out), *final(out)),
            final(out).wf(),
            forall|hm: HostModel| #![all_triggers] agrees(hm, *final(out)) ==> (
                sem_apply(hm, fuel as nat, self.globals(), func@, arg@) matches Some(o) ==> fits(res_v(r), o)
            ),
            forall|hm: HostModel| #![all_triggers] agrees(hm, *final(out)) ==> (
                sem_apply(hm, fuel as nat, self.globals(), func@, arg@) is Some ==> strs_v(final(out).printed_v()) == prints_apply(hm, fuel as nat, self.globals(), func@, arg@, strs_v(old(out).printed_v()))
            ),
            fuel > 0 && !(func@ is Closure || func@ is Constructor) ==> r matches Err(
                EvalError::TypeError(_),
            ),
        decreases fuel, 0int, 0int,
    {
        if fuel == 0 {
            return Err(EvalError::DepthExceeded);
        }
        let f = fuel - 1;
        match func {
            Value::Closure { env, params, body } => {
                if params.len() == 0 {
                    return Err(EvalError::Arity { expected: 0, got: 1 });
                }
                let ghost pv = strs_v(params@);
                let mut params = params;
                let name = params.remove(0);
                assert(strs_v(params@) =~= pv.drop_first());
                let env2 = env.extend(name, arg);
                if params.len() == 0 {
                    match &body.node {
                        Expr::Var(s) => {
                            if has_prefix(s.as_str(), "__builtin_") {
                                return self.builtin(s.as_str(), &env2, f, out);
                            }
                        },
                        _ => {},
                    }
                    self.ev(&env2, &body.node, f, out)
                } else {
                    Ok(Value::Closure { env: env2, params, body })
                }
            },
            Value::Constructor(name, args) => {
                let mut args = args;
                let ghost before = args@;
                let ghost xv = arg@;
                args.push(arg);
                assert(args@.drop_last() =~= before);
                assert(vals_v(args@) == vals_v(before).push(xv));
                Ok(Value::Constructor(name, args))
            },
            other => Err(type_error_x("cannot apply non-function: ", &other, &self.host, out)),
        }
    }

    /// A built-in function, named by `s`, run in `env`, which binds its
    /// parameters.
    fn builtin(&self, s: &str, env: &Env, fuel: u64, out: &mut Trace) -> (r: EvalResult)
        requires
            old(out).wf(),
        ensures
            grows(*old(out), *final(out)),
            final(out).wf(),
            forall|hm: HostModel| #![all_triggers] agrees(hm, *final(out)) ==> (
                sem_builtin(hm, fuel as nat, self.globals(), s@, env@) matches Some(o) ==> fits(res_v(r), o)
            ),
            forall|hm: HostModel| #![all_triggers] agrees(hm, *final(out)) ==> (
                sem_builtin(hm, fuel as nat, self.globals(), s@, env@) is Some ==> strs_v(final(out).printed_v()) == prints_builtin(hm, fuel as nat, self.globals(), s@, env@, strs_v(old(out).printed_v()))
            ),
            !(s@ == "__builtin_print__"@ || s@ == "__builtin_map__"@ || s@ == "__builtin_filter__"@ || s@
                == "__builtin_fold__"@) ==> final(out).printed_v() == old(out).printed_v(),
            s@ == "__builtin_print__"@ ==> final(out).printed_v().len() == old(out).printed_v().len() + 1 && (show(
                print_arg(env@),
            ) matches Some(t) ==> final(out).printed_v().last()@ == t) && (forall|tm: TextModel|
                #![all_triggers]
                texts_agree(tm, final(out).texts_v()) ==> show_in(tm, print_arg(env@)) == Some(
                    final(out).printed_v().last()@,
                )),
            list_builtin(s@) && args_bound(s@, env@) && non_list(lookup(env@, "xs"@)) ==> r matches Err(
                EvalError::TypeError(_),
            ),
            s@ == "__builtin_map__"@ && lookup(env@, "f"@) is Some ==> map_kept(lookup(env@, "xs"@), r),
            s@ == "__builtin_filter__"@ && lookup(env@, "f"@) is Some ==> filter_kept(
                lookup(env@, "xs"@),
                r,
            ),
        decreases fuel, 5int, 0int,
    {
        broadcast use group_value_views;

        proof {
            lemma_builtin_names_distinct();
        }

        if str_eq(s, "__builtin_print__") {
            let t = match env.get("x") {
                Some(x) => display(x, &self.host, out),
                None => string_of("()"),
            };
            let ghost before = out.printed_v();
            out.print(t);
            proof {
                assert(strs_v(out.printed_v()) =~= strs_v(before).push(t@));
            }
            Ok(Value::Unit)
        } else if str_eq(s, "__builtin_map__") {
            self.bi_map(s, env, fuel, out)
        } else if str_eq(s, "__builtin_filter__") {
            self.bi_filter(s, env, fuel, out)
        } else if str_eq(s, "__builtin_fold__") {
            self.bi_fold(s, env, fuel, out)
        } else if str_eq(s, "__builtin_head__") || str_eq(s, "__builtin_tail__") || str_eq(
            s,
            "__builtin_len__",
        ) {
            self.bi_list(s, env, fuel, out)
        } else {
            Err(EvalError::Undefined(string_of(s)))
        }
    }

    fn bi_map(&self, s: &str, env: &Env, fuel: u64, out: &mut Trace) -> (r: EvalResult)
        requires
            old(out).wf(),
            s@ == "__builtin_map__"@,
            s@ != "__builtin_print__"@,
        ensures
            grows(*old(out), *final(out)),
            final(out).wf(),
            forall|hm: HostModel| #![all_triggers] agrees(hm, *final(out)) ==> (
                sem_builtin(hm, fuel as nat, self.globals(), s@, env@) matches Some(o) ==> fits(res_v(r), o)
            ),
            forall|hm: HostModel| #![all_triggers] agrees(hm, *final(out)) ==> (
                sem_builtin(hm, fuel as nat, self.globals(), s@, env@) is Some ==> strs_v(final(out).printed_v()) == prints_builtin(hm, fuel as nat, self.globals(), s@, env@, strs_v(old(out).printed_v()))
            ),
            lookup(env@, "f"@) is Some && non_list(lookup(env@, "xs"@)) ==> r matches Err(
                EvalError::TypeError(_),
            ),
            lookup(env@, "f"@) is Some ==> map_kept(lookup(env@, "xs"@), r),
        decreases fuel, 4int, 0int,
    {
        broadcast use group_value_views;

        let fv = match env.get("f") {
            Some(v) => v,
            None => return Err(EvalError::Undefined(string_of("f"))),
        };
        let xs = match env.get("xs") {
            Some(v) => v,
            None => return Err(EvalError::Undefined(string_of("xs"))),
        };
        match xs {
            Value::List(items) => {
                assert(vals_v(items@).skip(0) =~= vals_v(items@));
                let vs = self.ev_map(fv, items, 0, fuel, out)?;
                Ok(Value::List(vs))
            },
            _ => Err(type_error_x("map: expected List, got ", xs, &self.host, out)),
        }
    }

    fn bi_filter(&self, s: &str, env: &Env, fuel: u64, out: &mut Trace) -> (r: EvalResult)
        requires
            old(out).wf(),
            s@ == "__builtin_filter__"@,
            s@ != "__builtin_print__"@,
            s@ != "__builtin_map__"@,
        ensures
            grows(*old(out), *final(out)),
            final(out).wf(),
            forall|hm: HostModel| #![all_triggers] agrees(hm, *final(out)) ==> (
                sem_builtin(hm, fuel as nat, self.globals(), s@, env@) matches Some(o) ==> fits(res_v(r), o)
            ),
            forall|hm: HostModel| #![all_triggers] agrees(hm, *final(out)) ==> (
                sem_builtin(hm, fuel as nat, self.globals(), s@, env@) is Some ==> strs_v(final(out).printed_v()) == prints_builtin(hm, fuel as nat, self.globals(), s@, env@, strs_v(old(out).printed_v()))
            ),
            lookup(env@, "f"@) is Some && non_list(lookup(env@, "xs"@)) ==> r matches Err(
                EvalError::TypeError(_),
            ),
            lookup(env@, "f"@) is Some ==> filter_kept(lookup(env@, "xs"@), r),
        decreases fuel, 4int, 0int,
    {
        broadcast use group_value_views;

        let fv = match env.get("f") {
            Some(v) => v,
            None => return Err(EvalError::Undefined(string_of("f"))),
        };
        let xs = match env.get("xs") {
            Some(v) => v,
            None => return Err(EvalError::Undefined(string_of("xs"))),
        };
        match xs {
            Value::List(items) => {
                assert(vals_v(items@).skip(0) =~= vals_v(items@));
                let vs = self.ev_filter(fv, items, 0, fuel, out)?;
                Ok(Value::List(vs))
            },
            _ => Err(type_error_x("filter: expected List, got ", xs, &self.host, out)),
        }
    }

    fn bi_fold(&self, s: &str, env: &Env, fuel: u64, out: &mut Trace) -> (r: EvalResult)
        requires
            old(out).wf(),
            s@ == "__builtin_fold__"@,
            s@ != "__builtin_print__"@,
            s@ != "__builtin_map__"@,
            s@ != "__builtin_filter__"@,
        ensures
            grows(*old(out), *final(out)),
            final(out).wf(),
            forall|hm: HostModel| #![all_triggers] agrees(hm, *final(out)) ==> (
                sem_builtin(hm, fuel as nat, self.globals(), s@, env@) matches Some(o) ==> fits(res_v(r), o)
            ),
            forall|hm: HostModel| #![all_triggers] agrees(hm, *final(out)) ==> (
                sem_builtin(hm, fuel as nat, self.globals(), s@, env@) is Some ==> strs_v(final(out).printed_v()) == prints_builtin(hm, fuel as nat, self.globals(), s@, env@, strs_v(old(out).printed_v()))
            ),
            lookup(env@, "init"@) is Some && lookup(env@, "f"@) is Some && non_list(
                lookup(env@, "xs"@),
            ) ==> r matches Err(EvalError::TypeError(_)),
        decreases fuel, 4int, 0int,
    {
        broadcast use group_value_views;

        let init = match env.get("init") {
            Some(v) => v,
            None => return Err(EvalError::Undefined(string_of("init"))),
        };
        let fv = match env.get("f") {
            Some(v) => v,
            None => return Err(EvalError::Undefined(string_of("f"))),
        };
        let xs = match env.get("xs") {
            Some(v) => v,
            None => return Err(EvalError::Undefined(string_of("xs"))),
        };
        match xs {
            Value::List(items) => {
                assert(vals_v(items@).skip(0) =~= vals_v(items@));
                self.ev_fold(fv, copy_value(init), items, 0, fuel, out)
            },
            _ => Err(type_error_x("fold: expected List, got ", xs, &self.host, out)),
        }
    }

    fn bi_list(&self, s: &str, env: &Env, fuel: u64, out: &mut Trace) -> (r: EvalResult)
        requires
            old(out).wf(),
            s@ == "__builtin_head__"@ || s@ == "__builtin_tail__"@ || s@ == "__builtin_len__"@,
            s@ != "__builtin_print__"@,
            s@ != "__builtin_map__"@,
            s@ != "__builtin_filter__"@,
            s@ != "__builtin_fold__"@,
        ensures
            final(out).wf(),
            grows(*old(out), *final(out)),
            final(out).printed_v() == old(out).printed_v(),
            final(out).answers_v() == old(out).answers_v(),
            forall|hm: HostModel| #![all_triggers] agrees(hm, *final(out)) ==> (
                sem_builtin(hm, fuel as nat, self.globals(), s@, env@) matches Some(o) ==> fits(res_v(r), o)
            ),
            forall|hm: HostModel| #![all_triggers] agrees(hm, *final(out)) ==> (
                sem_builtin(hm, fuel as nat, self.globals(), s@, env@) is Some ==> strs_v(final(out).printed_v()) == prints_builtin(hm, fuel as nat, self.globals(), s@, env@, strs_v(old(out).printed_v()))
            ),
            non_list(lookup(env@, "xs"@)) ==> r matches Err(EvalError::TypeError(_)),
    {
        broadcast use group_value_views;

        if str_eq(s, "__builtin_head__") {
            let xs = match env.get("xs") {
                Some(v) => v,
                None => return Err(EvalError::Undefined(string_of("xs"))),
            };
            match xs {
                Value::List(items) => if items.len() > 0 {
                    proof {
                        lemma_vals_v(items@);
                    }
                    assert(vals_v(items@)[0] == items@[0]@);
                    Ok(copy_value(&items[0]))
                } else {
                    Err(type_error_lit("head: empty list"))
                },
                _ => Err(type_error_x("head: expected List, got ", xs, &self.host, out)),
            }
        } else if str_eq(s, "__builtin_tail__") {
            let xs = match env.get("xs") {
                Some(v) => v,
                None => return Err(EvalError::Undefined(string_of("xs"))),
            };
            match xs {
                Value::List(items) => if items.len() > 0 {
                    let mut rest = copy_values(items);
                    let ghost before = rest@;
                    rest.remove(0);
                    proof {
                        lemma_vals_v(before);
                        lemma_vals_v(rest@);
                    }
                    assert(vals_v(rest@) =~= vals_v(items@).drop_first());
                    Ok(Value::List(rest))
                } else {
                    Err(type_error_lit("tail: empty list"))
                },
                _ => Err(type_error_x("tail: expected List, got ", xs, &self.host, out)),
            }
        } else {
            let xs = match env.get("xs") {
                Some(v) => v,
                None => return Err(EvalError::Undefined(string_of("xs"))),
            };
            match xs {
                Value::List(items) => {
                    assert(vals_v(items@).len() == items@.len());
                    Ok(Value::Int(#[verifier::truncate] (items.len() as i64)))
                },
                _ => Err(type_error_x("len: expected List, got ", xs, &self.host, out)),
            }
        }
    }


    fn ev_map(&self, fv: &Value, items: &Vec<Value>, i: usize, fuel: u64, out: &mut Trace) -> (r: Result<
        Vec<Value>,
        EvalError,
    >)
        requires
            old(out).wf(),
            i <= items@.len(),
        ensures
            grows(*old(out), *final(out)),
            final(out).wf(),
            forall|hm: HostModel| #![all_triggers] agrees(hm, *final(out)) ==> (
                sem_map(hm, fuel as nat, self.globals(), fv@, vals_v(items@).skip(i as int)) matches Some(o)
                    ==> fits(vres_v(r), o)),
            forall|hm: HostModel| #![all_triggers] agrees(hm, *final(out)) ==> (
                sem_map(hm, fuel as nat, self.globals(), fv@, vals_v(items@).skip(i as int)) is Some ==> strs_v(final(out).printed_v()) == prints_map(hm, fuel as nat, self.globals(), fv@, vals_v(items@).skip(i as int), strs_v(old(out).printed_v()))
            ),
            r matches Ok(vs) ==> vs@.len() == items@.len() - i,
        decreases fuel, 3int, items@.len() - i,
    {
        broadcast use group_value_views;

        let ghost s = vals_v(items@).skip(i as int);
        if i == items.len() {
            let vs: Vec<Value> = Vec::new();
            assert(vals_v(vs@) =~= seq![]);
            return Ok(vs);
        }
        assert(s[0] == items@[i as int]@);
        assert(s.drop_first() =~= vals_v(items@).skip(i + 1));
        let v = self.ap(copy_value(fv), copy_value(&items[i]), fuel, out)?;
        let mut rest = self.ev_map(fv, items, i + 1, fuel, out)?;
        let ghost rv = vals_v(rest@);
        let ghost vv = v@;
        rest.insert(0, v);
        assert(vals_v(rest@) =~= seq![vv] + rv);
        Ok(rest)
    }

    fn ev_filter(&self, fv: &Value, items: &Vec<Value>, i: usize, fuel: u64, out: &mut Trace) -> (r: Result<
        Vec<Value>,
        EvalError,
    >)
        requires
            old(out).wf(),
            i <= items@.len(),
        ensures
            grows(*old(out), *final(out)),
            final(out).wf(),
            forall|hm: HostModel| #![all_triggers] agrees(hm, *final(out)) ==> (
                sem_filter(hm, fuel as nat, self.globals(), fv@, vals_v(items@).skip(i as int)) matches Some(
                    o,
                    ) ==> fits(vres_v(r), o)),
            forall|hm: HostModel| #![all_triggers] agrees(hm, *final(out)) ==> (
                sem_filter(hm, fuel as nat, self.globals(), fv@, vals_v(items@).skip(i as int)) is Some ==> strs_v(final(out).printed_v()) == prints_filter(hm, fuel as nat, self.globals(), fv@, vals_v(items@).skip(i as int), strs_v(old(out).printed_v()))
            ),
            r matches Ok(vs) ==> is_subseq(vals_v(vs@), vals_v(items@).skip(i as int)),
        decreases fuel, 3int, items@.len() - i,
    {
        broadcast use group_value_views;

        let ghost s = vals_v(items@).skip(i as int);
        if i == items.len() {
            let vs: Vec<Value> = Vec::new();
            assert(vals_v(vs@) =~= seq![]);
            return Ok(vs);
        }
        assert(s[0] == items@[i as int]@);
        assert(s.drop_first() =~= vals_v(items@).skip(i + 1));
        let c = self.ap(copy_value(fv), copy_value(&items[i]), fuel, out)?;
        match &c {
            Value::Bool(true) => {
                let mut rest = self.ev_filter(fv, items, i + 1, fuel, out)?;
                let ghost rv = vals_v(rest@);
                let x = copy_value(&items[i]);
                let ghost xv = x@;
                rest.insert(0, x);
                assert(vals_v(rest@) =~= seq![xv] + rv);
                assert((seq![xv] + rv).drop_first() =~= rv);
                Ok(rest)
            },
            Value::Bool(false) => self.ev_filter(fv, items, i + 1, fuel, out),
            _ => Err(type_error_x("filter predicate must return Bool, got ", &c, &self.host, out)),
        }
    }

    fn ev_fold(&self, fv: &Value, acc: Value, items: &Vec<Value>, i: usize, fuel: u64, out: &mut Trace) -> (r:
        EvalResult)
        requires
            old(out).wf(),
            i <= items@.len(),
        ensures
            grows(*old(out), *final(out)),
            final(out).wf(),
            forall|hm: HostModel| #![all_triggers] agrees(hm, *final(out)) ==> (
                sem_fold(hm, fuel as nat, self.globals(), fv@, acc@, vals_v(items@).skip(i as int)) matches Some(
                    o,
                    ) ==> fits(res_v(r), o)),
            forall|hm: HostModel| #![all_triggers] agrees(hm, *final(out)) ==> (
                sem_fold(hm, fuel as nat, self.globals(), fv@, acc@, vals_v(items@).skip(i as int)) is Some ==> strs_v(final(out).printed_v()) == prints_fold(hm, fuel as nat, self.globals(), fv@, acc@, vals_v(items@).skip(i as int), strs_v(old(out).printed_v()))
            ),
        decreases fuel, 3int, items@.len() - i,
    {
        broadcast use group_value_views;

        let ghost s = vals_v(items@).skip(i as int);
        if i == items.len() {
            return Ok(acc);
        }
        assert(s[0] == items@[i as int]@);
        assert(s.drop_first() =~= vals_v(items@).skip(i + 1));
        let partial = self.ap(copy_value(fv), acc, fuel, out)?;
        let acc2 = self.ap(partial, copy_value(&items[i]), fuel, out)?;
        self.ev_fold(fv, acc2, items, i + 1, fuel, out)
    }
}

} // verus!

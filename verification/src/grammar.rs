//! The grammar of lacon, as a parsing-expression grammar over token
//! sequences. Each function reads the tokens from a position and answers the
//! value parsed and the position after it, or `None` where the rule fails.
//! Alternatives are tried in order, repetitions are greedy, and a repetition
//! whose item fails gives back the input it tried.
//!
//! The guards `p <= q <= ts.len()` on positions returned by a rule always
//! hold (the parser proves it); they only make the termination of the
//! definitions evident.

use vstd::prelude::*;

use crate::ast::{BinOp, SArm, SExpr, SPattern, SSp, STopLevel, STypeExpr, Spanned};
use crate::host::HostModel;
use crate::semantics::{ok, sem_binop};
use crate::token::{tok_code, Span, Token};
use crate::value::SValue;

verus! {

pub type Toks = Seq<(Token, Span)>;

/// The token at `p` is of the variant of `k`.
pub open spec fn at(ts: Toks, p: int, k: Token) -> bool {
    0 <= p < ts.len() && tok_code(ts[p].0) == tok_code(k)
}

/// `1` when the token at `p` is of the variant of `k`, else `0`.
pub open spec fn opt_tok(ts: Toks, p: int, k: Token) -> int {
    if at(ts, p, k) {
        1
    } else {
        0
    }
}

pub open spec fn ident_at(ts: Toks, p: int) -> Option<Seq<char>> {
    if 0 <= p < ts.len() {
        match ts[p].0 {
            Token::Ident(s) => Some(s@),
            _ => None,
        }
    } else {
        None
    }
}

pub open spec fn type_ident_at(ts: Toks, p: int) -> Option<Seq<char>> {
    if 0 <= p < ts.len() {
        match ts[p].0 {
            Token::TypeIdent(s) => Some(s@),
            _ => None,
        }
    } else {
        None
    }
}

/// The span of the tokens from `p` up to `q`: from the start of the first to
/// the end of the last, the end of input counting as `0..usize::MAX`.
pub open spec fn span_of(ts: Toks, p: int, q: int) -> Span {
    let last = if q - 1 > p {
        q - 1
    } else {
        p
    };
    std::ops::Range {
        start: if 0 <= p < ts.len() {
            ts[p].1.start
        } else {
            0
        },
        end: if 0 <= last < ts.len() {
            ts[last].1.end
        } else {
            usize::MAX
        },
    }
}

pub open spec fn spn(node: SExpr, span: Span) -> Spanned<SExpr> {
    Spanned { node, span }
}

pub open spec fn bx(e: Spanned<SExpr>) -> SSp {
    Box::new(e)
}

pub open spec fn join_span(a: Span, b: Span) -> Span {
    std::ops::Range { start: a.start, end: b.end }
}

// ── Type expressions ──────────────────────────────────────────────────────────

/// `a -> b -> c` is `Fun(a, Fun(b, c))`.
pub open spec fn fun_chain(h: STypeExpr, rest: Seq<STypeExpr>) -> STypeExpr
    decreases rest.len(),
{
    if rest.len() == 0 {
        h
    } else {
        STypeExpr::Fun(Box::new(h), Box::new(fun_chain(rest[0], rest.drop_first())))
    }
}

/// `F<a, b>` is `App(App(F, a), b)`.
pub open spec fn app_chain(acc: STypeExpr, args: Seq<STypeExpr>) -> STypeExpr
    decreases args.len(),
{
    if args.len() == 0 {
        acc
    } else {
        app_chain(STypeExpr::App(Box::new(acc), Box::new(args[0])), args.drop_first())
    }
}

/// type := atom ("->" type)*
pub open spec fn g_ty(ts: Toks, p: int) -> Option<(STypeExpr, int)>
    decreases ts.len() - p, 40int,
{
    if 0 <= p <= ts.len() {
        match g_ty_atom(ts, p) {
            Some((h, q)) => if p <= q <= ts.len() {
                let (rest, r) = g_ty_arrows(ts, seq![], q);
                Some((fun_chain(h, rest), r))
            } else {
                None
            },
            None => None,
        }
    } else {
        None
    }
}

pub open spec fn g_ty_arrows(ts: Toks, acc: Seq<STypeExpr>, q: int) -> (Seq<STypeExpr>, int)
    decreases ts.len() - q, 35int,
{
    if at(ts, q, Token::Arrow) {
        match g_ty(ts, q + 1) {
            Some((t, r)) => if q < r <= ts.len() {
                g_ty_arrows(ts, acc.push(t), r)
            } else {
                (acc, q)
            },
            None => (acc, q),
        }
    } else {
        (acc, q)
    }
}

/// atom := applied | tuple | "(" type ")" | TypeIdent | Ident
pub open spec fn g_ty_atom(ts: Toks, p: int) -> Option<(STypeExpr, int)>
    decreases ts.len() - p, 30int,
{
    if 0 <= p <= ts.len() {
        match g_ty_applied(ts, p) {
            Some(x) => Some(x),
            None => match g_ty_tuple(ts, p) {
                Some(x) => Some(x),
                None => match g_ty_paren(ts, p) {
                    Some(x) => Some(x),
                    None => match type_ident_at(ts, p) {
                        Some(n) => Some((STypeExpr::Named(n), p + 1)),
                        None => match ident_at(ts, p) {
                            Some(n) => Some((STypeExpr::Named(n), p + 1)),
                            None => None,
                        },
                    },
                },
            },
        }
    } else {
        None
    }
}

/// applied := TypeIdent "<" type ("," type)* ">"
pub open spec fn g_ty_applied(ts: Toks, p: int) -> Option<(STypeExpr, int)>
    decreases ts.len() - p, 25int,
{
    match type_ident_at(ts, p) {
        Some(n) => if at(ts, p + 1, Token::Lt) {
            let (args, q) = g_ty_list(ts, p + 2);
            if args.len() >= 1 && at(ts, q, Token::Gt) {
                Some((app_chain(STypeExpr::Named(n), args), q + 1))
            } else {
                None
            }
        } else {
            None
        },
        None => None,
    }
}

/// tuple := "(" type ("," type)+ ")"
pub open spec fn g_ty_tuple(ts: Toks, p: int) -> Option<(STypeExpr, int)>
    decreases ts.len() - p, 24int,
{
    if at(ts, p, Token::LParen) {
        let (items, q) = g_ty_list(ts, p + 1);
        if items.len() >= 2 && at(ts, q, Token::RParen) {
            Some((STypeExpr::Tuple(items), q + 1))
        } else {
            None
        }
    } else {
        None
    }
}

pub open spec fn g_ty_paren(ts: Toks, p: int) -> Option<(STypeExpr, int)>
    decreases ts.len() - p, 23int,
{
    if at(ts, p, Token::LParen) {
        match g_ty(ts, p + 1) {
            Some((t, q)) => if at(ts, q, Token::RParen) {
                Some((t, q + 1))
            } else {
                None
            },
            None => None,
        }
    } else {
        None
    }
}

/// Types separated by commas, possibly none.
pub open spec fn g_ty_list(ts: Toks, q: int) -> (Seq<STypeExpr>, int)
    decreases ts.len() - q, 45int,
{
    if 0 <= q <= ts.len() {
        match g_ty(ts, q) {
            Some((t, r)) => if q <= r <= ts.len() {
                g_ty_list_rest(ts, seq![t], r)
            } else {
                (seq![], q)
            },
            None => (seq![], q),
        }
    } else {
        (seq![], q)
    }
}

pub open spec fn g_ty_list_rest(ts: Toks, acc: Seq<STypeExpr>, q: int) -> (Seq<STypeExpr>, int)
    decreases ts.len() - q, 42int,
{
    if at(ts, q, Token::Comma) {
        match g_ty(ts, q + 1) {
            Some((t, r)) => if q < r <= ts.len() {
                g_ty_list_rest(ts, acc.push(t), r)
            } else {
                (acc, q)
            },
            None => (acc, q),
        }
    } else {
        (acc, q)
    }
}

// ── Patterns ──────────────────────────────────────────────────────────────────

/// pattern := tuple | "(" pattern ")" | constructor | atom
pub open spec fn g_pat(ts: Toks, p: int) -> Option<(SPattern, int)>
    decreases ts.len() - p, 60int,
{
    if 0 <= p <= ts.len() {
        match g_pat_tuple(ts, p) {
            Some(x) => Some(x),
            None => match g_pat_paren(ts, p) {
                Some(x) => Some(x),
                None => match g_pat_ctor(ts, p) {
                    Some(x) => Some(x),
                    None => g_pat_atom(ts, p),
                },
            },
        }
    } else {
        None
    }
}

pub open spec fn g_pat_tuple(ts: Toks, p: int) -> Option<(SPattern, int)>
    decreases ts.len() - p, 55int,
{
    if at(ts, p, Token::LParen) {
        let (ps, q) = g_pat_list(ts, p + 1);
        if ps.len() >= 2 && at(ts, q, Token::RParen) {
            Some((SPattern::Tuple(ps), q + 1))
        } else {
            None
        }
    } else {
        None
    }
}

pub open spec fn g_pat_paren(ts: Toks, p: int) -> Option<(SPattern, int)>
    decreases ts.len() - p, 54int,
{
    if at(ts, p, Token::LParen) {
        match g_pat(ts, p + 1) {
            Some((x, q)) => if at(ts, q, Token::RParen) {
                Some((x, q + 1))
            } else {
                None
            },
            None => None,
        }
    } else {
        None
    }
}

/// constructor := TypeIdent ( "(" patterns ")" | atom )?
pub open spec fn g_pat_ctor(ts: Toks, p: int) -> Option<(SPattern, int)>
    decreases ts.len() - p, 53int,
{
    match type_ident_at(ts, p) {
        Some(n) => {
            let paren = if at(ts, p + 1, Token::LParen) {
                let (ps, q) = g_pat_list(ts, p + 2);
                if at(ts, q, Token::RParen) {
                    Some((ps, q + 1))
                } else {
                    None
                }
            } else {
                None
            };
            match paren {
                Some((ps, q)) => Some((SPattern::Constructor(n, ps), q)),
                None => match g_pat_atom(ts, p + 1) {
                    Some((a, q)) => Some((SPattern::Constructor(n, seq![a]), q)),
                    None => Some((SPattern::Constructor(n, seq![]), p + 1)),
                },
            }
        },
        None => None,
    }
}

pub open spec fn is_underscore(s: Seq<char>) -> bool {
    s == seq!['_']
}

/// atom := "_" | true | false | Int | Float | Str | Ident
pub open spec fn g_pat_atom(ts: Toks, p: int) -> Option<(SPattern, int)> {
    if 0 <= p < ts.len() {
        match ts[p].0 {
            Token::Ident(s) => if is_underscore(s@) {
                Some((SPattern::Wildcard, p + 1))
            } else {
                Some((SPattern::Var(s@), p + 1))
            },
            Token::True => Some((SPattern::Bool(true), p + 1)),
            Token::False => Some((SPattern::Bool(false), p + 1)),
            Token::Int(n) => Some((SPattern::Int(n), p + 1)),
            Token::Float(b) => Some((SPattern::Float(b), p + 1)),
            Token::Str(s) => Some((SPattern::Str(s@), p + 1)),
            _ => None,
        }
    } else {
        None
    }
}

pub open spec fn g_pat_list(ts: Toks, q: int) -> (Seq<SPattern>, int)
    decreases ts.len() - q, 65int,
{
    if 0 <= q <= ts.len() {
        match g_pat(ts, q) {
            Some((x, r)) => if q <= r <= ts.len() {
                g_pat_list_rest(ts, seq![x], r)
            } else {
                (seq![], q)
            },
            None => (seq![], q),
        }
    } else {
        (seq![], q)
    }
}

pub open spec fn g_pat_list_rest(ts: Toks, acc: Seq<SPattern>, q: int) -> (Seq<SPattern>, int)
    decreases ts.len() - q, 62int,
{
    if at(ts, q, Token::Comma) {
        match g_pat(ts, q + 1) {
            Some((x, r)) => if q < r <= ts.len() {
                g_pat_list_rest(ts, acc.push(x), r)
            } else {
                (acc, q)
            },
            None => (acc, q),
        }
    } else {
        (acc, q)
    }
}

// ── Expressions ───────────────────────────────────────────────────────────────

pub open spec fn mk_bin(op: BinOp, l: Spanned<SExpr>, r: Spanned<SExpr>) -> Spanned<SExpr> {
    spn(SExpr::BinOp { op, lhs: bx(l), rhs: bx(r) }, join_span(l.span, r.span))
}

/// Applies `f` to each of `items` in turn.
pub open spec fn app_items(f: Spanned<SExpr>, items: Seq<SSp>) -> Spanned<SExpr>
    decreases items.len(),
{
    if items.len() == 0 {
        f
    } else {
        app_items(
            spn(SExpr::App { func: bx(f), arg: items[0] }, join_span(f.span, items[0].span)),
            items.drop_first(),
        )
    }
}

/// `f (a, b)` applies `f` to `a` then to `b`; any other argument is applied
/// as it is.
pub open spec fn apply_arg(f: Spanned<SExpr>, arg: Spanned<SExpr>) -> Spanned<SExpr> {
    match arg.node {
        SExpr::Tuple(items) => app_items(f, items),
        _ => spn(SExpr::App { func: bx(f), arg: bx(arg) }, join_span(f.span, arg.span)),
    }
}

/// expr := or ("|>" or)*
pub open spec fn g_expr(ts: Toks, p: int) -> Option<(Spanned<SExpr>, int)>
    decreases ts.len() - p, 200int,
{
    if 0 <= p <= ts.len() {
        match g_or(ts, p) {
            Some((l, q)) => if p <= q <= ts.len() {
                Some(g_pipe_rest(ts, l, q))
            } else {
                None
            },
            None => None,
        }
    } else {
        None
    }
}

pub open spec fn g_pipe_rest(ts: Toks, acc: Spanned<SExpr>, q: int) -> (Spanned<SExpr>, int)
    decreases ts.len() - q, 195int,
{
    if at(ts, q, Token::PipeRight) {
        match g_or(ts, q + 1) {
            Some((r, q2)) => if q < q2 <= ts.len() {
                g_pipe_rest(
                    ts,
                    spn(SExpr::Pipe { lhs: bx(acc), rhs: bx(r) }, join_span(acc.span, r.span)),
                    q2,
                )
            } else {
                (acc, q)
            },
            None => (acc, q),
        }
    } else {
        (acc, q)
    }
}

pub open spec fn g_or(ts: Toks, p: int) -> Option<(Spanned<SExpr>, int)>
    decreases ts.len() - p, 190int,
{
    if 0 <= p <= ts.len() {
        match g_and(ts, p) {
            Some((l, q)) => if p <= q <= ts.len() {
                Some(g_or_rest(ts, l, q))
            } else {
                None
            },
            None => None,
        }
    } else {
        None
    }
}

pub open spec fn g_or_rest(ts: Toks, acc: Spanned<SExpr>, q: int) -> (Spanned<SExpr>, int)
    decreases ts.len() - q, 185int,
{
    if at(ts, q, Token::Or) {
        match g_and(ts, q + 1) {
            Some((r, q2)) => if q < q2 <= ts.len() {
                g_or_rest(ts, mk_bin(BinOp::Or, acc, r), q2)
            } else {
                (acc, q)
            },
            None => (acc, q),
        }
    } else {
        (acc, q)
    }
}

pub open spec fn g_and(ts: Toks, p: int) -> Option<(Spanned<SExpr>, int)>
    decreases ts.len() - p, 180int,
{
    if 0 <= p <= ts.len() {
        match g_rel(ts, p) {
            Some((l, q)) => if p <= q <= ts.len() {
                Some(g_and_rest(ts, l, q))
            } else {
                None
            },
            None => None,
        }
    } else {
        None
    }
}

pub open spec fn g_and_rest(ts: Toks, acc: Spanned<SExpr>, q: int) -> (Spanned<SExpr>, int)
    decreases ts.len() - q, 175int,
{
    if at(ts, q, Token::And) {
        match g_rel(ts, q + 1) {
            Some((r, q2)) => if q < q2 <= ts.len() {
                g_and_rest(ts, mk_bin(BinOp::And, acc, r), q2)
            } else {
                (acc, q)
            },
            None => (acc, q),
        }
    } else {
        (acc, q)
    }
}

/// The relational operator at `q`, if any.
pub open spec fn rel_op(ts: Toks, q: int) -> Option<BinOp> {
    if at(ts, q, Token::EqEq) {
        Some(BinOp::Eq)
    } else if at(ts, q, Token::Neq) {
        Some(BinOp::Neq)
    } else if at(ts, q, Token::Leq) {
        Some(BinOp::Leq)
    } else if at(ts, q, Token::Geq) {
        Some(BinOp::Geq)
    } else if at(ts, q, Token::Lt) {
        Some(BinOp::Lt)
    } else if at(ts, q, Token::Gt) {
        Some(BinOp::Gt)
    } else {
        None
    }
}

pub open spec fn add_op(ts: Toks, q: int) -> Option<BinOp> {
    if at(ts, q, Token::Plus) {
        Some(BinOp::Add)
    } else if at(ts, q, Token::Minus) {
        Some(BinOp::Sub)
    } else {
        None
    }
}

pub open spec fn mul_op(ts: Toks, q: int) -> Option<BinOp> {
    if at(ts, q, Token::Star) {
        Some(BinOp::Mul)
    } else if at(ts, q, Token::Slash) {
        Some(BinOp::Div)
    } else if at(ts, q, Token::Percent) {
        Some(BinOp::Mod)
    } else {
        None
    }
}

pub open spec fn g_rel(ts: Toks, p: int) -> Option<(Spanned<SExpr>, int)>
    decreases ts.len() - p, 170int,
{
    if 0 <= p <= ts.len() {
        match g_add(ts, p) {
            Some((l, q)) => if p <= q <= ts.len() {
                Some(g_rel_rest(ts, l, q))
            } else {
                None
            },
            None => None,
        }
    } else {
        None
    }
}

pub open spec fn g_rel_rest(ts: Toks, acc: Spanned<SExpr>, q: int) -> (Spanned<SExpr>, int)
    decreases ts.len() - q, 165int,
{
    match rel_op(ts, q) {
        Some(op) => match g_add(ts, q + 1) {
            Some((r, q2)) => if q < q2 <= ts.len() {
                g_rel_rest(ts, mk_bin(op, acc, r), q2)
            } else {
                (acc, q)
            },
            None => (acc, q),
        },
        None => (acc, q),
    }
}

pub open spec fn g_add(ts: Toks, p: int) -> Option<(Spanned<SExpr>, int)>
    decreases ts.len() - p, 160int,
{
    if 0 <= p <= ts.len() {
        match g_mul(ts, p) {
            Some((l, q)) => if p <= q <= ts.len() {
                Some(g_add_rest(ts, l, q))
            } else {
                None
            },
            None => None,
        }
    } else {
        None
    }
}

pub open spec fn g_add_rest(ts: Toks, acc: Spanned<SExpr>, q: int) -> (Spanned<SExpr>, int)
    decreases ts.len() - q, 155int,
{
    match add_op(ts, q) {
        Some(op) => match g_mul(ts, q + 1) {
            Some((r, q2)) => if q < q2 <= ts.len() {
                g_add_rest(ts, mk_bin(op, acc, r), q2)
            } else {
                (acc, q)
            },
            None => (acc, q),
        },
        None => (acc, q),
    }
}

pub open spec fn g_mul(ts: Toks, p: int) -> Option<(Spanned<SExpr>, int)>
    decreases ts.len() - p, 150int,
{
    if 0 <= p <= ts.len() {
        match g_unary(ts, p) {
            Some((l, q)) => if p <= q <= ts.len() {
                Some(g_mul_rest(ts, l, q))
            } else {
                None
            },
            None => None,
        }
    } else {
        None
    }
}

pub open spec fn g_mul_rest(ts: Toks, acc: Spanned<SExpr>, q: int) -> (Spanned<SExpr>, int)
    decreases ts.len() - q, 145int,
{
    match mul_op(ts, q) {
        Some(op) => match g_unary(ts, q + 1) {
            Some((r, q2)) => if q < q2 <= ts.len() {
                g_mul_rest(ts, mk_bin(op, acc, r), q2)
            } else {
                (acc, q)
            },
            None => (acc, q),
        },
        None => (acc, q),
    }
}

/// unary := "-" app | app
pub open spec fn g_unary(ts: Toks, p: int) -> Option<(Spanned<SExpr>, int)>
    decreases ts.len() - p, 140int,
{
    if 0 <= p <= ts.len() {
        let neg = if at(ts, p, Token::Minus) {
            match g_app(ts, p + 1) {
                Some((e, q)) => Some((spn(SExpr::Neg(bx(e)), span_of(ts, p, q)), q)),
                None => None,
            }
        } else {
            None
        };
        match neg {
            Some(x) => Some(x),
            None => g_app(ts, p),
        }
    } else {
        None
    }
}

/// app := field field*
pub open spec fn g_app(ts: Toks, p: int) -> Option<(Spanned<SExpr>, int)>
    decreases ts.len() - p, 130int,
{
    if 0 <= p <= ts.len() {
        match g_field(ts, p) {
            Some((f, q)) => if p <= q <= ts.len() {
                Some(g_app_rest(ts, f, q))
            } else {
                None
            },
            None => None,
        }
    } else {
        None
    }
}

pub open spec fn g_app_rest(ts: Toks, f: Spanned<SExpr>, q: int) -> (Spanned<SExpr>, int)
    decreases ts.len() - q, 125int,
{
    if 0 <= q <= ts.len() {
        match g_field(ts, q) {
            Some((a, q2)) => if q < q2 <= ts.len() {
                g_app_rest(ts, apply_arg(f, a), q2)
            } else {
                (f, q)
            },
            None => (f, q),
        }
    } else {
        (f, q)
    }
}

/// field := atom ("." Ident)*
pub open spec fn g_field(ts: Toks, p: int) -> Option<(Spanned<SExpr>, int)>
    decreases ts.len() - p, 120int,
{
    if 0 <= p <= ts.len() {
        match g_atom(ts, p) {
            Some((a, q)) => if p <= q <= ts.len() {
                Some(g_field_rest(ts, a, q))
            } else {
                None
            },
            None => None,
        }
    } else {
        None
    }
}

pub open spec fn g_field_rest(ts: Toks, acc: Spanned<SExpr>, q: int) -> (Spanned<SExpr>, int)
    decreases ts.len() - q,
{
    if at(ts, q, Token::Dot) {
        match ident_at(ts, q + 1) {
            Some(f) => g_field_rest(
                ts,
                spn(SExpr::Field { record: bx(acc), field: f }, acc.span),
                q + 2,
            ),
            None => (acc, q),
        }
    } else {
        (acc, q)
    }
}

/// A literal, variable or constructor at `p`.
pub open spec fn g_simple(ts: Toks, p: int) -> Option<(Spanned<SExpr>, int)> {
    if 0 <= p < ts.len() {
        let sp = ts[p].1;
        match ts[p].0 {
            Token::Int(n) => Some((spn(SExpr::Int(n), sp), p + 1)),
            Token::Float(b) => Some((spn(SExpr::Float(b), sp), p + 1)),
            Token::Str(s) => Some((spn(SExpr::Str(s@), sp), p + 1)),
            Token::True => Some((spn(SExpr::Bool(true), sp), p + 1)),
            Token::False => Some((spn(SExpr::Bool(false), sp), p + 1)),
            _ => None,
        }
    } else {
        None
    }
}

pub open spec fn g_name(ts: Toks, p: int) -> Option<(Spanned<SExpr>, int)> {
    if 0 <= p < ts.len() {
        let sp = ts[p].1;
        match ts[p].0 {
            Token::TypeIdent(s) => Some((spn(SExpr::Constructor(s@), sp), p + 1)),
            Token::Ident(s) => Some((spn(SExpr::Var(s@), sp), p + 1)),
            _ => None,
        }
    } else {
        None
    }
}

/// atom := literal | lambda | let | if | match | list | paren | TypeIdent | Ident
pub open spec fn g_atom(ts: Toks, p: int) -> Option<(Spanned<SExpr>, int)>
    decreases ts.len() - p, 110int,
{
    if 0 <= p <= ts.len() {
        match g_simple(ts, p) {
            Some(x) => Some(x),
            None => match g_lambda(ts, p) {
                Some(x) => Some(x),
                None => match g_let(ts, p) {
                    Some(x) => Some(x),
                    None => match g_if(ts, p) {
                        Some(x) => Some(x),
                        None => match g_match_braced(ts, p) {
                            Some(x) => Some(x),
                            None => match g_match_indented(ts, p) {
                                Some(x) => Some(x),
                                None => match g_list(ts, p) {
                                    Some(x) => Some(x),
                                    None => match g_paren(ts, p) {
                                        Some(x) => Some(x),
                                        None => g_name(ts, p),
                                    },
                                },
                            },
                        },
                    },
                },
            },
        }
    } else {
        None
    }
}

/// Identifiers, as many as follow `q`.
pub open spec fn g_idents(ts: Toks, acc: Seq<Seq<char>>, q: int) -> (Seq<Seq<char>>, int)
    decreases ts.len() - q,
{
    match ident_at(ts, q) {
        Some(n) => g_idents(ts, acc.push(n), q + 1),
        None => (acc, q),
    }
}

/// lambda := "\" Ident+ "->" expr
pub open spec fn g_lambda(ts: Toks, p: int) -> Option<(Spanned<SExpr>, int)>
    decreases ts.len() - p, 105int,
{
    if at(ts, p, Token::BackSlash) {
        let (names, q) = g_idents(ts, seq![], p + 1);
        if names.len() >= 1 && p + 1 <= q && at(ts, q, Token::Arrow) {
            match g_expr(ts, q + 1) {
                Some((b, r)) => Some(
                    (spn(SExpr::Lambda { params: names, body: bx(b) }, span_of(ts, p, r)), r),
                ),
                None => None,
            }
        } else {
            None
        }
    } else {
        None
    }
}

/// let := "let" Ident "=" expr "in" expr
pub open spec fn g_let(ts: Toks, p: int) -> Option<(Spanned<SExpr>, int)>
    decreases ts.len() - p, 104int,
{
    if at(ts, p, Token::Let) && at(ts, p + 2, Token::Eq) {
        match ident_at(ts, p + 1) {
            Some(name) => match g_expr(ts, p + 3) {
                Some((v, q)) => if p + 3 <= q <= ts.len() && at(ts, q, Token::In) {
                    match g_expr(ts, q + 1) {
                        Some((b, r)) => Some(
                            (
                                spn(
                                    SExpr::Let { name, value: bx(v), body: bx(b) },
                                    span_of(ts, p, r),
                                ),
                                r,
                            ),
                        ),
                        None => None,
                    }
                } else {
                    None
                },
                None => None,
            },
            None => None,
        }
    } else {
        None
    }
}

/// if := "if" expr "then" expr "else" expr
pub open spec fn g_if(ts: Toks, p: int) -> Option<(Spanned<SExpr>, int)>
    decreases ts.len() - p, 103int,
{
    if at(ts, p, Token::If) {
        match g_expr(ts, p + 1) {
            Some((c, q)) => if p + 1 <= q <= ts.len() && at(ts, q, Token::Then) {
                match g_expr(ts, q + 1) {
                    Some((t, q2)) => if q + 1 <= q2 <= ts.len() && at(ts, q2, Token::Else) {
                        match g_expr(ts, q2 + 1) {
                            Some((e, r)) => Some(
                                (
                                    spn(
                                        SExpr::If { cond: bx(c), then_: bx(t), else_: bx(e) },
                                        span_of(ts, p, r),
                                    ),
                                    r,
                                ),
                            ),
                            None => None,
                        }
                    } else {
                        None
                    },
                    None => None,
                }
            } else {
                None
            },
            None => None,
        }
    } else {
        None
    }
}

/// The position after the newlines that follow `q`.
pub open spec fn skip_newlines(ts: Toks, q: int) -> int
    decreases ts.len() - q,
{
    if at(ts, q, Token::Newline) {
        skip_newlines(ts, q + 1)
    } else {
        q
    }
}

/// arm := "|" pattern ("when" expr)? "=>" expr
pub open spec fn g_arm(ts: Toks, p: int) -> Option<(SArm, int)>
    decreases ts.len() - p, 80int,
{
    if at(ts, p, Token::Pipe) {
        match g_pat(ts, p + 1) {
            Some((pat, q)) => if p + 1 <= q <= ts.len() {
                let (guard, q2) = if at(ts, q, Token::When) {
                    match g_expr(ts, q + 1) {
                        Some((g, r)) => (Some(bx(g)), r),
                        None => (None, q),
                    }
                } else {
                    (None, q)
                };
                if at(ts, q2, Token::FatArrow) && q <= q2 {
                    match g_expr(ts, q2 + 1) {
                        Some((b, r)) => Some((SArm { pat, guard, body: bx(b) }, r)),
                        None => None,
                    }
                } else {
                    None
                }
            } else {
                None
            },
            None => None,
        }
    } else {
        None
    }
}

/// Arms, each after any number of newlines, as many as parse.
pub open spec fn g_arms(ts: Toks, acc: Seq<SArm>, q: int) -> (Seq<SArm>, int)
    decreases ts.len() - q, 90int,
{
    if 0 <= q <= ts.len() {
        let q1 = skip_newlines(ts, q);
        if q <= q1 <= ts.len() {
            match g_arm(ts, q1) {
                Some((a, r)) => if q < r <= ts.len() {
                    g_arms(ts, acc.push(a), r)
                } else {
                    (acc, q)
                },
                None => (acc, q),
            }
        } else {
            (acc, q)
        }
    } else {
        (acc, q)
    }
}

/// match := "match" expr "{" Newline? arm+ Newline? "}"
pub open spec fn g_match_braced(ts: Toks, p: int) -> Option<(Spanned<SExpr>, int)>
    decreases ts.len() - p, 102int,
{
    if at(ts, p, Token::Match) {
        match g_expr(ts, p + 1) {
            Some((s, q)) => if p + 1 <= q <= ts.len() && at(ts, q, Token::LBrace) {
                let q1 = q + 1 + opt_tok(ts, q + 1, Token::Newline);
                let (arms, q2) = g_arms(ts, seq![], q1);
                let q3 = q2 + opt_tok(ts, q2, Token::Newline);
                if arms.len() >= 1 && at(ts, q3, Token::RBrace) {
                    Some(
                        (
                            spn(
                                SExpr::Match { scrutinee: bx(s), arms },
                                span_of(ts, p, q3 + 1),
                            ),
                            q3 + 1,
                        ),
                    )
                } else {
                    None
                }
            } else {
                None
            },
            None => None,
        }
    } else {
        None
    }
}

/// match := "match" expr Newline? Indent? arm+ Newline? Dedent?
pub open spec fn g_match_indented(ts: Toks, p: int) -> Option<(Spanned<SExpr>, int)>
    decreases ts.len() - p, 101int,
{
    if at(ts, p, Token::Match) {
        match g_expr(ts, p + 1) {
            Some((s, q)) => if p + 1 <= q <= ts.len() {
                let q1 = q + opt_tok(ts, q, Token::Newline);
                let q2 = q1 + opt_tok(ts, q1, Token::Indent);
                let (arms, q3) = g_arms(ts, seq![], q2);
                let q4 = q3 + opt_tok(ts, q3, Token::Newline);
                let q5 = q4 + opt_tok(ts, q4, Token::Dedent);
                if arms.len() >= 1 {
                    Some(
                        (
                            spn(SExpr::Match { scrutinee: bx(s), arms }, span_of(ts, p, q5)),
                            q5,
                        ),
                    )
                } else {
                    None
                }
            } else {
                None
            },
            None => None,
        }
    } else {
        None
    }
}

/// Expressions separated by commas, possibly none.
pub open spec fn g_expr_list(ts: Toks, q: int) -> (Seq<SSp>, int)
    decreases ts.len() - q, 210int,
{
    if 0 <= q <= ts.len() {
        match g_expr(ts, q) {
            Some((x, r)) => if q <= r <= ts.len() {
                g_expr_list_rest(ts, seq![bx(x)], r)
            } else {
                (seq![], q)
            },
            None => (seq![], q),
        }
    } else {
        (seq![], q)
    }
}

pub open spec fn g_expr_list_rest(ts: Toks, acc: Seq<SSp>, q: int) -> (Seq<SSp>, int)
    decreases ts.len() - q, 205int,
{
    if at(ts, q, Token::Comma) {
        match g_expr(ts, q + 1) {
            Some((x, r)) => if q < r <= ts.len() {
                g_expr_list_rest(ts, acc.push(bx(x)), r)
            } else {
                (acc, q)
            },
            None => (acc, q),
        }
    } else {
        (acc, q)
    }
}

/// list := "[" expressions "]"
pub open spec fn g_list(ts: Toks, p: int) -> Option<(Spanned<SExpr>, int)>
    decreases ts.len() - p, 100int,
{
    if at(ts, p, Token::LBrack) {
        let (items, q) = g_expr_list(ts, p + 1);
        if at(ts, q, Token::RBrack) {
            Some((spn(SExpr::List(items), span_of(ts, p, q + 1)), q + 1))
        } else {
            None
        }
    } else {
        None
    }
}

/// paren := "(" expr ("," expr)* ")"; one expression is itself, more are a
/// tuple.
pub open spec fn g_paren(ts: Toks, p: int) -> Option<(Spanned<SExpr>, int)>
    decreases ts.len() - p, 99int,
{
    if at(ts, p, Token::LParen) {
        let (items, q) = g_expr_list(ts, p + 1);
        if items.len() >= 1 && at(ts, q, Token::RParen) {
            if items.len() == 1 {
                Some((*items[0], q + 1))
            } else {
                Some((spn(SExpr::Tuple(items), span_of(ts, p, q + 1)), q + 1))
            }
        } else {
            None
        }
    } else {
        None
    }
}

// ── Top level ─────────────────────────────────────────────────────────────────

/// The position after the layout tokens (Newline, Indent, Dedent) at `q`.
pub open spec fn skip_ws(ts: Toks, q: int) -> int
    decreases ts.len() - q,
{
    if at(ts, q, Token::Newline) || at(ts, q, Token::Indent) || at(ts, q, Token::Dedent) {
        skip_ws(ts, q + 1)
    } else {
        q
    }
}

/// The position after the Newline and Dedent tokens at `q`.
pub open spec fn skip_nl(ts: Toks, q: int) -> int
    decreases ts.len() - q,
{
    if at(ts, q, Token::Newline) || at(ts, q, Token::Dedent) {
        skip_nl(ts, q + 1)
    } else {
        q
    }
}

/// Statements of a body: expressions, each followed by layout tokens.
pub open spec fn g_stmts(ts: Toks, acc: Seq<SSp>, q: int) -> (Seq<SSp>, int)
    decreases ts.len() - q,
{
    if 0 <= q <= ts.len() {
        match g_expr(ts, q) {
            Some((e, r)) => if q < r <= skip_ws(ts, r) <= ts.len() {
                g_stmts(ts, acc.push(bx(e)), skip_ws(ts, r))
            } else {
                (acc, q)
            },
            None => (acc, q),
        }
    } else {
        (acc, q)
    }
}

/// body := "{" layout* (expr layout*)+ "}"; one statement is itself, more
/// are a block.
pub open spec fn g_body(ts: Toks, p: int) -> Option<(Spanned<SExpr>, int)> {
    if at(ts, p, Token::LBrace) {
        let (stmts, q) = g_stmts(ts, seq![], skip_ws(ts, p + 1));
        if stmts.len() >= 1 && at(ts, q, Token::RBrace) {
            if stmts.len() == 1 {
                Some((*stmts[0], q + 1))
            } else {
                Some((spn(SExpr::Block(stmts), span_of(ts, p, q + 1)), q + 1))
            }
        } else {
            None
        }
    } else {
        None
    }
}

/// param := Ident ":" type
pub open spec fn g_param(ts: Toks, p: int) -> Option<((Seq<char>, STypeExpr), int)> {
    match ident_at(ts, p) {
        Some(n) => if at(ts, p + 1, Token::Colon) {
            match g_ty(ts, p + 2) {
                Some((t, q)) => Some(((n, t), q)),
                None => None,
            }
        } else {
            None
        },
        None => None,
    }
}

pub open spec fn g_params(ts: Toks, q: int) -> (Seq<(Seq<char>, STypeExpr)>, int) {
    match g_param(ts, q) {
        Some((x, r)) => if q < r <= ts.len() {
            g_params_rest(ts, seq![x], r)
        } else {
            (seq![], q)
        },
        None => (seq![], q),
    }
}

pub open spec fn g_params_rest(ts: Toks, acc: Seq<(Seq<char>, STypeExpr)>, q: int) -> (
    Seq<(Seq<char>, STypeExpr)>,
    int,
)
    decreases ts.len() - q,
{
    if at(ts, q, Token::Comma) {
        match g_param(ts, q + 1) {
            Some((x, r)) => if q < r <= ts.len() {
                g_params_rest(ts, acc.push(x), r)
            } else {
                (acc, q)
            },
            None => (acc, q),
        }
    } else {
        (acc, q)
    }
}

/// def := "async"? "fn" Ident "(" params ")" "->" type body
pub open spec fn g_def(ts: Toks, p: int) -> Option<(Spanned<STopLevel>, int)> {
    let is_async = at(ts, p, Token::Async);
    let q0 = p + opt_tok(ts, p, Token::Async);
    if at(ts, q0, Token::Fn) && at(ts, q0 + 2, Token::LParen) {
        match ident_at(ts, q0 + 1) {
            Some(name) => {
                let (params, q1) = g_params(ts, q0 + 3);
                if at(ts, q1, Token::RParen) && at(ts, q1 + 1, Token::Arrow) {
                    match g_ty(ts, q1 + 2) {
                        Some((rt, q2)) => match g_body(ts, q2) {
                            Some((b, q3)) => Some(
                                (
                                    Spanned {
                                        node: STopLevel::Def {
                                            name,
                                            params,
                                            return_type: rt,
                                            body: bx(b),
                                            is_async,
                                        },
                                        span: span_of(ts, p, q3),
                                    },
                                    q3,
                                ),
                            ),
                            None => None,
                        },
                        None => None,
                    }
                } else {
                    None
                }
            },
            None => None,
        }
    } else {
        None
    }
}

/// Definitions, each padded by Newline and Dedent tokens, as many as parse.
pub open spec fn g_defs(ts: Toks, acc: Seq<Spanned<STopLevel>>, q: int) -> (
    Seq<Spanned<STopLevel>>,
    int,
)
    decreases ts.len() - q,
{
    if 0 <= q <= ts.len() {
        let q1 = skip_nl(ts, q);
        match g_def(ts, q1) {
            Some((d, q2)) => {
                let q3 = skip_nl(ts, q2);
                if q < q3 <= ts.len() {
                    g_defs(ts, acc.push(d), q3)
                } else {
                    (acc, q)
                }
            },
            None => (acc, q),
        }
    } else {
        (acc, q)
    }
}

/// A module: definitions up to the end of the tokens.
pub open spec fn g_module(ts: Toks) -> Option<Seq<Spanned<STopLevel>>> {
    let (defs, q) = g_defs(ts, seq![], 0);
    if q == ts.len() {
        Some(defs)
    } else {
        None
    }
}

/// A whole expression: an expression up to the end of the tokens.
pub open spec fn g_whole_expr(ts: Toks) -> Option<Spanned<SExpr>> {
    match g_expr(ts, 0) {
        Some((e, q)) => if q == ts.len() {
            Some(e)
        } else {
            None
        },
        None => None,
    }
}

// ══ Laws ═════════════════════════════════════════════════════════════════════

/// Each comparison token parses to the operator it spells: the operator
/// read at `<=` compares two integers by `<=`, at `>=` by `>=`, at `<` by
/// `<`, at `>` by `>`, at `==` by equality and at `!=` by inequality; no
/// other token is read as a comparison.
pub proof fn comparison_tokens_mean_what_they_spell(hm: HostModel, ts: Toks, q: int, a: i64, b: i64)
    requires
        0 <= q < ts.len(),
    ensures
        ts[q].0 is Leq ==> (rel_op(ts, q) is Some && sem_binop(hm, rel_op(ts, q)->0, SValue::Int(a), SValue::Int(b))
            == ok(SValue::Bool(a <= b))),
        ts[q].0 is Geq ==> (rel_op(ts, q) is Some && sem_binop(hm, rel_op(ts, q)->0, SValue::Int(a), SValue::Int(b))
            == ok(SValue::Bool(a >= b))),
        ts[q].0 is Lt ==> (rel_op(ts, q) is Some && sem_binop(hm, rel_op(ts, q)->0, SValue::Int(a), SValue::Int(b))
            == ok(SValue::Bool(a < b))),
        ts[q].0 is Gt ==> (rel_op(ts, q) is Some && sem_binop(hm, rel_op(ts, q)->0, SValue::Int(a), SValue::Int(b))
            == ok(SValue::Bool(a > b))),
        ts[q].0 is EqEq ==> (rel_op(ts, q) is Some && sem_binop(hm, rel_op(ts, q)->0, SValue::Int(a), SValue::Int(b))
            == ok(SValue::Bool(a == b))),
        ts[q].0 is Neq ==> (rel_op(ts, q) is Some && sem_binop(hm, rel_op(ts, q)->0, SValue::Int(a), SValue::Int(b))
            == ok(SValue::Bool(a != b))),
        !(ts[q].0 is Leq || ts[q].0 is Geq || ts[q].0 is Lt || ts[q].0 is Gt || ts[q].0 is EqEq
            || ts[q].0 is Neq) ==> rel_op(ts, q) is None,
{
    reveal(tok_code);
}

/// A comparison parses to the comparison of its two sides, the left side
/// first: where `l` is read at `p`, a comparison token follows, `r` is read
/// after it and no further comparison token follows, the relation read at
/// `p` is `l op r` with `op` the operator that token spells, and it ends
/// where `r` ends.
pub proof fn comparison_parses_in_order(
    ts: Toks,
    p: int,
    l: Spanned<SExpr>,
    q: int,
    op: BinOp,
    r: Spanned<SExpr>,
    q2: int,
)
    requires
        0 <= p <= q < q2 <= ts.len(),
        g_add(ts, p) == Some((l, q)),
        rel_op(ts, q) == Some(op),
        g_add(ts, q + 1) == Some((r, q2)),
        rel_op(ts, q2) is None,
    ensures
        g_rel(ts, p) == Some(
            (
                Spanned {
                    node: SExpr::BinOp { op, lhs: Box::new(l), rhs: Box::new(r) },
                    span: join_span(l.span, r.span),
                },
                q2,
            ),
        ),
{
}

/// Each arithmetic token parses to the operator it spells: the operator
/// read at `+` adds two integers, at `-` subtracts the second from the
/// first, at `*` multiplies them (each wrapping on overflow), and at `/` and
/// `%` gives the quotient and remainder of a non-negative integer by a
/// positive one; no other token is read as an arithmetic operator.
pub proof fn arithmetic_tokens_mean_what_they_spell(hm: HostModel, ts: Toks, q: int, a: i64, b: i64)
    requires
        0 <= q < ts.len(),
    ensures
        ts[q].0 is Plus ==> (add_op(ts, q) is Some && sem_binop(hm, add_op(ts, q)->0, SValue::Int(a), SValue::Int(b))
            == ok(SValue::Int(a.wrapping_add(b)))),
        ts[q].0 is Minus ==> (add_op(ts, q) is Some && sem_binop(hm, add_op(ts, q)->0, SValue::Int(a), SValue::Int(b))
            == ok(SValue::Int(a.wrapping_sub(b)))),
        ts[q].0 is Star ==> (mul_op(ts, q) is Some && sem_binop(hm, mul_op(ts, q)->0, SValue::Int(a), SValue::Int(b))
            == ok(SValue::Int(a.wrapping_mul(b)))),
        ts[q].0 is Slash && a >= 0 && b > 0 ==> (mul_op(ts, q) is Some && sem_binop(
            hm,
            mul_op(ts, q)->0,
            SValue::Int(a),
            SValue::Int(b),
        ) == ok(SValue::Int((a / b) as i64))),
        ts[q].0 is Percent && a >= 0 && b > 0 ==> (mul_op(ts, q) is Some && sem_binop(
            hm,
            mul_op(ts, q)->0,
            SValue::Int(a),
            SValue::Int(b),
        ) == ok(SValue::Int((a % b) as i64))),
        !(ts[q].0 is Plus || ts[q].0 is Minus) ==> add_op(ts, q) is None,
        !(ts[q].0 is Star || ts[q].0 is Slash || ts[q].0 is Percent) ==> mul_op(ts, q) is None,
{
    reveal(tok_code);
    if a >= 0 && b > 0 {
        let (x, d) = (a as int, b as int);
        assert(0 <= x % d < d) by (nonlinear_arith)
            requires
                d > 0,
        ;
        if a == 0 {
            assert(x % d == 0) by (nonlinear_arith)
                requires
                    x == 0,
                    d > 0,
            ;
        }
    }
}

} // verus!

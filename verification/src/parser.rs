//! A recursive-descent parser for the grammar of `grammar.rs`. Each parsing
//! function answers exactly what its grammar rule answers, on the views of
//! the values it builds.

use vstd::prelude::*;
use vstd::string::*;

use crate::ast::{
    spe,
    top_v,
    lemma_sps_v,
    group_ast_views, sp_v, SExpr, SPattern, STypeExpr, Spanned, Expr, TypeExpr, Pattern,
    MatchArm, TopLevel, BinOp, Module, SpExpr, tys_v, sps_v, pats_v, arms_v, arm_v, ty_fields_v,
    strs_v, SArm, SSp, STopLevel, items_v,
};
use crate::grammar::{
    Toks, at, opt_tok, ident_at, type_ident_at, span_of, spn, bx, join_span, fun_chain, app_chain, g_ty, g_ty_arrows, g_ty_atom, g_ty_applied, g_ty_tuple, g_ty_paren, g_ty_list, g_ty_list_rest, g_pat, g_pat_tuple, g_pat_paren, g_pat_ctor, is_underscore, g_pat_atom, g_pat_list, g_pat_list_rest, mk_bin, app_items, apply_arg, g_expr, g_pipe_rest, g_or, g_or_rest, g_and, g_and_rest, rel_op, add_op, mul_op, g_rel, g_rel_rest, g_add, g_add_rest, g_mul, g_mul_rest, g_unary, g_app, g_app_rest, g_field, g_field_rest, g_simple, g_name, g_atom, g_idents, g_lambda, g_let, g_if, skip_newlines, g_arm, g_arms, g_match_braced, g_match_indented, g_expr_list, g_expr_list_rest, g_list, g_paren, skip_ws, skip_nl, g_stmts, g_body, g_param, g_params, g_params_rest, g_def, g_defs, g_module, g_whole_expr,
};
use crate::token::{copy_span, same_kind, tok_code, Span, Token};

verus! {


/// A parse error: the furthest position at which the parser had to give up,
/// the token found there (`None` at the end of input), and the tokens it
/// would have accepted there.
#[derive(Debug)]
pub struct ParseError {
    pub span: Span,
    pub found: Option<Token>,
    pub expected: Vec<Token>,
}

/// Whether the error is at one of the tokens, naming it, or at the end of
/// input.
pub open spec fn error_at_token(ts: Seq<(Token, Span)>, e: ParseError) -> bool {
    ||| exists|k: int| 0 <= k < ts.len() && e.span == (#[trigger] ts[k]).1 && e.found == Some(ts[k].0)
    ||| e.span == (std::ops::Range { start: 0usize, end: usize::MAX }) && e.found is None
}

/// Whether the error is at a token at or after index `p`, naming it, or at
/// the end of input: the parser reports the furthest place it failed, which
/// is never before the place where the parse stopped.
pub open spec fn error_at_or_after(ts: Seq<(Token, Span)>, e: ParseError, p: int) -> bool {
    ||| exists|k: int| p <= k < ts.len() && e.span == (#[trigger] ts[k]).1 && e.found == Some(ts[k].0)
    ||| e.span == (std::ops::Range { start: 0usize, end: usize::MAX }) && e.found is None
}

/// The furthest failure seen while parsing, and what was expected there.
pub struct Failure {
    pub far: usize,
    pub expected: Vec<Token>,
}

/// Whether a token of the kind of `t` is among `s`.
pub open spec fn kind_among(s: Seq<Token>, t: Token) -> bool {
    exists|i: int| 0 <= i < s.len() && tok_code(#[trigger] s[i]) == tok_code(t)
}

/// What noting that `k` (if any) was expected at `p` makes of the furthest
/// failure `(far, expected)`: a further position starts afresh, an earlier
/// one is ignored, and a token of a kind already expected is not added again.
pub open spec fn noted(far: usize, expected: Seq<Token>, p: usize, k: Option<Token>) -> (usize, Seq<
    Token,
>) {
    let f2 = if p > far {
        p
    } else {
        far
    };
    let e2 = if p > far {
        Seq::<Token>::empty()
    } else {
        expected
    };
    if p == f2 {
        match k {
            Some(t) => if kind_among(e2, t) {
                (f2, e2)
            } else {
                (f2, e2.push(t))
            },
            None => (f2, e2),
        }
    } else {
        (f2, e2)
    }
}

/// Whether a token of the kind of `t` is among `v`.
fn has_kind(v: &Vec<Token>, t: &Token) -> (r: bool)
    ensures
        r == kind_among(v@, *t),
{
    let mut i: usize = 0;
    while i < v.len()
        invariant
            i <= v@.len(),
            forall|j: int| 0 <= j < i ==> tok_code(#[trigger] v@[j]) != tok_code(*t),
        decreases v.len() - i,
    {
        if same_kind(&v[i], t) {
            return true;
        }
        i = i + 1;
    }
    false
}

impl Failure {
    /// No failure yet.
    pub fn new() -> (r: Self)
        ensures
            r.far == 0,
            r.expected@.len() == 0,
    {
        Failure { far: 0, expected: Vec::new() }
    }

    /// Notes that the token `k` (if any) was expected at `p`.
    pub fn note(&mut self, p: usize, k: Option<Token>)
        ensures
            final(self).far >= old(self).far,
            final(self).far == noted(old(self).far, old(self).expected@, p, k).0,
            final(self).expected@ == noted(old(self).far, old(self).expected@, p, k).1,
    {
        if p > self.far {
            self.far = p;
            self.expected = Vec::new();
        }
        if p == self.far {
            match k {
                Some(t) => {
                    let ghost e = self.expected@;
                    if !has_kind(&self.expected, &t) {
                        self.expected.push(t);
                        assert(self.expected@ == e.push(t));
                    }
                },
                None => {},
            }
        }
    }

    /// The error for a parse of `ts` that failed: at the token where it
    /// failed, or at the end of input (the span `0..usize::MAX`).
    pub fn into_error(self, ts: &Vec<(Token, Span)>) -> (r: ParseError)
        ensures
            r.expected@ == self.expected@,
            self.far < ts@.len() ==> r.span == ts@[self.far as int].1 && r.found == Some(
                ts@[self.far as int].0,
            ),
            self.far >= ts@.len() ==> r.span == (std::ops::Range { start: 0usize, end: usize::MAX })
                && r.found is None,
    {
        if self.far < ts.len() {
            ParseError {
                span: copy_span(&ts[self.far].1),
                found: Some(ts[self.far].0.duplicate()),
                expected: self.expected,
            }
        } else {
            ParseError {
                span: std::ops::Range { start: 0, end: usize::MAX },
                found: None,
                expected: self.expected,
            }
        }
    }
}

pub type Tokens = Vec<(Token, Span)>;

pub open spec fn res_e(r: Option<(Spanned<Expr>, usize)>) -> Option<(Spanned<SExpr>, int)> {
    match r {
        Some((e, q)) => Some((spe(e), q as int)),
        None => None,
    }
}

pub open spec fn res_t(r: Option<(TypeExpr, usize)>) -> Option<(STypeExpr, int)> {
    match r {
        Some((t, q)) => Some((t@, q as int)),
        None => None,
    }
}

pub open spec fn res_p(r: Option<(Pattern, usize)>) -> Option<(SPattern, int)> {
    match r {
        Some((t, q)) => Some((t@, q as int)),
        None => None,
    }
}

// ── Token tests ───────────────────────────────────────────────────────────────

/// Whether the token at `p` is of the variant of `k`; notes `k` as expected
/// where it is not.
pub(crate) fn expect(ts: &Tokens, f: &mut Failure, p: usize, k: Token) -> (r: bool)
    ensures
        final(f).far >= old(f).far,
        r == at(ts@, p as int, k),
{
    if p < ts.len() && same_kind(&ts[p].0, &k) {
        true
    } else {
        f.note(p, Some(k));
        false
    }
}

/// Whether the token at `p` is of the variant of `k`, noting nothing.
pub(crate) fn peek(ts: &Tokens, p: usize, k: Token) -> (r: bool)
    ensures
        r == at(ts@, p as int, k),
{
    p < ts.len() && same_kind(&ts[p].0, &k)
}

pub(crate) fn ident_parser(ts: &Tokens, f: &mut Failure, p: usize) -> (r: Option<String>)
    ensures
        final(f).far >= old(f).far,
        r is Some <==> ident_at(ts@, p as int) is Some,
        r matches Some(s) ==> ident_at(ts@, p as int) == Some(s@),
{
    if p < ts.len() {
        match &ts[p].0 {
            Token::Ident(s) => {
                return Some(s.clone());
            },
            _ => {},
        }
    }
    f.note(p, None);
    None
}

pub(crate) fn type_ident_parser(ts: &Tokens, f: &mut Failure, p: usize) -> (r: Option<String>)
    ensures
        final(f).far >= old(f).far,
        r is Some <==> type_ident_at(ts@, p as int) is Some,
        r matches Some(s) ==> type_ident_at(ts@, p as int) == Some(s@),
{
    if p < ts.len() {
        match &ts[p].0 {
            Token::TypeIdent(s) => {
                return Some(s.clone());
            },
            _ => {},
        }
    }
    f.note(p, None);
    None
}

pub(crate) fn span_at(ts: &Tokens, p: usize, q: usize) -> (r: Span)
    requires
        p < q <= ts@.len(),
    ensures
        r == span_of(ts@, p as int, q as int),
{
    std::ops::Range { start: ts[p].1.start, end: ts[q - 1].1.end }
}

pub(crate) fn join(a: &Span, b: &Span) -> (r: Span)
    ensures
        r == join_span(*a, *b),
{
    std::ops::Range { start: a.start, end: b.end }
}

// ── Type expressions ──────────────────────────────────────────────────────────

pub(crate) fn fun_chain_x(h: TypeExpr, rest: Vec<TypeExpr>) -> (r: TypeExpr)
    ensures
        r@ == fun_chain(h@, tys_v(rest@)),
    decreases rest@.len(),
{
    broadcast use group_ast_views;

    if rest.len() == 0 {
        h
    } else {
        let mut rest = rest;
        let ghost old_rest = rest@;
        let first = rest.remove(0);
        assert(tys_v(rest@) =~= tys_v(old_rest).drop_first());
        let tail = fun_chain_x(first, rest);
        TypeExpr::Fun(Box::new(h), Box::new(tail))
    }
}

pub(crate) fn app_chain_x(acc: TypeExpr, args: Vec<TypeExpr>) -> (r: TypeExpr)
    ensures
        r@ == app_chain(acc@, tys_v(args@)),
    decreases args@.len(),
{
    broadcast use group_ast_views;

    if args.len() == 0 {
        acc
    } else {
        let mut args = args;
        let ghost old_args = args@;
        let first = args.remove(0);
        assert(tys_v(args@) =~= tys_v(old_args).drop_first());
        app_chain_x(TypeExpr::App(Box::new(acc), Box::new(first)), args)
    }
}

/// Parses a type expression at `p`: the type and the position after it, as
/// the rule `g_ty` answers; each failure is noted in `f`.
pub fn type_expr_parser(ts: &Tokens, f: &mut Failure, p: usize) -> (r: Option<(TypeExpr, usize)>)
    requires
        p <= ts@.len() < usize::MAX,
    ensures
        final(f).far >= old(f).far,
        res_t(r) == g_ty(ts@, p as int),
        r matches Some((_, q)) ==> p < q <= ts@.len(),
    decreases ts@.len() - p, 40int,
{
    match p_ty_atom(ts, f, p) {
        Some((h, q)) => {
            let mut rest: Vec<TypeExpr> = Vec::new();
            let r = p_ty_arrows(ts, f, &mut rest, q);
            Some((fun_chain_x(h, rest), r))
        },
        None => None,
    }
}

pub(crate) fn p_ty_arrows(ts: &Tokens, f: &mut Failure, acc: &mut Vec<TypeExpr>, q: usize) -> (r: usize)
    requires
        q <= ts@.len() < usize::MAX,
    ensures
        final(f).far >= old(f).far,
        (tys_v(final(acc)@), r as int) == g_ty_arrows(ts@, tys_v(old(acc)@), q as int),
        q <= r <= ts@.len(),
    decreases ts@.len() - q, 35int,
{
    broadcast use group_ast_views;

    if expect(ts, f, q, Token::Arrow) {
        match type_expr_parser(ts, f, q + 1) {
            Some((t, r)) => {
                let ghost a0 = acc@;
                acc.push(t);
                assert(tys_v(acc@) =~= tys_v(a0).push(t@));
                p_ty_arrows(ts, f, acc, r)
            },
            None => q,
        }
    } else {
        q
    }
}

pub(crate) fn p_ty_atom(ts: &Tokens, f: &mut Failure, p: usize) -> (r: Option<(TypeExpr, usize)>)
    requires
        p <= ts@.len() < usize::MAX,
    ensures
        final(f).far >= old(f).far,
        res_t(r) == g_ty_atom(ts@, p as int),
        r matches Some((_, q)) ==> p < q <= ts@.len(),
    decreases ts@.len() - p, 30int,
{
    if let Some(x) = p_ty_applied(ts, f, p) {
        return Some(x);
    }
    if let Some(x) = p_ty_tuple(ts, f, p) {
        return Some(x);
    }
    if let Some(x) = p_ty_paren(ts, f, p) {
        return Some(x);
    }
    if let Some(n) = type_ident_parser(ts, f, p) {
        return Some((TypeExpr::Named(n), p + 1));
    }
    if let Some(n) = ident_parser(ts, f, p) {
        return Some((TypeExpr::Named(n), p + 1));
    }
    None
}

pub(crate) fn p_ty_applied(ts: &Tokens, f: &mut Failure, p: usize) -> (r: Option<(TypeExpr, usize)>)
    requires
        p <= ts@.len() < usize::MAX,
    ensures
        final(f).far >= old(f).far,
        res_t(r) == g_ty_applied(ts@, p as int),
        r matches Some((_, q)) ==> p < q <= ts@.len(),
    decreases ts@.len() - p, 25int,
{
    broadcast use group_ast_views;

    match type_ident_parser(ts, f, p) {
        Some(n) => {
            if expect(ts, f, p + 1, Token::Lt) {
                let (args, q) = p_ty_list(ts, f, p + 2);
                if args.len() >= 1 && expect(ts, f, q, Token::Gt) {
                    Some((app_chain_x(TypeExpr::Named(n), args), q + 1))
                } else {
                    None
                }
            } else {
                None
            }
        },
        None => None,
    }
}

pub(crate) fn p_ty_tuple(ts: &Tokens, f: &mut Failure, p: usize) -> (r: Option<(TypeExpr, usize)>)
    requires
        p <= ts@.len() < usize::MAX,
    ensures
        final(f).far >= old(f).far,
        res_t(r) == g_ty_tuple(ts@, p as int),
        r matches Some((_, q)) ==> p < q <= ts@.len(),
    decreases ts@.len() - p, 24int,
{
    broadcast use group_ast_views;

    if expect(ts, f, p, Token::LParen) {
        let (items, q) = p_ty_list(ts, f, p + 1);
        if items.len() >= 2 && expect(ts, f, q, Token::RParen) {
            Some((TypeExpr::Tuple(items), q + 1))
        } else {
            None
        }
    } else {
        None
    }
}

pub(crate) fn p_ty_paren(ts: &Tokens, f: &mut Failure, p: usize) -> (r: Option<(TypeExpr, usize)>)
    requires
        p <= ts@.len() < usize::MAX,
    ensures
        final(f).far >= old(f).far,
        res_t(r) == g_ty_paren(ts@, p as int),
        r matches Some((_, q)) ==> p < q <= ts@.len(),
    decreases ts@.len() - p, 23int,
{
    if expect(ts, f, p, Token::LParen) {
        match type_expr_parser(ts, f, p + 1) {
            Some((t, q)) => {
                if expect(ts, f, q, Token::RParen) {
                    Some((t, q + 1))
                } else {
                    None
                }
            },
            None => None,
        }
    } else {
        None
    }
}

pub(crate) fn p_ty_list(ts: &Tokens, f: &mut Failure, q: usize) -> (r: (Vec<TypeExpr>, usize))
    requires
        q <= ts@.len() < usize::MAX,
    ensures
        final(f).far >= old(f).far,
        (tys_v(r.0@), r.1 as int) == g_ty_list(ts@, q as int),
        q <= r.1 <= ts@.len(),
    decreases ts@.len() - q, 45int,
{
    broadcast use group_ast_views;

    match type_expr_parser(ts, f, q) {
        Some((t, r)) => {
            let mut acc: Vec<TypeExpr> = Vec::new();
            acc.push(t);
            assert(tys_v(acc@) =~= seq![t@]);
            let r2 = p_ty_list_rest(ts, f, &mut acc, r);
            (acc, r2)
        },
        None => {
            let acc: Vec<TypeExpr> = Vec::new();
            assert(tys_v(acc@) =~= seq![]);
            (acc, q)
        },
    }
}

pub(crate) fn p_ty_list_rest(ts: &Tokens, f: &mut Failure, acc: &mut Vec<TypeExpr>, q: usize) -> (r: usize)
    requires
        q <= ts@.len() < usize::MAX,
    ensures
        final(f).far >= old(f).far,
        (tys_v(final(acc)@), r as int) == g_ty_list_rest(ts@, tys_v(old(acc)@), q as int),
        q <= r <= ts@.len(),
    decreases ts@.len() - q, 42int,
{
    broadcast use group_ast_views;

    if expect(ts, f, q, Token::Comma) {
        match type_expr_parser(ts, f, q + 1) {
            Some((t, r)) => {
                let ghost a0 = acc@;
                acc.push(t);
                assert(tys_v(acc@) =~= tys_v(a0).push(t@));
                p_ty_list_rest(ts, f, acc, r)
            },
            None => q,
        }
    } else {
        q
    }
}


// ── Patterns ──────────────────────────────────────────────────────────────────

pub(crate) fn is_underscore_x(s: &String) -> (r: bool)
    ensures
        r == is_underscore(s@),
{
    broadcast use group_ast_views;

    let u = String::from_str("_");
    proof {
        reveal_strlit("_");
    }
    assert(u@ =~= seq!['_']);
    *s == u
}

/// Parses a pattern at `p`: the pattern and the position after it, as the
/// rule `g_pat` answers; each failure is noted in `f`.
pub fn pattern_parser(ts: &Tokens, f: &mut Failure, p: usize) -> (r: Option<(Pattern, usize)>)
    requires
        p <= ts@.len() < usize::MAX,
    ensures
        final(f).far >= old(f).far,
        res_p(r) == g_pat(ts@, p as int),
        r matches Some((_, q)) ==> p < q <= ts@.len(),
    decreases ts@.len() - p, 60int,
{
    if let Some(x) = p_pat_tuple(ts, f, p) {
        return Some(x);
    }
    if let Some(x) = p_pat_paren(ts, f, p) {
        return Some(x);
    }
    if let Some(x) = p_pat_ctor(ts, f, p) {
        return Some(x);
    }
    p_pat_atom(ts, f, p)
}

pub(crate) fn p_pat_tuple(ts: &Tokens, f: &mut Failure, p: usize) -> (r: Option<(Pattern, usize)>)
    requires
        p <= ts@.len() < usize::MAX,
    ensures
        final(f).far >= old(f).far,
        res_p(r) == g_pat_tuple(ts@, p as int),
        r matches Some((_, q)) ==> p < q <= ts@.len(),
    decreases ts@.len() - p, 55int,
{
    broadcast use group_ast_views;

    if expect(ts, f, p, Token::LParen) {
        let (ps, q) = p_pat_list(ts, f, p + 1);
        if ps.len() >= 2 && expect(ts, f, q, Token::RParen) {
            Some((Pattern::Tuple(ps), q + 1))
        } else {
            None
        }
    } else {
        None
    }
}

pub(crate) fn p_pat_paren(ts: &Tokens, f: &mut Failure, p: usize) -> (r: Option<(Pattern, usize)>)
    requires
        p <= ts@.len() < usize::MAX,
    ensures
        final(f).far >= old(f).far,
        res_p(r) == g_pat_paren(ts@, p as int),
        r matches Some((_, q)) ==> p < q <= ts@.len(),
    decreases ts@.len() - p, 54int,
{
    if expect(ts, f, p, Token::LParen) {
        match pattern_parser(ts, f, p + 1) {
            Some((x, q)) => {
                if expect(ts, f, q, Token::RParen) {
                    Some((x, q + 1))
                } else {
                    None
                }
            },
            None => None,
        }
    } else {
        None
    }
}

pub(crate) fn p_pat_ctor(ts: &Tokens, f: &mut Failure, p: usize) -> (r: Option<(Pattern, usize)>)
    requires
        p <= ts@.len() < usize::MAX,
    ensures
        final(f).far >= old(f).far,
        res_p(r) == g_pat_ctor(ts@, p as int),
        r matches Some((_, q)) ==> p < q <= ts@.len(),
    decreases ts@.len() - p, 53int,
{
    broadcast use group_ast_views;

    match type_ident_parser(ts, f, p) {
        Some(n) => {
            if expect(ts, f, p + 1, Token::LParen) {
                let (ps, q) = p_pat_list(ts, f, p + 2);
                if expect(ts, f, q, Token::RParen) {
                    return Some((Pattern::Constructor(n, ps), q + 1));
                }
            }
            match p_pat_atom(ts, f, p + 1) {
                Some((a, q)) => {
                    let mut v: Vec<Pattern> = Vec::new();
                    v.push(a);
                    assert(pats_v(v@) =~= seq![a@]);
                    Some((Pattern::Constructor(n, v), q))
                },
                None => {
                    let v: Vec<Pattern> = Vec::new();
                    assert(pats_v(v@) =~= seq![]);
                    Some((Pattern::Constructor(n, v), p + 1))
                },
            }
        },
        None => None,
    }
}

pub(crate) fn p_pat_atom(ts: &Tokens, f: &mut Failure, p: usize) -> (r: Option<(Pattern, usize)>)
    requires
        p <= ts@.len() < usize::MAX,
    ensures
        final(f).far >= old(f).far,
        res_p(r) == g_pat_atom(ts@, p as int),
        r matches Some((_, q)) ==> p < q <= ts@.len(),
{
    if p < ts.len() {
        match &ts[p].0 {
            Token::Ident(s) => {
                if is_underscore_x(s) {
                    return Some((Pattern::Wildcard, p + 1));
                } else {
                    return Some((Pattern::Var(s.clone()), p + 1));
                }
            },
            Token::True => {
                return Some((Pattern::Bool(true), p + 1));
            },
            Token::False => {
                return Some((Pattern::Bool(false), p + 1));
            },
            Token::Int(n) => {
                return Some((Pattern::Int(*n), p + 1));
            },
            Token::Float(b) => {
                return Some((Pattern::Float(*b), p + 1));
            },
            Token::Str(s) => {
                return Some((Pattern::Str(s.clone()), p + 1));
            },
            _ => {},
        }
    }
    f.note(p, None);
    None
}

pub(crate) fn p_pat_list(ts: &Tokens, f: &mut Failure, q: usize) -> (r: (Vec<Pattern>, usize))
    requires
        q <= ts@.len() < usize::MAX,
    ensures
        final(f).far >= old(f).far,
        (pats_v(r.0@), r.1 as int) == g_pat_list(ts@, q as int),
        q <= r.1 <= ts@.len(),
    decreases ts@.len() - q, 65int,
{
    broadcast use group_ast_views;

    match pattern_parser(ts, f, q) {
        Some((x, r)) => {
            let mut acc: Vec<Pattern> = Vec::new();
            acc.push(x);
            assert(pats_v(acc@) =~= seq![x@]);
            let r2 = p_pat_list_rest(ts, f, &mut acc, r);
            (acc, r2)
        },
        None => {
            let acc: Vec<Pattern> = Vec::new();
            assert(pats_v(acc@) =~= seq![]);
            (acc, q)
        },
    }
}

pub(crate) fn p_pat_list_rest(ts: &Tokens, f: &mut Failure, acc: &mut Vec<Pattern>, q: usize) -> (r: usize)
    requires
        q <= ts@.len() < usize::MAX,
    ensures
        final(f).far >= old(f).far,
        (pats_v(final(acc)@), r as int) == g_pat_list_rest(ts@, pats_v(old(acc)@), q as int),
        q <= r <= ts@.len(),
    decreases ts@.len() - q, 62int,
{
    broadcast use group_ast_views;

    if expect(ts, f, q, Token::Comma) {
        match pattern_parser(ts, f, q + 1) {
            Some((x, r)) => {
                let ghost a0 = acc@;
                acc.push(x);
                assert(pats_v(acc@) =~= pats_v(a0).push(x@));
                p_pat_list_rest(ts, f, acc, r)
            },
            None => q,
        }
    } else {
        q
    }
}



// ── Node builders ─────────────────────────────────────────────────────────────

pub(crate) fn mk_if(c: Spanned<Expr>, t: Spanned<Expr>, e: Spanned<Expr>, span: Span) -> (r:
    Spanned<Expr>)
    ensures
        spe(r) == spn(SExpr::If { cond: bx(spe(c)), then_: bx(spe(t)), else_: bx(spe(e)) }, span),
{
    Spanned::new(Expr::If { cond: Box::new(c), then_: Box::new(t), else_: Box::new(e) }, span)
}

pub(crate) fn mk_let(name: String, v: Spanned<Expr>, b: Spanned<Expr>, span: Span) -> (r:
    Spanned<Expr>)
    ensures
        spe(r) == spn(SExpr::Let { name: name@, value: bx(spe(v)), body: bx(spe(b)) }, span),
{
    Spanned::new(Expr::Let { name, value: Box::new(v), body: Box::new(b) }, span)
}

pub(crate) fn mk_lambda(params: Vec<String>, b: Spanned<Expr>, span: Span) -> (r: Spanned<Expr>)
    ensures
        spe(r) == spn(SExpr::Lambda { params: strs_v(params@), body: bx(spe(b)) }, span),
{
    Spanned::new(Expr::Lambda { params, body: Box::new(b) }, span)
}

pub(crate) fn mk_match(s: Spanned<Expr>, arms: Vec<MatchArm>, span: Span) -> (r: Spanned<Expr>)
    ensures
        spe(r) == spn(SExpr::Match { scrutinee: bx(spe(s)), arms: arms_v(arms@) }, span),
{
    Spanned::new(Expr::Match { scrutinee: Box::new(s), arms }, span)
}

pub(crate) fn mk_list(items: Vec<SpExpr>, span: Span) -> (r: Spanned<Expr>)
    ensures
        spe(r) == spn(SExpr::List(sps_v(items@)), span),
{
    Spanned::new(Expr::List(items), span)
}

pub(crate) fn mk_tuple(items: Vec<SpExpr>, span: Span) -> (r: Spanned<Expr>)
    ensures
        spe(r) == spn(SExpr::Tuple(sps_v(items@)), span),
{
    Spanned::new(Expr::Tuple(items), span)
}

pub(crate) fn mk_block(items: Vec<SpExpr>, span: Span) -> (r: Spanned<Expr>)
    ensures
        spe(r) == spn(SExpr::Block(sps_v(items@)), span),
{
    Spanned::new(Expr::Block(items), span)
}

pub(crate) fn mk_neg(e: Spanned<Expr>, span: Span) -> (r: Spanned<Expr>)
    ensures
        spe(r) == spn(SExpr::Neg(bx(spe(e))), span),
{
    Spanned::new(Expr::Neg(Box::new(e)), span)
}

pub(crate) fn mk_pipe(l: Spanned<Expr>, rhs: Spanned<Expr>) -> (r: Spanned<Expr>)
    ensures
        spe(r) == spn(
            SExpr::Pipe { lhs: bx(spe(l)), rhs: bx(spe(rhs)) },
            join_span(l.span, rhs.span),
        ),
{
    let span = join(&l.span, &rhs.span);
    Spanned::new(Expr::Pipe { lhs: Box::new(l), rhs: Box::new(rhs) }, span)
}

pub(crate) fn mk_field(record: Spanned<Expr>, field: String) -> (r: Spanned<Expr>)
    ensures
        spe(r) == spn(SExpr::Field { record: bx(spe(record)), field: field@ }, record.span),
{
    let span = copy_span(&record.span);
    Spanned::new(Expr::Field { record: Box::new(record), field }, span)
}

pub(crate) fn mk_app(fun: Spanned<Expr>, arg: SpExpr) -> (r: Spanned<Expr>)
    ensures
        spe(r) == spn(SExpr::App { func: bx(spe(fun)), arg: sp_v(arg) }, join_span(fun.span, arg.span)),
{
    let span = join(&fun.span, &arg.span);
    Spanned::new(Expr::App { func: Box::new(fun), arg }, span)
}

/// The expression in a box.
pub(crate) fn unbox(b: SpExpr) -> (r: Spanned<Expr>)
    ensures
        bx(spe(r)) == sp_v(b),
{
    *b
}

// ── Expressions ───────────────────────────────────────────────────────────────

pub(crate) fn mk_bin_x(op: BinOp, l: Spanned<Expr>, r: Spanned<Expr>) -> (e: Spanned<Expr>)
    ensures
        spe(e) == mk_bin(op, spe(l), spe(r)),
{
    let span = join(&l.span, &r.span);
    Spanned::new(Expr::BinOp { op, lhs: Box::new(l), rhs: Box::new(r) }, span)
}

pub(crate) fn app_items_x(fun: Spanned<Expr>, items: Vec<SpExpr>) -> (e: Spanned<Expr>)
    ensures
        spe(e) == app_items(spe(fun), sps_v(items@)),
    decreases items@.len(),
{
    broadcast use group_ast_views;

    if items.len() == 0 {
        fun
    } else {
        let mut items = items;
        let ghost old_items = items@;
        let item = items.remove(0);
        assert(sps_v(items@) =~= sps_v(old_items).drop_first());
        let next = mk_app(fun, item);
        app_items_x(next, items)
    }
}

pub(crate) fn apply_arg_x(fun: Spanned<Expr>, arg: Spanned<Expr>) -> (e: Spanned<Expr>)
    ensures
        spe(e) == apply_arg(spe(fun), spe(arg)),
{
    match arg.node {
        Expr::Tuple(items) => app_items_x(fun, items),
        node => {
            let arg = Spanned { node, span: arg.span };
            mk_app(fun, Box::new(arg))
        },
    }
}

/// Parses an expression at `p`: the expression and the position after it, as
/// the rule `g_expr` answers; each failure is noted in `f`.
pub fn expr_parser(ts: &Tokens, f: &mut Failure, p: usize) -> (r: Option<(Spanned<Expr>, usize)>)
    requires
        p <= ts@.len() < usize::MAX,
    ensures
        final(f).far >= old(f).far,
        res_e(r) == g_expr(ts@, p as int),
        r matches Some((_, q)) ==> p < q <= ts@.len(),
    decreases ts@.len() - p, 200int,
{
    match p_or(ts, f, p) {
        Some((l, q)) => Some(p_pipe_rest(ts, f, l, q)),
        None => None,
    }
}

pub(crate) fn p_pipe_rest(ts: &Tokens, f: &mut Failure, acc: Spanned<Expr>, q: usize) -> (r: (
    Spanned<Expr>,
    usize,
))
    requires
        q <= ts@.len() < usize::MAX,
    ensures
        final(f).far >= old(f).far,
        (spe(r.0), r.1 as int) == g_pipe_rest(ts@, spe(acc), q as int),
        q <= r.1 <= ts@.len(),
    decreases ts@.len() - q, 195int,
{
    if expect(ts, f, q, Token::PipeRight) {
        match p_or(ts, f, q + 1) {
            Some((r, q2)) => {
                p_pipe_rest(ts, f, mk_pipe(acc, r), q2)
            },
            None => (acc, q),
        }
    } else {
        (acc, q)
    }
}

pub(crate) fn p_or(ts: &Tokens, f: &mut Failure, p: usize) -> (r: Option<(Spanned<Expr>, usize)>)
    requires
        p <= ts@.len() < usize::MAX,
    ensures
        final(f).far >= old(f).far,
        res_e(r) == g_or(ts@, p as int),
        r matches Some((_, q)) ==> p < q <= ts@.len(),
    decreases ts@.len() - p, 190int,
{
    match p_and(ts, f, p) {
        Some((l, q)) => Some(p_or_rest(ts, f, l, q)),
        None => None,
    }
}

pub(crate) fn p_or_rest(ts: &Tokens, f: &mut Failure, acc: Spanned<Expr>, q: usize) -> (r: (
    Spanned<Expr>,
    usize,
))
    requires
        q <= ts@.len() < usize::MAX,
    ensures
        final(f).far >= old(f).far,
        (spe(r.0), r.1 as int) == g_or_rest(ts@, spe(acc), q as int),
        q <= r.1 <= ts@.len(),
    decreases ts@.len() - q, 185int,
{
    if expect(ts, f, q, Token::Or) {
        match p_and(ts, f, q + 1) {
            Some((r, q2)) => p_or_rest(ts, f, mk_bin_x(BinOp::Or, acc, r), q2),
            None => (acc, q),
        }
    } else {
        (acc, q)
    }
}

pub(crate) fn p_and(ts: &Tokens, f: &mut Failure, p: usize) -> (r: Option<(Spanned<Expr>, usize)>)
    requires
        p <= ts@.len() < usize::MAX,
    ensures
        final(f).far >= old(f).far,
        res_e(r) == g_and(ts@, p as int),
        r matches Some((_, q)) ==> p < q <= ts@.len(),
    decreases ts@.len() - p, 180int,
{
    match p_rel(ts, f, p) {
        Some((l, q)) => Some(p_and_rest(ts, f, l, q)),
        None => None,
    }
}

pub(crate) fn p_and_rest(ts: &Tokens, f: &mut Failure, acc: Spanned<Expr>, q: usize) -> (r: (
    Spanned<Expr>,
    usize,
))
    requires
        q <= ts@.len() < usize::MAX,
    ensures
        final(f).far >= old(f).far,
        (spe(r.0), r.1 as int) == g_and_rest(ts@, spe(acc), q as int),
        q <= r.1 <= ts@.len(),
    decreases ts@.len() - q, 175int,
{
    if expect(ts, f, q, Token::And) {
        match p_rel(ts, f, q + 1) {
            Some((r, q2)) => p_and_rest(ts, f, mk_bin_x(BinOp::And, acc, r), q2),
            None => (acc, q),
        }
    } else {
        (acc, q)
    }
}

pub(crate) fn rel_op_x(ts: &Tokens, f: &mut Failure, q: usize) -> (r: Option<BinOp>)
    ensures
        final(f).far >= old(f).far,
        r == rel_op(ts@, q as int),
{
    if expect(ts, f, q, Token::EqEq) {
        Some(BinOp::Eq)
    } else if expect(ts, f, q, Token::Neq) {
        Some(BinOp::Neq)
    } else if expect(ts, f, q, Token::Leq) {
        Some(BinOp::Leq)
    } else if expect(ts, f, q, Token::Geq) {
        Some(BinOp::Geq)
    } else if expect(ts, f, q, Token::Lt) {
        Some(BinOp::Lt)
    } else if expect(ts, f, q, Token::Gt) {
        Some(BinOp::Gt)
    } else {
        None
    }
}

pub(crate) fn add_op_x(ts: &Tokens, f: &mut Failure, q: usize) -> (r: Option<BinOp>)
    ensures
        final(f).far >= old(f).far,
        r == add_op(ts@, q as int),
{
    if expect(ts, f, q, Token::Plus) {
        Some(BinOp::Add)
    } else if expect(ts, f, q, Token::Minus) {
        Some(BinOp::Sub)
    } else {
        None
    }
}

pub(crate) fn mul_op_x(ts: &Tokens, f: &mut Failure, q: usize) -> (r: Option<BinOp>)
    ensures
        final(f).far >= old(f).far,
        r == mul_op(ts@, q as int),
{
    if expect(ts, f, q, Token::Star) {
        Some(BinOp::Mul)
    } else if expect(ts, f, q, Token::Slash) {
        Some(BinOp::Div)
    } else if expect(ts, f, q, Token::Percent) {
        Some(BinOp::Mod)
    } else {
        None
    }
}

pub(crate) fn p_rel(ts: &Tokens, f: &mut Failure, p: usize) -> (r: Option<(Spanned<Expr>, usize)>)
    requires
        p <= ts@.len() < usize::MAX,
    ensures
        final(f).far >= old(f).far,
        res_e(r) == g_rel(ts@, p as int),
        r matches Some((_, q)) ==> p < q <= ts@.len(),
    decreases ts@.len() - p, 170int,
{
    match p_add(ts, f, p) {
        Some((l, q)) => Some(p_rel_rest(ts, f, l, q)),
        None => None,
    }
}

pub(crate) fn p_rel_rest(ts: &Tokens, f: &mut Failure, acc: Spanned<Expr>, q: usize) -> (r: (
    Spanned<Expr>,
    usize,
))
    requires
        q <= ts@.len() < usize::MAX,
    ensures
        final(f).far >= old(f).far,
        (spe(r.0), r.1 as int) == g_rel_rest(ts@, spe(acc), q as int),
        q <= r.1 <= ts@.len(),
    decreases ts@.len() - q, 165int,
{
    match rel_op_x(ts, f, q) {
        Some(op) => match p_add(ts, f, q + 1) {
            Some((r, q2)) => p_rel_rest(ts, f, mk_bin_x(op, acc, r), q2),
            None => (acc, q),
        },
        None => (acc, q),
    }
}

pub(crate) fn p_add(ts: &Tokens, f: &mut Failure, p: usize) -> (r: Option<(Spanned<Expr>, usize)>)
    requires
        p <= ts@.len() < usize::MAX,
    ensures
        final(f).far >= old(f).far,
        res_e(r) == g_add(ts@, p as int),
        r matches Some((_, q)) ==> p < q <= ts@.len(),
    decreases ts@.len() - p, 160int,
{
    match p_mul(ts, f, p) {
        Some((l, q)) => Some(p_add_rest(ts, f, l, q)),
        None => None,
    }
}

pub(crate) fn p_add_rest(ts: &Tokens, f: &mut Failure, acc: Spanned<Expr>, q: usize) -> (r: (
    Spanned<Expr>,
    usize,
))
    requires
        q <= ts@.len() < usize::MAX,
    ensures
        final(f).far >= old(f).far,
        (spe(r.0), r.1 as int) == g_add_rest(ts@, spe(acc), q as int),
        q <= r.1 <= ts@.len(),
    decreases ts@.len() - q, 155int,
{
    match add_op_x(ts, f, q) {
        Some(op) => match p_mul(ts, f, q + 1) {
            Some((r, q2)) => p_add_rest(ts, f, mk_bin_x(op, acc, r), q2),
            None => (acc, q),
        },
        None => (acc, q),
    }
}

pub(crate) fn p_mul(ts: &Tokens, f: &mut Failure, p: usize) -> (r: Option<(Spanned<Expr>, usize)>)
    requires
        p <= ts@.len() < usize::MAX,
    ensures
        final(f).far >= old(f).far,
        res_e(r) == g_mul(ts@, p as int),
        r matches Some((_, q)) ==> p < q <= ts@.len(),
    decreases ts@.len() - p, 150int,
{
    match p_unary(ts, f, p) {
        Some((l, q)) => Some(p_mul_rest(ts, f, l, q)),
        None => None,
    }
}

pub(crate) fn p_mul_rest(ts: &Tokens, f: &mut Failure, acc: Spanned<Expr>, q: usize) -> (r: (
    Spanned<Expr>,
    usize,
))
    requires
        q <= ts@.len() < usize::MAX,
    ensures
        final(f).far >= old(f).far,
        (spe(r.0), r.1 as int) == g_mul_rest(ts@, spe(acc), q as int),
        q <= r.1 <= ts@.len(),
    decreases ts@.len() - q, 145int,
{
    match mul_op_x(ts, f, q) {
        Some(op) => match p_unary(ts, f, q + 1) {
            Some((r, q2)) => p_mul_rest(ts, f, mk_bin_x(op, acc, r), q2),
            None => (acc, q),
        },
        None => (acc, q),
    }
}

pub(crate) fn p_unary(ts: &Tokens, f: &mut Failure, p: usize) -> (r: Option<(Spanned<Expr>, usize)>)
    requires
        p <= ts@.len() < usize::MAX,
    ensures
        final(f).far >= old(f).far,
        res_e(r) == g_unary(ts@, p as int),
        r matches Some((_, q)) ==> p < q <= ts@.len(),
    decreases ts@.len() - p, 140int,
{
    if expect(ts, f, p, Token::Minus) {
        match p_app(ts, f, p + 1) {
            Some((e, q)) => {
                let span = span_at(ts, p, q);
                return Some((mk_neg(e, span), q));
            },
            None => {},
        }
    }
    p_app(ts, f, p)
}

pub(crate) fn p_app(ts: &Tokens, f: &mut Failure, p: usize) -> (r: Option<(Spanned<Expr>, usize)>)
    requires
        p <= ts@.len() < usize::MAX,
    ensures
        final(f).far >= old(f).far,
        res_e(r) == g_app(ts@, p as int),
        r matches Some((_, q)) ==> p < q <= ts@.len(),
    decreases ts@.len() - p, 130int,
{
    match p_field(ts, f, p) {
        Some((fun, q)) => Some(p_app_rest(ts, f, fun, q)),
        None => None,
    }
}

pub(crate) fn p_app_rest(ts: &Tokens, f: &mut Failure, fun: Spanned<Expr>, q: usize) -> (r: (
    Spanned<Expr>,
    usize,
))
    requires
        q <= ts@.len() < usize::MAX,
    ensures
        final(f).far >= old(f).far,
        (spe(r.0), r.1 as int) == g_app_rest(ts@, spe(fun), q as int),
        q <= r.1 <= ts@.len(),
    decreases ts@.len() - q, 125int,
{
    match p_field(ts, f, q) {
        Some((a, q2)) => p_app_rest(ts, f, apply_arg_x(fun, a), q2),
        None => (fun, q),
    }
}

pub(crate) fn p_field(ts: &Tokens, f: &mut Failure, p: usize) -> (r: Option<(Spanned<Expr>, usize)>)
    requires
        p <= ts@.len() < usize::MAX,
    ensures
        final(f).far >= old(f).far,
        res_e(r) == g_field(ts@, p as int),
        r matches Some((_, q)) ==> p < q <= ts@.len(),
    decreases ts@.len() - p, 120int,
{
    match p_atom(ts, f, p) {
        Some((a, q)) => Some(p_field_rest(ts, f, a, q)),
        None => None,
    }
}

pub(crate) fn p_field_rest(ts: &Tokens, f: &mut Failure, acc: Spanned<Expr>, q: usize) -> (r: (
    Spanned<Expr>,
    usize,
))
    requires
        q <= ts@.len() < usize::MAX,
    ensures
        final(f).far >= old(f).far,
        (spe(r.0), r.1 as int) == g_field_rest(ts@, spe(acc), q as int),
        q <= r.1 <= ts@.len(),
    decreases ts@.len() - q,
{
    if expect(ts, f, q, Token::Dot) {
        match ident_parser(ts, f, q + 1) {
            Some(name) => {
                p_field_rest(ts, f, mk_field(acc, name), q + 2)
            },
            None => (acc, q),
        }
    } else {
        (acc, q)
    }
}

pub(crate) fn p_simple(ts: &Tokens, f: &mut Failure, p: usize) -> (r: Option<(Spanned<Expr>, usize)>)
    requires
        p <= ts@.len() < usize::MAX,
    ensures
        final(f).far >= old(f).far,
        res_e(r) == g_simple(ts@, p as int),
        r matches Some((_, q)) ==> p < q <= ts@.len(),
{
    if p < ts.len() {
        let sp = copy_span(&ts[p].1);
        match &ts[p].0 {
            Token::Int(n) => {
                return Some((Spanned::new(Expr::Int(*n), sp), p + 1));
            },
            Token::Float(b) => {
                return Some((Spanned::new(Expr::Float(*b), sp), p + 1));
            },
            Token::Str(s) => {
                return Some((Spanned::new(Expr::Str(s.clone()), sp), p + 1));
            },
            Token::True => {
                return Some((Spanned::new(Expr::Bool(true), sp), p + 1));
            },
            Token::False => {
                return Some((Spanned::new(Expr::Bool(false), sp), p + 1));
            },
            _ => {},
        }
    }
    f.note(p, None);
    None
}

pub(crate) fn p_name(ts: &Tokens, f: &mut Failure, p: usize) -> (r: Option<(Spanned<Expr>, usize)>)
    requires
        p <= ts@.len() < usize::MAX,
    ensures
        final(f).far >= old(f).far,
        res_e(r) == g_name(ts@, p as int),
        r matches Some((_, q)) ==> p < q <= ts@.len(),
{
    if p < ts.len() {
        let sp = copy_span(&ts[p].1);
        match &ts[p].0 {
            Token::TypeIdent(s) => {
                return Some((Spanned::new(Expr::Constructor(s.clone()), sp), p + 1));
            },
            Token::Ident(s) => {
                return Some((Spanned::new(Expr::Var(s.clone()), sp), p + 1));
            },
            _ => {},
        }
    }
    f.note(p, None);
    None
}

pub(crate) fn p_atom(ts: &Tokens, f: &mut Failure, p: usize) -> (r: Option<(Spanned<Expr>, usize)>)
    requires
        p <= ts@.len() < usize::MAX,
    ensures
        final(f).far >= old(f).far,
        res_e(r) == g_atom(ts@, p as int),
        r matches Some((_, q)) ==> p < q <= ts@.len(),
    decreases ts@.len() - p, 110int,
{
    if let Some(x) = p_simple(ts, f, p) {
        return Some(x);
    }
    if let Some(x) = p_lambda(ts, f, p) {
        return Some(x);
    }
    if let Some(x) = p_let(ts, f, p) {
        return Some(x);
    }
    if let Some(x) = p_if(ts, f, p) {
        return Some(x);
    }
    if let Some(x) = p_match_braced(ts, f, p) {
        return Some(x);
    }
    if let Some(x) = p_match_indented(ts, f, p) {
        return Some(x);
    }
    if let Some(x) = p_list(ts, f, p) {
        return Some(x);
    }
    if let Some(x) = p_paren(ts, f, p) {
        return Some(x);
    }
    p_name(ts, f, p)
}

pub(crate) fn p_idents(ts: &Tokens, f: &mut Failure, acc: &mut Vec<String>, q: usize) -> (r: usize)
    requires
        q <= ts@.len() < usize::MAX,
    ensures
        final(f).far >= old(f).far,
        (strs_v(final(acc)@), r as int) == g_idents(ts@, strs_v(old(acc)@), q as int),
        q <= r <= ts@.len(),
    decreases ts@.len() - q,
{
    broadcast use group_ast_views;

    match ident_parser(ts, f, q) {
        Some(n) => {
            let ghost a0 = acc@;
            acc.push(n);
            assert(strs_v(acc@) =~= strs_v(a0).push(n@));
            p_idents(ts, f, acc, q + 1)
        },
        None => q,
    }
}

pub(crate) fn p_lambda(ts: &Tokens, f: &mut Failure, p: usize) -> (r: Option<(Spanned<Expr>, usize)>)
    requires
        p <= ts@.len() < usize::MAX,
    ensures
        final(f).far >= old(f).far,
        res_e(r) == g_lambda(ts@, p as int),
        r matches Some((_, q)) ==> p < q <= ts@.len(),
    decreases ts@.len() - p, 105int,
{
    broadcast use group_ast_views;

    if expect(ts, f, p, Token::BackSlash) {
        let mut names: Vec<String> = Vec::new();
        assert(strs_v(names@) =~= seq![]);
        let q = p_idents(ts, f, &mut names, p + 1);
        if names.len() >= 1 && expect(ts, f, q, Token::Arrow) {
            match expr_parser(ts, f, q + 1) {
                Some((b, r)) => {
                    let span = span_at(ts, p, r);
                    Some((mk_lambda(names, b, span), r))
                },
                None => None,
            }
        } else {
            None
        }
    } else {
        None
    }
}

pub(crate) fn p_let(ts: &Tokens, f: &mut Failure, p: usize) -> (r: Option<(Spanned<Expr>, usize)>)
    requires
        p <= ts@.len() < usize::MAX,
    ensures
        final(f).far >= old(f).far,
        res_e(r) == g_let(ts@, p as int),
        r matches Some((_, q)) ==> p < q <= ts@.len(),
    decreases ts@.len() - p, 104int,
{
    if !expect(ts, f, p, Token::Let) {
        return None;
    }
    let name = match ident_parser(ts, f, p + 1) {
        Some(n) => n,
        None => {
            return None;
        },
    };
    if !expect(ts, f, p + 2, Token::Eq) {
        return None;
    }
    match expr_parser(ts, f, p + 3) {
        Some((v, q)) => {
            if expect(ts, f, q, Token::In) {
                match expr_parser(ts, f, q + 1) {
                    Some((b, r)) => {
                        let span = span_at(ts, p, r);
                        Some((mk_let(name, v, b, span), r))
                    },
                    None => None,
                }
            } else {
                None
            }
        },
        None => None,
    }
}

pub(crate) fn p_if(ts: &Tokens, f: &mut Failure, p: usize) -> (r: Option<(Spanned<Expr>, usize)>)
    requires
        p <= ts@.len() < usize::MAX,
    ensures
        final(f).far >= old(f).far,
        res_e(r) == g_if(ts@, p as int),
        r matches Some((_, q)) ==> p < q <= ts@.len(),
    decreases ts@.len() - p, 103int,
{
    if !expect(ts, f, p, Token::If) {
        return None;
    }
    let (c, q) = match expr_parser(ts, f, p + 1) {
        Some(x) => x,
        None => {
            return None;
        },
    };
    if !expect(ts, f, q, Token::Then) {
        return None;
    }
    let (t, q2) = match expr_parser(ts, f, q + 1) {
        Some(x) => x,
        None => {
            return None;
        },
    };
    if !expect(ts, f, q2, Token::Else) {
        return None;
    }
    match expr_parser(ts, f, q2 + 1) {
        Some((e, r)) => {
            let span = span_at(ts, p, r);
            Some((mk_if(c, t, e, span), r))
        },
        None => None,
    }
}

pub(crate) fn skip_newlines_x(ts: &Tokens, f: &mut Failure, q: usize) -> (r: usize)
    requires
        q <= ts@.len() < usize::MAX,
    ensures
        final(f).far >= old(f).far,
        r as int == skip_newlines(ts@, q as int),
        q <= r <= ts@.len(),
    decreases ts@.len() - q,
{
    if expect(ts, f, q, Token::Newline) {
        skip_newlines_x(ts, f, q + 1)
    } else {
        q
    }
}

pub(crate) fn opt_tok_x(ts: &Tokens, f: &mut Failure, q: usize, k: Token) -> (r: usize)
    requires
        q <= ts@.len() < usize::MAX,
    ensures
        final(f).far >= old(f).far,
        r as int == q + opt_tok(ts@, q as int, k),
        q <= r <= ts@.len(),
{
    if expect(ts, f, q, k) {
        q + 1
    } else {
        q
    }
}

pub(crate) fn p_arm(ts: &Tokens, f: &mut Failure, p: usize) -> (r: Option<(MatchArm, usize)>)
    requires
        p <= ts@.len() < usize::MAX,
    ensures
        final(f).far >= old(f).far,
        match r {
            Some((a, q)) => g_arm(ts@, p as int) == Some((arm_v(a), q as int)),
            None => g_arm(ts@, p as int) is None,
        },
        r matches Some((_, q)) ==> p < q <= ts@.len(),
    decreases ts@.len() - p, 80int,
{
    if !expect(ts, f, p, Token::Pipe) {
        return None;
    }
    let (pat, q) = match pattern_parser(ts, f, p + 1) {
        Some(x) => x,
        None => {
            return None;
        },
    };
    let (guard, q2) = if expect(ts, f, q, Token::When) {
        match expr_parser(ts, f, q + 1) {
            Some((g, r)) => (Some(Box::new(g)), r),
            None => (None, q),
        }
    } else {
        (None, q)
    };
    if !expect(ts, f, q2, Token::FatArrow) {
        return None;
    }
    match expr_parser(ts, f, q2 + 1) {
        Some((b, r)) => Some((MatchArm { pat, guard, body: Box::new(b) }, r)),
        None => None,
    }
}

pub(crate) fn p_arms(ts: &Tokens, f: &mut Failure, acc: &mut Vec<MatchArm>, q: usize) -> (r: usize)
    requires
        q <= ts@.len() < usize::MAX,
    ensures
        final(f).far >= old(f).far,
        (arms_v(final(acc)@), r as int) == g_arms(ts@, arms_v(old(acc)@), q as int),
        q <= r <= ts@.len(),
    decreases ts@.len() - q, 90int,
{
    broadcast use group_ast_views;

    let q1 = skip_newlines_x(ts, f, q);
    match p_arm(ts, f, q1) {
        Some((a, r)) => {
            let ghost a0 = acc@;
            let ghost av = arm_v(a);
            acc.push(a);
            assert(arms_v(acc@) =~= arms_v(a0).push(av));
            p_arms(ts, f, acc, r)
        },
        None => q,
    }
}

pub(crate) fn p_match_braced(ts: &Tokens, f: &mut Failure, p: usize) -> (r: Option<(Spanned<Expr>, usize)>)
    requires
        p <= ts@.len() < usize::MAX,
    ensures
        final(f).far >= old(f).far,
        res_e(r) == g_match_braced(ts@, p as int),
        r matches Some((_, q)) ==> p < q <= ts@.len(),
    decreases ts@.len() - p, 102int,
{
    broadcast use group_ast_views;

    if !expect(ts, f, p, Token::Match) {
        return None;
    }
    let (s, q) = match expr_parser(ts, f, p + 1) {
        Some(x) => x,
        None => {
            return None;
        },
    };
    if !expect(ts, f, q, Token::LBrace) {
        return None;
    }
    let q1 = opt_tok_x(ts, f, q + 1, Token::Newline);
    let mut arms: Vec<MatchArm> = Vec::new();
    assert(arms_v(arms@) =~= seq![]);
    let q2 = p_arms(ts, f, &mut arms, q1);
    let q3 = opt_tok_x(ts, f, q2, Token::Newline);
    if arms.len() >= 1 && expect(ts, f, q3, Token::RBrace) {
        let span = span_at(ts, p, q3 + 1);
        Some((mk_match(s, arms, span), q3 + 1))
    } else {
        None
    }
}

pub(crate) fn p_match_indented(ts: &Tokens, f: &mut Failure, p: usize) -> (r: Option<(Spanned<Expr>, usize)>)
    requires
        p <= ts@.len() < usize::MAX,
    ensures
        final(f).far >= old(f).far,
        res_e(r) == g_match_indented(ts@, p as int),
        r matches Some((_, q)) ==> p < q <= ts@.len(),
    decreases ts@.len() - p, 101int,
{
    broadcast use group_ast_views;

    if !expect(ts, f, p, Token::Match) {
        return None;
    }
    let (s, q) = match expr_parser(ts, f, p + 1) {
        Some(x) => x,
        None => {
            return None;
        },
    };
    let q1 = opt_tok_x(ts, f, q, Token::Newline);
    let q2 = opt_tok_x(ts, f, q1, Token::Indent);
    let mut arms: Vec<MatchArm> = Vec::new();
    assert(arms_v(arms@) =~= seq![]);
    let q3 = p_arms(ts, f, &mut arms, q2);
    let q4 = opt_tok_x(ts, f, q3, Token::Newline);
    let q5 = opt_tok_x(ts, f, q4, Token::Dedent);
    if arms.len() >= 1 {
        let span = span_at(ts, p, q5);
        Some((mk_match(s, arms, span), q5))
    } else {
        None
    }
}

pub(crate) fn p_expr_list(ts: &Tokens, f: &mut Failure, q: usize) -> (r: (Vec<SpExpr>, usize))
    requires
        q <= ts@.len() < usize::MAX,
    ensures
        final(f).far >= old(f).far,
        (sps_v(r.0@), r.1 as int) == g_expr_list(ts@, q as int),
        q <= r.1 <= ts@.len(),
    decreases ts@.len() - q, 210int,
{
    broadcast use group_ast_views;

    match expr_parser(ts, f, q) {
        Some((x, r)) => {
            let mut acc: Vec<SpExpr> = Vec::new();
            acc.push(Box::new(x));
            assert(sps_v(acc@) =~= seq![bx(spe(x))]);
            let r2 = p_expr_list_rest(ts, f, &mut acc, r);
            (acc, r2)
        },
        None => {
            let acc: Vec<SpExpr> = Vec::new();
            assert(sps_v(acc@) =~= seq![]);
            (acc, q)
        },
    }
}

pub(crate) fn p_expr_list_rest(ts: &Tokens, f: &mut Failure, acc: &mut Vec<SpExpr>, q: usize) -> (r: usize)
    requires
        q <= ts@.len() < usize::MAX,
    ensures
        final(f).far >= old(f).far,
        (sps_v(final(acc)@), r as int) == g_expr_list_rest(ts@, sps_v(old(acc)@), q as int),
        q <= r <= ts@.len(),
    decreases ts@.len() - q, 205int,
{
    broadcast use group_ast_views;

    if expect(ts, f, q, Token::Comma) {
        match expr_parser(ts, f, q + 1) {
            Some((x, r)) => {
                let ghost a0 = acc@;
                acc.push(Box::new(x));
                assert(sps_v(acc@) =~= sps_v(a0).push(bx(spe(x))));
                p_expr_list_rest(ts, f, acc, r)
            },
            None => q,
        }
    } else {
        q
    }
}

pub(crate) fn p_list(ts: &Tokens, f: &mut Failure, p: usize) -> (r: Option<(Spanned<Expr>, usize)>)
    requires
        p <= ts@.len() < usize::MAX,
    ensures
        final(f).far >= old(f).far,
        res_e(r) == g_list(ts@, p as int),
        r matches Some((_, q)) ==> p < q <= ts@.len(),
    decreases ts@.len() - p, 100int,
{
    broadcast use group_ast_views;

    if expect(ts, f, p, Token::LBrack) {
        let (items, q) = p_expr_list(ts, f, p + 1);
        if expect(ts, f, q, Token::RBrack) {
            let span = span_at(ts, p, q + 1);
            Some((mk_list(items, span), q + 1))
        } else {
            None
        }
    } else {
        None
    }
}

pub(crate) fn p_paren(ts: &Tokens, f: &mut Failure, p: usize) -> (r: Option<(Spanned<Expr>, usize)>)
    requires
        p <= ts@.len() < usize::MAX,
    ensures
        final(f).far >= old(f).far,
        res_e(r) == g_paren(ts@, p as int),
        r matches Some((_, q)) ==> p < q <= ts@.len(),
    decreases ts@.len() - p, 99int,
{
    if !expect(ts, f, p, Token::LParen) {
        return None;
    }
    let (items, q) = p_expr_list(ts, f, p + 1);
    let ghost iv = items@;
    proof {
        lemma_sps_v(iv);
    }
    if items.len() >= 1 && expect(ts, f, q, Token::RParen) {
        if items.len() == 1 {
            let mut items = items;
            let first = items.remove(0);
            assert(sps_v(iv)[0] == sp_v(first));
            Some((unbox(first), q + 1))
        } else {
            let span = span_at(ts, p, q + 1);
            Some((mk_tuple(items, span), q + 1))
        }
    } else {
        None
    }
}


// ── Top level ─────────────────────────────────────────────────────────────────

pub(crate) fn skip_ws_x(ts: &Tokens, f: &mut Failure, q: usize) -> (r: usize)
    requires
        q <= ts@.len() < usize::MAX,
    ensures
        final(f).far >= old(f).far,
        r as int == skip_ws(ts@, q as int),
        q <= r <= ts@.len(),
    decreases ts@.len() - q,
{
    if expect(ts, f, q, Token::Newline) || expect(ts, f, q, Token::Indent) || expect(
        ts,
        f,
        q,
        Token::Dedent,
    ) {
        skip_ws_x(ts, f, q + 1)
    } else {
        q
    }
}

pub(crate) fn skip_nl_x(ts: &Tokens, f: &mut Failure, q: usize) -> (r: usize)
    requires
        q <= ts@.len() < usize::MAX,
    ensures
        final(f).far >= old(f).far,
        r as int == skip_nl(ts@, q as int),
        q <= r <= ts@.len(),
    decreases ts@.len() - q,
{
    if expect(ts, f, q, Token::Newline) || expect(ts, f, q, Token::Dedent) {
        skip_nl_x(ts, f, q + 1)
    } else {
        q
    }
}

pub(crate) fn p_stmts(ts: &Tokens, f: &mut Failure, acc: &mut Vec<SpExpr>, q: usize) -> (r: usize)
    requires
        q <= ts@.len() < usize::MAX,
    ensures
        final(f).far >= old(f).far,
        (sps_v(final(acc)@), r as int) == g_stmts(ts@, sps_v(old(acc)@), q as int),
        q <= r <= ts@.len(),
    decreases ts@.len() - q,
{
    broadcast use group_ast_views;

    match expr_parser(ts, f, q) {
        Some((e, r)) => {
            let ghost a0 = acc@;
            acc.push(Box::new(e));
            assert(sps_v(acc@) =~= sps_v(a0).push(bx(spe(e))));
            let r2 = skip_ws_x(ts, f, r);
            p_stmts(ts, f, acc, r2)
        },
        None => q,
    }
}

pub(crate) fn body_parser(ts: &Tokens, f: &mut Failure, p: usize) -> (r: Option<(Spanned<Expr>, usize)>)
    requires
        p <= ts@.len() < usize::MAX,
    ensures
        final(f).far >= old(f).far,
        res_e(r) == g_body(ts@, p as int),
        r matches Some((_, q)) ==> p < q <= ts@.len(),
{
    if !expect(ts, f, p, Token::LBrace) {
        return None;
    }
    let q0 = skip_ws_x(ts, f, p + 1);
    let mut stmts: Vec<SpExpr> = Vec::new();
    assert(sps_v(stmts@) =~= seq![]);
    let q = p_stmts(ts, f, &mut stmts, q0);
    let ghost sv = stmts@;
    proof {
        lemma_sps_v(sv);
    }
    if stmts.len() >= 1 && expect(ts, f, q, Token::RBrace) {
        if stmts.len() == 1 {
            let mut stmts = stmts;
            let first = stmts.remove(0);
            assert(sps_v(sv)[0] == sp_v(first));
            Some((unbox(first), q + 1))
        } else {
            let span = span_at(ts, p, q + 1);
            Some((mk_block(stmts, span), q + 1))
        }
    } else {
        None
    }
}

pub(crate) fn param_parser(ts: &Tokens, f: &mut Failure, p: usize) -> (r: Option<
    ((String, TypeExpr), usize),
>)
    requires
        p <= ts@.len() < usize::MAX,
    ensures
        final(f).far >= old(f).far,
        match r {
            Some(((n, t), q)) => g_param(ts@, p as int) == Some(((n@, t@), q as int)),
            None => g_param(ts@, p as int) is None,
        },
        r matches Some((_, q)) ==> p < q <= ts@.len(),
{
    match ident_parser(ts, f, p) {
        Some(n) => {
            if expect(ts, f, p + 1, Token::Colon) {
                match type_expr_parser(ts, f, p + 2) {
                    Some((t, q)) => Some(((n, t), q)),
                    None => None,
                }
            } else {
                None
            }
        },
        None => None,
    }
}

pub(crate) fn p_params_rest(
    ts: &Tokens,
    f: &mut Failure,
    acc: &mut Vec<(String, TypeExpr)>,
    q: usize,
) -> (r: usize)
    requires
        q <= ts@.len() < usize::MAX,
    ensures
        final(f).far >= old(f).far,
        (ty_fields_v(final(acc)@), r as int) == g_params_rest(ts@, ty_fields_v(old(acc)@), q as int),
        q <= r <= ts@.len(),
    decreases ts@.len() - q,
{
    broadcast use group_ast_views;

    if expect(ts, f, q, Token::Comma) {
        match param_parser(ts, f, q + 1) {
            Some((x, r)) => {
                let ghost a0 = acc@;
                let ghost xv = (x.0@, x.1@);
                acc.push(x);
                assert(ty_fields_v(acc@) =~= ty_fields_v(a0).push(xv));
                p_params_rest(ts, f, acc, r)
            },
            None => q,
        }
    } else {
        q
    }
}

pub(crate) fn p_params(ts: &Tokens, f: &mut Failure, q: usize) -> (r: (Vec<(String, TypeExpr)>, usize))
    requires
        q <= ts@.len() < usize::MAX,
    ensures
        final(f).far >= old(f).far,
        (ty_fields_v(r.0@), r.1 as int) == g_params(ts@, q as int),
        q <= r.1 <= ts@.len(),
{
    broadcast use group_ast_views;

    match param_parser(ts, f, q) {
        Some((x, r)) => {
            let mut acc: Vec<(String, TypeExpr)> = Vec::new();
            let ghost xv = (x.0@, x.1@);
            acc.push(x);
            assert(ty_fields_v(acc@) =~= seq![xv]);
            let r2 = p_params_rest(ts, f, &mut acc, r);
            (acc, r2)
        },
        None => {
            let acc: Vec<(String, TypeExpr)> = Vec::new();
            assert(ty_fields_v(acc@) =~= seq![]);
            (acc, q)
        },
    }
}

pub open spec fn top_sp(d: Spanned<TopLevel>) -> Spanned<STopLevel> {
    Spanned { node: top_v(d.node), span: d.span }
}

pub(crate) fn mk_def(
    name: String,
    params: Vec<(String, TypeExpr)>,
    return_type: TypeExpr,
    body: Spanned<Expr>,
    is_async: bool,
    span: Span,
) -> (r: Spanned<TopLevel>)
    ensures
        top_sp(r) == (Spanned {
            node: STopLevel::Def {
                name: name@,
                params: ty_fields_v(params@),
                return_type: return_type@,
                body: bx(spe(body)),
                is_async,
            },
            span,
        }),
{
    Spanned::new(TopLevel::Def { name, params, return_type, body: Box::new(body), is_async }, span)
}

pub(crate) fn p_def(ts: &Tokens, f: &mut Failure, p: usize) -> (r: Option<(Spanned<TopLevel>, usize)>)
    requires
        p <= ts@.len() < usize::MAX,
    ensures
        final(f).far >= old(f).far,
        match r {
            Some((d, q)) => g_def(ts@, p as int) == Some((top_sp(d), q as int)),
            None => g_def(ts@, p as int) is None,
        },
        r matches Some((_, q)) ==> p < q <= ts@.len(),
{
    let is_async = peek(ts, p, Token::Async);
    let q0 = opt_tok_x(ts, f, p, Token::Async);
    if !expect(ts, f, q0, Token::Fn) {
        return None;
    }
    let name = match ident_parser(ts, f, q0 + 1) {
        Some(n) => n,
        None => {
            return None;
        },
    };
    if !expect(ts, f, q0 + 2, Token::LParen) {
        return None;
    }
    let (params, q1) = p_params(ts, f, q0 + 3);
    if !(expect(ts, f, q1, Token::RParen) && expect(ts, f, q1 + 1, Token::Arrow)) {
        return None;
    }
    let (rt, q2) = match type_expr_parser(ts, f, q1 + 2) {
        Some(x) => x,
        None => {
            return None;
        },
    };
    match body_parser(ts, f, q2) {
        Some((b, q3)) => {
            let span = span_at(ts, p, q3);
            Some((mk_def(name, params, rt, b, is_async, span), q3))
        },
        None => None,
    }
}

/// Parses top-level definitions from `q` on, each after blank lines, and
/// appends them to `acc`: the position after the last, as the rule `g_defs`
/// answers.
pub fn top_level_parser(ts: &Tokens, f: &mut Failure, acc: &mut Vec<Spanned<TopLevel>>, q: usize) -> (r:
    usize)
    requires
        q <= ts@.len() < usize::MAX,
    ensures
        final(f).far >= old(f).far,
        (items_v(final(acc)@), r as int) == g_defs(ts@, items_v(old(acc)@), q as int),
        q <= r <= ts@.len(),
    decreases ts@.len() - q,
{
    let q1 = skip_nl_x(ts, f, q);
    match p_def(ts, f, q1) {
        Some((d, q2)) => {
            let q3 = skip_nl_x(ts, f, q2);
            let ghost a0 = acc@;
            let ghost dv = top_sp(d);
            acc.push(d);
            assert(items_v(acc@) =~= items_v(a0).push(dv));
            top_level_parser(ts, f, acc, q3)
        },
        None => q,
    }
}

/// Parses a module: definitions up to the end of the tokens. Answers the
/// module and no error where the grammar accepts the tokens, and no module and
/// one error where it does not.
pub fn parse_module(tokens: Vec<(Token, Span)>) -> (r: (Option<Module>, Vec<ParseError>))
    requires
        tokens@.len() < usize::MAX,
    ensures
        r.0 is Some <==> g_module(tokens@) is Some,
        r.0 matches Some(m) ==> g_module(tokens@) == Some(m@),
        r.0 is Some ==> r.1@.len() == 0,
        r.0 is None ==> r.1@.len() == 1 && error_at_token(tokens@, r.1@[0]),
        r.0 is None ==> error_at_or_after(tokens@, r.1@[0], g_defs(tokens@, seq![], 0).1),
{
    let mut f = Failure::new();
    let mut items: Vec<Spanned<TopLevel>> = Vec::new();
    assert(items_v(items@) =~= seq![]);
    let q = top_level_parser(&tokens, &mut f, &mut items, 0);
    if q == tokens.len() {
        (Some(Module { items }), Vec::new())
    } else {
        f.note(q, None);
        let mut errs: Vec<ParseError> = Vec::new();
        errs.push(f.into_error(&tokens));
        (None, errs)
    }
}

/// Parses a whole expression: an expression up to the end of the tokens.
/// Answers the expression and no error where the grammar accepts the tokens,
/// and no expression and one error where it does not.
pub fn parse_expr(tokens: Vec<(Token, Span)>) -> (r: (Option<Spanned<Expr>>, Vec<ParseError>))
    requires
        tokens@.len() < usize::MAX,
    ensures
        r.0 is Some <==> g_whole_expr(tokens@) is Some,
        r.0 matches Some(e) ==> g_whole_expr(tokens@) == Some(spe(e)),
        r.0 is Some ==> r.1@.len() == 0,
        r.0 is None ==> r.1@.len() == 1 && error_at_token(tokens@, r.1@[0]),
        r.0 is None ==> error_at_or_after(
            tokens@,
            r.1@[0],
            match g_expr(tokens@, 0) {
                Some((_, q)) => q,
                None => 0,
            },
        ),
{
    let mut f = Failure::new();
    match expr_parser(&tokens, &mut f, 0) {
        Some((e, q)) => {
            if q == tokens.len() {
                return (Some(e), Vec::new());
            }
            f.note(q, None);
        },
        None => {},
    }
    let mut errs: Vec<ParseError> = Vec::new();
    errs.push(f.into_error(&tokens));
    (None, errs)
}

} // verus!

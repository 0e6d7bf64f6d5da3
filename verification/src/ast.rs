//! The abstract syntax tree, and its mathematical model.
//!
//! Every AST type has a view in which text is a `Seq<char>` and lists are
//! `Seq`s; the parser and the evaluator are specified over these views.

use vstd::prelude::*;

use crate::token::{copy_span, Span};

verus! {

/// A node carrying a value and its source span.
#[derive(Debug)]
pub struct Spanned<T> {
    pub node: T,
    pub span: Span,
}

impl<T> Spanned<T> {
    /// A node with its span.
    pub fn new(node: T, span: Span) -> (r: Self)
        ensures
            r.node == node,
            r.span == span,
    {
        Self { node, span }
    }
}

pub type SpExpr = Box<Spanned<Expr>>;

// ── Expressions ───────────────────────────────────────────────────────────────

#[derive(Debug)]
pub enum Expr {
    /// Integer literal
    Int(i64),
    /// Float literal, as IEEE-754 bits
    Float(u64),
    /// String literal
    Str(String),
    /// Boolean literal
    Bool(bool),
    /// Variable reference
    Var(String),
    /// Constructor (starts with uppercase)
    Constructor(String),
    /// Binary operation: left op right
    BinOp { op: BinOp, lhs: SpExpr, rhs: SpExpr },
    /// Unary negation
    Neg(SpExpr),
    /// Not
    Not(SpExpr),
    /// Function application (left-associative juxtaposition)
    App { func: SpExpr, arg: SpExpr },
    /// Lambda: \x -> body
    Lambda { params: Vec<String>, body: SpExpr },
    /// Let binding: let x = val in body
    Let { name: String, value: SpExpr, body: SpExpr },
    /// Match expression
    Match { scrutinee: SpExpr, arms: Vec<MatchArm> },
    /// if-then-else
    If { cond: SpExpr, then_: SpExpr, else_: SpExpr },
    /// Pipeline: lhs |> rhs
    Pipe { lhs: SpExpr, rhs: SpExpr },
    /// List literal [a, b, c]
    List(Vec<SpExpr>),
    /// Tuple (a, b)
    Tuple(Vec<SpExpr>),
    /// Record literal { name = val, ... }
    Record(Vec<(String, SpExpr)>),
    /// Record field access: expr.field
    Field { record: SpExpr, field: String },
    /// Record update: { base | field = val }
    RecordUpdate { base: SpExpr, fields: Vec<(String, SpExpr)> },
    /// Async bind: name <- expr
    Bind { name: String, value: SpExpr, rest: SpExpr },
    /// Sequence of expressions; the last one is the value.
    Block(Vec<SpExpr>),
}

// ── Binary operators ──────────────────────────────────────────────────────────

#[derive(Debug, Clone, Copy, PartialEq, Eq, Structural)]
pub enum BinOp {
    Add,
    Sub,
    Mul,
    Div,
    Mod,
    Eq,
    Neq,
    Lt,
    Gt,
    Leq,
    Geq,
    And,
    Or,
    Compose,
}

// ── Patterns ──────────────────────────────────────────────────────────────────

#[derive(Debug)]
pub enum Pattern {
    /// Wildcard _
    Wildcard,
    /// Variable binding
    Var(String),
    /// Integer literal
    Int(i64),
    /// Float literal, as IEEE-754 bits
    Float(u64),
    /// String literal
    Str(String),
    /// Bool literal
    Bool(bool),
    /// Constructor with payload patterns
    Constructor(String, Vec<Pattern>),
    /// Tuple pattern
    Tuple(Vec<Pattern>),
    /// Record pattern { field = pat, ... }
    Record(Vec<(String, Pattern)>),
}

#[derive(Debug)]
pub struct MatchArm {
    pub pat: Pattern,
    pub guard: Option<SpExpr>,
    pub body: SpExpr,
}

// ── Top-level definitions ─────────────────────────────────────────────────────

#[derive(Debug)]
pub enum TopLevel {
    /// Function definition: fn name(p: T, ...) -> R { body }
    Def {
        name: String,
        params: Vec<(String, TypeExpr)>,
        return_type: TypeExpr,
        body: SpExpr,
        is_async: bool,
    },
    /// Type declaration
    TypeDecl { name: String, params: Vec<String>, kind: TypeKind },
    /// Use/import declaration
    Use { path: Vec<String>, alias: Option<String> },
}

#[derive(Debug)]
pub enum TypeKind {
    /// Sum type (tagged union)
    Sum(Vec<Variant>),
    /// Record/product type
    Record(Vec<(String, TypeExpr)>),
}

#[derive(Debug)]
pub struct Variant {
    pub name: String,
    pub payload: Vec<TypeExpr>,
}

// ── Type expressions ──────────────────────────────────────────────────────────

#[derive(Debug)]
pub enum TypeExpr {
    /// Named type: Int, String, a, etc.
    Named(String),
    /// Type application
    App(Box<TypeExpr>, Box<TypeExpr>),
    /// Function type: a -> b
    Fun(Box<TypeExpr>, Box<TypeExpr>),
    /// Async type: Async a
    Async(Box<TypeExpr>),
    /// Tuple type: (a, b)
    Tuple(Vec<TypeExpr>),
    /// Record type: { name: String, age: Int }
    Record(Vec<(String, TypeExpr)>),
}

// ── Module ────────────────────────────────────────────────────────────────────

#[derive(Debug)]
pub struct Module {
    pub items: Vec<Spanned<TopLevel>>,
}

// ══ The model ════════════════════════════════════════════════════════════════

pub type SSp = Box<Spanned<SExpr>>;

/// The model of an expression: text as `Seq<char>`, lists as `Seq`.
pub enum SExpr {
    Int(i64),
    Float(u64),
    Str(Seq<char>),
    Bool(bool),
    Var(Seq<char>),
    Constructor(Seq<char>),
    BinOp { op: BinOp, lhs: SSp, rhs: SSp },
    Neg(SSp),
    Not(SSp),
    App { func: SSp, arg: SSp },
    Lambda { params: Seq<Seq<char>>, body: SSp },
    Let { name: Seq<char>, value: SSp, body: SSp },
    Match { scrutinee: SSp, arms: Seq<SArm> },
    If { cond: SSp, then_: SSp, else_: SSp },
    Pipe { lhs: SSp, rhs: SSp },
    List(Seq<SSp>),
    Tuple(Seq<SSp>),
    Record(Seq<(Seq<char>, SSp)>),
    Field { record: SSp, field: Seq<char> },
    RecordUpdate { base: SSp, fields: Seq<(Seq<char>, SSp)> },
    Bind { name: Seq<char>, value: SSp, rest: SSp },
    Block(Seq<SSp>),
}

pub enum SPattern {
    Wildcard,
    Var(Seq<char>),
    Int(i64),
    Float(u64),
    Str(Seq<char>),
    Bool(bool),
    Constructor(Seq<char>, Seq<SPattern>),
    Tuple(Seq<SPattern>),
    Record(Seq<(Seq<char>, SPattern)>),
}

pub struct SArm {
    pub pat: SPattern,
    pub guard: Option<SSp>,
    pub body: SSp,
}

pub enum STypeExpr {
    Named(Seq<char>),
    App(Box<STypeExpr>, Box<STypeExpr>),
    Fun(Box<STypeExpr>, Box<STypeExpr>),
    Async(Box<STypeExpr>),
    Tuple(Seq<STypeExpr>),
    Record(Seq<(Seq<char>, STypeExpr)>),
}

pub struct SVariant {
    pub name: Seq<char>,
    pub payload: Seq<STypeExpr>,
}

pub enum STypeKind {
    Sum(Seq<SVariant>),
    Record(Seq<(Seq<char>, STypeExpr)>),
}

pub enum STopLevel {
    Def {
        name: Seq<char>,
        params: Seq<(Seq<char>, STypeExpr)>,
        return_type: STypeExpr,
        body: SSp,
        is_async: bool,
    },
    TypeDecl { name: Seq<char>, params: Seq<Seq<char>>, kind: STypeKind },
    Use { path: Seq<Seq<char>>, alias: Option<Seq<char>> },
}

pub open spec fn strs_v(s: Seq<String>) -> Seq<Seq<char>> {
    Seq::new(s.len(), |i: int| s[i]@)
}

pub open spec fn sp_v(e: SpExpr) -> SSp
    decreases e,
{
    Box::new(Spanned { node: expr_v(e.node), span: e.span })
}

pub open spec fn sps_v(s: Seq<SpExpr>) -> Seq<SSp>
    decreases s,
{
    if s.len() == 0 {
        Seq::empty()
    } else {
        sps_v(s.drop_last()).push(sp_v(s.last()))
    }
}

pub open spec fn fields_v(s: Seq<(String, SpExpr)>) -> Seq<(Seq<char>, SSp)>
    decreases s,
{
    if s.len() == 0 {
        Seq::empty()
    } else {
        fields_v(s.drop_last()).push((s.last().0@, sp_v(s.last().1)))
    }
}

pub open spec fn arm_v(a: MatchArm) -> SArm
    decreases a,
{
    SArm {
        pat: pat_v(a.pat),
        guard: match a.guard {
            Some(g) => Some(sp_v(g)),
            None => None,
        },
        body: sp_v(a.body),
    }
}

pub open spec fn arms_v(s: Seq<MatchArm>) -> Seq<SArm>
    decreases s,
{
    if s.len() == 0 {
        Seq::empty()
    } else {
        arms_v(s.drop_last()).push(arm_v(s.last()))
    }
}

pub open spec fn expr_v(e: Expr) -> SExpr
    decreases e,
{
    match e {
        Expr::Int(n) => SExpr::Int(n),
        Expr::Float(b) => SExpr::Float(b),
        Expr::Str(s) => SExpr::Str(s@),
        Expr::Bool(b) => SExpr::Bool(b),
        Expr::Var(s) => SExpr::Var(s@),
        Expr::Constructor(s) => SExpr::Constructor(s@),
        Expr::BinOp { op, lhs, rhs } => SExpr::BinOp { op, lhs: sp_v(lhs), rhs: sp_v(rhs) },
        Expr::Neg(x) => SExpr::Neg(sp_v(x)),
        Expr::Not(x) => SExpr::Not(sp_v(x)),
        Expr::App { func, arg } => SExpr::App { func: sp_v(func), arg: sp_v(arg) },
        Expr::Lambda { params, body } => SExpr::Lambda { params: strs_v(params@), body: sp_v(body) },
        Expr::Let { name, value, body } => SExpr::Let {
            name: name@,
            value: sp_v(value),
            body: sp_v(body),
        },
        Expr::Match { scrutinee, arms } => SExpr::Match {
            scrutinee: sp_v(scrutinee),
            arms: arms_v(arms@),
        },
        Expr::If { cond, then_, else_ } => SExpr::If {
            cond: sp_v(cond),
            then_: sp_v(then_),
            else_: sp_v(else_),
        },
        Expr::Pipe { lhs, rhs } => SExpr::Pipe { lhs: sp_v(lhs), rhs: sp_v(rhs) },
        Expr::List(items) => SExpr::List(sps_v(items@)),
        Expr::Tuple(items) => SExpr::Tuple(sps_v(items@)),
        Expr::Record(fields) => SExpr::Record(fields_v(fields@)),
        Expr::Field { record, field } => SExpr::Field { record: sp_v(record), field: field@ },
        Expr::RecordUpdate { base, fields } => SExpr::RecordUpdate {
            base: sp_v(base),
            fields: fields_v(fields@),
        },
        Expr::Bind { name, value, rest } => SExpr::Bind {
            name: name@,
            value: sp_v(value),
            rest: sp_v(rest),
        },
        Expr::Block(items) => SExpr::Block(sps_v(items@)),
    }
}

pub open spec fn pats_v(s: Seq<Pattern>) -> Seq<SPattern>
    decreases s,
{
    if s.len() == 0 {
        Seq::empty()
    } else {
        pats_v(s.drop_last()).push(pat_v(s.last()))
    }
}

pub open spec fn pat_fields_v(s: Seq<(String, Pattern)>) -> Seq<(Seq<char>, SPattern)>
    decreases s,
{
    if s.len() == 0 {
        Seq::empty()
    } else {
        pat_fields_v(s.drop_last()).push((s.last().0@, pat_v(s.last().1)))
    }
}

pub open spec fn pat_v(p: Pattern) -> SPattern
    decreases p,
{
    match p {
        Pattern::Wildcard => SPattern::Wildcard,
        Pattern::Var(s) => SPattern::Var(s@),
        Pattern::Int(n) => SPattern::Int(n),
        Pattern::Float(b) => SPattern::Float(b),
        Pattern::Str(s) => SPattern::Str(s@),
        Pattern::Bool(b) => SPattern::Bool(b),
        Pattern::Constructor(name, ps) => SPattern::Constructor(name@, pats_v(ps@)),
        Pattern::Tuple(ps) => SPattern::Tuple(pats_v(ps@)),
        Pattern::Record(fs) => SPattern::Record(pat_fields_v(fs@)),
    }
}

pub open spec fn tys_v(s: Seq<TypeExpr>) -> Seq<STypeExpr>
    decreases s,
{
    if s.len() == 0 {
        Seq::empty()
    } else {
        tys_v(s.drop_last()).push(ty_v(s.last()))
    }
}

pub open spec fn ty_fields_v(s: Seq<(String, TypeExpr)>) -> Seq<(Seq<char>, STypeExpr)>
    decreases s,
{
    if s.len() == 0 {
        Seq::empty()
    } else {
        ty_fields_v(s.drop_last()).push((s.last().0@, ty_v(s.last().1)))
    }
}

pub open spec fn ty_v(t: TypeExpr) -> STypeExpr
    decreases t,
{
    match t {
        TypeExpr::Named(s) => STypeExpr::Named(s@),
        TypeExpr::App(a, b) => STypeExpr::App(Box::new(ty_v(*a)), Box::new(ty_v(*b))),
        TypeExpr::Fun(a, b) => STypeExpr::Fun(Box::new(ty_v(*a)), Box::new(ty_v(*b))),
        TypeExpr::Async(a) => STypeExpr::Async(Box::new(ty_v(*a))),
        TypeExpr::Tuple(ts) => STypeExpr::Tuple(tys_v(ts@)),
        TypeExpr::Record(fs) => STypeExpr::Record(ty_fields_v(fs@)),
    }
}

pub open spec fn variants_v(s: Seq<Variant>) -> Seq<SVariant>
    decreases s,
{
    if s.len() == 0 {
        Seq::empty()
    } else {
        variants_v(s.drop_last()).push(
            SVariant { name: s.last().name@, payload: tys_v(s.last().payload@) },
        )
    }
}

pub open spec fn top_v(t: TopLevel) -> STopLevel {
    match t {
        TopLevel::Def { name, params, return_type, body, is_async } => STopLevel::Def {
            name: name@,
            params: ty_fields_v(params@),
            return_type: ty_v(return_type),
            body: sp_v(body),
            is_async,
        },
        TopLevel::TypeDecl { name, params, kind } => STopLevel::TypeDecl {
            name: name@,
            params: strs_v(params@),
            kind: match kind {
                TypeKind::Sum(vs) => STypeKind::Sum(variants_v(vs@)),
                TypeKind::Record(fs) => STypeKind::Record(ty_fields_v(fs@)),
            },
        },
        TopLevel::Use { path, alias } => STopLevel::Use {
            path: strs_v(path@),
            alias: match alias {
                Some(a) => Some(a@),
                None => None,
            },
        },
    }
}

pub open spec fn items_v(s: Seq<Spanned<TopLevel>>) -> Seq<Spanned<STopLevel>> {
    Seq::new(s.len(), |i: int| Spanned { node: top_v(s[i].node), span: s[i].span })
}


/// `sps_v` maps each element.
pub broadcast proof fn lemma_sps_v(s: Seq<SpExpr>)
    ensures
        #[trigger] sps_v(s).len() == s.len(),
        forall|i: int| 0 <= i < s.len() ==> sps_v(s)[i] == sp_v(s[i]),
    decreases s.len(),
{
    if s.len() > 0 {
        lemma_sps_v(s.drop_last());
    }
}

/// `fields_v` maps each element.
pub broadcast proof fn lemma_fields_v(s: Seq<(String, SpExpr)>)
    ensures
        #[trigger] fields_v(s).len() == s.len(),
        forall|i: int| 0 <= i < s.len() ==> fields_v(s)[i] == (s[i].0@, sp_v(s[i].1)),
    decreases s.len(),
{
    if s.len() > 0 {
        lemma_fields_v(s.drop_last());
    }
}

/// `arms_v` maps each element.
pub broadcast proof fn lemma_arms_v(s: Seq<MatchArm>)
    ensures
        #[trigger] arms_v(s).len() == s.len(),
        forall|i: int| 0 <= i < s.len() ==> arms_v(s)[i] == arm_v(s[i]),
    decreases s.len(),
{
    if s.len() > 0 {
        lemma_arms_v(s.drop_last());
    }
}

/// `pats_v` maps each element.
pub broadcast proof fn lemma_pats_v(s: Seq<Pattern>)
    ensures
        #[trigger] pats_v(s).len() == s.len(),
        forall|i: int| 0 <= i < s.len() ==> pats_v(s)[i] == pat_v(s[i]),
    decreases s.len(),
{
    if s.len() > 0 {
        lemma_pats_v(s.drop_last());
    }
}

/// `pat_fields_v` maps each element.
pub broadcast proof fn lemma_pat_fields_v(s: Seq<(String, Pattern)>)
    ensures
        #[trigger] pat_fields_v(s).len() == s.len(),
        forall|i: int| 0 <= i < s.len() ==> pat_fields_v(s)[i] == (s[i].0@, pat_v(s[i].1)),
    decreases s.len(),
{
    if s.len() > 0 {
        lemma_pat_fields_v(s.drop_last());
    }
}

/// `tys_v` maps each element.
pub broadcast proof fn lemma_tys_v(s: Seq<TypeExpr>)
    ensures
        #[trigger] tys_v(s).len() == s.len(),
        forall|i: int| 0 <= i < s.len() ==> tys_v(s)[i] == ty_v(s[i]),
    decreases s.len(),
{
    if s.len() > 0 {
        lemma_tys_v(s.drop_last());
    }
}

/// `ty_fields_v` maps each element.
pub broadcast proof fn lemma_ty_fields_v(s: Seq<(String, TypeExpr)>)
    ensures
        #[trigger] ty_fields_v(s).len() == s.len(),
        forall|i: int| 0 <= i < s.len() ==> ty_fields_v(s)[i] == (s[i].0@, ty_v(s[i].1)),
    decreases s.len(),
{
    if s.len() > 0 {
        lemma_ty_fields_v(s.drop_last());
    }
}

/// `variants_v` maps each element.
pub broadcast proof fn lemma_variants_v(s: Seq<Variant>)
    ensures
        #[trigger] variants_v(s).len() == s.len(),
        forall|i: int| 0 <= i < s.len() ==> variants_v(s)[i] == (SVariant { name: s[i].name@, payload: tys_v(s[i].payload@) }),
    decreases s.len(),
{
    if s.len() > 0 {
        lemma_variants_v(s.drop_last());
    }
}

pub broadcast group group_ast_views {
    lemma_sps_v,
    lemma_fields_v,
    lemma_arms_v,
    lemma_pats_v,
    lemma_pat_fields_v,
    lemma_tys_v,
    lemma_ty_fields_v,
    lemma_variants_v,
}

pub open spec fn spe(e: Spanned<Expr>) -> Spanned<SExpr> {
    Spanned { node: e.node@, span: e.span }
}

impl View for Expr {
    type V = SExpr;

    open spec fn view(&self) -> SExpr {
        expr_v(*self)
    }
}

impl View for Pattern {
    type V = SPattern;

    open spec fn view(&self) -> SPattern {
        pat_v(*self)
    }
}

impl View for TypeExpr {
    type V = STypeExpr;

    open spec fn view(&self) -> STypeExpr {
        ty_v(*self)
    }
}

impl View for Module {
    type V = Seq<Spanned<STopLevel>>;

    open spec fn view(&self) -> Seq<Spanned<STopLevel>> {
        items_v(self.items@)
    }
}


// ══ Copying ══════════════════════════════════════════════════════════════════

/// A copy of the strings.
pub fn copy_strings(s: &Vec<String>) -> (r: Vec<String>)
    ensures
        strs_v(r@) == strs_v(s@),
{
    let mut out: Vec<String> = Vec::new();
    let mut i: usize = 0;
    while i < s.len()
        invariant
            i <= s@.len(),
            out@.len() == i,
            forall|j: int| 0 <= j < i ==> out@[j]@ == s@[j]@,
        decreases s@.len() - i,
    {
        out.push(s[i].clone());
        i = i + 1;
    }
    assert(strs_v(out@) =~= strs_v(s@));
    out
}

/// A copy of an expression, equal to it in the model.
pub fn copy_expr(e: &Spanned<Expr>) -> (r: Spanned<Expr>)
    ensures
        spe(r) == spe(*e),
    decreases e, 1int,
{
    Spanned { node: copy_node(&e.node), span: copy_span(&e.span) }
}

fn copy_sp(e: &SpExpr) -> (r: SpExpr)
    ensures
        sp_v(r) == sp_v(*e),
    decreases e, 2int,
{
    Box::new(copy_expr(e))
}

fn copy_sps(v: &Vec<SpExpr>) -> (r: Vec<SpExpr>)
    ensures
        sps_v(r@) == sps_v(v@),
    decreases v, 0int,
{
    broadcast use group_ast_views;

    let mut out: Vec<SpExpr> = Vec::new();
    let mut i: usize = 0;
    while i < v.len()
        invariant
            i <= v@.len(),
            out@.len() == i,
            forall|j: int| 0 <= j < i ==> sp_v(out@[j]) == sp_v(v@[j]),
        decreases v@.len() - i,
    {
        out.push(copy_sp(&v[i]));
        i = i + 1;
    }
    assert(sps_v(out@) =~= sps_v(v@));
    out
}

fn copy_efields(v: &Vec<(String, SpExpr)>) -> (r: Vec<(String, SpExpr)>)
    ensures
        fields_v(r@) == fields_v(v@),
    decreases v, 0int,
{
    broadcast use group_ast_views;

    let mut out: Vec<(String, SpExpr)> = Vec::new();
    let mut i: usize = 0;
    while i < v.len()
        invariant
            i <= v@.len(),
            out@.len() == i,
            forall|j: int| 0 <= j < i ==> out@[j].0@ == v@[j].0@ && sp_v(out@[j].1) == sp_v(v@[j].1),
        decreases v@.len() - i,
    {
        out.push((v[i].0.clone(), copy_sp(&v[i].1)));
        i = i + 1;
    }
    assert(fields_v(out@) =~= fields_v(v@));
    out
}

fn copy_arm(a: &MatchArm) -> (r: MatchArm)
    ensures
        arm_v(r) == arm_v(*a),
    decreases a, 3int,
{
    let guard = match &a.guard {
        Some(g) => Some(copy_sp(g)),
        None => None,
    };
    MatchArm { pat: copy_pat(&a.pat), guard, body: copy_sp(&a.body) }
}

fn copy_arms(v: &Vec<MatchArm>) -> (r: Vec<MatchArm>)
    ensures
        arms_v(r@) == arms_v(v@),
    decreases v, 0int,
{
    broadcast use group_ast_views;

    let mut out: Vec<MatchArm> = Vec::new();
    let mut i: usize = 0;
    while i < v.len()
        invariant
            i <= v@.len(),
            out@.len() == i,
            forall|j: int| 0 <= j < i ==> arm_v(out@[j]) == arm_v(v@[j]),
        decreases v@.len() - i,
    {
        out.push(copy_arm(&v[i]));
        i = i + 1;
    }
    assert(arms_v(out@) =~= arms_v(v@));
    out
}

fn copy_node(e: &Expr) -> (r: Expr)
    ensures
        r@ == e@,
    decreases e, 0int,
{
    match e {
        Expr::Int(n) => Expr::Int(*n),
        Expr::Float(b) => Expr::Float(*b),
        Expr::Str(s) => Expr::Str(s.clone()),
        Expr::Bool(b) => Expr::Bool(*b),
        Expr::Var(s) => Expr::Var(s.clone()),
        Expr::Constructor(s) => Expr::Constructor(s.clone()),
        Expr::BinOp { op, lhs, rhs } => Expr::BinOp { op: *op, lhs: copy_sp(lhs), rhs: copy_sp(rhs) },
        Expr::Neg(x) => Expr::Neg(copy_sp(x)),
        Expr::Not(x) => Expr::Not(copy_sp(x)),
        Expr::App { func, arg } => Expr::App { func: copy_sp(func), arg: copy_sp(arg) },
        Expr::Lambda { params, body } => Expr::Lambda {
            params: copy_strings(params),
            body: copy_sp(body),
        },
        Expr::Let { name, value, body } => Expr::Let {
            name: name.clone(),
            value: copy_sp(value),
            body: copy_sp(body),
        },
        Expr::Match { scrutinee, arms } => Expr::Match {
            scrutinee: copy_sp(scrutinee),
            arms: copy_arms(arms),
        },
        Expr::If { cond, then_, else_ } => Expr::If {
            cond: copy_sp(cond),
            then_: copy_sp(then_),
            else_: copy_sp(else_),
        },
        Expr::Pipe { lhs, rhs } => Expr::Pipe { lhs: copy_sp(lhs), rhs: copy_sp(rhs) },
        Expr::List(items) => Expr::List(copy_sps(items)),
        Expr::Tuple(items) => Expr::Tuple(copy_sps(items)),
        Expr::Record(fields) => Expr::Record(copy_efields(fields)),
        Expr::Field { record, field } => Expr::Field { record: copy_sp(record), field: field.clone() },
        Expr::RecordUpdate { base, fields } => Expr::RecordUpdate {
            base: copy_sp(base),
            fields: copy_efields(fields),
        },
        Expr::Bind { name, value, rest } => Expr::Bind {
            name: name.clone(),
            value: copy_sp(value),
            rest: copy_sp(rest),
        },
        Expr::Block(items) => Expr::Block(copy_sps(items)),
    }
}

fn copy_pats(v: &Vec<Pattern>) -> (r: Vec<Pattern>)
    ensures
        pats_v(r@) == pats_v(v@),
    decreases v, 0int,
{
    broadcast use group_ast_views;

    let mut out: Vec<Pattern> = Vec::new();
    let mut i: usize = 0;
    while i < v.len()
        invariant
            i <= v@.len(),
            out@.len() == i,
            forall|j: int| 0 <= j < i ==> pat_v(out@[j]) == pat_v(v@[j]),
        decreases v@.len() - i,
    {
        out.push(copy_pat(&v[i]));
        i = i + 1;
    }
    assert(pats_v(out@) =~= pats_v(v@));
    out
}

fn copy_pfields(v: &Vec<(String, Pattern)>) -> (r: Vec<(String, Pattern)>)
    ensures
        pat_fields_v(r@) == pat_fields_v(v@),
    decreases v, 0int,
{
    broadcast use group_ast_views;

    let mut out: Vec<(String, Pattern)> = Vec::new();
    let mut i: usize = 0;
    while i < v.len()
        invariant
            i <= v@.len(),
            out@.len() == i,
            forall|j: int| 0 <= j < i ==> out@[j].0@ == v@[j].0@ && pat_v(out@[j].1) == pat_v(v@[j].1),
        decreases v@.len() - i,
    {
        out.push((v[i].0.clone(), copy_pat(&v[i].1)));
        i = i + 1;
    }
    assert(pat_fields_v(out@) =~= pat_fields_v(v@));
    out
}

/// A copy of a pattern, equal to it in the model.
pub fn copy_pat(p: &Pattern) -> (r: Pattern)
    ensures
        pat_v(r) == pat_v(*p),
    decreases p, 1int,
{
    match p {
        Pattern::Wildcard => Pattern::Wildcard,
        Pattern::Var(s) => Pattern::Var(s.clone()),
        Pattern::Int(n) => Pattern::Int(*n),
        Pattern::Float(b) => Pattern::Float(*b),
        Pattern::Str(s) => Pattern::Str(s.clone()),
        Pattern::Bool(b) => Pattern::Bool(*b),
        Pattern::Constructor(name, ps) => Pattern::Constructor(name.clone(), copy_pats(ps)),
        Pattern::Tuple(ps) => Pattern::Tuple(copy_pats(ps)),
        Pattern::Record(fs) => Pattern::Record(copy_pfields(fs)),
    }
}

} // verus!

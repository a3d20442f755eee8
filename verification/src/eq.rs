//! Equality of syntax trees up to spans: two trees are equal when they
//! differ at most in the spans they were read from.
use crate::ast::{
    expr_v, param_v, sexpr_v, sexprs_v, stmt_v, sstmt_v, sstmts_v, type_v, lemma_sexprs_v,
    lemma_sstmts_v, params_v, Ast, Expr, ExprV, Param, ParamV, Stmt, StmtV, Type, TypeV, SV,
};
use crate::span::{Span, Spanned};
use vstd::prelude::*;
use vstd::std_specs::cmp::PartialEqSpec;
use vstd::std_specs::cmp::PartialEqSpecImpl;

verus! {

/// The span every span is replaced with when spans are erased.
pub open spec fn no_span() -> Span {
    arbitrary()
}

pub open spec fn erase_t(t: SV<TypeV>) -> SV<TypeV> {
    SV { value: t.value, span: no_span() }
}

pub open spec fn erase_n(n: SV<Seq<char>>) -> SV<Seq<char>> {
    SV { value: n.value, span: no_span() }
}

/// An expression with all of its spans erased.
pub open spec fn erase_x(e: ExprV) -> ExprV
    decreases e,
{
    match e {
        ExprV::Binary(op, a, b) => ExprV::Binary(op, Box::new(erase_e(*a)), Box::new(erase_e(*b))),
        ExprV::As(a, t) => ExprV::As(Box::new(erase_e(*a)), erase_t(t)),
        ExprV::FnCall(c, args) => ExprV::FnCall(Box::new(erase_e(*c)), erase_es(args)),
        _ => e,
    }
}

pub open spec fn erase_e(e: SV<ExprV>) -> SV<ExprV>
    decreases e,
{
    SV { value: erase_x(e.value), span: no_span() }
}

pub open spec fn erase_es(v: Seq<SV<ExprV>>) -> Seq<SV<ExprV>>
    decreases v,
{
    if v.len() == 0 {
        Seq::empty()
    } else {
        seq![erase_e(v[0])] + erase_es(v.drop_first())
    }
}

pub open spec fn erase_oe(e: Option<SV<ExprV>>) -> Option<SV<ExprV>> {
    match e {
        Some(x) => Some(erase_e(x)),
        None => None,
    }
}

pub open spec fn erase_p(p: ParamV) -> ParamV {
    ParamV { is_mut: p.is_mut, name: erase_n(p.name), ty: erase_t(p.ty) }
}

/// A statement with all of its spans erased.
pub open spec fn erase_st(s: StmtV) -> StmtV
    decreases s,
{
    match s {
        StmtV::DefFn { name, args, ret_ty, body } => StmtV::DefFn {
            name: erase_n(name),
            args: args.map_values(|p: ParamV| erase_p(p)),
            ret_ty: erase_t(ret_ty),
            body: Box::new(erase_s(*body)),
        },
        StmtV::DefVar { is_mut, name, ty, expr } => StmtV::DefVar {
            is_mut,
            name: erase_n(name),
            ty: erase_t(ty),
            expr: erase_oe(expr),
        },
        StmtV::TypeDef { name, ty } => StmtV::TypeDef { name: erase_n(name), ty: erase_t(ty) },
        StmtV::Block(v) => StmtV::Block(erase_ss(v)),
        StmtV::If { cond, then, els } => StmtV::If {
            cond: erase_e(cond),
            then: Box::new(erase_s(*then)),
            els: match els {
                Some(x) => Some(Box::new(erase_s(*x))),
                None => None,
            },
        },
        StmtV::Return(e) => StmtV::Return(erase_oe(e)),
        StmtV::Assign(op, a, b) => StmtV::Assign(op, erase_e(a), erase_e(b)),
        StmtV::Expr(e) => StmtV::Expr(erase_e(e)),
        _ => s,
    }
}

pub open spec fn erase_s(s: SV<StmtV>) -> SV<StmtV>
    decreases s,
{
    SV { value: erase_st(s.value), span: no_span() }
}

pub open spec fn erase_ss(v: Seq<SV<StmtV>>) -> Seq<SV<StmtV>>
    decreases v,
{
    if v.len() == 0 {
        Seq::empty()
    } else {
        seq![erase_s(v[0])] + erase_ss(v.drop_first())
    }
}

proof fn lemma_erase_es(v: Seq<SV<ExprV>>)
    ensures
        erase_es(v).len() == v.len(),
        forall|i: int| 0 <= i < v.len() ==> #[trigger] erase_es(v)[i] == erase_e(v[i]),
    decreases v.len(),
{
    if v.len() > 0 {
        lemma_erase_es(v.drop_first());
        assert forall|i: int| 0 <= i < v.len() implies #[trigger] erase_es(v)[i] == erase_e(v[i]) by {
            if i > 0 {
                assert(v.drop_first()[i - 1] == v[i]);
            }
        }
    }
}

proof fn lemma_erase_ss(v: Seq<SV<StmtV>>)
    ensures
        erase_ss(v).len() == v.len(),
        forall|i: int| 0 <= i < v.len() ==> #[trigger] erase_ss(v)[i] == erase_s(v[i]),
    decreases v.len(),
{
    if v.len() > 0 {
        lemma_erase_ss(v.drop_first());
        assert forall|i: int| 0 <= i < v.len() implies #[trigger] erase_ss(v)[i] == erase_s(v[i]) by {
            if i > 0 {
                assert(v.drop_first()[i - 1] == v[i]);
            }
        }
    }
}

/// Values with spans compare equal when their values are the same,
/// whatever their spans.
pub proof fn law_spans_ignored(a: Spanned<Expr>, b: Spanned<Expr>)
    requires
        *a.value == *b.value,
    ensures
        PartialEqSpec::eq_spec(&a, &b),
{
}

// ---------------------------------------------------------------------------
/// Whether two types are the same.
pub fn type_eq(a: &Type, b: &Type) -> (r: bool)
    ensures
        r == (type_v(*a) == type_v(*b)),
{
    match (a, b) {
        (Type::Void, Type::Void) => true,
        (Type::I8, Type::I8) => true,
        (Type::I16, Type::I16) => true,
        (Type::I32, Type::I32) => true,
        (Type::I64, Type::I64) => true,
        (Type::U8, Type::U8) => true,
        (Type::U16, Type::U16) => true,
        (Type::U32, Type::U32) => true,
        (Type::U64, Type::U64) => true,
        (Type::User(x), Type::User(y)) => *x == *y,
        _ => false,
    }
}

/// Whether two expressions are equal up to spans.
#[verifier::rlimit(60)]
#[verifier::spinoff_prover]
pub fn expr_eq(a: &Expr, b: &Expr) -> (r: bool)
    ensures
        r == (erase_x(expr_v(*a)) == erase_x(expr_v(*b))),
    decreases a,
{
    match (a, b) {
        (Expr::Or(a1, a2), Expr::Or(b1, b2))
        | (Expr::And(a1, a2), Expr::And(b1, b2))
        | (Expr::Lt(a1, a2), Expr::Lt(b1, b2))
        | (Expr::Gt(a1, a2), Expr::Gt(b1, b2))
        | (Expr::Lte(a1, a2), Expr::Lte(b1, b2))
        | (Expr::Gte(a1, a2), Expr::Gte(b1, b2))
        | (Expr::Eq(a1, a2), Expr::Eq(b1, b2))
        | (Expr::Neq(a1, a2), Expr::Neq(b1, b2))
        | (Expr::BitOr(a1, a2), Expr::BitOr(b1, b2))
        | (Expr::BitXor(a1, a2), Expr::BitXor(b1, b2))
        | (Expr::BitAnd(a1, a2), Expr::BitAnd(b1, b2))
        | (Expr::Shl(a1, a2), Expr::Shl(b1, b2))
        | (Expr::Shr(a1, a2), Expr::Shr(b1, b2))
        | (Expr::Add(a1, a2), Expr::Add(b1, b2))
        | (Expr::Sub(a1, a2), Expr::Sub(b1, b2))
        | (Expr::Mul(a1, a2), Expr::Mul(b1, b2))
        | (Expr::Div(a1, a2), Expr::Div(b1, b2))
        | (Expr::Rem(a1, a2), Expr::Rem(b1, b2)) => {
            expr_eq(&a1.value, &b1.value) && expr_eq(&a2.value, &b2.value)
        },
        (Expr::As(a1, t1), Expr::As(b1, t2)) => {
            expr_eq(&a1.value, &b1.value) && type_eq(&t1.value, &t2.value)
        },
        (Expr::FnCall { name: n1, args: x1 }, Expr::FnCall { name: n2, args: x2 }) => {
            expr_eq(&n1.value, &n2.value) && exprs_eq(x1, x2)
        },
        (Expr::I8(x), Expr::I8(y)) => *x == *y,
        (Expr::I16(x), Expr::I16(y)) => *x == *y,
        (Expr::I32(x), Expr::I32(y)) => *x == *y,
        (Expr::I64(x), Expr::I64(y)) => *x == *y,
        (Expr::U8(x), Expr::U8(y)) => *x == *y,
        (Expr::U16(x), Expr::U16(y)) => *x == *y,
        (Expr::U32(x), Expr::U32(y)) => *x == *y,
        (Expr::U64(x), Expr::U64(y)) => *x == *y,
        (Expr::String(x), Expr::String(y)) => *x == *y,
        (Expr::Variable(x), Expr::Variable(y)) => *x == *y,
        _ => false,
    }
}

/// Whether two lists of expressions are equal up to spans.
pub fn exprs_eq(a: &Vec<Spanned<Expr>>, b: &Vec<Spanned<Expr>>) -> (r: bool)
    ensures
        r == (erase_es(sexprs_v(a@)) == erase_es(sexprs_v(b@))),
    decreases a,
{
    proof {
        lemma_sexprs_v(a@);
        lemma_sexprs_v(b@);
        lemma_erase_es(sexprs_v(a@));
        lemma_erase_es(sexprs_v(b@));
    }
    if a.len() != b.len() {
        return false;
    }
    let mut k: usize = 0;
    while k < a.len()
        invariant
            a.len() == b.len(),
            k <= a.len(),
            forall|t: int|
                0 <= t < k ==> erase_es(sexprs_v(a@))[t] == #[trigger] erase_es(sexprs_v(b@))[t],
            erase_es(sexprs_v(a@)).len() == a.len(),
            erase_es(sexprs_v(b@)).len() == b.len(),
            forall|t: int| 0 <= t < a.len() ==> #[trigger] erase_es(sexprs_v(a@))[t] == erase_e(sexpr_v(a@[t])),
            forall|t: int| 0 <= t < b.len() ==> #[trigger] erase_es(sexprs_v(b@))[t] == erase_e(sexpr_v(b@[t])),
        decreases a.len() - k,
    {
        proof {
            assert(decreases_to!(a => a@[k as int].value));
        }
        if !expr_eq(&a[k].value, &b[k].value) {
            assert(erase_es(sexprs_v(a@))[k as int] != erase_es(sexprs_v(b@))[k as int]);
            return false;
        }
        k = k + 1;
    }
    assert(erase_es(sexprs_v(a@)) =~= erase_es(sexprs_v(b@)));
    true
}

fn opt_expr_eq(a: &Option<Spanned<Expr>>, b: &Option<Spanned<Expr>>) -> (r: bool)
    ensures
        r == (erase_oe(crate::ast::opt_sexpr_v(*a)) == erase_oe(crate::ast::opt_sexpr_v(*b))),
{
    match (a, b) {
        (Some(x), Some(y)) => expr_eq(&x.value, &y.value),
        (None, None) => true,
        _ => false,
    }
}

/// Whether two parameters are equal up to spans.
pub fn param_eq(a: &Param, b: &Param) -> (r: bool)
    ensures
        r == (erase_p(param_v(*a)) == erase_p(param_v(*b))),
{
    a.is_mut == b.is_mut && *a.name.value == *b.name.value && type_eq(&a.ty.value, &b.ty.value)
}

fn params_eq(a: &Vec<Param>, b: &Vec<Param>) -> (r: bool)
    ensures
        r == (params_v(a@).map_values(|p: ParamV| erase_p(p)) == params_v(b@).map_values(
            |p: ParamV| erase_p(p),
        )),
{
    let ghost ea = params_v(a@).map_values(|p: ParamV| erase_p(p));
    let ghost eb = params_v(b@).map_values(|p: ParamV| erase_p(p));
    if a.len() != b.len() {
        assert(ea.len() != eb.len());
        return false;
    }
    let mut k: usize = 0;
    while k < a.len()
        invariant
            a.len() == b.len(),
            k <= a.len(),
            ea == params_v(a@).map_values(|p: ParamV| erase_p(p)),
            eb == params_v(b@).map_values(|p: ParamV| erase_p(p)),
            forall|t: int| 0 <= t < k ==> ea[t] == eb[t],
        decreases a.len() - k,
    {
        if !param_eq(&a[k], &b[k]) {
            assert(ea[k as int] != eb[k as int]);
            return false;
        }
        k = k + 1;
    }
    assert(ea =~= eb);
    true
}

/// Whether two statements are equal up to spans.
#[verifier::rlimit(80)]
#[verifier::spinoff_prover]
pub fn stmt_eq(a: &Stmt, b: &Stmt) -> (r: bool)
    ensures
        r == (erase_st(stmt_v(*a)) == erase_st(stmt_v(*b))),
    decreases a,
{
    match (a, b) {
        (Stmt::Empty, Stmt::Empty) => true,
        (Stmt::Import(x), Stmt::Import(y)) => *x == *y,
        (
            Stmt::DefFn { name: n1, args: a1, ret_ty: r1, body: b1 },
            Stmt::DefFn { name: n2, args: a2, ret_ty: r2, body: b2 },
        ) => {
            *n1.value == *n2.value && params_eq(a1, a2) && type_eq(&r1.value, &r2.value) && stmt_eq(
                &b1.value,
                &b2.value,
            )
        },
        (
            Stmt::DefVar { is_mut: m1, name: n1, ty: t1, expr: e1 },
            Stmt::DefVar { is_mut: m2, name: n2, ty: t2, expr: e2 },
        ) => {
            *m1 == *m2 && *n1.value == *n2.value && type_eq(&t1.value, &t2.value) && opt_expr_eq(
                e1,
                e2,
            )
        },
        (Stmt::TypeDef { name: n1, ty: t1 }, Stmt::TypeDef { name: n2, ty: t2 }) => {
            *n1.value == *n2.value && type_eq(&t1.value, &t2.value)
        },
        (Stmt::Block(x), Stmt::Block(y)) => stmts_eq(x, y),
        (Stmt::If { cond: c1, then: t1, els: e1 }, Stmt::If { cond: c2, then: t2, els: e2 }) => {
            expr_eq(&c1.value, &c2.value) && stmt_eq(&t1.value, &t2.value) && match (e1, e2) {
                (Some(x), Some(y)) => stmt_eq(&x.value, &y.value),
                (None, None) => true,
                _ => false,
            }
        },
        (Stmt::Return(x), Stmt::Return(y)) => opt_expr_eq(x, y),
        (Stmt::Assign(a1, a2), Stmt::Assign(b1, b2))
        | (Stmt::AddAssign(a1, a2), Stmt::AddAssign(b1, b2))
        | (Stmt::SubAssign(a1, a2), Stmt::SubAssign(b1, b2))
        | (Stmt::MulAssign(a1, a2), Stmt::MulAssign(b1, b2))
        | (Stmt::DivAssign(a1, a2), Stmt::DivAssign(b1, b2))
        | (Stmt::RemAssign(a1, a2), Stmt::RemAssign(b1, b2))
        | (Stmt::BitAndAssign(a1, a2), Stmt::BitAndAssign(b1, b2))
        | (Stmt::BitOrAssign(a1, a2), Stmt::BitOrAssign(b1, b2))
        | (Stmt::BitXorAssign(a1, a2), Stmt::BitXorAssign(b1, b2))
        | (Stmt::ShlAssign(a1, a2), Stmt::ShlAssign(b1, b2))
        | (Stmt::ShrAssign(a1, a2), Stmt::ShrAssign(b1, b2)) => {
            expr_eq(&a1.value, &b1.value) && expr_eq(&a2.value, &b2.value)
        },
        (Stmt::Expr(x), Stmt::Expr(y)) => expr_eq(&x.value, &y.value),
        _ => false,
    }
}

/// Whether two lists of statements are equal up to spans.
pub fn stmts_eq(a: &Vec<Spanned<Stmt>>, b: &Vec<Spanned<Stmt>>) -> (r: bool)
    ensures
        r == (erase_ss(sstmts_v(a@)) == erase_ss(sstmts_v(b@))),
    decreases a,
{
    proof {
        lemma_sstmts_v(a@);
        lemma_sstmts_v(b@);
        lemma_erase_ss(sstmts_v(a@));
        lemma_erase_ss(sstmts_v(b@));
    }
    if a.len() != b.len() {
        return false;
    }
    let mut k: usize = 0;
    while k < a.len()
        invariant
            a.len() == b.len(),
            k <= a.len(),
            forall|t: int|
                0 <= t < k ==> erase_ss(sstmts_v(a@))[t] == #[trigger] erase_ss(sstmts_v(b@))[t],
            erase_ss(sstmts_v(a@)).len() == a.len(),
            erase_ss(sstmts_v(b@)).len() == b.len(),
            forall|t: int| 0 <= t < a.len() ==> #[trigger] erase_ss(sstmts_v(a@))[t] == erase_s(sstmt_v(a@[t])),
            forall|t: int| 0 <= t < b.len() ==> #[trigger] erase_ss(sstmts_v(b@))[t] == erase_s(sstmt_v(b@[t])),
        decreases a.len() - k,
    {
        proof {
            assert(decreases_to!(a => a@[k as int].value));
        }
        if !stmt_eq(&a[k].value, &b[k].value) {
            assert(erase_ss(sstmts_v(a@))[k as int] != erase_ss(sstmts_v(b@))[k as int]);
            return false;
        }
        k = k + 1;
    }
    assert(erase_ss(sstmts_v(a@)) =~= erase_ss(sstmts_v(b@)));
    true
}

impl PartialEq for Type {
    fn eq(&self, other: &Self) -> (r: bool) {
        type_eq(self, other)
    }
}

impl PartialEqSpecImpl for Type {
    open spec fn obeys_eq_spec() -> bool {
        true
    }

    open spec fn eq_spec(&self, other: &Self) -> bool {
        type_v(*self) == type_v(*other)
    }
}

impl PartialEq for Expr {
    fn eq(&self, other: &Self) -> (r: bool) {
        expr_eq(self, other)
    }
}

impl PartialEqSpecImpl for Expr {
    open spec fn obeys_eq_spec() -> bool {
        true
    }

    open spec fn eq_spec(&self, other: &Self) -> bool {
        erase_x(expr_v(*self)) == erase_x(expr_v(*other))
    }
}

impl PartialEq for Param {
    fn eq(&self, other: &Self) -> (r: bool) {
        param_eq(self, other)
    }
}

impl PartialEqSpecImpl for Param {
    open spec fn obeys_eq_spec() -> bool {
        true
    }

    open spec fn eq_spec(&self, other: &Self) -> bool {
        erase_p(param_v(*self)) == erase_p(param_v(*other))
    }
}

impl PartialEq for Stmt {
    fn eq(&self, other: &Self) -> (r: bool) {
        stmt_eq(self, other)
    }
}

impl PartialEqSpecImpl for Stmt {
    open spec fn obeys_eq_spec() -> bool {
        true
    }

    open spec fn eq_spec(&self, other: &Self) -> bool {
        erase_st(stmt_v(*self)) == erase_st(stmt_v(*other))
    }
}

impl PartialEq for Ast {
    fn eq(&self, other: &Self) -> (r: bool) {
        stmts_eq(&self.imports, &other.imports) && stmts_eq(&self.defs, &other.defs)
    }
}

impl PartialEqSpecImpl for Ast {
    open spec fn obeys_eq_spec() -> bool {
        true
    }

    open spec fn eq_spec(&self, other: &Self) -> bool {
        &&& erase_ss(sstmts_v(self.imports@)) == erase_ss(sstmts_v(other.imports@))
        &&& erase_ss(sstmts_v(self.defs@)) == erase_ss(sstmts_v(other.defs@))
    }
}

/// Values with spans are equal when their values are: spans are not compared.
impl<T: PartialEq> PartialEq for Spanned<T> {
    fn eq(&self, other: &Self) -> (r: bool) {
        *self.value == *other.value
    }
}

impl<T: PartialEq> PartialEqSpecImpl for Spanned<T> {
    open spec fn obeys_eq_spec() -> bool {
        T::obeys_eq_spec()
    }

    open spec fn eq_spec(&self, other: &Self) -> bool {
        (*self.value).eq_spec(&*other.value)
    }
}

} // verus!

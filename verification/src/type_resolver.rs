//! Type resolution: fills the type table from the program's type
//! definitions, then checks that every user type the program mentions is
//! defined.
use crate::ast::{
    lemma_sstmts_v, param_v, params_v, sexpr_v, sstmt_v, sstmts_v, stype_v, Expr, ExprV, ParamV,
    Stmt, StmtV, Type, TypeV, SV,
};
use crate::diag::{SemanticDiag, SemanticError, SemanticWarning};
use crate::entity::{clone_sname, clone_stype};
use crate::hir::{def_types, typedef_v, Hir, TypeDef, TypeDefV};
use crate::span::{Span, Spanned};
use crate::type_table::{lemma_tt_pos, tt_insert, tt_pos, tt_wf, TableV, TypeTable};
use vstd::prelude::*;

verus! {

/// Defines the types `tys` in order: a name the table already has is a
/// duplicated type, reported at the name as first defined and at this one;
/// either way the name now names the new type.
pub open spec fn define_types(t: TableV, tys: Seq<TypeDefV>) -> (TableV, Seq<SemanticError>)
    decreases tys.len(),
{
    if tys.len() == 0 {
        (t, Seq::empty())
    } else {
        let (t1, e1) = define_types(t, tys.drop_last());
        let d = tys.last();
        let p = tt_pos(t1, d.name.value);
        (
            tt_insert(t1, d.name, d.ty),
            if p >= 0 {
                e1.push(SemanticError::DuplicatedType(t1[p].0.span, d.name.span))
            } else {
                e1
            },
        )
    }
}

/// A user type the table does not have is unresolved.
pub open spec fn ty_errs_t(t: TableV, ty: SV<TypeV>) -> Seq<SemanticError> {
    match ty.value {
        TypeV::User(n) => if tt_pos(t, n) >= 0 {
            Seq::empty()
        } else {
            seq![SemanticError::UnresolvedType(ty.span)]
        },
        _ => Seq::empty(),
    }
}

/// The unresolved types of an expression, left to right: those of casts;
/// the callee of a call is visited, its arguments are not.
pub open spec fn ty_errs_e(t: TableV, e: SV<ExprV>) -> Seq<SemanticError>
    decreases e,
{
    match e.value {
        ExprV::As(a, ty) => ty_errs_e(t, *a) + ty_errs_t(t, ty),
        ExprV::Binary(_, a, b) => ty_errs_e(t, *a) + ty_errs_e(t, *b),
        ExprV::FnCall(c, _) => ty_errs_e(t, *c),
        _ => Seq::empty(),
    }
}

pub open spec fn ty_errs_oe(t: TableV, e: Option<SV<ExprV>>) -> Seq<SemanticError> {
    match e {
        Some(x) => ty_errs_e(t, x),
        None => Seq::empty(),
    }
}

/// The unresolved types of parameters, in order.
pub open spec fn ty_errs_ps(t: TableV, ps: Seq<ParamV>) -> Seq<SemanticError>
    decreases ps.len(),
{
    if ps.len() == 0 {
        Seq::empty()
    } else {
        ty_errs_ps(t, ps.drop_last()) + ty_errs_t(t, ps.last().ty)
    }
}

/// The unresolved types of a statement, in the order they are written.
pub open spec fn ty_errs_s(t: TableV, s: SV<StmtV>) -> Seq<SemanticError>
    decreases s,
{
    match s.value {
        StmtV::DefFn { args, ret_ty, body, .. } => ty_errs_ps(t, args) + ty_errs_t(t, ret_ty)
            + ty_errs_s(t, *body),
        StmtV::DefVar { ty, expr, .. } => ty_errs_t(t, ty) + ty_errs_oe(t, expr),
        StmtV::TypeDef { ty, .. } => ty_errs_t(t, ty),
        StmtV::Block(ss) => ty_errs_ss(t, ss),
        StmtV::If { cond, then, els } => ty_errs_e(t, cond) + ty_errs_s(t, *then) + match els {
            Some(x) => ty_errs_s(t, *x),
            None => Seq::empty(),
        },
        StmtV::Return(Some(x)) => ty_errs_e(t, x),
        StmtV::Assign(_, a, b) => ty_errs_e(t, a) + ty_errs_e(t, b),
        StmtV::Expr(x) => ty_errs_e(t, x),
        _ => Seq::empty(),
    }
}

pub open spec fn ty_errs_ss(t: TableV, ss: Seq<SV<StmtV>>) -> Seq<SemanticError>
    decreases ss,
{
    if ss.len() == 0 {
        Seq::empty()
    } else {
        ty_errs_ss(t, ss.drop_last()) + ty_errs_s(t, ss.last())
    }
}

/// The unresolved types of a block are those of its statements, in order:
/// an empty block has none, and one more statement adds its own after the
/// others'.
pub proof fn law_block_type_errors(t: TableV, ss: Seq<SV<StmtV>>, x: SV<StmtV>, sp: Span)
    ensures
        ty_errs_s(t, SV { value: StmtV::Block(Seq::empty()), span: sp }) == Seq::<SemanticError>::empty(),
        ty_errs_s(t, SV { value: StmtV::Block(ss.push(x)), span: sp }) == ty_errs_s(
            t,
            SV { value: StmtV::Block(ss), span: sp },
        ) + ty_errs_s(t, x),
{
    let e = SV { value: StmtV::Block(Seq::<SV<StmtV>>::empty()), span: sp };
    assert(ty_errs_s(t, e) == ty_errs_ss(t, Seq::empty()));
    let b0 = SV { value: StmtV::Block(ss), span: sp };
    let b1 = SV { value: StmtV::Block(ss.push(x)), span: sp };
    assert(ty_errs_s(t, b0) == ty_errs_ss(t, ss));
    assert(ty_errs_s(t, b1) == ty_errs_ss(t, ss.push(x)));
    assert(ss.push(x).drop_last() =~= ss);
    assert(ss.push(x).last() == x);
    assert(ty_errs_ss(t, ss.push(x)) == ty_errs_ss(t, ss) + ty_errs_s(t, x));
}

/// A variable defined with a user type: the type is unresolved, at its
/// span, exactly when the table does not have it.
pub proof fn law_var_type(
    t: TableV,
    is_mut: bool,
    name: SV<Seq<char>>,
    n: Seq<char>,
    tsp: Span,
    sp: Span,
)
    ensures
        ({
            let d = SV {
                value: StmtV::DefVar {
                    is_mut,
                    name,
                    ty: SV { value: TypeV::User(n), span: tsp },
                    expr: None,
                },
                span: sp,
            };
            &&& tt_pos(t, n) < 0 ==> ty_errs_s(t, d) == seq![SemanticError::UnresolvedType(tsp)]
            &&& tt_pos(t, n) >= 0 ==> ty_errs_s(t, d) == Seq::<SemanticError>::empty()
        }),
{
    let d = SV {
        value: StmtV::DefVar { is_mut, name, ty: SV { value: TypeV::User(n), span: tsp }, expr: None },
        span: sp,
    };
    assert(ty_errs_s(t, d) =~= ty_errs_t(t, SV { value: TypeV::User(n), span: tsp }));
}

/// The unresolved types of a function with no parameters and a builtin
/// return type are those of its body.
pub proof fn law_fn_body_types(t: TableV, name: SV<Seq<char>>, ret: SV<TypeV>, body: SV<StmtV>, sp: Span)
    requires
        !(ret.value is User),
    ensures
        ty_errs_s(
            t,
            SV {
                value: StmtV::DefFn { name, args: Seq::empty(), ret_ty: ret, body: Box::new(body) },
                span: sp,
            },
        ) == ty_errs_s(t, body),
{
    let d = SV {
        value: StmtV::DefFn { name, args: Seq::empty(), ret_ty: ret, body: Box::new(body) },
        span: sp,
    };
    assert(ty_errs_s(t, d) =~= ty_errs_s(t, body));
}

/// Resolves the types of programs against a table it fills.
pub struct TypeResolver {
    type_table: TypeTable,
    diag: SemanticDiag,
}

impl TypeResolver {
    pub closed spec fn table_v(&self) -> TableV {
        self.type_table@
    }

    pub closed spec fn diag_v(&self) -> (Seq<SemanticWarning>, Seq<SemanticError>) {
        (self.diag.warnings@, self.diag.errors@)
    }

    /// A resolver that fills `type_table`.
    pub fn new(type_table: TypeTable) -> (r: Self)
        requires
            type_table.wf(),
        ensures
            r.table_v() == type_table@,
            tt_wf(r.table_v()),
            r.diag_v() == (Seq::<SemanticWarning>::empty(), Seq::<SemanticError>::empty()),
    {
        TypeResolver { type_table, diag: SemanticDiag::new() }
    }

    /// The table, as filled so far.
    pub fn into_table(self) -> (r: TypeTable)
        ensures
            r@ == self.table_v(),
    {
        self.type_table
    }

    /// Defines the program's types (see [`define_types`]), then reports
    /// each user type it mentions that the table does not have (see
    /// [`ty_errs_s`]). The diagnostics are those the resolver had, then
    /// those found.
    pub fn resolve(&mut self, hir: &mut Hir) -> (r: SemanticDiag)
        requires
            tt_wf(old(self).table_v()),
        ensures
            ({
                let defs = sstmts_v(old(hir).defs@);
                let (t, e) = define_types(old(self).table_v(), def_types(defs));
                &&& final(self).table_v() == t
                &&& r.errors@ == old(self).diag_v().1 + e + ty_errs_ss(t, defs)
                &&& r.warnings@ == old(self).diag_v().0
            }),
            tt_wf(final(self).table_v()),
            final(self).diag_v() == (r.warnings@, r.errors@),
            final(hir).defs == old(hir).defs,
            final(hir).imports == old(hir).imports,
            final(hir).scope == old(hir).scope,
    {
        self.define_types(hir);
        self.resolve_types(hir);
        SemanticDiag { warnings: self.diag.warnings.clone(), errors: self.diag.errors.clone() }
    }

    fn define_types(&mut self, hir: &Hir)
        requires
            tt_wf(old(self).table_v()),
        ensures
            ({
                let (t, e) = define_types(old(self).table_v(), def_types(sstmts_v(hir.defs@)));
                &&& final(self).table_v() == t
                &&& final(self).diag.errors@ == old(self).diag.errors@ + e
            }),
            final(self).diag.warnings@ == old(self).diag.warnings@,
            tt_wf(final(self).table_v()),
    {
        let tys = hir.types();
        let ghost ds = def_types(sstmts_v(hir.defs@));
        let ghost t0 = self.type_table@;
        let ghost e0 = self.diag.errors@;
        let mut k: usize = 0;
        while k < tys.len()
            invariant
                k <= tys.len(),
                ds == tys@.map_values(|d: TypeDef| typedef_v(d)),
                self.type_table@ == define_types(t0, ds.take(k as int)).0,
                self.diag.errors@ == e0 + define_types(t0, ds.take(k as int)).1,
                self.diag.warnings@ == old(self).diag.warnings@,
                tt_wf(self.type_table@),
            decreases tys.len() - k,
        {
            proof {
                assert(ds.take(k + 1).drop_last() =~= ds.take(k as int));
                assert(ds[k as int] == typedef_v(tys@[k as int]));
                lemma_tt_pos(self.type_table@, ds[k as int].name.value);
            }
            let ty = &tys[k];
            if let Some((predef, _)) = self.type_table.get_key_value(&ty.name.value) {
                self.diag.push_err(SemanticError::DuplicatedType(predef.span, ty.name.span));
            }
            self.type_table.insert(clone_sname(ty.name), clone_stype(ty.ty));
            proof {
                assert(self.diag.errors@ =~= e0 + define_types(t0, ds.take(k + 1)).1);
            }
            k = k + 1;
        }
        assert(ds.take(tys.len() as int) =~= ds);
    }

    fn resolve_types(&mut self, hir: &Hir)
        ensures
            final(self).table_v() == old(self).table_v(),
            final(self).diag.errors@ == old(self).diag.errors@ + ty_errs_ss(
                old(self).table_v(),
                sstmts_v(hir.defs@),
            ),
            final(self).diag.warnings@ == old(self).diag.warnings@,
    {
        let ghost ss = sstmts_v(hir.defs@);
        proof {
            lemma_sstmts_v(hir.defs@);
        }
        let ghost e0 = self.diag.errors@;
        let mut k: usize = 0;
        while k < hir.defs.len()
            invariant
                k <= hir.defs.len(),
                ss == sstmts_v(hir.defs@),
                ss.len() == hir.defs.len(),
                forall|t: int| 0 <= t < hir.defs.len() ==> #[trigger] ss[t] == sstmt_v(hir.defs@[t]),
                self.type_table == old(self).type_table,
                self.diag.errors@ == e0 + ty_errs_ss(self.type_table@, ss.take(k as int)),
                self.diag.warnings@ == old(self).diag.warnings@,
            decreases hir.defs.len() - k,
        {
            proof {
                assert(ss.take(k + 1).drop_last() =~= ss.take(k as int));
            }
            self.visit_stmt(&hir.defs[k]);
            proof {
                assert(self.diag.errors@ =~= e0 + ty_errs_ss(self.type_table@, ss.take(k + 1)));
            }
            k = k + 1;
        }
        assert(ss.take(hir.defs.len() as int) =~= ss);
    }

    /// Reports a user type the table does not have.
    fn visit_type(&mut self, ty: &Spanned<Type>)
        ensures
            final(self).type_table == old(self).type_table,
            final(self).diag.errors@ == old(self).diag.errors@ + ty_errs_t(
                old(self).table_v(),
                stype_v(*ty),
            ),
            final(self).diag.warnings@ == old(self).diag.warnings@,
    {
        if let Type::User(name) = &*ty.value {
            if !self.type_table.contains_key(name) {
                self.diag.push_err(SemanticError::UnresolvedType(ty.span));
            }
        }
        assert(self.diag.errors@ =~= old(self).diag.errors@ + ty_errs_t(
            old(self).table_v(),
            stype_v(*ty),
        ));
    }

    #[verifier::rlimit(40)]
    #[verifier::spinoff_prover]
    fn visit_stmt(&mut self, stmt: &Spanned<Stmt>)
        ensures
            final(self).type_table == old(self).type_table,
            final(self).diag.errors@ == old(self).diag.errors@ + ty_errs_s(
                old(self).table_v(),
                sstmt_v(*stmt),
            ),
            final(self).diag.warnings@ == old(self).diag.warnings@,
        decreases stmt,
    {
        let ghost e0 = self.diag.errors@;
        let ghost t = self.type_table@;
        match &*stmt.value {
            Stmt::DefFn { args, ret_ty, body, .. } => {
                let ghost ps = params_v(args@);
                let mut a: usize = 0;
                while a < args.len()
                    invariant
                        a <= args.len(),
                        ps == params_v(args@),
                        self.type_table == old(self).type_table,
                        t == self.type_table@,
                        self.diag.errors@ == e0 + ty_errs_ps(t, ps.take(a as int)),
                        self.diag.warnings@ == old(self).diag.warnings@,
                    decreases args.len() - a,
                {
                    proof {
                        assert(ps.take(a + 1).drop_last() =~= ps.take(a as int));
                        assert(ps[a as int] == param_v(args@[a as int]));
                    }
                    self.visit_type(&args[a].ty);
                    proof {
                        assert(self.diag.errors@ =~= e0 + ty_errs_ps(t, ps.take(a + 1)));
                    }
                    a = a + 1;
                }
                assert(ps.take(args.len() as int) =~= ps);
                self.visit_type(ret_ty);
                self.visit_stmt(body);
            },
            Stmt::DefVar { ty, expr, .. } => {
                self.visit_type(ty);
                if let Some(expr) = expr {
                    self.visit_expr(expr);
                }
            },
            Stmt::TypeDef { ty, .. } => {
                self.visit_type(ty);
            },
            Stmt::Block(stmts) => {
                let ghost ss = sstmts_v(stmts@);
                proof {
                    lemma_sstmts_v(stmts@);
                }
                let mut k: usize = 0;
                while k < stmts.len()
                    invariant
                        k <= stmts.len(),
                        *stmt.value == Stmt::Block(*stmts),
                        ss == sstmts_v(stmts@),
                        ss.len() == stmts.len(),
                        forall|i: int| 0 <= i < stmts.len() ==> #[trigger] ss[i] == sstmt_v(stmts@[i]),
                        self.type_table == old(self).type_table,
                        t == self.type_table@,
                        self.diag.errors@ == e0 + ty_errs_ss(t, ss.take(k as int)),
                        self.diag.warnings@ == old(self).diag.warnings@,
                    decreases stmts.len() - k,
                {
                    proof {
                        assert(decreases_to!(stmt => stmts@[k as int])) by {
                            assert(decreases_to!(stmt => *stmt.value));
                            assert(decreases_to!(*stmt.value => (*stmt.value)->Block_0));
                            assert(decreases_to!(*stmts => stmts@));
                        }
                        assert(ss.take(k + 1).drop_last() =~= ss.take(k as int));
                    }
                    self.visit_stmt(&stmts[k]);
                    proof {
                        assert(self.diag.errors@ =~= e0 + ty_errs_ss(t, ss.take(k + 1)));
                    }
                    k = k + 1;
                }
                assert(ss.take(stmts.len() as int) =~= ss);
            },
            Stmt::If { cond, then, els } => {
                self.visit_expr(cond);
                self.visit_stmt(then);
                if let Some(els) = els {
                    self.visit_stmt(els);
                }
            },
            Stmt::Return(Some(expr)) => self.visit_expr(expr),
            Stmt::Assign(lhs, rhs)
            | Stmt::AddAssign(lhs, rhs)
            | Stmt::SubAssign(lhs, rhs)
            | Stmt::MulAssign(lhs, rhs)
            | Stmt::DivAssign(lhs, rhs)
            | Stmt::RemAssign(lhs, rhs)
            | Stmt::BitAndAssign(lhs, rhs)
            | Stmt::BitOrAssign(lhs, rhs)
            | Stmt::BitXorAssign(lhs, rhs)
            | Stmt::ShlAssign(lhs, rhs)
            | Stmt::ShrAssign(lhs, rhs) => {
                self.visit_expr(lhs);
                self.visit_expr(rhs);
            },
            Stmt::Expr(expr) => self.visit_expr(expr),
            _ => {},
        }
        assert(self.diag.errors@ =~= e0 + ty_errs_s(t, sstmt_v(*stmt)));
    }

    fn visit_expr(&mut self, expr: &Spanned<Expr>)
        ensures
            final(self).type_table == old(self).type_table,
            final(self).diag.errors@ == old(self).diag.errors@ + ty_errs_e(
                old(self).table_v(),
                sexpr_v(*expr),
            ),
            final(self).diag.warnings@ == old(self).diag.warnings@,
        decreases expr,
    {
        let ghost e0 = self.diag.errors@;
        match &*expr.value {
            Expr::As(lhs, ty) => {
                self.visit_expr(lhs);
                self.visit_type(ty);
            },
            Expr::Or(lhs, rhs)
            | Expr::And(lhs, rhs)
            | Expr::Lt(lhs, rhs)
            | Expr::Gt(lhs, rhs)
            | Expr::Lte(lhs, rhs)
            | Expr::Gte(lhs, rhs)
            | Expr::Eq(lhs, rhs)
            | Expr::Neq(lhs, rhs)
            | Expr::BitOr(lhs, rhs)
            | Expr::BitXor(lhs, rhs)
            | Expr::BitAnd(lhs, rhs)
            | Expr::Shl(lhs, rhs)
            | Expr::Shr(lhs, rhs)
            | Expr::Add(lhs, rhs)
            | Expr::Sub(lhs, rhs)
            | Expr::Mul(lhs, rhs)
            | Expr::Div(lhs, rhs)
            | Expr::Rem(lhs, rhs) => {
                self.visit_expr(lhs);
                self.visit_expr(rhs);
            },
            Expr::FnCall { name, .. } => {
                self.visit_expr(name);
            },
            _ => {},
        }
        assert(self.diag.errors@ =~= e0 + ty_errs_e(self.type_table@, sexpr_v(*expr)));
    }
}

} // verus!

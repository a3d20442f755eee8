//! Checks of the top-level variables: each must be initialized by a
//! constant, and a call in an initializer must call a function.
use crate::ast::{lemma_sstmts_v, sexpr_v, sstmt_v, sstmts_v, stmt_v, Expr, ExprV, Stmt, StmtV, TypeV, SV};
use crate::diag::{SemanticDiag, SemanticError, SemanticWarning};
use crate::hir::{constant_check, is_literal, def_vars, defvar_v, DefVarV, DefinedVariable, Hir};
use crate::span::{Span, Spanned};
use vstd::prelude::*;

verus! {

/// Whether a definition is that of a function named `n`.
pub open spec fn fn_named(d: SV<StmtV>, n: Seq<char>) -> bool {
    match d.value {
        StmtV::DefFn { name, .. } => name.value == n,
        _ => false,
    }
}

/// Whether the definitions define a function named `n`.
pub open spec fn defines_fn(defs: Seq<SV<StmtV>>, n: Seq<char>) -> bool {
    exists|i: int|
        0 <= i < defs.len() && fn_named(#[trigger] defs[i], n)
}

/// Whether an expression names a function of the definitions.
pub open spec fn callable(defs: Seq<SV<StmtV>>, e: SV<ExprV>) -> bool {
    match e.value {
        ExprV::Variable(n) => defines_fn(defs, n),
        _ => false,
    }
}

/// A call whose callee does not name a function is an error at the callee.
pub open spec fn call_check(defs: Seq<SV<StmtV>>, e: SV<ExprV>) -> Result<(), SemanticError> {
    match e.value {
        ExprV::FnCall(c, _) => if callable(defs, *c) {
            Ok(())
        } else {
            Err(SemanticError::NotCallable(c.span))
        },
        _ => Ok(()),
    }
}

/// The errors about one top-level variable: its initializer's call, if
/// it is not callable, then its initializer, if it is not constant.
pub open spec fn var_errors(defs: Seq<SV<StmtV>>, d: DefVarV) -> Seq<SemanticError> {
    (match d.expr {
        Some(x) => match call_check(defs, x) {
            Err(e) => seq![e],
            Ok(_) => Seq::empty(),
        },
        None => Seq::empty(),
    }) + match constant_check(d) {
        Err(s) => seq![SemanticError::NotConstant(s)],
        Ok(_) => Seq::empty(),
    }
}

/// The errors about the top-level variables `vars`, in order.
pub open spec fn deref_errors(defs: Seq<SV<StmtV>>, vars: Seq<DefVarV>) -> Seq<SemanticError>
    decreases vars.len(),
{
    if vars.len() == 0 {
        Seq::empty()
    } else {
        deref_errors(defs, vars.drop_last()) + var_errors(defs, vars.last())
    }
}

/// Top-level definitions should be constants: a variable with no
/// initializer or a literal one draws no error; one with any other
/// initializer draws `NotConstant` at it, after `NotCallable` at the
/// callee when it calls what is not a function.
pub proof fn law_toplevel_constants(defs: Seq<SV<StmtV>>, d: DefVarV)
    ensures
        (match d.expr {
            Some(x) => is_literal(x.value),
            None => true,
        }) ==> var_errors(defs, d) == Seq::<SemanticError>::empty(),
        (d.expr matches Some(x) && !is_literal(x.value)) ==> var_errors(defs, d).last()
            == SemanticError::NotConstant(d.expr->Some_0.span),
        (d.expr matches Some(x) && x.value is FnCall && !callable(defs, *x.value->FnCall_0))
            ==> var_errors(defs, d) == seq![
            SemanticError::NotCallable(d.expr->Some_0.value->FnCall_0.span),
            SemanticError::NotConstant(d.expr->Some_0.span),
        ],
{
    if let Some(x) = d.expr {
        if !is_literal(x.value) {
            assert(var_errors(defs, d).last() == SemanticError::NotConstant(x.span));
        }
    }
}

/// Every integer literal, whatever its type, and every string literal is a
/// constant: a top-level variable initialized by one draws no error.
pub proof fn law_literals_are_constants(
    defs: Seq<SV<StmtV>>,
    name: SV<Seq<char>>,
    ty: SV<TypeV>,
    sp: Span,
    a: i8,
    b: i16,
    c: i32,
    d: i64,
    e: u8,
    f: u16,
    g: u32,
    h: u64,
    text: Seq<char>,
)
    ensures
        forall|x: ExprV|
            x == ExprV::I8(a) || x == ExprV::I16(b) || x == ExprV::I32(c) || x == ExprV::I64(d)
                || x == ExprV::U8(e) || x == ExprV::U16(f) || x == ExprV::U32(g) || x
                == ExprV::U64(h) || x == ExprV::Str(text) ==> #[trigger] var_errors(
                defs,
                DefVarV { name, ty, expr: Some(SV { value: x, span: sp }) },
            ) == Seq::<SemanticError>::empty(),
{
    assert forall|x: ExprV|
        x == ExprV::I8(a) || x == ExprV::I16(b) || x == ExprV::I32(c) || x == ExprV::I64(d) || x
            == ExprV::U8(e) || x == ExprV::U16(f) || x == ExprV::U32(g) || x == ExprV::U64(h) || x
            == ExprV::Str(text) implies #[trigger] var_errors(
        defs,
        DefVarV { name, ty, expr: Some(SV { value: x, span: sp }) },
    ) == Seq::<SemanticError>::empty() by {
        assert(var_errors(defs, DefVarV { name, ty, expr: Some(SV { value: x, span: sp }) })
            =~= Seq::<SemanticError>::empty());
    }
}

/// A top-level variable initialized by a variable is not constant.
pub proof fn law_variable_not_constant(defs: Seq<SV<StmtV>>, name: SV<Seq<char>>, ty: SV<TypeV>, v: Seq<char>, sp: Span)
    ensures
        var_errors(defs, DefVarV { name, ty, expr: Some(SV { value: ExprV::Variable(v), span: sp }) })
            == seq![SemanticError::NotConstant(sp)],
{
    assert(var_errors(defs, DefVarV { name, ty, expr: Some(SV { value: ExprV::Variable(v), span: sp }) })
        =~= seq![SemanticError::NotConstant(sp)]);
}

/// Checks the top-level variables of a program.
pub struct DereferenceChecker<'a> {
    hir: &'a Hir,
    diag: SemanticDiag,
}

impl<'a> DereferenceChecker<'a> {
    pub closed spec fn hir_v(&self) -> Hir {
        *self.hir
    }

    pub closed spec fn diag_v(&self) -> (Seq<SemanticWarning>, Seq<SemanticError>) {
        (self.diag.warnings@, self.diag.errors@)
    }

    /// A checker of `hir` that has found nothing yet.
    pub fn new(hir: &'a Hir) -> (r: Self)
        ensures
            r.hir_v() == *hir,
            r.diag_v() == (Seq::<SemanticWarning>::empty(), Seq::<SemanticError>::empty()),
    {
        DereferenceChecker { hir, diag: SemanticDiag::new() }
    }

    /// Checks each top-level variable in turn (see [`var_errors`]); the
    /// diagnostics are those the checker had, then the errors found.
    pub fn check(&mut self) -> (r: SemanticDiag)
        ensures
            final(self).hir_v() == old(self).hir_v(),
            r.warnings@ == old(self).diag_v().0,
            r.errors@ == old(self).diag_v().1 + deref_errors(
                sstmts_v(old(self).hir_v().defs@),
                def_vars(sstmts_v(old(self).hir_v().defs@)),
            ),
            final(self).diag_v() == (r.warnings@, r.errors@),
    {
        let vars = self.hir.defined_variables();
        let ghost defs = sstmts_v(self.hir.defs@);
        let ghost vs = def_vars(defs);
        let ghost e0 = self.diag.errors@;
        let mut k: usize = 0;
        while k < vars.len()
            invariant
                k <= vars.len(),
                defs == sstmts_v(self.hir.defs@),
                self.hir == old(self).hir,
                vs == def_vars(defs),
                vs == vars@.map_values(|d: DefinedVariable| defvar_v(d)),
                self.diag.warnings@ == old(self).diag_v().0,
                self.diag.errors@ == e0 + deref_errors(defs, vs.take(k as int)),
            decreases vars.len() - k,
        {
            proof {
                assert(vs.take(k + 1).drop_last() =~= vs.take(k as int));
                assert(vs[k as int] == defvar_v(vars@[k as int]));
            }
            self.check_toplevel_variable(&vars[k]);
            assert(self.diag.errors@ =~= e0 + deref_errors(defs, vs.take(k + 1)));
            k = k + 1;
        }
        assert(vs.take(vars.len() as int) =~= vs);
        SemanticDiag { warnings: self.diag.warnings.clone(), errors: self.diag.errors.clone() }
    }

    /// Checks one top-level variable: its call, then that it is constant.
    fn check_toplevel_variable(&mut self, var: &DefinedVariable)
        ensures
            final(self).hir == old(self).hir,
            final(self).diag.warnings@ == old(self).diag.warnings@,
            final(self).diag.errors@ == old(self).diag.errors@ + var_errors(
                sstmts_v(old(self).hir.defs@),
                defvar_v(*var),
            ),
    {
        let ghost e0 = self.diag.errors@;
        self.check_variable(var);
        if let Err(span) = var.is_constant() {
            self.diag.push_err(SemanticError::NotConstant(span));
        }
        assert(self.diag.errors@ =~= e0 + var_errors(sstmts_v(self.hir.defs@), defvar_v(*var)));
    }

    /// Checks the call in a variable's initializer, if any.
    fn check_variable(&mut self, var: &DefinedVariable)
        ensures
            final(self).hir == old(self).hir,
            final(self).diag.warnings@ == old(self).diag.warnings@,
            final(self).diag.errors@ == old(self).diag.errors@ + match defvar_v(*var).expr {
                Some(x) => match call_check(sstmts_v(old(self).hir.defs@), x) {
                    Err(e) => seq![e],
                    Ok(_) => Seq::<SemanticError>::empty(),
                },
                None => Seq::<SemanticError>::empty(),
            },
    {
        if let Some(expr) = var.expr {
            if let Err(err) = self.visit_expr(expr) {
                self.diag.push_err(err);
            }
        }
    }

    /// A call must call a function; other expressions are fine.
    fn visit_expr(&self, expr: &Spanned<Expr>) -> (r: Result<(), SemanticError>)
        ensures
            r == call_check(sstmts_v(self.hir.defs@), sexpr_v(*expr)),
    {
        match &*expr.value {
            Expr::FnCall { name, .. } => {
                if !self.is_callable(name) {
                    Err(SemanticError::NotCallable(name.span))
                } else {
                    Ok(())
                }
            },
            _ => Ok(()),
        }
    }

    /// Whether `expr` is a variable that names a function of the program.
    fn is_callable(&self, expr: &Spanned<Expr>) -> (r: bool)
        ensures
            r == callable(sstmts_v(self.hir.defs@), sexpr_v(*expr)),
    {
        let ghost defs = sstmts_v(self.hir.defs@);
        proof {
            lemma_sstmts_v(self.hir.defs@);
        }
        if let Expr::Variable(var_name) = &*expr.value {
            let mut k: usize = 0;
            while k < self.hir.defs.len()
                invariant
                    k <= self.hir.defs.len(),
                    sexpr_v(*expr).value == ExprV::Variable(var_name@),
                    defs == sstmts_v(self.hir.defs@),
                    defs.len() == self.hir.defs.len(),
                    forall|t: int| 0 <= t < self.hir.defs.len() ==> #[trigger] defs[t] == sstmt_v(self.hir.defs@[t]),
                    forall|t: int|
                        0 <= t < k ==> !fn_named(#[trigger] defs[t], var_name@),
                decreases self.hir.defs.len() - k,
            {
                assert(defs[k as int].value == stmt_v(*self.hir.defs@[k as int].value));
                if let Stmt::DefFn { name, .. } = &*self.hir.defs[k].value {
                    let n: &String = &name.value;
                    if *var_name == *n {
                        assert(fn_named(defs[k as int], var_name@));
                        return true;
                    }
                }
                k = k + 1;
            }
        }
        false
    }
}

} // verus!

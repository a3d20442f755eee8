//! Name resolution: builds the scope tree of a program, defines every
//! variable, function and parameter in its scope, and resolves every name
//! an expression refers to against the scopes around it.
use crate::ast::{
    lemma_sstmts_v, param_v, params_v, sexpr_v, sstmt_v, sstmts_v, stmt_v, Expr, ExprV, Param,
    ParamV, Stmt, StmtV, SV,
};
use crate::diag::{SemanticDiag, SemanticError, SemanticWarning};
use crate::entity::{entity_v, Entity, EntityV};
use crate::hir::{def_entities, def_vars, defvar_v, DefVarV, DefinedVariable, Hir};
use crate::scope::{
    check_refs, count_ref, define, new_scope, refer, tree_wf, ScopeTree, ScopeV, TreeV,
};
use crate::span::Spanned;
use vstd::prelude::*;

verus! {

// ---------------------------------------------------------------------------
// The model of resolution.
/// The state of a resolution: the scope tree, the stack of open scopes
/// (the innermost last), and the diagnostics found so far.
pub struct ResV {
    pub tree: TreeV,
    pub stack: Seq<usize>,
    pub warnings: Seq<SemanticWarning>,
    pub errors: Seq<SemanticError>,
}

/// The scopes on the stack exist, and there is at least one.
pub open spec fn res_inv(r: ResV) -> bool {
    &&& tree_wf(r.tree)
    &&& r.stack.len() > 0
    &&& forall|k: int| 0 <= k < r.stack.len() ==> #[trigger] r.stack[k] < r.tree.scopes.len()
}

/// The innermost open scope.
pub open spec fn current(r: ResV) -> int {
    r.stack.last() as int
}

/// The state with tree `t` and the error `e`, if any, added.
pub open spec fn with_result(r: ResV, t: TreeV, e: Option<SemanticError>) -> ResV {
    ResV {
        tree: t,
        errors: match e {
            Some(x) => r.errors.push(x),
            None => r.errors,
        },
        ..r
    }
}

/// Refers to `name` from the innermost scope.
pub open spec fn r_refer(r: ResV, name: Seq<char>, span: crate::span::Span) -> ResV {
    let (t, e) = refer(r.tree, current(r), name, span);
    with_result(r, t, e)
}

/// Defines `e` in the innermost scope.
pub open spec fn r_define(r: ResV, e: EntityV) -> ResV {
    let (t, err) = define(r.tree, current(r), e);
    with_result(r, t, err)
}

/// Opens a new scope inside the innermost one.
pub open spec fn r_push(r: ResV) -> ResV {
    ResV {
        tree: new_scope(r.tree, Some(r.stack.last())),
        stack: r.stack.push(r.tree.scopes.len() as usize),
        ..r
    }
}

/// Closes the innermost scope.
pub open spec fn r_pop(r: ResV) -> ResV {
    ResV { stack: r.stack.drop_last(), ..r }
}

/// Resolves the names of an expression, left to right. The callee of a
/// call is resolved, its arguments are not.
pub open spec fn v_expr(r: ResV, e: SV<ExprV>) -> ResV
    decreases e,
{
    match e.value {
        ExprV::Variable(n) => r_refer(r, n, e.span),
        ExprV::Binary(_, a, b) => v_expr(v_expr(r, *a), *b),
        ExprV::As(a, _) => v_expr(r, *a),
        ExprV::FnCall(c, _) => v_expr(r, *c),
        _ => r,
    }
}

/// Resolves a statement: a block opens a scope for its statements; a
/// variable definition resolves its initializer, then defines the variable.
pub open spec fn v_stmt(r: ResV, s: SV<StmtV>) -> ResV
    decreases s,
{
    match s.value {
        StmtV::Block(ss) => r_pop(v_stmts(r_push(r), ss)),
        StmtV::DefVar { name, ty, expr, .. } => r_define(
            match expr {
                Some(x) => v_expr(r, x),
                None => r,
            },
            EntityV { name, ty, n_referred: 0 },
        ),
        StmtV::If { cond, then, els } => {
            let r1 = v_stmt(v_expr(r, cond), *then);
            match els {
                Some(x) => v_stmt(r1, *x),
                None => r1,
            }
        },
        StmtV::Return(Some(x)) => v_expr(r, x),
        StmtV::Assign(_, a, b) => v_expr(v_expr(r, a), b),
        StmtV::Expr(x) => v_expr(r, x),
        _ => r,
    }
}

/// Resolves statements in order.
pub open spec fn v_stmts(r: ResV, ss: Seq<SV<StmtV>>) -> ResV
    decreases ss,
{
    if ss.len() == 0 {
        r
    } else {
        v_stmt(v_stmts(r, ss.drop_last()), ss.last())
    }
}

/// Defines entities in order in the innermost scope.
pub open spec fn define_all(r: ResV, es: Seq<EntityV>) -> ResV
    decreases es.len(),
{
    if es.len() == 0 {
        r
    } else {
        r_define(define_all(r, es.drop_last()), es.last())
    }
}

/// The entity a parameter defines.
pub open spec fn param_entity(p: ParamV) -> EntityV {
    EntityV { name: p.name, ty: p.ty, n_referred: 0 }
}

/// Resolves the initializers of variables, in order.
pub open spec fn gvars(r: ResV, vars: Seq<DefVarV>) -> ResV
    decreases vars.len(),
{
    if vars.len() == 0 {
        r
    } else {
        let r1 = gvars(r, vars.drop_last());
        match vars.last().expr {
            Some(x) => v_expr(r1, x),
            None => r1,
        }
    }
}

/// Resolves a function: a scope for its parameters, in which its body is
/// resolved; other definitions are left alone.
pub open spec fn v_fn(r: ResV, s: StmtV) -> ResV {
    match s {
        StmtV::DefFn { args, body, .. } => r_pop(
            v_stmt(define_all(r_push(r), args.map_values(|p: ParamV| param_entity(p))), *body),
        ),
        _ => r,
    }
}

/// Resolves the functions among definitions, in order.
pub open spec fn functions(r: ResV, defs: Seq<SV<StmtV>>) -> ResV
    decreases defs.len(),
{
    if defs.len() == 0 {
        r
    } else {
        v_fn(functions(r, defs.drop_last()), defs.last().value)
    }
}

/// A tree of one empty scope, the top level.
pub open spec fn toplevel_tree() -> TreeV {
    TreeV {
        scopes: seq![ScopeV { parent: None, names: Seq::empty(), children: Seq::empty() }],
        entities: Seq::empty(),
    }
}

/// The state once the definitions of a program are resolved, starting
/// from diagnostics `w` and `e`: a top-level scope is opened, every
/// variable and function is defined in it, the initializers of the
/// variables are resolved, then the functions.
pub open spec fn resolved(w: Seq<SemanticWarning>, e: Seq<SemanticError>, defs: Seq<SV<StmtV>>) -> ResV {
    let r0 = ResV { tree: toplevel_tree(), stack: seq![0usize], warnings: w, errors: e };
    functions(gvars(define_all(r0, def_entities(defs)), def_vars(defs)), defs)
}

/// The warnings of a resolution that starts from `w` and `e`: those found
/// while resolving, then one for each unused entity of the top level and
/// of the blocks in the functions, by [`check_refs`].
pub open spec fn resolve_warnings(
    w: Seq<SemanticWarning>,
    e: Seq<SemanticError>,
    defs: Seq<SV<StmtV>>,
) -> Seq<SemanticWarning> {
    let r = resolved(w, e, defs);
    r.warnings + check_refs(r.tree, 0)
}

// ---------------------------------------------------------------------------
// Diagnostics found before do not change what resolution finds.
/// The state with `w0` and `e0` put before its diagnostics.
pub open spec fn shifted(r: ResV, w0: Seq<SemanticWarning>, e0: Seq<SemanticError>) -> ResV {
    ResV { warnings: w0 + r.warnings, errors: e0 + r.errors, ..r }
}

proof fn lemma_shift_result(r: ResV, t: TreeV, e: Option<SemanticError>, w0: Seq<SemanticWarning>, e0: Seq<SemanticError>)
    ensures
        with_result(shifted(r, w0, e0), t, e) == shifted(with_result(r, t, e), w0, e0),
{
    if let Some(x) = e {
        assert((e0 + r.errors).push(x) =~= e0 + r.errors.push(x));
    }
}

proof fn lemma_shift_expr(r: ResV, e: SV<ExprV>, w0: Seq<SemanticWarning>, e0: Seq<SemanticError>)
    ensures
        v_expr(shifted(r, w0, e0), e) == shifted(v_expr(r, e), w0, e0),
    decreases e,
{
    match e.value {
        ExprV::Variable(n) => {
            let (t, err) = refer(r.tree, current(r), n, e.span);
            lemma_shift_result(r, t, err, w0, e0);
        },
        ExprV::Binary(_, a, b) => {
            lemma_shift_expr(r, *a, w0, e0);
            lemma_shift_expr(v_expr(r, *a), *b, w0, e0);
        },
        ExprV::As(a, _) => lemma_shift_expr(r, *a, w0, e0),
        ExprV::FnCall(c, _) => lemma_shift_expr(r, *c, w0, e0),
        _ => {},
    }
}

proof fn lemma_shift_define(r: ResV, e: EntityV, w0: Seq<SemanticWarning>, e0: Seq<SemanticError>)
    ensures
        r_define(shifted(r, w0, e0), e) == shifted(r_define(r, e), w0, e0),
{
    let (t, err) = define(r.tree, current(r), e);
    lemma_shift_result(r, t, err, w0, e0);
}

proof fn lemma_shift_stmt(r: ResV, s: SV<StmtV>, w0: Seq<SemanticWarning>, e0: Seq<SemanticError>)
    ensures
        v_stmt(shifted(r, w0, e0), s) == shifted(v_stmt(r, s), w0, e0),
    decreases s,
{
    match s.value {
        StmtV::Block(ss) => {
            assert(r_push(shifted(r, w0, e0)) == shifted(r_push(r), w0, e0));
            lemma_shift_stmts(r_push(r), ss, w0, e0);
        },
        StmtV::DefVar { name, ty, expr, .. } => {
            let r1 = match expr {
                Some(x) => v_expr(r, x),
                None => r,
            };
            if let Some(x) = expr {
                lemma_shift_expr(r, x, w0, e0);
            }
            lemma_shift_define(r1, EntityV { name, ty, n_referred: 0 }, w0, e0);
        },
        StmtV::If { cond, then, els } => {
            lemma_shift_expr(r, cond, w0, e0);
            lemma_shift_stmt(v_expr(r, cond), *then, w0, e0);
            if let Some(x) = els {
                lemma_shift_stmt(v_stmt(v_expr(r, cond), *then), *x, w0, e0);
            }
        },
        StmtV::Return(Some(x)) => lemma_shift_expr(r, x, w0, e0),
        StmtV::Assign(_, a, b) => {
            lemma_shift_expr(r, a, w0, e0);
            lemma_shift_expr(v_expr(r, a), b, w0, e0);
        },
        StmtV::Expr(x) => lemma_shift_expr(r, x, w0, e0),
        _ => {},
    }
}

proof fn lemma_shift_stmts(r: ResV, ss: Seq<SV<StmtV>>, w0: Seq<SemanticWarning>, e0: Seq<SemanticError>)
    ensures
        v_stmts(shifted(r, w0, e0), ss) == shifted(v_stmts(r, ss), w0, e0),
    decreases ss,
{
    if ss.len() > 0 {
        lemma_shift_stmts(r, ss.drop_last(), w0, e0);
        lemma_shift_stmt(v_stmts(r, ss.drop_last()), ss.last(), w0, e0);
    }
}

proof fn lemma_shift_define_all(r: ResV, es: Seq<EntityV>, w0: Seq<SemanticWarning>, e0: Seq<SemanticError>)
    ensures
        define_all(shifted(r, w0, e0), es) == shifted(define_all(r, es), w0, e0),
    decreases es.len(),
{
    if es.len() > 0 {
        lemma_shift_define_all(r, es.drop_last(), w0, e0);
        lemma_shift_define(define_all(r, es.drop_last()), es.last(), w0, e0);
    }
}

proof fn lemma_shift_gvars(r: ResV, vars: Seq<DefVarV>, w0: Seq<SemanticWarning>, e0: Seq<SemanticError>)
    ensures
        gvars(shifted(r, w0, e0), vars) == shifted(gvars(r, vars), w0, e0),
    decreases vars.len(),
{
    if vars.len() > 0 {
        lemma_shift_gvars(r, vars.drop_last(), w0, e0);
        if let Some(x) = vars.last().expr {
            lemma_shift_expr(gvars(r, vars.drop_last()), x, w0, e0);
        }
    }
}

proof fn lemma_shift_functions(r: ResV, defs: Seq<SV<StmtV>>, w0: Seq<SemanticWarning>, e0: Seq<SemanticError>)
    ensures
        functions(shifted(r, w0, e0), defs) == shifted(functions(r, defs), w0, e0),
    decreases defs.len(),
{
    if defs.len() > 0 {
        lemma_shift_functions(r, defs.drop_last(), w0, e0);
        let r1 = functions(r, defs.drop_last());
        if let StmtV::DefFn { args, body, .. } = defs.last().value {
            let ps = args.map_values(|p: ParamV| param_entity(p));
            assert(r_push(shifted(r1, w0, e0)) == shifted(r_push(r1), w0, e0));
            lemma_shift_define_all(r_push(r1), ps, w0, e0);
            lemma_shift_stmt(define_all(r_push(r1), ps), *body, w0, e0);
        }
    }
}

/// A resolver that already holds diagnostics reports them, then exactly
/// the diagnostics a new resolver reports for the same program, and builds
/// the same scope tree.
pub proof fn law_resolve_keeps_earlier(
    w0: Seq<SemanticWarning>,
    e0: Seq<SemanticError>,
    defs: Seq<SV<StmtV>>,
)
    ensures
        resolved(w0, e0, defs).errors == e0 + resolved(Seq::empty(), Seq::empty(), defs).errors,
        resolve_warnings(w0, e0, defs) == w0 + resolve_warnings(Seq::empty(), Seq::empty(), defs),
        resolved(w0, e0, defs).tree == resolved(Seq::empty(), Seq::empty(), defs).tree,
{
    let r0 = ResV { tree: toplevel_tree(), stack: seq![0usize], warnings: Seq::empty(), errors: Seq::empty() };
    assert(shifted(r0, w0, e0) == ResV { tree: toplevel_tree(), stack: seq![0usize], warnings: w0, errors: e0 }) by {
        assert(w0 + Seq::<SemanticWarning>::empty() =~= w0);
        assert(e0 + Seq::<SemanticError>::empty() =~= e0);
    }
    let es = def_entities(defs);
    let vs = def_vars(defs);
    lemma_shift_define_all(r0, es, w0, e0);
    lemma_shift_gvars(define_all(r0, es), vs, w0, e0);
    lemma_shift_functions(gvars(define_all(r0, es), vs), defs, w0, e0);
    let r = resolved(Seq::empty(), Seq::empty(), defs);
    assert(w0 + r.warnings + check_refs(r.tree, 0) =~= w0 + (r.warnings + check_refs(r.tree, 0)));
}

// ---------------------------------------------------------------------------
// What resolving a `return` does.
/// A name no scope defines is unresolved from every scope, and the tree is
/// left as it is.
proof fn lemma_refer_undefined(t: TreeV, i: int, name: Seq<char>, span: crate::span::Span)
    requires
        forall|k: int|
            0 <= k < t.scopes.len() ==> crate::scope::map_get((#[trigger] t.scopes[k]).names, name)
                is None,
    ensures
        refer(t, i, name, span) == (t, Some(SemanticError::UnresolvedRef(span))),
    decreases i,
{
    if 0 <= i < t.scopes.len() {
        assert(crate::scope::map_get(t.scopes[i].names, name) is None);
        if let Some(p) = t.scopes[i].parent {
            if 0 <= p < i {
                lemma_refer_undefined(t, p as int, name, span);
            }
        }
    }
}

/// Referring to a name changes no scope.
proof fn lemma_refer_keeps_scopes(t: TreeV, i: int, name: Seq<char>, span: crate::span::Span)
    ensures
        refer(t, i, name, span).0.scopes == t.scopes,
    decreases i,
{
    if 0 <= i < t.scopes.len() {
        if crate::scope::map_get(t.scopes[i].names, name) is None {
            if let Some(p) = t.scopes[i].parent {
                if 0 <= p < i {
                    lemma_refer_keeps_scopes(t, p as int, name, span);
                }
            }
        }
    }
}

/// Resolving `return e;` resolves the names of `e`, as the statement `e;`
/// does, in the same scope.
pub proof fn law_return_resolves_like_expression(r: ResV, e: SV<ExprV>, sp: crate::span::Span)
    ensures
        v_stmt(r, SV { value: StmtV::Return(Some(e)), span: sp }) == v_stmt(
            r,
            SV { value: StmtV::Expr(e), span: sp },
        ),
        v_stmt(r, SV { value: StmtV::Return(Some(e)), span: sp }) == v_expr(r, e),
{
}

/// Resolving `return n;` where `n` is a name: when the innermost scope
/// defines `n`, its entity gets one more reference and no error is added;
/// when no scope defines `n`, one `UnresolvedRef` at the name's span is
/// added. Either way the tree's scopes, the scope stack and the warnings
/// stay as they were.
pub proof fn law_return_resolves_name(r: ResV, n: Seq<char>, nsp: crate::span::Span, sp: crate::span::Span)
    requires
        res_inv(r),
    ensures
        ({
            let r2 = v_stmt(
                r,
                SV {
                    value: StmtV::Return(Some(SV { value: ExprV::Variable(n), span: nsp })),
                    span: sp,
                },
            );
            &&& r2.warnings == r.warnings
            &&& r2.stack == r.stack
            &&& r2.tree.scopes == r.tree.scopes
            &&& (crate::scope::map_get(r.tree.scopes[current(r)].names, n) matches Some(x) ==> {
                &&& r2.errors == r.errors
                &&& r2.tree.entities.len() == r.tree.entities.len()
                &&& r2.tree.entities[x as int].n_referred == (if r.tree.entities[x as int].n_referred
                    < usize::MAX {
                    (r.tree.entities[x as int].n_referred + 1) as usize
                } else {
                    r.tree.entities[x as int].n_referred
                })
            })
            &&& (forall|k: int|
                0 <= k < r.tree.scopes.len() ==> crate::scope::map_get(
                    (#[trigger] r.tree.scopes[k]).names,
                    n,
                ) is None) ==> r2.errors == r.errors.push(SemanticError::UnresolvedRef(nsp))
                && r2.tree == r.tree
        }),
{
    let i = current(r);
    let var = SV { value: ExprV::Variable(n), span: nsp };
    assert(r.stack[r.stack.len() - 1] < r.tree.scopes.len());
    let r2 = v_stmt(r, SV { value: StmtV::Return(Some(var)), span: sp });
    assert(r2 == v_expr(r, var));
    assert(r2 == r_refer(r, n, nsp));
    lemma_refer_keeps_scopes(r.tree, i, n, nsp);
    crate::scope::lemma_key_pos(r.tree.scopes[i].names, n);
    if let Some(x) = crate::scope::map_get(r.tree.scopes[i].names, n) {
        let k = crate::scope::key_pos(r.tree.scopes[i].names, n);
        assert(r.tree.scopes[i].names[k].1 < r.tree.entities.len());
        assert(refer(r.tree, i, n, nsp) == (count_ref(r.tree, x as int), None::<SemanticError>));
    }
    if forall|k: int|
        0 <= k < r.tree.scopes.len() ==> crate::scope::map_get((#[trigger] r.tree.scopes[k]).names, n)
            is None {
        lemma_refer_undefined(r.tree, i, n, nsp);
    }
}

// ---------------------------------------------------------------------------
// Where resolution meets a string literal: this resolver has no rule for
// one yet.
/// Whether resolving `e` reaches a string literal.
pub open spec fn str_in_e(e: SV<ExprV>) -> bool
    decreases e,
{
    match e.value {
        ExprV::Str(_) => true,
        ExprV::Binary(_, a, b) => str_in_e(*a) || str_in_e(*b),
        ExprV::As(a, _) => str_in_e(*a),
        ExprV::FnCall(c, _) => str_in_e(*c),
        _ => false,
    }
}

pub open spec fn str_in_oe(e: Option<SV<ExprV>>) -> bool {
    match e {
        Some(x) => str_in_e(x),
        None => false,
    }
}

/// Whether resolving `s` reaches a string literal.
pub open spec fn str_in_s(s: SV<StmtV>) -> bool
    decreases s,
{
    match s.value {
        StmtV::Block(ss) => str_in_ss(ss),
        StmtV::DefVar { expr, .. } => str_in_oe(expr),
        StmtV::If { cond, then, els } => str_in_e(cond) || str_in_s(*then) || match els {
            Some(x) => str_in_s(*x),
            None => false,
        },
        StmtV::Return(x) => str_in_oe(x),
        StmtV::Assign(_, a, b) => str_in_e(a) || str_in_e(b),
        StmtV::Expr(x) => str_in_e(x),
        _ => false,
    }
}

pub open spec fn str_in_ss(ss: Seq<SV<StmtV>>) -> bool
    decreases ss,
{
    if ss.len() == 0 {
        false
    } else {
        str_in_ss(ss.drop_last()) || str_in_s(ss.last())
    }
}

/// Whether resolving a program's definitions reaches a string literal: in
/// the initializer of a top-level variable or in the body of a function.
pub open spec fn str_in_defs(defs: Seq<SV<StmtV>>) -> bool
    decreases defs.len(),
{
    if defs.len() == 0 {
        false
    } else {
        str_in_defs(defs.drop_last()) || match defs.last().value {
            StmtV::DefVar { expr, .. } => str_in_oe(expr),
            StmtV::DefFn { body, .. } => str_in_s(*body),
            _ => false,
        }
    }
}

// ---------------------------------------------------------------------------
/// Resolves the names of a program.
pub struct LocalResolver {
    scope_stack: Vec<usize>,
    diag: SemanticDiag,
    tree: ScopeTree,
}

impl LocalResolver {
    pub closed spec fn res_v(&self) -> ResV {
        ResV {
            tree: self.tree@,
            stack: self.scope_stack@,
            warnings: self.diag.warnings@,
            errors: self.diag.errors@,
        }
    }

    /// The diagnostics found so far.
    pub closed spec fn diag_v(&self) -> (Seq<SemanticWarning>, Seq<SemanticError>) {
        (self.diag.warnings@, self.diag.errors@)
    }

    /// A resolver that has found nothing yet.
    pub fn new() -> (r: Self)
        ensures
            r.diag_v() == (Seq::<SemanticWarning>::empty(), Seq::<SemanticError>::empty()),
    {
        LocalResolver { scope_stack: Vec::new(), diag: SemanticDiag::new(), tree: ScopeTree::new() }
    }

    /// Resolves the names of `hir`, and gives it the scope tree. The
    /// diagnostics returned are those the resolver had, then those found:
    /// each reference that no scope around it defines, each definition of a
    /// name its scope already has, and each unused variable or function.
    pub fn resolve(&mut self, hir: &mut Hir) -> (r: SemanticDiag)
        requires
            !str_in_defs(sstmts_v(old(hir).defs@)),
        ensures
            ({
                let w0 = old(self).diag_v().0;
                let e0 = old(self).diag_v().1;
                let defs = sstmts_v(old(hir).defs@);
                &&& r.warnings@ == resolve_warnings(w0, e0, defs)
                &&& r.errors@ == resolved(w0, e0, defs).errors
                &&& final(hir).scope matches Some(t) && t@ == resolved(w0, e0, defs).tree
            }),
            final(self).diag_v() == (r.warnings@, r.errors@),
            final(hir).defs == old(hir).defs,
            final(hir).imports == old(hir).imports,
    {
        let ghost defs = sstmts_v(hir.defs@);
        self.tree = ScopeTree::new();
        let top = self.tree.new_scope(None);
        self.scope_stack = Vec::new();
        self.scope_stack.push(top);
        proof {
            assert(self.tree@ == toplevel_tree()) by {
                assert(self.tree@.scopes =~= toplevel_tree().scopes);
                assert(self.tree@.entities =~= toplevel_tree().entities);
            }
            assert(self.scope_stack@ =~= seq![0usize]);
        }
        self.define_entities(hir);
        self.resolve_gvar_initializers(hir);
        self.resolve_functions(hir);
        assert(self.res_v().stack[0] < self.res_v().tree.scopes.len());
        self.tree.check_references(0, &mut self.diag);
        let mut tree = ScopeTree::new();
        std::mem::swap(&mut tree, &mut self.tree);
        hir.set_scope(tree);
        SemanticDiag { warnings: self.diag.warnings.clone(), errors: self.diag.errors.clone() }
    }

    /// Defines every variable and function of `hir` in the top level.
    fn define_entities(&mut self, hir: &Hir)
        requires
            res_inv(old(self).res_v()),
            old(self).res_v().stack.len() == 1,
        ensures
            final(self).res_v() == define_all(old(self).res_v(), def_entities(sstmts_v(hir.defs@))),
            res_inv(final(self).res_v()),
            final(self).res_v().stack == old(self).res_v().stack,
    {
        let entities = hir.definitions();
        let ghost es = def_entities(sstmts_v(hir.defs@));
        let ghost r0 = self.res_v();
        let mut k: usize = 0;
        while k < entities.len()
            invariant
                k <= entities.len(),
                es == entities@.map_values(|e: Entity| entity_v(e)),
                self.res_v() == define_all(r0, es.take(k as int)),
                res_inv(self.res_v()),
                self.res_v().stack == r0.stack,
            decreases entities.len() - k,
        {
            let top = self.current_scope();
            let e = copy_entity(&entities[k]);
            let result = self.tree.define_entity(top, e);
            if let Err(err) = result {
                self.diag.push_err(err);
            }
            proof {
                assert(es.take(k + 1).drop_last() =~= es.take(k as int));
            }
            k = k + 1;
        }
        assert(es.take(entities.len() as int) =~= es);
    }

    /// Resolves the initializers of the top-level variables.
    fn resolve_gvar_initializers(&mut self, hir: &Hir)
        requires
            res_inv(old(self).res_v()),
            !str_in_defs(sstmts_v(hir.defs@)),
        ensures
            final(self).res_v() == gvars(old(self).res_v(), def_vars(sstmts_v(hir.defs@))),
            res_inv(final(self).res_v()),
            final(self).res_v().stack == old(self).res_v().stack,
    {
        let vars = hir.defined_variables();
        let ghost vs = def_vars(sstmts_v(hir.defs@));
        let ghost r0 = self.res_v();
        proof {
            lemma_str_in_vars(sstmts_v(hir.defs@));
        }
        let mut k: usize = 0;
        while k < vars.len()
            invariant
                k <= vars.len(),
                vs == vars@.map_values(|d: DefinedVariable| defvar_v(d)),
                forall|t: int| 0 <= t < vs.len() ==> !str_in_oe(#[trigger] vs[t].expr),
                self.res_v() == gvars(r0, vs.take(k as int)),
                res_inv(self.res_v()),
                self.res_v().stack == r0.stack,
            decreases vars.len() - k,
        {
            proof {
                assert(vs.take(k + 1).drop_last() =~= vs.take(k as int));
                assert(vs[k as int] == defvar_v(vars@[k as int]));
                assert(!str_in_oe(vs[k as int].expr));
            }
            if let Some(expr) = vars[k].initializer() {
                self.visit_expr(expr);
            }
            k = k + 1;
        }
        assert(vs.take(vars.len() as int) =~= vs);
    }

    /// Resolves each function: its parameters are defined in a scope of
    /// their own, and its body is resolved in that scope.
    #[verifier::rlimit(40)]
    #[verifier::spinoff_prover]
    fn resolve_functions(&mut self, hir: &Hir)
        requires
            res_inv(old(self).res_v()),
            !str_in_defs(sstmts_v(hir.defs@)),
        ensures
            final(self).res_v() == functions(old(self).res_v(), sstmts_v(hir.defs@)),
            res_inv(final(self).res_v()),
            final(self).res_v().stack == old(self).res_v().stack,
    {
        let ghost defs = sstmts_v(hir.defs@);
        let ghost r0 = self.res_v();
        proof {
            lemma_sstmts_v(hir.defs@);
            lemma_str_in_defs(defs);
        }
        let mut k: usize = 0;
        while k < hir.defs.len()
            invariant
                k <= hir.defs.len(),
                defs == sstmts_v(hir.defs@),
                defs.len() == hir.defs.len(),
                forall|t: int| 0 <= t < hir.defs.len() ==> #[trigger] defs[t] == sstmt_v(hir.defs@[t]),
                forall|t: int|
                    0 <= t < defs.len() ==> match (#[trigger] defs[t]).value {
                        StmtV::DefFn { body, .. } => !str_in_s(*body),
                        _ => true,
                    },
                self.res_v() == functions(r0, defs.take(k as int)),
                res_inv(self.res_v()),
                self.res_v().stack == r0.stack,
            decreases hir.defs.len() - k,
        {
            proof {
                assert(defs.take(k + 1).drop_last() =~= defs.take(k as int));
            }
            match &*hir.defs[k].value {
                Stmt::DefFn { args, body, .. } => {
                    assert(defs[k as int].value == stmt_v(*hir.defs@[k as int].value));
                    self.resolve_function(args, body);
                },
                _ => {
                    assert(defs[k as int].value == stmt_v(*hir.defs@[k as int].value));
                },
            }
            k = k + 1;
        }
        assert(defs.take(hir.defs.len() as int) =~= defs);
    }

    /// Resolves one function: a scope for its parameters, then its body.
    fn resolve_function(&mut self, args: &Vec<Param>, body: &Spanned<Stmt>)
        requires
            res_inv(old(self).res_v()),
            !str_in_s(sstmt_v(*body)),
        ensures
            final(self).res_v() == r_pop(
                v_stmt(
                    define_all(
                        r_push(old(self).res_v()),
                        params_v(args@).map_values(|p: ParamV| param_entity(p)),
                    ),
                    sstmt_v(*body),
                ),
            ),
            res_inv(final(self).res_v()),
            final(self).res_v().stack == old(self).res_v().stack,
    {
        self.push_scope();
        let ghost pushed = self.res_v();
        let ghost ps = params_v(args@).map_values(|p: ParamV| param_entity(p));
        let mut a: usize = 0;
        while a < args.len()
            invariant
                a <= args.len(),
                ps == params_v(args@).map_values(|p: ParamV| param_entity(p)),
                self.res_v() == define_all(pushed, ps.take(a as int)),
                res_inv(self.res_v()),
                self.res_v().stack == pushed.stack,
            decreases args.len() - a,
        {
            proof {
                assert(ps.take(a + 1).drop_last() =~= ps.take(a as int));
                assert(ps[a as int] == param_entity(param_v(args@[a as int])));
            }
            let cur = self.current_scope();
            let result = self.tree.define_entity(cur, Entity::from_param(&args[a]));
            if let Err(err) = result {
                self.diag.push_err(err);
            }
            a = a + 1;
        }
        assert(ps.take(args.len() as int) =~= ps);
        self.visit_stmt(body);
        self.pop_scope();
    }

    /// Resolves the names of an expression (see [`v_expr`]).
    fn visit_expr(&mut self, expr: &Spanned<Expr>)
        requires
            res_inv(old(self).res_v()),
            !str_in_e(sexpr_v(*expr)),
        ensures
            final(self).res_v() == v_expr(old(self).res_v(), sexpr_v(*expr)),
            res_inv(final(self).res_v()),
            final(self).res_v().stack == old(self).res_v().stack,
        decreases expr,
    {
        match &*expr.value {
            Expr::Variable(var) => {
                let cur = self.current_scope();
                let result = self.tree.refer(cur, var.as_str(), expr.span);
                if let Err(err) = result {
                    self.diag.push_err(err);
                }
            },
            Expr::Or(lhs, rhs)
            | Expr::And(lhs, rhs)
            | Expr::Lt(lhs, rhs)
            | Expr::Gt(lhs, rhs)
            | Expr::Lte(lhs, rhs)
            | Expr::Gte(lhs, rhs)
            | Expr::Eq(lhs, rhs)
            | Expr::Neq(lhs, rhs)
            | Expr::BitOr(lhs, rhs)
            | Expr::BitXor(lhs, rhs)
            | Expr::BitAnd(lhs, rhs)
            | Expr::Shl(lhs, rhs)
            | Expr::Shr(lhs, rhs)
            | Expr::Add(lhs, rhs)
            | Expr::Sub(lhs, rhs)
            | Expr::Mul(lhs, rhs)
            | Expr::Div(lhs, rhs)
            | Expr::Rem(lhs, rhs) => {
                self.visit_expr(lhs);
                self.visit_expr(rhs);
            },
            Expr::As(lhs, _ty) => {
                self.visit_expr(lhs);
            },
            Expr::FnCall { name, .. } => {
                self.visit_expr(name);
            },
            _ => {},
        }
    }

    /// Resolves the names of a statement (see [`v_stmt`]).
    fn visit_stmt(&mut self, stmt: &Spanned<Stmt>)
        requires
            res_inv(old(self).res_v()),
            !str_in_s(sstmt_v(*stmt)),
        ensures
            final(self).res_v() == v_stmt(old(self).res_v(), sstmt_v(*stmt)),
            res_inv(final(self).res_v()),
            final(self).res_v().stack == old(self).res_v().stack,
        decreases stmt,
    {
        match &*stmt.value {
            Stmt::Block(stmts) => {
                let ghost ss = sstmts_v(stmts@);
                proof {
                    lemma_sstmts_v(stmts@);
                    lemma_str_in_ss(ss);
                }
                self.push_scope();
                let ghost pushed = self.res_v();
                let mut k: usize = 0;
                while k < stmts.len()
                    invariant
                        k <= stmts.len(),
                        *stmt.value == Stmt::Block(*stmts),
                        ss == sstmts_v(stmts@),
                        ss.len() == stmts.len(),
                        forall|t: int| 0 <= t < stmts.len() ==> #[trigger] ss[t] == sstmt_v(stmts@[t]),
                        forall|t: int| 0 <= t < ss.len() ==> !str_in_s(#[trigger] ss[t]),
                        self.res_v() == v_stmts(pushed, ss.take(k as int)),
                        res_inv(self.res_v()),
                        self.res_v().stack == pushed.stack,
                    decreases stmts.len() - k,
                {
                    proof {
                        assert(decreases_to!(stmt => stmts@[k as int])) by {
                            assert(decreases_to!(stmt => *stmt.value));
                            assert(decreases_to!(*stmt.value => (*stmt.value)->Block_0));
                            assert(decreases_to!(*stmts => stmts@));
                        }
                        assert(ss.take(k + 1).drop_last() =~= ss.take(k as int));
                        assert(!str_in_s(ss[k as int]));
                    }
                    self.visit_stmt(&stmts[k]);
                    k = k + 1;
                }
                assert(ss.take(stmts.len() as int) =~= ss);
                self.pop_scope();
            },
            Stmt::DefVar { name, ty, expr, .. } => {
                if let Some(expr) = expr {
                    self.visit_expr(expr);
                }
                let cur = self.current_scope();
                let e = Entity::new(crate::entity::clone_sname(name), crate::entity::clone_stype(ty));
                let result = self.tree.define_entity(cur, e);
                if let Err(err) = result {
                    self.diag.push_err(err);
                }
            },
            Stmt::If { cond, then, els } => {
                self.visit_expr(cond);
                self.visit_stmt(then);
                if let Some(els) = els {
                    self.visit_stmt(els);
                }
            },
            Stmt::Return(Some(expr)) => self.visit_expr(expr),
            Stmt::Assign(lhs, rhs)
            | Stmt::AddAssign(lhs, rhs)
            | Stmt::SubAssign(lhs, rhs)
            | Stmt::MulAssign(lhs, rhs)
            | Stmt::DivAssign(lhs, rhs)
            | Stmt::RemAssign(lhs, rhs)
            | Stmt::BitAndAssign(lhs, rhs)
            | Stmt::BitOrAssign(lhs, rhs)
            | Stmt::BitXorAssign(lhs, rhs)
            | Stmt::ShlAssign(lhs, rhs)
            | Stmt::ShrAssign(lhs, rhs) => {
                self.visit_expr(lhs);
                self.visit_expr(rhs);
            },
            Stmt::Expr(expr) => self.visit_expr(expr),
            _ => {},
        }
    }

    /// Opens a scope inside the innermost one.
    fn push_scope(&mut self)
        requires
            res_inv(old(self).res_v()),
        ensures
            final(self).res_v() == r_push(old(self).res_v()),
            res_inv(final(self).res_v()),
    {
        let cur = self.current_scope();
        let idx = self.tree.new_scope(Some(cur));
        self.scope_stack.push(idx);
    }

    /// Closes the innermost scope; its position.
    fn pop_scope(&mut self) -> (r: Option<usize>)
        requires
            res_inv(old(self).res_v()),
            old(self).res_v().stack.len() > 1,
        ensures
            final(self).res_v() == r_pop(old(self).res_v()),
            res_inv(final(self).res_v()),
            r == Some(old(self).res_v().stack.last()),
    {
        self.scope_stack.pop()
    }

    /// The innermost scope.
    fn current_scope(&self) -> (r: usize)
        requires
            res_inv(self.res_v()),
        ensures
            r == current(self.res_v()),
            r < self.res_v().tree.scopes.len(),
    {
        self.scope_stack[self.scope_stack.len() - 1]
    }
}

/// A copy of an entity.
fn copy_entity(e: &Entity) -> (r: Entity)
    ensures
        r == *e,
{
    Entity {
        name: crate::entity::clone_sname(&e.name),
        ty: crate::entity::clone_stype(&e.ty),
        n_referred: e.n_referred,
    }
}

// ---------------------------------------------------------------------------
/// Whether resolving `expr` reaches a string literal (see [`str_in_e`]).
fn string_in_expr(expr: &Spanned<Expr>) -> (r: bool)
    ensures
        r == str_in_e(sexpr_v(*expr)),
    decreases expr,
{
    match &*expr.value {
        Expr::String(_) => true,
        Expr::Or(lhs, rhs)
        | Expr::And(lhs, rhs)
        | Expr::Lt(lhs, rhs)
        | Expr::Gt(lhs, rhs)
        | Expr::Lte(lhs, rhs)
        | Expr::Gte(lhs, rhs)
        | Expr::Eq(lhs, rhs)
        | Expr::Neq(lhs, rhs)
        | Expr::BitOr(lhs, rhs)
        | Expr::BitXor(lhs, rhs)
        | Expr::BitAnd(lhs, rhs)
        | Expr::Shl(lhs, rhs)
        | Expr::Shr(lhs, rhs)
        | Expr::Add(lhs, rhs)
        | Expr::Sub(lhs, rhs)
        | Expr::Mul(lhs, rhs)
        | Expr::Div(lhs, rhs)
        | Expr::Rem(lhs, rhs) => string_in_expr(lhs) || string_in_expr(rhs),
        Expr::As(lhs, _) => string_in_expr(lhs),
        Expr::FnCall { name, .. } => string_in_expr(name),
        _ => false,
    }
}

fn string_in_opt(expr: &Option<Spanned<Expr>>) -> (r: bool)
    ensures
        r == str_in_oe(crate::ast::opt_sexpr_v(*expr)),
{
    match expr {
        Some(x) => string_in_expr(x),
        None => false,
    }
}

/// Whether resolving `stmt` reaches a string literal (see [`str_in_s`]).
fn string_in_stmt(stmt: &Spanned<Stmt>) -> (r: bool)
    ensures
        r == str_in_s(sstmt_v(*stmt)),
    decreases stmt,
{
    match &*stmt.value {
        Stmt::Block(stmts) => {
            let ghost ss = sstmts_v(stmts@);
            proof {
                lemma_sstmts_v(stmts@);
            }
            let mut k: usize = 0;
            while k < stmts.len()
                invariant
                    k <= stmts.len(),
                    *stmt.value == Stmt::Block(*stmts),
                    ss == sstmts_v(stmts@),
                    ss.len() == stmts.len(),
                    forall|t: int| 0 <= t < stmts.len() ==> #[trigger] ss[t] == sstmt_v(stmts@[t]),
                    !str_in_ss(ss.take(k as int)),
                decreases stmts.len() - k,
            {
                proof {
                    assert(decreases_to!(stmt => stmts@[k as int])) by {
                        assert(decreases_to!(stmt => *stmt.value));
                        assert(decreases_to!(*stmt.value => (*stmt.value)->Block_0));
                        assert(decreases_to!(*stmts => stmts@));
                    }
                    assert(ss.take(k + 1).drop_last() =~= ss.take(k as int));
                }
                if string_in_stmt(&stmts[k]) {
                    proof {
                        lemma_str_in_ss(ss);
                        assert(str_in_s(ss[k as int]));
                        assert(str_in_ss(ss));
                    }
                    return true;
                }
                k = k + 1;
            }
            assert(ss.take(stmts.len() as int) =~= ss);
            false
        },
        Stmt::DefVar { expr, .. } => string_in_opt(expr),
        Stmt::If { cond, then, els } => {
            string_in_expr(cond) || string_in_stmt(then) || match els {
                Some(x) => string_in_stmt(x),
                None => false,
            }
        },
        Stmt::Return(x) => string_in_opt(x),
        Stmt::Assign(lhs, rhs)
        | Stmt::AddAssign(lhs, rhs)
        | Stmt::SubAssign(lhs, rhs)
        | Stmt::MulAssign(lhs, rhs)
        | Stmt::DivAssign(lhs, rhs)
        | Stmt::RemAssign(lhs, rhs)
        | Stmt::BitAndAssign(lhs, rhs)
        | Stmt::BitOrAssign(lhs, rhs)
        | Stmt::BitXorAssign(lhs, rhs)
        | Stmt::ShlAssign(lhs, rhs)
        | Stmt::ShrAssign(lhs, rhs) => string_in_expr(lhs) || string_in_expr(rhs),
        Stmt::Expr(x) => string_in_expr(x),
        _ => false,
    }
}

/// Whether resolving the definitions reaches a string literal, on which
/// [`LocalResolver::resolve`] has no rule (see [`str_in_defs`]).
pub fn reaches_string(defs: &Vec<Spanned<Stmt>>) -> (r: bool)
    ensures
        r == str_in_defs(sstmts_v(defs@)),
{
    let ghost ds = sstmts_v(defs@);
    proof {
        lemma_sstmts_v(defs@);
    }
    let mut k: usize = 0;
    while k < defs.len()
        invariant
            k <= defs.len(),
            ds == sstmts_v(defs@),
            ds.len() == defs.len(),
            forall|t: int| 0 <= t < defs.len() ==> #[trigger] ds[t] == sstmt_v(defs@[t]),
            !str_in_defs(ds.take(k as int)),
        decreases defs.len() - k,
    {
        proof {
            assert(ds.take(k + 1).drop_last() =~= ds.take(k as int));
            assert(ds[k as int].value == stmt_v(*defs@[k as int].value));
        }
        let found = match &*defs[k].value {
            Stmt::DefVar { expr, .. } => string_in_opt(expr),
            Stmt::DefFn { body, .. } => string_in_stmt(body),
            _ => false,
        };
        if found {
            proof {
                lemma_str_in_defs_prefix(ds, k + 1);
            }
            return true;
        }
        k = k + 1;
    }
    assert(ds.take(defs.len() as int) =~= ds);
    false
}

proof fn lemma_str_in_defs_prefix(defs: Seq<SV<StmtV>>, k: int)
    requires
        0 <= k <= defs.len(),
        str_in_defs(defs.take(k)),
    ensures
        str_in_defs(defs),
    decreases defs.len() - k,
{
    if k < defs.len() {
        assert(defs.take(k + 1).drop_last() =~= defs.take(k));
        lemma_str_in_defs_prefix(defs, k + 1);
    } else {
        assert(defs.take(k) =~= defs);
    }
}

proof fn lemma_str_in_ss(ss: Seq<SV<StmtV>>)
    ensures
        !str_in_ss(ss) ==> forall|t: int| 0 <= t < ss.len() ==> !str_in_s(#[trigger] ss[t]),
    decreases ss.len(),
{
    if ss.len() > 0 {
        lemma_str_in_ss(ss.drop_last());
        assert forall|t: int| 0 <= t < ss.len() && !str_in_ss(ss) implies !str_in_s(#[trigger] ss[t]) by {
            if t < ss.len() - 1 {
                assert(ss.drop_last()[t] == ss[t]);
            }
        }
    }
}

proof fn lemma_str_in_defs(defs: Seq<SV<StmtV>>)
    ensures
        !str_in_defs(defs) ==> forall|t: int|
            0 <= t < defs.len() ==> match (#[trigger] defs[t]).value {
                StmtV::DefFn { body, .. } => !str_in_s(*body),
                _ => true,
            },
    decreases defs.len(),
{
    if defs.len() > 0 {
        lemma_str_in_defs(defs.drop_last());
        assert forall|t: int| 0 <= t < defs.len() && !str_in_defs(defs) implies match (
        #[trigger] defs[t]).value {
            StmtV::DefFn { body, .. } => !str_in_s(*body),
            _ => true,
        } by {
            if t < defs.len() - 1 {
                assert(defs.drop_last()[t] == defs[t]);
            }
        }
    }
}

proof fn lemma_str_in_vars(defs: Seq<SV<StmtV>>)
    ensures
        !str_in_defs(defs) ==> forall|t: int|
            0 <= t < def_vars(defs).len() ==> !str_in_oe(#[trigger] def_vars(defs)[t].expr),
    decreases defs.len(),
{
    if defs.len() > 0 {
        lemma_str_in_vars(defs.drop_last());
    }
}

} // verus!

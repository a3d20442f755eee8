//! The program as the semantic checks see it: the syntax tree's imports and
//! definitions, and the scope tree that name resolution builds for it.
use crate::ast::{
    expr_v, lemma_sstmts_v, sexpr_v, sname_v, sstmts_v, stype_v, Ast, Expr, ExprV, Stmt, StmtV,
    Type, TypeV, SV,
};
use crate::entity::{entity_of, entity_v, Entity, EntityV};
use crate::scope::ScopeTree;
use crate::span::{Span, Spanned};
use vstd::prelude::*;

verus! {

/// Whether an expression is a literal: an integer or a string.
pub open spec fn is_literal(e: ExprV) -> bool {
    match e {
        ExprV::I8(_) | ExprV::I16(_) | ExprV::I32(_) | ExprV::I64(_) | ExprV::U8(_) | ExprV::U16(_)
        | ExprV::U32(_) | ExprV::U64(_) | ExprV::Str(_) => true,
        _ => false,
    }
}

impl Expr {
    /// Whether the expression is a constant: an integer or string literal.
    pub fn is_constant(&self) -> (r: bool)
        ensures
            r == is_literal(expr_v(*self)),
    {
        match self {
            Expr::I8(_) | Expr::I16(_) | Expr::I32(_) | Expr::I64(_) | Expr::U8(_) | Expr::U16(_)
            | Expr::U32(_) | Expr::U64(_) | Expr::String(_) => true,
            _ => false,
        }
    }
}

/// The model of a variable definition: its name, type and initializer.
pub struct DefVarV {
    pub name: SV<Seq<char>>,
    pub ty: SV<TypeV>,
    pub expr: Option<SV<ExprV>>,
}

/// The model of a type definition: its name and the type it names.
pub struct TypeDefV {
    pub name: SV<Seq<char>>,
    pub ty: SV<TypeV>,
}

/// The entities of a list of definitions, in order: one for each variable
/// or function definition.
pub open spec fn def_entities(defs: Seq<SV<StmtV>>) -> Seq<EntityV>
    decreases defs.len(),
{
    if defs.len() == 0 {
        Seq::empty()
    } else {
        let rest = def_entities(defs.drop_last());
        match entity_of(defs.last().value) {
            Some(e) => rest.push(e),
            None => rest,
        }
    }
}

/// The variable definitions among a list of definitions, in order.
pub open spec fn def_vars(defs: Seq<SV<StmtV>>) -> Seq<DefVarV>
    decreases defs.len(),
{
    if defs.len() == 0 {
        Seq::empty()
    } else {
        let rest = def_vars(defs.drop_last());
        match defs.last().value {
            StmtV::DefVar { name, ty, expr, .. } => rest.push(DefVarV { name, ty, expr }),
            _ => rest,
        }
    }
}

/// The type definitions among a list of definitions, in order.
pub open spec fn def_types(defs: Seq<SV<StmtV>>) -> Seq<TypeDefV>
    decreases defs.len(),
{
    if defs.len() == 0 {
        Seq::empty()
    } else {
        let rest = def_types(defs.drop_last());
        match defs.last().value {
            StmtV::TypeDef { name, ty } => rest.push(TypeDefV { name, ty }),
            _ => rest,
        }
    }
}

/// A variable definition of the program, borrowed from its syntax tree.
pub struct DefinedVariable<'a> {
    pub name: &'a Spanned<String>,
    pub ty: &'a Spanned<Type>,
    pub expr: Option<&'a Spanned<Expr>>,
}

pub open spec fn defvar_v(d: DefinedVariable) -> DefVarV {
    DefVarV {
        name: sname_v(*d.name),
        ty: stype_v(*d.ty),
        expr: match d.expr {
            Some(x) => Some(sexpr_v(*x)),
            None => None,
        },
    }
}

/// Whether a variable's initializer is constant: a variable without one
/// is; one with a non-literal initializer is not, at that initializer.
pub open spec fn constant_check(d: DefVarV) -> Result<(), Span> {
    match d.expr {
        Some(x) => if is_literal(x.value) {
            Ok(())
        } else {
            Err(x.span)
        },
        None => Ok(()),
    }
}

impl<'a> DefinedVariable<'a> {
    /// The initializer of the variable, if it has one.
    pub fn initializer(&self) -> (r: Option<&'a Spanned<Expr>>)
        ensures
            r == self.expr,
    {
        self.expr
    }

    /// `Ok` when the variable has no initializer or a literal one; else the
    /// span of the initializer.
    pub fn is_constant(&self) -> (r: Result<(), Span>)
        ensures
            r == constant_check(defvar_v(*self)),
    {
        match self.expr {
            Some(x) => if x.value.is_constant() {
                Ok(())
            } else {
                Err(x.span)
            },
            None => Ok(()),
        }
    }
}

/// A type definition of the program, borrowed from its syntax tree.
pub struct TypeDef<'a> {
    pub name: &'a Spanned<String>,
    pub ty: &'a Spanned<Type>,
}

pub open spec fn typedef_v(d: TypeDef) -> TypeDefV {
    TypeDefV { name: sname_v(*d.name), ty: stype_v(*d.ty) }
}

/// The program: imports, definitions, and, once names are resolved, the
/// scope tree with the top level at position 0.
#[derive(Debug)]
pub struct Hir {
    pub imports: Vec<Spanned<Stmt>>,
    pub defs: Vec<Spanned<Stmt>>,
    pub scope: Option<ScopeTree>,
}

impl Hir {
    /// The program of a syntax tree, with no scope yet.
    pub fn from(ast: Ast) -> (r: Hir)
        ensures
            r.imports == ast.imports,
            r.defs == ast.defs,
            r.scope is None,
    {
        Hir { imports: ast.imports, defs: ast.defs, scope: None }
    }

    /// A program of definitions alone.
    pub fn from_defs(defs: Vec<Spanned<Stmt>>) -> (r: Hir)
        ensures
            r.imports@.len() == 0,
            r.defs == defs,
            r.scope is None,
    {
        Hir { imports: Vec::new(), defs, scope: None }
    }

    pub fn set_scope(&mut self, scope: ScopeTree)
        ensures
            final(self).scope == Some(scope),
            final(self).imports == old(self).imports,
            final(self).defs == old(self).defs,
    {
        self.scope = Some(scope);
    }

    /// The entities the definitions define, in order.
    pub fn definitions(&self) -> (r: Vec<Entity>)
        ensures
            r@.map_values(|e: Entity| entity_v(e)) == def_entities(sstmts_v(self.defs@)),
    {
        let ghost defs = sstmts_v(self.defs@);
        proof {
            lemma_sstmts_v(self.defs@);
        }
        let mut entities: Vec<Entity> = Vec::new();
        let mut k: usize = 0;
        while k < self.defs.len()
            invariant
                k <= self.defs.len(),
                defs == sstmts_v(self.defs@),
                defs.len() == self.defs.len(),
                forall|t: int| 0 <= t < self.defs.len() ==> #[trigger] defs[t] == crate::ast::sstmt_v(self.defs@[t]),
                entities@.map_values(|e: Entity| entity_v(e)) == def_entities(defs.take(k as int)),
            decreases self.defs.len() - k,
        {
            let ghost before = entities@;
            proof {
                assert(defs.take(k + 1).drop_last() =~= defs.take(k as int));
            }
            match Entity::try_from(&self.defs[k].value) {
                Ok(e) => {
                    entities.push(e);
                    assert(entities@.map_values(|e: Entity| entity_v(e)) =~= before.map_values(
                        |e: Entity| entity_v(e),
                    ).push(entity_v(e)));
                },
                Err(_) => {},
            }
            k = k + 1;
        }
        assert(defs.take(self.defs.len() as int) =~= defs);
        entities
    }

    /// The variable definitions among the definitions, in order.
    pub fn defined_variables(&self) -> (r: Vec<DefinedVariable<'_>>)
        ensures
            r@.map_values(|d: DefinedVariable| defvar_v(d)) == def_vars(sstmts_v(self.defs@)),
    {
        let ghost defs = sstmts_v(self.defs@);
        proof {
            lemma_sstmts_v(self.defs@);
        }
        let mut vars: Vec<DefinedVariable> = Vec::new();
        let mut k: usize = 0;
        while k < self.defs.len()
            invariant
                k <= self.defs.len(),
                defs == sstmts_v(self.defs@),
                defs.len() == self.defs.len(),
                forall|t: int| 0 <= t < self.defs.len() ==> #[trigger] defs[t] == crate::ast::sstmt_v(self.defs@[t]),
                vars@.map_values(|d: DefinedVariable| defvar_v(d)) == def_vars(defs.take(k as int)),
            decreases self.defs.len() - k,
        {
            let ghost before = vars@;
            proof {
                assert(defs.take(k + 1).drop_last() =~= defs.take(k as int));
            }
            match &*self.defs[k].value {
                Stmt::DefVar { name, ty, expr, .. } => {
                    let d = DefinedVariable {
                        name,
                        ty,
                        expr: match expr {
                            Some(x) => Some(x),
                            None => None,
                        },
                    };
                    vars.push(d);
                    assert(vars@.map_values(|d: DefinedVariable| defvar_v(d)) =~= before.map_values(
                        |d: DefinedVariable| defvar_v(d),
                    ).push(defvar_v(d)));
                },
                _ => {},
            }
            k = k + 1;
        }
        assert(defs.take(self.defs.len() as int) =~= defs);
        vars
    }

    /// The type definitions among the definitions, in order.
    pub fn types(&self) -> (r: Vec<TypeDef<'_>>)
        ensures
            r@.map_values(|d: TypeDef| typedef_v(d)) == def_types(sstmts_v(self.defs@)),
    {
        let ghost defs = sstmts_v(self.defs@);
        proof {
            lemma_sstmts_v(self.defs@);
        }
        let mut tys: Vec<TypeDef> = Vec::new();
        let mut k: usize = 0;
        while k < self.defs.len()
            invariant
                k <= self.defs.len(),
                defs == sstmts_v(self.defs@),
                defs.len() == self.defs.len(),
                forall|t: int| 0 <= t < self.defs.len() ==> #[trigger] defs[t] == crate::ast::sstmt_v(self.defs@[t]),
                tys@.map_values(|d: TypeDef| typedef_v(d)) == def_types(defs.take(k as int)),
            decreases self.defs.len() - k,
        {
            let ghost before = tys@;
            proof {
                assert(defs.take(k + 1).drop_last() =~= defs.take(k as int));
            }
            match &*self.defs[k].value {
                Stmt::TypeDef { name, ty } => {
                    let d = TypeDef { name, ty };
                    tys.push(d);
                    assert(tys@.map_values(|d: TypeDef| typedef_v(d)) =~= before.map_values(
                        |d: TypeDef| typedef_v(d),
                    ).push(typedef_v(d)));
                },
                _ => {},
            }
            k = k + 1;
        }
        assert(defs.take(self.defs.len() as int) =~= defs);
        tys
    }
}

} // verus!

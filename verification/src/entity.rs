//! Entities: the variables and functions a program defines, with how often
//! they are referred to.
use crate::ast::{param_v, sname_v, stmt_v, stype_v, Param, Stmt, StmtV, Type, TypeV, SV};
use crate::span::Spanned;
use vstd::prelude::*;

verus! {

#[derive(Debug)]
pub struct Entity {
    pub name: Spanned<String>,
    pub ty: Spanned<Type>,
    pub n_referred: usize,
}

/// The model of an entity.
pub struct EntityV {
    pub name: SV<Seq<char>>,
    pub ty: SV<TypeV>,
    pub n_referred: usize,
}

pub open spec fn entity_v(e: Entity) -> EntityV {
    EntityV { name: sname_v(e.name), ty: stype_v(e.ty), n_referred: e.n_referred }
}

/// A copy of a type.
pub fn clone_type(t: &Type) -> (r: Type)
    ensures
        r == *t,
{
    match t {
        Type::Void => Type::Void,
        Type::I8 => Type::I8,
        Type::I16 => Type::I16,
        Type::I32 => Type::I32,
        Type::I64 => Type::I64,
        Type::U8 => Type::U8,
        Type::U16 => Type::U16,
        Type::U32 => Type::U32,
        Type::U64 => Type::U64,
        Type::User(n) => Type::User(n.clone()),
    }
}

/// A copy of a type with its span.
pub fn clone_stype(t: &Spanned<Type>) -> (r: Spanned<Type>)
    ensures
        r == *t,
{
    Spanned::new(clone_type(&t.value), t.span)
}

/// A copy of a name with its span.
pub fn clone_sname(n: &Spanned<String>) -> (r: Spanned<String>)
    ensures
        r == *n,
{
    let v: &String = &n.value;
    Spanned::new(v.clone(), n.span)
}

/// The entity a definition defines: a variable with its type, or a function
/// with its return type; other statements define none.
pub open spec fn entity_of(s: StmtV) -> Option<EntityV> {
    match s {
        StmtV::DefVar { name, ty, .. } => Some(EntityV { name, ty, n_referred: 0 }),
        StmtV::DefFn { name, ret_ty, .. } => Some(EntityV { name, ty: ret_ty, n_referred: 0 }),
        _ => None,
    }
}

impl Entity {
    /// An entity that nothing refers to yet.
    pub fn new(name: Spanned<String>, ty: Spanned<Type>) -> (r: Entity)
        ensures
            r.name == name,
            r.ty == ty,
            r.n_referred == 0,
    {
        Entity { name, ty, n_referred: 0 }
    }

    /// Counts one more reference to the entity (no more once the count is
    /// `usize::MAX`).
    pub fn referred(&mut self)
        ensures
            final(self).name == old(self).name,
            final(self).ty == old(self).ty,
            final(self).n_referred == if old(self).n_referred < usize::MAX {
                (old(self).n_referred + 1) as usize
            } else {
                old(self).n_referred
            },
    {
        if self.n_referred < usize::MAX {
            self.n_referred = self.n_referred + 1;
        }
    }

    /// Whether anything refers to the entity.
    pub fn is_referred(&self) -> (r: bool)
        ensures
            r == (self.n_referred > 0),
    {
        self.n_referred > 0
    }

    /// The entity a parameter defines.
    pub fn from_param(p: &Param) -> (r: Entity)
        ensures
            entity_v(r) == (EntityV {
                name: param_v(*p).name,
                ty: param_v(*p).ty,
                n_referred: 0,
            }),
    {
        Entity::new(clone_sname(&p.name), clone_stype(&p.ty))
    }

    /// The entity a variable or function definition defines; an error for
    /// any other statement.
    pub fn try_from(item: &Stmt) -> (r: Result<Entity, &'static str>)
        ensures
            match r {
                Ok(e) => entity_of(stmt_v(*item)) == Some(entity_v(e)),
                Err(_) => entity_of(stmt_v(*item)) is None,
            },
    {
        match item {
            Stmt::DefVar { name, ty, .. } => Ok(Entity::new(clone_sname(name), clone_stype(ty))),
            Stmt::DefFn { name, ret_ty, .. } => Ok(
                Entity::new(clone_sname(name), clone_stype(ret_ty)),
            ),
            _ => Err("Converting into entity is only permitted to DefVar & DefFn"),
        }
    }
}

} // verus!

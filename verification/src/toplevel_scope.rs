//! The top-level scope on its own: the variables and functions a program
//! defines at its top level.
use crate::diag::SemanticError;
use crate::entity::{entity_v, Entity};
use crate::local_resolver::toplevel_tree;
use crate::scope::{define, ScopeTree, TreeV};
use vstd::prelude::*;

verus! {

/// A scope with no parent and no other scope around it.
pub struct ToplevelScope {
    tree: ScopeTree,
}

impl View for ToplevelScope {
    type V = TreeV;

    /// The scope as a tree of one scope.
    closed spec fn view(&self) -> TreeV {
        self.tree@
    }
}

impl ToplevelScope {
    /// The scope holds one scope; the tree is well formed.
    pub closed spec fn wf(&self) -> bool {
        &&& self.tree.wf()
        &&& self.tree@.scopes.len() == 1
    }

    /// An empty top-level scope.
    pub fn new() -> (r: Self)
        ensures
            r@ == toplevel_tree(),
            r.wf(),
    {
        let mut tree = ScopeTree::new();
        tree.new_scope(None);
        let r = ToplevelScope { tree };
        assert(r@.scopes =~= toplevel_tree().scopes);
        assert(r@.entities =~= toplevel_tree().entities);
        r
    }

    /// The top-level scope is the top level.
    pub fn is_toplevel() -> (r: bool)
        ensures
            r,
    {
        true
    }

    /// The top-level scope has no parent.
    pub fn parent(&self) -> (r: Option<usize>)
        ensures
            r is None,
    {
        None
    }

    /// Defines `entity` (see [`define`]): a name already defined is a
    /// duplicated definition.
    pub fn define_entity(&mut self, entity: Entity) -> (r: Result<(), SemanticError>)
        requires
            old(self).wf(),
        ensures
            (final(self)@, match r {
                Ok(_) => None,
                Err(e) => Some(e),
            }) == define(old(self)@, 0, entity_v(entity)),
            final(self).wf(),
    {
        self.tree.define_entity(0, entity)
    }
}

} // verus!

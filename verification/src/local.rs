//! A check of the top level alone: that no name is defined twice there.
use crate::ast::{lemma_sstmts_v, sstmt_v, sstmts_v, stmt_v, Ast, StmtV, SV};
use crate::diag::SemanticError;
use crate::entity::{entity_of, entity_v, Entity, EntityV};
use crate::hir::def_entities;
use crate::local_resolver::toplevel_tree;
use crate::scope::{define, TreeV};
use crate::toplevel_scope::ToplevelScope;
use vstd::prelude::*;

verus! {

/// Defines `es` in order in the top-level scope of `t`, stopping at the
/// first duplicated definition.
pub open spec fn define_until_dup(t: TreeV, es: Seq<EntityV>) -> (TreeV, Result<(), SemanticError>)
    decreases es.len(),
{
    if es.len() == 0 {
        (t, Ok(()))
    } else {
        let (t1, r1) = define_until_dup(t, es.drop_last());
        match r1 {
            Err(e) => (t1, Err(e)),
            Ok(_) => {
                let (t2, err) = define(t1, 0, es.last());
                match err {
                    Some(e) => (t2, Err(e)),
                    None => (t2, Ok(())),
                }
            },
        }
    }
}

/// Defines every variable and function of the program in a fresh top-level
/// scope; the first name defined twice is an error.
pub fn resolve(ast: Ast) -> (r: Result<(), SemanticError>)
    ensures
        r == define_until_dup(toplevel_tree(), def_entities(sstmts_v(ast.defs@))).1,
{
    let mut toplevel = ToplevelScope::new();
    let ghost defs = sstmts_v(ast.defs@);
    proof {
        lemma_sstmts_v(ast.defs@);
    }
    let mut k: usize = 0;
    while k < ast.defs.len()
        invariant
            k <= ast.defs.len(),
            defs == sstmts_v(ast.defs@),
            defs.len() == ast.defs.len(),
            forall|t: int| 0 <= t < ast.defs.len() ==> #[trigger] defs[t] == sstmt_v(ast.defs@[t]),
            toplevel.wf(),
            define_until_dup(toplevel_tree(), def_entities(defs.take(k as int))) == (
                toplevel@,
                Ok::<(), SemanticError>(()),
            ),
        decreases ast.defs.len() - k,
    {
        proof {
            lemma_def_entities_step(defs, k as int);
            assert(defs[k as int].value == stmt_v(*ast.defs@[k as int].value));
        }
        match Entity::try_from(&ast.defs[k].value) {
            Ok(entity) => {
                proof {
                    lemma_until_dup_push(toplevel_tree(), def_entities(defs.take(k as int)), entity_v(entity));
                }
                let result = toplevel.define_entity(entity);
                if let Err(e) = result {
                    proof {
                        lemma_until_dup_stays(defs, k as int + 1);
                    }
                    return Err(e);
                }
            },
            Err(_) => {},
        }
        k = k + 1;
    }
    assert(defs.take(ast.defs.len() as int) =~= defs);
    Ok(())
}

/// The entities of one more definition.
proof fn lemma_def_entities_step(defs: Seq<SV<StmtV>>, k: int)
    requires
        0 <= k < defs.len(),
    ensures
        def_entities(defs.take(k + 1)) == match entity_of(defs[k].value) {
            Some(e) => def_entities(defs.take(k)).push(e),
            None => def_entities(defs.take(k)),
        },
{
    assert(defs.take(k + 1).drop_last() =~= defs.take(k));
    assert(defs.take(k + 1).last() == defs[k]);
}

/// Defining one more entity.
proof fn lemma_until_dup_push(t: TreeV, es: Seq<EntityV>, e: EntityV)
    ensures
        define_until_dup(t, es.push(e)) == match define_until_dup(t, es) {
            (t1, Err(x)) => (t1, Err(x)),
            (t1, Ok(_)) => match define(t1, 0, e) {
                (t2, Some(x)) => (t2, Err(x)),
                (t2, None) => (t2, Ok(())),
            },
        },
{
    assert(es.push(e).drop_last() =~= es);
}

/// Once a duplicated definition is found, the later definitions do not
/// change the result.
proof fn lemma_until_dup_stays(defs: Seq<SV<StmtV>>, k: int)
    requires
        0 <= k <= defs.len(),
        define_until_dup(toplevel_tree(), def_entities(defs.take(k))).1 is Err,
    ensures
        define_until_dup(toplevel_tree(), def_entities(defs)).1 == define_until_dup(
            toplevel_tree(),
            def_entities(defs.take(k)),
        ).1,
    decreases defs.len() - k,
{
    if k < defs.len() {
        lemma_def_entities_step(defs, k);
        match entity_of(defs[k].value) {
            Some(e) => lemma_until_dup_push(toplevel_tree(), def_entities(defs.take(k)), e),
            None => {},
        }
        lemma_until_dup_stays(defs, k + 1);
    } else {
        assert(defs.take(k) =~= defs);
    }
}

} // verus!

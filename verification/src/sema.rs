//! The semantic checks of a program, in order: name resolution, then the
//! checks of the top-level variables. A check that finds an error stops
//! the analysis there.
use crate::ast::{sstmts_v, Ast};
use crate::dereference_checker::{deref_errors, DereferenceChecker};
use crate::diag::{SemanticError, SemanticWarning};
use crate::hir::{def_vars, Hir};
use crate::local_resolver::{resolve_warnings, resolved, str_in_defs, LocalResolver};
use vstd::prelude::*;

verus! {

/// Analyzes a program. The warnings are those of name resolution (the
/// later check finds none); the result is the program with its scope tree,
/// or the errors of the first check that found any.
pub fn analyze(ast: Ast) -> (r: (Vec<SemanticWarning>, Result<Hir, Vec<SemanticError>>))
    requires
        !str_in_defs(sstmts_v(ast.defs@)),
    ensures
        ({
            let defs = sstmts_v(ast.defs@);
            let e = Seq::<SemanticError>::empty();
            let res = resolved(Seq::empty(), e, defs);
            let deref = deref_errors(defs, def_vars(defs));
            &&& r.0@ == resolve_warnings(Seq::empty(), e, defs)
            &&& res.errors.len() > 0 ==> (r.1 matches Err(errs) && errs@ == res.errors)
            &&& (res.errors.len() == 0 && deref.len() > 0) ==> (r.1 matches Err(errs) && errs@
                == deref)
            &&& (res.errors.len() == 0 && deref.len() == 0) ==> (r.1 matches Ok(hir) && (hir.defs
                == ast.defs && hir.imports == ast.imports && (hir.scope matches Some(t) && t@
                == res.tree)))
        }),
{
    let mut hir = Hir::from(ast);
    let diag = LocalResolver::new().resolve(&mut hir);
    let mut warnings = diag.warnings;
    if diag.errors.len() != 0 {
        return (warnings, Err(diag.errors));
    }
    let checked = DereferenceChecker::new(&hir).check();
    let mut more = checked.warnings;
    warnings.append(&mut more);
    if checked.errors.len() != 0 {
        return (warnings, Err(checked.errors));
    }
    proof {
        assert(warnings@ =~= resolve_warnings(Seq::empty(), Seq::empty(), sstmts_v(hir.defs@)));
    }
    (warnings, Ok(hir))
}

} // verus!

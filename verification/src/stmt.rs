//! Statements and top-level definitions.
use crate::ast::{
    lemma_sstmts_v_push, sexpr_v, sstmt_v, sstmts_v, stmt_v, AssignOp, Expr, Stmt, StmtV, SV,
};
use crate::expr::{cast, cast_at, expr, expr_at};
use crate::lex::{
    at, at2, at3, char_at, chars_at2, chars_at3, ident, ident_at, keyword, keyword_at,
    lemma_skip_comments, lemma_ws_end, skip_comments, skip_comments_at, skip_ws, sp, ws_end,
};
use crate::literal::{typeref, typeref_at};
use crate::span::{Span, SrcId, Spanned};
use vstd::prelude::*;

verus! {

pub open spec fn kw_return() -> Seq<char> { seq!['r', 'e', 't', 'u', 'r', 'n'] }
pub open spec fn kw_if() -> Seq<char> { seq!['i', 'f'] }
pub open spec fn kw_else() -> Seq<char> { seq!['e', 'l', 's', 'e'] }
pub open spec fn kw_let() -> Seq<char> { seq!['l', 'e', 't'] }
pub open spec fn kw_mut() -> Seq<char> { seq!['m', 'u', 't'] }
pub open spec fn kw_fn() -> Seq<char> { seq!['f', 'n'] }
pub open spec fn kw_type() -> Seq<char> { seq!['t', 'y', 'p', 'e'] }
pub open spec fn kw_import() -> Seq<char> { seq!['i', 'm', 'p', 'o', 'r', 't'] }

/// An empty statement: `;` with whitespace around it.
pub open spec fn empty_stmt(src: SrcId, s: Seq<char>, p: int) -> Option<(SV<StmtV>, int)> {
    let a = ws_end(s, p);
    if at(s, a, ';') {
        let b = ws_end(s, a + 1);
        Some((SV { value: StmtV::Empty, span: sp(src, p, b) }, b))
    } else {
        None
    }
}

/// `return`, an optional expression, and `;`.
pub open spec fn return_stmt(src: SrcId, s: Seq<char>, p: int) -> Option<(SV<StmtV>, int)> {
    let a = ws_end(s, p);
    match keyword(s, a, kw_return()) {
        Some(b) => {
            let c = ws_end(s, b);
            let (e, d) = match expr(src, s, c) {
                Some((e, d)) => (Some(e), d),
                None => (None, c),
            };
            if at(s, d, ';') {
                Some((SV { value: StmtV::Return(e), span: sp(src, p, d + 1) }, d + 1))
            } else {
                None
            }
        },
        None => None,
    }
}

/// The assignment operator at `j`, tried in this order: `=`, `+=`, `-=`,
/// `*=`, `/=`, `%=`, `&=`, `|=`, `^=`, `<<=`, `>>=`.
pub open spec fn assign_op_at(s: Seq<char>, j: int) -> Option<(AssignOp, int)> {
    if at(s, j, '=') {
        Some((AssignOp::Assign, j + 1))
    } else if at2(s, j, '+', '=') {
        Some((AssignOp::Add, j + 2))
    } else if at2(s, j, '-', '=') {
        Some((AssignOp::Sub, j + 2))
    } else if at2(s, j, '*', '=') {
        Some((AssignOp::Mul, j + 2))
    } else if at2(s, j, '/', '=') {
        Some((AssignOp::Div, j + 2))
    } else if at2(s, j, '%', '=') {
        Some((AssignOp::Rem, j + 2))
    } else if at2(s, j, '&', '=') {
        Some((AssignOp::BitAnd, j + 2))
    } else if at2(s, j, '|', '=') {
        Some((AssignOp::BitOr, j + 2))
    } else if at2(s, j, '^', '=') {
        Some((AssignOp::BitXor, j + 2))
    } else if at3(s, j, '<', '<', '=') {
        Some((AssignOp::Shl, j + 3))
    } else if at3(s, j, '>', '>', '=') {
        Some((AssignOp::Shr, j + 3))
    } else {
        None
    }
}

/// `lhs op rhs`, where `lhs` is a cast and `rhs` an expression.
pub open spec fn assignment(src: SrcId, s: Seq<char>, p: int) -> Option<(StmtV, int)> {
    match cast(src, s, p) {
        Some((lhs, j)) => match assign_op_at(s, j) {
            Some((op, k)) => match expr(src, s, k) {
                Some((rhs, m)) => Some((StmtV::Assign(op, lhs, rhs), m)),
                None => None,
            },
            None => None,
        },
        None => None,
    }
}

/// An assignment, or else an expression, followed by `;`.
pub open spec fn assign_stmt(src: SrcId, s: Seq<char>, p: int) -> Option<(SV<StmtV>, int)> {
    let body = if assignment(src, s, p) is Some {
        assignment(src, s, p)
    } else {
        match expr(src, s, p) {
            Some((e, m)) => Some((StmtV::Expr(e), m)),
            None => None,
        }
    };
    match body {
        Some((st, m)) => if at(s, m, ';') {
            Some((SV { value: st, span: sp(src, p, m + 1) }, m + 1))
        } else {
            None
        },
        None => None,
    }
}

/// A block: `{`, statements, `}`.
pub open spec fn block(src: SrcId, s: Seq<char>, i: int) -> Option<(SV<StmtV>, int)>
    decreases s.len() - i, 0int,
{
    if 0 <= i <= s.len() && at(s, i, '{') {
        let j = ws_end(s, i + 1);
        proof {
            lemma_ws_end(s, i + 1);
        }
        let (items, k) = block_items(src, s, j, Seq::empty());
        let m = ws_end(s, k);
        if at(s, m, '}') {
            Some((SV { value: StmtV::Block(items), span: sp(src, i, m + 1) }, m + 1))
        } else {
            None
        }
    } else {
        None
    }
}

/// The statements of a block that follow `acc`, from `p` on.
pub open spec fn block_items(src: SrcId, s: Seq<char>, p: int, acc: Seq<SV<StmtV>>) -> (
    Seq<SV<StmtV>>,
    int,
)
    decreases s.len() - p, 4int,
{
    if !(0 <= p <= s.len()) {
        (acc, p)
    } else {
        match item(src, s, p) {
            Some((st, q)) => if p < q <= s.len() {
                block_items(src, s, q, acc.push(st))
            } else {
                (acc, p)
            },
            None => (acc, p),
        }
    }
}

/// One statement of a block: a variable definition or a statement, with
/// comments around it.
pub open spec fn item(src: SrcId, s: Seq<char>, p: int) -> Option<(SV<StmtV>, int)>
    decreases s.len() - p, 3int,
{
    if !(0 <= p <= s.len()) {
        None
    } else {
        let a = skip_comments(s, p);
        proof {
            lemma_skip_comments(s, p);
        }
        let r = if defvar(src, s, a) is Some {
            defvar(src, s, a)
        } else {
            stmt(src, s, a)
        };
        match r {
            Some((st, b)) => if a < b <= s.len() {
                Some((st, skip_comments(s, b)))
            } else {
                None
            },
            None => None,
        }
    }
}

/// A statement: the first of an empty statement, a `return`, an assignment
/// or expression statement, a block and an `if` that can be read.
pub open spec fn stmt(src: SrcId, s: Seq<char>, p: int) -> Option<(SV<StmtV>, int)>
    decreases s.len() - p, 2int,
{
    if !(0 <= p <= s.len()) {
        None
    } else if empty_stmt(src, s, p) is Some {
        empty_stmt(src, s, p)
    } else if return_stmt(src, s, p) is Some {
        return_stmt(src, s, p)
    } else if assign_stmt(src, s, p) is Some {
        assign_stmt(src, s, p)
    } else if block(src, s, p) is Some {
        block(src, s, p)
    } else {
        if_stmt(src, s, p)
    }
}

/// `if`, a condition, a block, and optionally `else` with a block or
/// another `if`.
pub open spec fn if_stmt(src: SrcId, s: Seq<char>, p: int) -> Option<(SV<StmtV>, int)>
    decreases s.len() - p, 1int,
{
    if !(0 <= p <= s.len()) {
        None
    } else {
        let a = ws_end(s, p);
        match keyword(s, a, kw_if()) {
            Some(b) => {
                let c = ws_end(s, b);
                match expr(src, s, c) {
                    Some((cond, d)) => if p < d <= s.len() {
                        match block(src, s, d) {
                            Some((then, e)) => if d < e <= s.len() {
                                let f = ws_end(s, e);
                                let els = match keyword(s, f, kw_else()) {
                                    Some(g) => {
                                        let h = ws_end(s, g);
                                        if e < h <= s.len() {
                                            if block(src, s, h) is Some {
                                                block(src, s, h)
                                            } else {
                                                if_stmt(src, s, h)
                                            }
                                        } else {
                                            None
                                        }
                                    },
                                    None => None,
                                };
                                match els {
                                    Some((x, k)) => Some(
                                        (
                                            SV {
                                                value: StmtV::If {
                                                    cond,
                                                    then: Box::new(then),
                                                    els: Some(Box::new(x)),
                                                },
                                                span: sp(src, p, k),
                                            },
                                            k,
                                        ),
                                    ),
                                    None => Some(
                                        (
                                            SV {
                                                value: StmtV::If {
                                                    cond,
                                                    then: Box::new(then),
                                                    els: None,
                                                },
                                                span: sp(src, p, e),
                                            },
                                            e,
                                        ),
                                    ),
                                }
                            } else {
                                None
                            },
                            None => None,
                        }
                    } else {
                        None
                    },
                    None => None,
                }
            },
            None => None,
        }
    }
}

/// A variable definition: `let`, optionally `mut`, a name, `:`, a type,
/// `=`, an expression and `;`, with whitespace around it.
pub open spec fn defvar(src: SrcId, s: Seq<char>, p: int) -> Option<(SV<StmtV>, int)> {
    let a = ws_end(s, p);
    match keyword(s, a, kw_let()) {
        Some(b) => {
            let c = ws_end(s, b);
            let (is_mut, d) = if at3(s, c, 'm', 'u', 't') {
                (true, c + 3)
            } else {
                (false, c)
            };
            match ident(s, d) {
                Some((name, e)) => if at(s, e, ':') {
                    let f = ws_end(s, e + 1);
                    match typeref(src, s, f) {
                        Some((ty, g)) => {
                            let h = ws_end(s, g);
                            if at(s, h, '=') {
                                let k = ws_end(s, h + 1);
                                match expr(src, s, k) {
                                    Some((ex, m)) => if at(s, m, ';') {
                                        Some(
                                            (
                                                SV {
                                                    value: StmtV::DefVar {
                                                        is_mut,
                                                        name: SV { value: name, span: sp(src, d, e) },
                                                        ty,
                                                        expr: Some(ex),
                                                    },
                                                    span: sp(src, a, m + 1),
                                                },
                                                ws_end(s, m + 1),
                                            ),
                                        )
                                    } else {
                                        None
                                    },
                                    None => None,
                                }
                            } else {
                                None
                            }
                        },
                        None => None,
                    }
                } else {
                    None
                },
                None => None,
            }
        },
        None => None,
    }
}

// ---------------------------------------------------------------------------
/// The model of an exec parse result.
pub open spec fn res_s(r: Option<(Spanned<Stmt>, usize)>) -> Option<(SV<StmtV>, int)> {
    match r {
        Some((st, j)) => Some((sstmt_v(st), j as int)),
        None => None,
    }
}

/// An empty statement at `p` (see [`empty_stmt`]).
fn empty_at(src: SrcId, s: &Vec<char>, p: usize) -> (r: Option<(Spanned<Stmt>, usize)>)
    requires
        p <= s.len(),
    ensures
        res_s(r) == empty_stmt(src, s@, p as int),
        r matches Some((_, j)) ==> p < j <= s.len(),
{
    let a = skip_ws(s, p);
    if char_at(s, a, ';') {
        let b = skip_ws(s, a + 1);
        Some((Spanned::new(Stmt::Empty, Span::new(src, p, b)), b))
    } else {
        None
    }
}

/// A `return` statement at `p` (see [`return_stmt`]).
pub fn return_stmt_at(src: SrcId, s: &Vec<char>, p: usize) -> (r: Option<(Spanned<Stmt>, usize)>)
    requires
        p <= s.len(),
    ensures
        res_s(r) == return_stmt(src, s@, p as int),
        r matches Some((_, j)) ==> p < j <= s.len(),
{
    let a = skip_ws(s, p);
    let b = match keyword_at(s, a, &['r', 'e', 't', 'u', 'r', 'n']) {
        Some(b) => b,
        None => {
            return None;
        },
    };
    let c = skip_ws(s, b);
    let (e, d) = match expr_at(src, s, c) {
        Some((e, d)) => (Some(e), d),
        None => (None, c),
    };
    if char_at(s, d, ';') {
        Some((Spanned::new(Stmt::Return(e), Span::new(src, p, d + 1)), d + 1))
    } else {
        None
    }
}

fn assign_op_exec(s: &Vec<char>, j: usize) -> (r: Option<(AssignOp, usize)>)
    requires
        j <= s.len(),
    ensures
        match r {
            Some((op, k)) => assign_op_at(s@, j as int) == Some((op, k as int)) && j < k <= s.len(),
            None => assign_op_at(s@, j as int) is None,
        },
{
    if char_at(s, j, '=') {
        Some((AssignOp::Assign, j + 1))
    } else if chars_at2(s, j, '+', '=') {
        Some((AssignOp::Add, j + 2))
    } else if chars_at2(s, j, '-', '=') {
        Some((AssignOp::Sub, j + 2))
    } else if chars_at2(s, j, '*', '=') {
        Some((AssignOp::Mul, j + 2))
    } else if chars_at2(s, j, '/', '=') {
        Some((AssignOp::Div, j + 2))
    } else if chars_at2(s, j, '%', '=') {
        Some((AssignOp::Rem, j + 2))
    } else if chars_at2(s, j, '&', '=') {
        Some((AssignOp::BitAnd, j + 2))
    } else if chars_at2(s, j, '|', '=') {
        Some((AssignOp::BitOr, j + 2))
    } else if chars_at2(s, j, '^', '=') {
        Some((AssignOp::BitXor, j + 2))
    } else if chars_at3(s, j, '<', '<', '=') {
        Some((AssignOp::Shl, j + 3))
    } else if chars_at3(s, j, '>', '>', '=') {
        Some((AssignOp::Shr, j + 3))
    } else {
        None
    }
}

/// The statement `lhs op rhs`.
fn mk_assign(op: AssignOp, lhs: Spanned<Expr>, rhs: Spanned<Expr>) -> (r: Stmt)
    ensures
        stmt_v(r) == StmtV::Assign(op, sexpr_v(lhs), sexpr_v(rhs)),
{
    match op {
        AssignOp::Assign => Stmt::Assign(lhs, rhs),
        AssignOp::Add => Stmt::AddAssign(lhs, rhs),
        AssignOp::Sub => Stmt::SubAssign(lhs, rhs),
        AssignOp::Mul => Stmt::MulAssign(lhs, rhs),
        AssignOp::Div => Stmt::DivAssign(lhs, rhs),
        AssignOp::Rem => Stmt::RemAssign(lhs, rhs),
        AssignOp::BitAnd => Stmt::BitAndAssign(lhs, rhs),
        AssignOp::BitOr => Stmt::BitOrAssign(lhs, rhs),
        AssignOp::BitXor => Stmt::BitXorAssign(lhs, rhs),
        AssignOp::Shl => Stmt::ShlAssign(lhs, rhs),
        AssignOp::Shr => Stmt::ShrAssign(lhs, rhs),
    }
}

pub open spec fn res_body(r: Option<(Stmt, usize)>) -> Option<(StmtV, int)> {
    match r {
        Some((st, j)) => Some((stmt_v(st), j as int)),
        None => None,
    }
}

fn assignment_at(src: SrcId, s: &Vec<char>, p: usize) -> (r: Option<(Stmt, usize)>)
    requires
        p <= s.len(),
    ensures
        res_body(r) == assignment(src, s@, p as int),
        r matches Some((_, j)) ==> p < j <= s.len(),
{
    match cast_at(src, s, p) {
        Some((lhs, j)) => match assign_op_exec(s, j) {
            Some((op, k)) => match expr_at(src, s, k) {
                Some((rhs, m)) => Some((mk_assign(op, lhs, rhs), m)),
                None => None,
            },
            None => None,
        },
        None => None,
    }
}

/// An assignment or expression statement at `p` (see [`assign_stmt`]).
pub fn assign_stmt_at(src: SrcId, s: &Vec<char>, p: usize) -> (r: Option<(Spanned<Stmt>, usize)>)
    requires
        p <= s.len(),
    ensures
        res_s(r) == assign_stmt(src, s@, p as int),
        r matches Some((_, j)) ==> p < j <= s.len(),
{
    let body = match assignment_at(src, s, p) {
        Some(x) => Some(x),
        None => match expr_at(src, s, p) {
            Some((e, m)) => Some((Stmt::Expr(e), m)),
            None => None,
        },
    };
    match body {
        Some((st, m)) => if char_at(s, m, ';') {
            Some((Spanned::new(st, Span::new(src, p, m + 1)), m + 1))
        } else {
            None
        },
        None => None,
    }
}

/// A block at `i` (see [`block`]).
pub fn block_at(src: SrcId, s: &Vec<char>, i: usize) -> (r: Option<(Spanned<Stmt>, usize)>)
    requires
        i <= s.len(),
    ensures
        res_s(r) == block(src, s@, i as int),
        r matches Some((_, j)) ==> i < j <= s.len(),
    decreases s.len() - i, 0int,
{
    if !char_at(s, i, '{') {
        return None;
    }
    let j = skip_ws(s, i + 1);
    let (items, k) = block_items_at(src, s, j);
    let m = skip_ws(s, k);
    if char_at(s, m, '}') {
        Some((Spanned::new(Stmt::Block(items), Span::new(src, i, m + 1)), m + 1))
    } else {
        None
    }
}

/// The statements of a block from `p` on (see [`block_items`]).
fn block_items_at(src: SrcId, s: &Vec<char>, p: usize) -> (r: (Vec<Spanned<Stmt>>, usize))
    requires
        p <= s.len(),
    ensures
        (sstmts_v(r.0@), r.1 as int) == block_items(src, s@, p as int, Seq::empty()),
        p <= r.1 <= s.len(),
    decreases s.len() - p, 4int,
{
    let mut items: Vec<Spanned<Stmt>> = Vec::new();
    let mut pos = p;
    proof {
        assert(sstmts_v(items@) =~= Seq::<SV<StmtV>>::empty());
    }
    loop
        invariant
            p <= pos <= s.len(),
            block_items(src, s@, p as int, Seq::empty()) == block_items(
                src,
                s@,
                pos as int,
                sstmts_v(items@),
            ),
        decreases s.len() - pos,
    {
        match item_at(src, s, pos) {
            Some((st, q)) => {
                proof {
                    lemma_sstmts_v_push(items@, st);
                }
                items.push(st);
                pos = q;
            },
            None => {
                return (items, pos);
            },
        }
    }
}

/// One statement of a block at `p` (see [`item`]).
fn item_at(src: SrcId, s: &Vec<char>, p: usize) -> (r: Option<(Spanned<Stmt>, usize)>)
    requires
        p <= s.len(),
    ensures
        res_s(r) == item(src, s@, p as int),
        r matches Some((_, j)) ==> p < j <= s.len(),
    decreases s.len() - p, 3int,
{
    let a = skip_comments_at(s, p);
    let r = match defvar_at(src, s, a) {
        Some(x) => Some(x),
        None => stmt_at(src, s, a),
    };
    match r {
        Some((st, b)) => Some((st, skip_comments_at(s, b))),
        None => None,
    }
}

/// A statement at `p` (see [`stmt`]).
pub fn stmt_at(src: SrcId, s: &Vec<char>, p: usize) -> (r: Option<(Spanned<Stmt>, usize)>)
    requires
        p <= s.len(),
    ensures
        res_s(r) == stmt(src, s@, p as int),
        r matches Some((_, j)) ==> p < j <= s.len(),
    decreases s.len() - p, 2int,
{
    if let Some(x) = empty_at(src, s, p) {
        return Some(x);
    }
    if let Some(x) = return_stmt_at(src, s, p) {
        return Some(x);
    }
    if let Some(x) = assign_stmt_at(src, s, p) {
        return Some(x);
    }
    if let Some(x) = block_at(src, s, p) {
        return Some(x);
    }
    if_stmt_at(src, s, p)
}

/// An `if` statement at `p` (see [`if_stmt`]).
pub fn if_stmt_at(src: SrcId, s: &Vec<char>, p: usize) -> (r: Option<(Spanned<Stmt>, usize)>)
    requires
        p <= s.len(),
    ensures
        res_s(r) == if_stmt(src, s@, p as int),
        r matches Some((_, j)) ==> p < j <= s.len(),
    decreases s.len() - p, 1int,
{
    let a = skip_ws(s, p);
    let b = match keyword_at(s, a, &['i', 'f']) {
        Some(b) => b,
        None => {
            return None;
        },
    };
    let c = skip_ws(s, b);
    let (cond, d) = match expr_at(src, s, c) {
        Some(x) => x,
        None => {
            return None;
        },
    };
    let (then, e) = match block_at(src, s, d) {
        Some(x) => x,
        None => {
            return None;
        },
    };
    let f = skip_ws(s, e);
    let els = match keyword_at(s, f, &['e', 'l', 's', 'e']) {
        Some(g) => {
            let h = skip_ws(s, g);
            match block_at(src, s, h) {
                Some(x) => Some(x),
                None => if_stmt_at(src, s, h),
            }
        },
        None => None,
    };
    match els {
        Some((x, k)) => Some(
            (Spanned::new(Stmt::If { cond, then, els: Some(x) }, Span::new(src, p, k)), k),
        ),
        None => Some((Spanned::new(Stmt::If { cond, then, els: None }, Span::new(src, p, e)), e)),
    }
}

/// A variable definition at `p` (see [`defvar`]).
pub fn defvar_at(src: SrcId, s: &Vec<char>, p: usize) -> (r: Option<(Spanned<Stmt>, usize)>)
    requires
        p <= s.len(),
    ensures
        res_s(r) == defvar(src, s@, p as int),
        r matches Some((_, j)) ==> p < j <= s.len(),
{
    let a = skip_ws(s, p);
    let b = match keyword_at(s, a, &['l', 'e', 't']) {
        Some(b) => b,
        None => {
            return None;
        },
    };
    let c = skip_ws(s, b);
    let (is_mut, d) = if chars_at3(s, c, 'm', 'u', 't') {
        (true, c + 3)
    } else {
        (false, c)
    };
    let (name, e) = match ident_at(s, d) {
        Some(x) => x,
        None => {
            return None;
        },
    };
    if !char_at(s, e, ':') {
        return None;
    }
    let f = skip_ws(s, e + 1);
    let (ty, g) = match typeref_at(src, s, f) {
        Some(x) => x,
        None => {
            return None;
        },
    };
    let h = skip_ws(s, g);
    if !char_at(s, h, '=') {
        return None;
    }
    let k = skip_ws(s, h + 1);
    let (ex, m) = match expr_at(src, s, k) {
        Some(x) => x,
        None => {
            return None;
        },
    };
    if !char_at(s, m, ';') {
        return None;
    }
    let name = Spanned::new(name, Span::new(src, d, e));
    let st = Stmt::DefVar { is_mut, name, ty, expr: Some(ex) };
    Some((Spanned::new(st, Span::new(src, a, m + 1)), skip_ws(s, m + 1)))
}

} // verus!

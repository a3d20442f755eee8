//! Expressions: operators by precedence, casts and function calls.
use crate::ast::{lemma_sexprs_v, lemma_sexprs_v_push, sexpr_v, sexprs_v, BinOp, Expr, ExprV, SV};
use crate::lex::{at, at2, char_at, chars_at2, lemma_ws_end, skip_ws, ws_end};
use crate::literal::{lemma_primary, lemma_typeref, primary, primary_at, res_e, typeref, typeref_at};
use crate::span::{Span, SrcId, Spanned};
use vstd::prelude::*;

verus! {

/// The operator of precedence level `level` at `j`, if one is there. From
/// the loosest level to the tightest: `||`; `&&`; `!=`, `==`, `>=`, `<=`,
/// `>`, `<`; `|`; `^`; `&`; `<<`, `>>`; `+`, `-`; `*`, `/`, `%`. Within a
/// level they are tried in the order given.
pub open spec fn op_at(level: int, s: Seq<char>, j: int) -> Option<(BinOp, int)> {
    if level == 0 {
        if at2(s, j, '|', '|') { Some((BinOp::Or, j + 2)) } else { None }
    } else if level == 1 {
        if at2(s, j, '&', '&') { Some((BinOp::And, j + 2)) } else { None }
    } else if level == 2 {
        if at2(s, j, '!', '=') {
            Some((BinOp::Neq, j + 2))
        } else if at2(s, j, '=', '=') {
            Some((BinOp::Eq, j + 2))
        } else if at2(s, j, '>', '=') {
            Some((BinOp::Gte, j + 2))
        } else if at2(s, j, '<', '=') {
            Some((BinOp::Lte, j + 2))
        } else if at(s, j, '>') {
            Some((BinOp::Gt, j + 1))
        } else if at(s, j, '<') {
            Some((BinOp::Lt, j + 1))
        } else {
            None
        }
    } else if level == 3 {
        if at(s, j, '|') { Some((BinOp::BitOr, j + 1)) } else { None }
    } else if level == 4 {
        if at(s, j, '^') { Some((BinOp::BitXor, j + 1)) } else { None }
    } else if level == 5 {
        if at(s, j, '&') { Some((BinOp::BitAnd, j + 1)) } else { None }
    } else if level == 6 {
        if at2(s, j, '<', '<') {
            Some((BinOp::Shl, j + 2))
        } else if at2(s, j, '>', '>') {
            Some((BinOp::Shr, j + 2))
        } else {
            None
        }
    } else if level == 7 {
        if at(s, j, '+') {
            Some((BinOp::Add, j + 1))
        } else if at(s, j, '-') {
            Some((BinOp::Sub, j + 1))
        } else {
            None
        }
    } else if level == 8 {
        if at(s, j, '*') {
            Some((BinOp::Mul, j + 1))
        } else if at(s, j, '/') {
            Some((BinOp::Div, j + 1))
        } else if at(s, j, '%') {
            Some((BinOp::Rem, j + 1))
        } else {
            None
        }
    } else {
        None
    }
}

pub proof fn lemma_op_at(level: int, s: Seq<char>, j: int)
    ensures
        op_at(level, s, j) matches Some((_, k)) ==> j < k <= s.len(),
{
}

/// The span of a call: that of the callee, joined with those of the
/// arguments when there are any.
pub open spec fn call_span(callee: Span, args: Seq<SV<ExprV>>) -> Span {
    if args.len() == 0 {
        callee
    } else {
        callee.spec_union(fold_spans(args[0].span, args))
    }
}

/// `acc` joined, from left to right, with the spans of `args`.
pub open spec fn fold_spans(acc: Span, args: Seq<SV<ExprV>>) -> Span
    decreases args.len(),
{
    if args.len() == 0 {
        acc
    } else {
        fold_spans(acc.spec_union(args[0].span), args.drop_first())
    }
}

pub open spec fn binary_node(op: BinOp, lhs: SV<ExprV>, rhs: SV<ExprV>) -> SV<ExprV> {
    SV { value: ExprV::Binary(op, Box::new(lhs), Box::new(rhs)), span: lhs.span.spec_union(rhs.span) }
}

/// An expression of precedence level `level` (0 to 8): operands of the
/// next level, or casts at level 8, joined by the operators of this level,
/// grouped from the left.
pub open spec fn binary(src: SrcId, s: Seq<char>, level: int, i: int) -> Option<(SV<ExprV>, int)>
    decreases s.len() - i, 21 - level,
{
    if !(0 <= level <= 8 && 0 <= i <= s.len()) {
        None
    } else {
        let first = if level == 8 {
            cast(src, s, i)
        } else {
            binary(src, s, level + 1, i)
        };
        match first {
            Some((lhs, j)) => if i < j <= s.len() {
                Some(binary_rest(src, s, level, j, lhs))
            } else {
                None
            },
            None => None,
        }
    }
}

/// The operators of level `level`, each with its right operand, that follow
/// the left operand `lhs`, which ends at `j`.
pub open spec fn binary_rest(src: SrcId, s: Seq<char>, level: int, j: int, lhs: SV<ExprV>) -> (
    SV<ExprV>,
    int,
)
    decreases s.len() - j, 0int,
{
    if !(0 <= level <= 8 && 0 <= j <= s.len()) {
        (lhs, j)
    } else {
        match op_at(level, s, j) {
            Some((op, k)) => {
                proof {
                    lemma_op_at(level, s, j);
                }
                let next = if level == 8 {
                    cast(src, s, k)
                } else {
                    binary(src, s, level + 1, k)
                };
                match next {
                    Some((rhs, m)) => if k <= m <= s.len() {
                        binary_rest(src, s, level, m, binary_node(op, lhs, rhs))
                    } else {
                        (lhs, j)
                    },
                    None => (lhs, j),
                }
            },
            None => (lhs, j),
        }
    }
}

/// A cast: a function call followed by any number of `as` and a type.
pub open spec fn cast(src: SrcId, s: Seq<char>, i: int) -> Option<(SV<ExprV>, int)>
    decreases s.len() - i, 5int,
{
    if !(0 <= i <= s.len()) {
        None
    } else {
        match fn_call(src, s, i) {
            Some((e, j)) => if i < j <= s.len() {
                Some(cast_rest(src, s, j, e))
            } else {
                None
            },
            None => None,
        }
    }
}

/// The `as` and type pairs that follow `lhs`, which ends at `j`.
pub open spec fn cast_rest(src: SrcId, s: Seq<char>, j: int, lhs: SV<ExprV>) -> (SV<ExprV>, int)
    decreases s.len() - j,
{
    if 0 <= j && at2(s, j, 'a', 's') {
        let a = ws_end(s, j + 2);
        proof {
            lemma_ws_end(s, j + 2);
            lemma_typeref(src, s, a);
        }
        match typeref(src, s, a) {
            Some((t, b)) => {
                proof {
                    lemma_ws_end(s, b);
                }
                cast_rest(
                    src,
                    s,
                    ws_end(s, b),
                    SV { value: ExprV::As(Box::new(lhs), t), span: lhs.span.spec_union(t.span) },
                )
            },
            None => (lhs, j),
        }
    } else {
        (lhs, j)
    }
}

/// A function call: a primary expression followed by any number of
/// parenthesized argument lists.
pub open spec fn fn_call(src: SrcId, s: Seq<char>, i: int) -> Option<(SV<ExprV>, int)>
    decreases s.len() - i, 4int,
{
    if !(0 <= i <= s.len()) {
        None
    } else {
        proof {
            lemma_primary(src, s, i);
        }
        match primary(src, s, i) {
            Some((name, j)) => Some(call_rest(src, s, j, name)),
            None => None,
        }
    }
}

/// The argument lists that follow `callee`, which ends at `j`.
pub open spec fn call_rest(src: SrcId, s: Seq<char>, j: int, callee: SV<ExprV>) -> (SV<ExprV>, int)
    decreases s.len() - j, 0int,
{
    if 0 <= j <= s.len() && at(s, j, '(') {
        let (xs, k) = args(src, s, j + 1);
        if j + 1 <= k <= s.len() && at(s, k, ')') {
            call_rest(
                src,
                s,
                k + 1,
                SV {
                    value: ExprV::FnCall(Box::new(callee), xs),
                    span: call_span(callee.span, xs),
                },
            )
        } else {
            (callee, j)
        }
    } else {
        (callee, j)
    }
}

/// Arguments: expressions separated by `,`; none at all if the first
/// cannot be read.
pub open spec fn args(src: SrcId, s: Seq<char>, i: int) -> (Seq<SV<ExprV>>, int)
    decreases s.len() - i, 30int,
{
    if !(0 <= i <= s.len()) {
        (Seq::empty(), i)
    } else {
        match binary(src, s, 0, i) {
            Some((e, j)) => if i < j <= s.len() {
                args_rest(src, s, j, seq![e])
            } else {
                (Seq::empty(), i)
            },
            None => (Seq::empty(), i),
        }
    }
}

/// The `,` and expression pairs that follow the arguments `acc`, which end
/// at `j`.
pub open spec fn args_rest(src: SrcId, s: Seq<char>, j: int, acc: Seq<SV<ExprV>>) -> (
    Seq<SV<ExprV>>,
    int,
)
    decreases s.len() - j, 0int,
{
    if 0 <= j <= s.len() && at(s, j, ',') {
        match binary(src, s, 0, j + 1) {
            Some((e, k)) => if j + 1 <= k <= s.len() {
                args_rest(src, s, k, acc.push(e))
            } else {
                (acc, j)
            },
            None => (acc, j),
        }
    } else {
        (acc, j)
    }
}

/// Nothing that starts with `)` is an expression.
proof fn lemma_no_expr_at_close(src: SrcId, s: Seq<char>, p: int, level: int)
    requires
        at(s, p, ')'),
        0 <= level <= 8,
    ensures
        primary(src, s, p) is None,
        fn_call(src, s, p) is None,
        cast(src, s, p) is None,
        binary(src, s, level, p) is None,
    decreases 8 - level,
{
    assert(!crate::lex::is_ws(s[p]));
    assert(ws_end(s, p) == p);
    assert(crate::lex::skip_comments(s, p) == p);
    assert(crate::literal::integer(src, s, p) is None);
    assert(crate::literal::variable(src, s, p) is None);
    if level < 8 {
        lemma_no_expr_at_close(src, s, p, level + 1);
    }
}

/// A call with no arguments: a primary expression followed at once by `(`
/// and `)`, and by no further `(`, is a call of it with an empty argument
/// list, whose span is the callee's, and which ends after the `)`.
pub proof fn law_empty_call(src: SrcId, s: Seq<char>, i: int, e: SV<ExprV>, j: int)
    requires
        0 <= i <= s.len(),
        primary(src, s, i) == Some((e, j)),
        at(s, j, '('),
        at(s, j + 1, ')'),
        !at(s, j + 2, '('),
    ensures
        fn_call(src, s, i) == Some(
            (SV { value: ExprV::FnCall(Box::new(e), Seq::empty()), span: e.span }, j + 2),
        ),
{
    lemma_primary(src, s, i);
    lemma_no_expr_at_close(src, s, j + 1, 0);
    assert(args(src, s, j + 1) == (Seq::<SV<ExprV>>::empty(), j + 1));
}

/// An expression: precedence level 0.
pub open spec fn expr(src: SrcId, s: Seq<char>, i: int) -> Option<(SV<ExprV>, int)> {
    binary(src, s, 0, i)
}

// ---------------------------------------------------------------------------
fn op_at_exec(level: usize, s: &Vec<char>, j: usize) -> (r: Option<(BinOp, usize)>)
    requires
        j <= s.len(),
    ensures
        match r {
            Some((op, k)) => op_at(level as int, s@, j as int) == Some((op, k as int)) && j < k
                <= s.len(),
            None => op_at(level as int, s@, j as int) is None,
        },
{
    if level == 0 {
        if chars_at2(s, j, '|', '|') { Some((BinOp::Or, j + 2)) } else { None }
    } else if level == 1 {
        if chars_at2(s, j, '&', '&') { Some((BinOp::And, j + 2)) } else { None }
    } else if level == 2 {
        if chars_at2(s, j, '!', '=') {
            Some((BinOp::Neq, j + 2))
        } else if chars_at2(s, j, '=', '=') {
            Some((BinOp::Eq, j + 2))
        } else if chars_at2(s, j, '>', '=') {
            Some((BinOp::Gte, j + 2))
        } else if chars_at2(s, j, '<', '=') {
            Some((BinOp::Lte, j + 2))
        } else if char_at(s, j, '>') {
            Some((BinOp::Gt, j + 1))
        } else if char_at(s, j, '<') {
            Some((BinOp::Lt, j + 1))
        } else {
            None
        }
    } else if level == 3 {
        if char_at(s, j, '|') { Some((BinOp::BitOr, j + 1)) } else { None }
    } else if level == 4 {
        if char_at(s, j, '^') { Some((BinOp::BitXor, j + 1)) } else { None }
    } else if level == 5 {
        if char_at(s, j, '&') { Some((BinOp::BitAnd, j + 1)) } else { None }
    } else if level == 6 {
        if chars_at2(s, j, '<', '<') {
            Some((BinOp::Shl, j + 2))
        } else if chars_at2(s, j, '>', '>') {
            Some((BinOp::Shr, j + 2))
        } else {
            None
        }
    } else if level == 7 {
        if char_at(s, j, '+') {
            Some((BinOp::Add, j + 1))
        } else if char_at(s, j, '-') {
            Some((BinOp::Sub, j + 1))
        } else {
            None
        }
    } else if level == 8 {
        if char_at(s, j, '*') {
            Some((BinOp::Mul, j + 1))
        } else if char_at(s, j, '/') {
            Some((BinOp::Div, j + 1))
        } else if char_at(s, j, '%') {
            Some((BinOp::Rem, j + 1))
        } else {
            None
        }
    } else {
        None
    }
}

/// The node `lhs op rhs`, spanning both operands.
fn mk_binary(op: BinOp, lhs: Spanned<Expr>, rhs: Spanned<Expr>) -> (r: Spanned<Expr>)
    requires
        lhs.span.src == rhs.span.src,
    ensures
        sexpr_v(r) == binary_node(op, sexpr_v(lhs), sexpr_v(rhs)),
        r.span.src == lhs.span.src,
{
    let span = lhs.span.union(rhs.span);
    let e = match op {
        BinOp::Or => Expr::Or(lhs, rhs),
        BinOp::And => Expr::And(lhs, rhs),
        BinOp::Lt => Expr::Lt(lhs, rhs),
        BinOp::Gt => Expr::Gt(lhs, rhs),
        BinOp::Lte => Expr::Lte(lhs, rhs),
        BinOp::Gte => Expr::Gte(lhs, rhs),
        BinOp::Eq => Expr::Eq(lhs, rhs),
        BinOp::Neq => Expr::Neq(lhs, rhs),
        BinOp::BitOr => Expr::BitOr(lhs, rhs),
        BinOp::BitXor => Expr::BitXor(lhs, rhs),
        BinOp::BitAnd => Expr::BitAnd(lhs, rhs),
        BinOp::Shl => Expr::Shl(lhs, rhs),
        BinOp::Shr => Expr::Shr(lhs, rhs),
        BinOp::Add => Expr::Add(lhs, rhs),
        BinOp::Sub => Expr::Sub(lhs, rhs),
        BinOp::Mul => Expr::Mul(lhs, rhs),
        BinOp::Div => Expr::Div(lhs, rhs),
        BinOp::Rem => Expr::Rem(lhs, rhs),
    };
    Spanned::new(e, span)
}

/// An expression of precedence level `level` at `i` (see [`binary`]).
pub fn binary_at(src: SrcId, s: &Vec<char>, level: usize, i: usize) -> (r: Option<
    (Spanned<Expr>, usize),
>)
    requires
        level <= 8,
        i <= s.len(),
    ensures
        res_e(r) == binary(src, s@, level as int, i as int),
        r matches Some((e, j)) ==> i < j <= s.len() && e.span.src == src,
    decreases s.len() - i, 21 - level,
{
    let first = if level == 8 {
        cast_at(src, s, i)
    } else {
        binary_at(src, s, level + 1, i)
    };
    let (lhs, j) = match first {
        Some(x) => x,
        None => {
            return None;
        },
    };
    let ghost lhs0 = sexpr_v(lhs);
    let mut acc = lhs;
    let mut pos = j;
    loop
        invariant
            level <= 8,
            i < j <= pos <= s.len(),
            binary(src, s@, level as int, i as int) == Some(
                binary_rest(src, s@, level as int, j as int, lhs0),
            ),
            acc.span.src == src,
            binary_rest(src, s@, level as int, j as int, lhs0) == binary_rest(
                src,
                s@,
                level as int,
                pos as int,
                sexpr_v(acc),
            ),
        decreases s.len() - pos,
    {
        match op_at_exec(level, s, pos) {
            Some((op, k)) => {
                let next = if level == 8 {
                    cast_at(src, s, k)
                } else {
                    binary_at(src, s, level + 1, k)
                };
                match next {
                    Some((rhs, m)) => {
                        acc = mk_binary(op, acc, rhs);
                        pos = m;
                    },
                    None => {
                        return Some((acc, pos));
                    },
                }
            },
            None => {
                return Some((acc, pos));
            },
        }
    }
}

/// A cast at `i` (see [`cast`]).
pub fn cast_at(src: SrcId, s: &Vec<char>, i: usize) -> (r: Option<(Spanned<Expr>, usize)>)
    requires
        i <= s.len(),
    ensures
        res_e(r) == cast(src, s@, i as int),
        r matches Some((e, j)) ==> i < j <= s.len() && e.span.src == src,
    decreases s.len() - i, 5int,
{
    let (lhs, j) = match fn_call_at(src, s, i) {
        Some(x) => x,
        None => {
            return None;
        },
    };
    let ghost lhs0 = sexpr_v(lhs);
    let mut acc = lhs;
    let mut pos = j;
    loop
        invariant
            i < j <= pos <= s.len(),
            acc.span.src == src,
            cast_rest(src, s@, j as int, lhs0) == cast_rest(src, s@, pos as int, sexpr_v(acc)),
            cast(src, s@, i as int) == Some(cast_rest(src, s@, j as int, lhs0)),
        decreases s.len() - pos,
    {
        if !chars_at2(s, pos, 'a', 's') {
            return Some((acc, pos));
        }
        let a = skip_ws(s, pos + 2);
        match typeref_at(src, s, a) {
            Some((t, b)) => {
                let span = acc.span.union(t.span);
                acc = Spanned::new(Expr::As(acc, t), span);
                pos = skip_ws(s, b);
            },
            None => {
                return Some((acc, pos));
            },
        }
    }
}

/// A function call at `i` (see [`fn_call`]).
pub fn fn_call_at(src: SrcId, s: &Vec<char>, i: usize) -> (r: Option<(Spanned<Expr>, usize)>)
    requires
        i <= s.len(),
    ensures
        res_e(r) == fn_call(src, s@, i as int),
        r matches Some((e, j)) ==> i < j <= s.len() && e.span.src == src,
    decreases s.len() - i, 4int,
{
    let (name, j) = match primary_at(src, s, i) {
        Some(x) => x,
        None => {
            return None;
        },
    };
    let ghost name0 = sexpr_v(name);
    let mut acc = name;
    let mut pos = j;
    loop
        invariant
            i < j <= pos <= s.len(),
            acc.span.src == src,
            call_rest(src, s@, j as int, name0) == call_rest(src, s@, pos as int, sexpr_v(acc)),
            fn_call(src, s@, i as int) == Some(call_rest(src, s@, j as int, name0)),
        decreases s.len() - pos,
    {
        if !char_at(s, pos, '(') {
            return Some((acc, pos));
        }
        let (xs, k) = args_at(src, s, pos + 1);
        if !char_at(s, k, ')') {
            return Some((acc, pos));
        }
        let span = call_span_of(acc.span, &xs);
        acc = Spanned::new(Expr::FnCall { name: acc, args: xs }, span);
        pos = k + 1;
    }
}

/// The span of a call whose callee spans `callee` (see [`call_span`]).
fn call_span_of(callee: Span, xs: &Vec<Spanned<Expr>>) -> (r: Span)
    requires
        forall|k: int| 0 <= k < xs.len() ==> (#[trigger] xs@[k]).span.src == callee.src,
    ensures
        r == call_span(callee, sexprs_v(xs@)),
        r.src == callee.src,
{
    proof {
        lemma_sexprs_v(xs@);
    }
    if xs.len() == 0 {
        return callee;
    }
    let ghost all = sexprs_v(xs@);
    let mut acc = xs[0].span;
    let mut k: usize = 0;
    proof {
        assert(all.skip(0) =~= all);
    }
    while k < xs.len()
        invariant
            0 <= k <= xs.len(),
            all == sexprs_v(xs@),
            all.len() == xs.len(),
            forall|t: int| 0 <= t < xs.len() ==> #[trigger] all[t] == sexpr_v(xs@[t]),
            forall|t: int| 0 <= t < xs.len() ==> (#[trigger] xs@[t]).span.src == callee.src,
            acc.src == callee.src,
            fold_spans(all[0].span, all) == fold_spans(acc, all.skip(k as int)),
        decreases xs.len() - k,
    {
        proof {
            assert(all.skip(k as int).drop_first() =~= all.skip(k + 1));
            assert(all.skip(k as int)[0] == all[k as int]);
        }
        acc = acc.union(xs[k].span);
        k = k + 1;
    }
    proof {
        assert(all.skip(k as int) =~= Seq::<SV<ExprV>>::empty());
    }
    callee.union(acc)
}

/// Arguments at `i` (see [`args`]).
pub fn args_at(src: SrcId, s: &Vec<char>, i: usize) -> (r: (Vec<Spanned<Expr>>, usize))
    requires
        i <= s.len(),
    ensures
        (sexprs_v(r.0@), r.1 as int) == args(src, s@, i as int),
        i <= r.1 <= s.len(),
        forall|k: int| 0 <= k < r.0.len() ==> (#[trigger] r.0@[k]).span.src == src,
    decreases s.len() - i, 30int,
{
    let mut xs: Vec<Spanned<Expr>> = Vec::new();
    let (e, j) = match binary_at(src, s, 0, i) {
        Some(x) => x,
        None => {
            return (xs, i);
        },
    };
    proof {
        lemma_sexprs_v_push(xs@, e);
        assert(sexprs_v(xs@) =~= Seq::<SV<ExprV>>::empty());
    }
    xs.push(e);
    let mut pos = j;
    loop
        invariant
            i < j <= pos <= s.len(),
            forall|k: int| 0 <= k < xs.len() ==> (#[trigger] xs@[k]).span.src == src,
            args(src, s@, i as int) == args_rest(src, s@, pos as int, sexprs_v(xs@)),
        decreases s.len() - pos,
    {
        if !char_at(s, pos, ',') {
            return (xs, pos);
        }
        match binary_at(src, s, 0, pos + 1) {
            Some((e, k)) => {
                proof {
                    lemma_sexprs_v_push(xs@, e);
                }
                xs.push(e);
                pos = k;
            },
            None => {
                return (xs, pos);
            },
        }
    }
}

/// An expression at `i` (see [`expr`]).
pub fn expr_at(src: SrcId, s: &Vec<char>, i: usize) -> (r: Option<(Spanned<Expr>, usize)>)
    requires
        i <= s.len(),
    ensures
        res_e(r) == expr(src, s@, i as int),
        r matches Some((e, j)) ==> i < j <= s.len() && e.span.src == src,
{
    binary_at(src, s, 0, i)
}

} // verus!

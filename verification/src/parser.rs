//! Top-level definitions, imports, and the parser of a whole compilation unit.
use crate::ast::{
    ast_v, lemma_sstmts_v_push, param_v, params_v, sstmts_v, Ast, AstV, Param, ParamV, Stmt, StmtV,
    SV,
};
use crate::diag::{label_v, LabelColor, Label, Report, ReportKind};
use crate::lex::{
    at, at2, char_at, chars_at2, ident, ident_at, keyword, keyword_at, skip_ws, sp, string_of,
    ws_end,
};
use crate::literal::{typeref, typeref_at};
use crate::span::{path_components, Span, SrcId, Spanned};
use crate::stmt::{
    block, block_at, defvar, defvar_at, kw_fn, kw_import, kw_let, kw_mut, kw_type, res_s,
};
use vstd::prelude::*;

verus! {

/// A parameter: optionally `mut`, a name, `:` and a type, with whitespace
/// around it.
pub open spec fn param(src: SrcId, s: Seq<char>, p: int) -> Option<(ParamV, int)> {
    let a = ws_end(s, p);
    let (is_mut, b) = match keyword(s, a, kw_mut()) {
        Some(b) => (true, b),
        None => (false, a),
    };
    let c = ws_end(s, b);
    match ident(s, c) {
        Some((name, d)) => if at(s, d, ':') {
            let e = ws_end(s, d + 1);
            match typeref(src, s, e) {
                Some((ty, f)) => Some(
                    (
                        ParamV { is_mut, name: SV { value: name, span: sp(src, c, d) }, ty },
                        ws_end(s, f),
                    ),
                ),
                None => None,
            }
        } else {
            None
        },
        None => None,
    }
}

/// Parameters separated by `,`; none at all if the first cannot be read.
pub open spec fn params(src: SrcId, s: Seq<char>, i: int) -> (Seq<ParamV>, int) {
    match param(src, s, i) {
        Some((x, j)) => params_rest(src, s, j, seq![x]),
        None => (Seq::empty(), i),
    }
}

/// The `,` and parameter pairs that follow the parameters `acc`, which end
/// at `j`.
pub open spec fn params_rest(src: SrcId, s: Seq<char>, j: int, acc: Seq<ParamV>) -> (
    Seq<ParamV>,
    int,
)
    decreases s.len() - j,
{
    if 0 <= j && at(s, j, ',') {
        match param(src, s, j + 1) {
            Some((x, k)) => if j < k <= s.len() {
                params_rest(src, s, k, acc.push(x))
            } else {
                (acc, j)
            },
            None => (acc, j),
        }
    } else {
        (acc, j)
    }
}

/// A function definition: `fn`, a name, parameters between `(` and `)`,
/// `->`, the return type and a block.
pub open spec fn defn(src: SrcId, s: Seq<char>, p: int) -> Option<(SV<StmtV>, int)> {
    let a = ws_end(s, p);
    match keyword(s, a, kw_fn()) {
        Some(b) => {
            let c = ws_end(s, b);
            match ident(s, c) {
                Some((name, d)) => if at(s, d, '(') {
                    let (ps, e) = params(src, s, d + 1);
                    if at(s, e, ')') {
                        let f = ws_end(s, e + 1);
                        if at2(s, f, '-', '>') {
                            let h = ws_end(s, f + 2);
                            match typeref(src, s, h) {
                                Some((rt, k)) => match block(src, s, ws_end(s, k)) {
                                    Some((body, n)) => Some(
                                        (
                                            SV {
                                                value: StmtV::DefFn {
                                                    name: SV { value: name, span: sp(src, c, d) },
                                                    args: ps,
                                                    ret_ty: rt,
                                                    body: Box::new(body),
                                                },
                                                span: sp(src, p, n),
                                            },
                                            n,
                                        ),
                                    ),
                                    None => None,
                                },
                                None => None,
                            }
                        } else {
                            None
                        }
                    } else {
                        None
                    }
                } else {
                    None
                },
                None => None,
            }
        },
        None => None,
    }
}

/// A type definition: `type`, a name, `=`, a type and `;`.
pub open spec fn typedef(src: SrcId, s: Seq<char>, p: int) -> Option<(SV<StmtV>, int)> {
    let a = ws_end(s, p);
    match keyword(s, a, kw_type()) {
        Some(b) => {
            let c = ws_end(s, b);
            match ident(s, c) {
                Some((name, d)) => {
                    let e = ws_end(s, d);
                    if at(s, e, '=') {
                        match typeref(src, s, ws_end(s, e + 1)) {
                            Some((ty, g)) => {
                                let h = ws_end(s, g);
                                if at(s, h, ';') {
                                    Some(
                                        (
                                            SV {
                                                value: StmtV::TypeDef {
                                                    name: SV { value: name, span: sp(src, c, d) },
                                                    ty,
                                                },
                                                span: sp(src, p, h + 1),
                                            },
                                            h + 1,
                                        ),
                                    )
                                } else {
                                    None
                                }
                            },
                            None => None,
                        }
                    } else {
                        None
                    }
                },
                None => None,
            }
        },
        None => None,
    }
}

/// A top-level definition: the first of a variable, a function and a type
/// definition that can be read.
pub open spec fn top_def(src: SrcId, s: Seq<char>, p: int) -> Option<(SV<StmtV>, int)> {
    if defvar(src, s, p) is Some {
        defvar(src, s, p)
    } else if defn(src, s, p) is Some {
        defn(src, s, p)
    } else {
        typedef(src, s, p)
    }
}

/// The top-level definitions that follow `acc`, from `p` on.
pub open spec fn top_defs(src: SrcId, s: Seq<char>, p: int, acc: Seq<SV<StmtV>>) -> (
    Seq<SV<StmtV>>,
    int,
)
    decreases s.len() - p,
{
    match top_def(src, s, p) {
        Some((d, q)) => if p < q <= s.len() {
            top_defs(src, s, q, acc.push(d))
        } else {
            (acc, p)
        },
        None => (acc, p),
    }
}

/// The identifiers that follow `acc`, from `i` on.
pub open spec fn idents(s: Seq<char>, i: int, acc: Seq<Seq<char>>) -> (Seq<Seq<char>>, int)
    decreases s.len() - i,
{
    match ident(s, i) {
        Some((n, j)) => if i < j <= s.len() {
            idents(s, j, acc.push(n))
        } else {
            (acc, i)
        },
        None => (acc, i),
    }
}

/// The groups of identifiers, separated by `.`, that follow `acc`, from `j`
/// on; all of their identifiers, in order.
pub open spec fn path_rest(s: Seq<char>, j: int, acc: Seq<Seq<char>>) -> (Seq<Seq<char>>, int)
    decreases s.len() - j,
{
    if 0 <= j && at(s, j, '.') {
        let (ns, k) = idents(s, j + 1, acc);
        if j < k <= s.len() {
            path_rest(s, k, ns)
        } else {
            (acc, j)
        }
    } else {
        (acc, j)
    }
}

/// Names joined by `.`.
pub open spec fn join_dots(names: Seq<Seq<char>>) -> Seq<char>
    decreases names.len(),
{
    if names.len() == 0 {
        Seq::empty()
    } else if names.len() == 1 {
        names[0]
    } else {
        join_dots(names.drop_last()) + seq!['.'] + names.last()
    }
}

/// An import: `import`, a path of identifiers separated by `.`, and `;`,
/// with whitespace around it. The path is its identifiers joined by `.`.
pub open spec fn import_stmt(src: SrcId, s: Seq<char>, p: int) -> Option<(SV<StmtV>, int)> {
    let a = ws_end(s, p);
    match keyword(s, a, kw_import()) {
        Some(b) => {
            let (g, j) = idents(s, b, Seq::empty());
            let (names, e) = path_rest(s, j, g);
            if at(s, e, ';') {
                Some(
                    (
                        SV { value: StmtV::Import(join_dots(names)), span: sp(src, a, e + 1) },
                        ws_end(s, e + 1),
                    ),
                )
            } else {
                None
            }
        },
        None => None,
    }
}

/// The imports that follow `acc`, from `p` on.
pub open spec fn imports(src: SrcId, s: Seq<char>, p: int, acc: Seq<SV<StmtV>>) -> (
    Seq<SV<StmtV>>,
    int,
)
    decreases s.len() - p,
{
    match import_stmt(src, s, p) {
        Some((d, q)) => if p < q <= s.len() {
            imports(src, s, q, acc.push(d))
        } else {
            (acc, p)
        },
        None => (acc, p),
    }
}

/// The imports, then the top-level definitions, of a source.
pub open spec fn unit_prefix(src: SrcId, s: Seq<char>) -> (AstV, int) {
    let (imps, b) = imports(src, s, ws_end(s, 0), Seq::empty());
    let (defs, c) = top_defs(src, s, b, Seq::empty());
    (AstV { imports: imps, defs }, ws_end(s, c))
}

/// A compilation unit: imports, then top-level definitions, with
/// whitespace around them, and nothing else.
pub open spec fn compilation_unit(src: SrcId, s: Seq<char>) -> Option<AstV> {
    let (ast, d) = unit_prefix(src, s);
    if d == s.len() {
        Some(ast)
    } else {
        None
    }
}

// ---------------------------------------------------------------------------
pub open spec fn res_p(r: Option<(Param, usize)>) -> Option<(ParamV, int)> {
    match r {
        Some((x, j)) => Some((param_v(x), j as int)),
        None => None,
    }
}

/// A parameter at `p` (see [`param`]).
pub fn param_at(src: SrcId, s: &Vec<char>, p: usize) -> (r: Option<(Param, usize)>)
    requires
        p <= s.len(),
    ensures
        res_p(r) == param(src, s@, p as int),
        r matches Some((_, j)) ==> p < j <= s.len(),
{
    let a = skip_ws(s, p);
    let (is_mut, b) = match keyword_at(s, a, &['m', 'u', 't']) {
        Some(b) => (true, b),
        None => (false, a),
    };
    let c = skip_ws(s, b);
    let (name, d) = match ident_at(s, c) {
        Some(x) => x,
        None => {
            return None;
        },
    };
    if !char_at(s, d, ':') {
        return None;
    }
    let e = skip_ws(s, d + 1);
    match typeref_at(src, s, e) {
        Some((ty, f)) => {
            let name = Spanned::new(name, Span::new(src, c, d));
            Some((Param { is_mut, name, ty }, skip_ws(s, f)))
        },
        None => None,
    }
}

/// Parameters at `i` (see [`params`]).
pub fn params_at(src: SrcId, s: &Vec<char>, i: usize) -> (r: (Vec<Param>, usize))
    requires
        i <= s.len(),
    ensures
        (params_v(r.0@), r.1 as int) == params(src, s@, i as int),
        i <= r.1 <= s.len(),
{
    let mut xs: Vec<Param> = Vec::new();
    let (x, j) = match param_at(src, s, i) {
        Some(x) => x,
        None => {
            proof {
                assert(params_v(xs@) =~= Seq::<ParamV>::empty());
            }
            return (xs, i);
        },
    };
    xs.push(x);
    proof {
        assert(params_v(xs@) =~= seq![param_v(x)]);
    }
    let mut pos = j;
    loop
        invariant
            i < pos <= s.len(),
            params(src, s@, i as int) == params_rest(src, s@, pos as int, params_v(xs@)),
        decreases s.len() - pos,
    {
        if !char_at(s, pos, ',') {
            return (xs, pos);
        }
        match param_at(src, s, pos + 1) {
            Some((x, k)) => {
                let ghost before = xs@;
                xs.push(x);
                proof {
                    assert(params_v(xs@) =~= params_v(before).push(param_v(x)));
                }
                pos = k;
            },
            None => {
                return (xs, pos);
            },
        }
    }
}

/// A function definition at `p` (see [`defn`]).
pub fn defn_at(src: SrcId, s: &Vec<char>, p: usize) -> (r: Option<(Spanned<Stmt>, usize)>)
    requires
        p <= s.len(),
    ensures
        res_s(r) == defn(src, s@, p as int),
        r matches Some((_, j)) ==> p < j <= s.len(),
{
    let a = skip_ws(s, p);
    let b = match keyword_at(s, a, &['f', 'n']) {
        Some(b) => b,
        None => {
            return None;
        },
    };
    let c = skip_ws(s, b);
    let (name, d) = match ident_at(s, c) {
        Some(x) => x,
        None => {
            return None;
        },
    };
    if !char_at(s, d, '(') {
        return None;
    }
    let (ps, e) = params_at(src, s, d + 1);
    if !char_at(s, e, ')') {
        return None;
    }
    let f = skip_ws(s, e + 1);
    if !chars_at2(s, f, '-', '>') {
        return None;
    }
    let h = skip_ws(s, f + 2);
    let (rt, k) = match typeref_at(src, s, h) {
        Some(x) => x,
        None => {
            return None;
        },
    };
    let (body, n) = match block_at(src, s, skip_ws(s, k)) {
        Some(x) => x,
        None => {
            return None;
        },
    };
    let name = Spanned::new(name, Span::new(src, c, d));
    Some((Spanned::new(Stmt::DefFn { name, args: ps, ret_ty: rt, body }, Span::new(src, p, n)), n))
}

/// A type definition at `p` (see [`typedef`]).
pub fn typedef_at(src: SrcId, s: &Vec<char>, p: usize) -> (r: Option<(Spanned<Stmt>, usize)>)
    requires
        p <= s.len(),
    ensures
        res_s(r) == typedef(src, s@, p as int),
        r matches Some((_, j)) ==> p < j <= s.len(),
{
    let a = skip_ws(s, p);
    let b = match keyword_at(s, a, &['t', 'y', 'p', 'e']) {
        Some(b) => b,
        None => {
            return None;
        },
    };
    let c = skip_ws(s, b);
    let (name, d) = match ident_at(s, c) {
        Some(x) => x,
        None => {
            return None;
        },
    };
    let e = skip_ws(s, d);
    if !char_at(s, e, '=') {
        return None;
    }
    let (ty, g) = match typeref_at(src, s, skip_ws(s, e + 1)) {
        Some(x) => x,
        None => {
            return None;
        },
    };
    let h = skip_ws(s, g);
    if !char_at(s, h, ';') {
        return None;
    }
    let name = Spanned::new(name, Span::new(src, c, d));
    Some((Spanned::new(Stmt::TypeDef { name, ty }, Span::new(src, p, h + 1)), h + 1))
}

/// A top-level definition at `p` (see [`top_def`]).
fn top_def_at(src: SrcId, s: &Vec<char>, p: usize) -> (r: Option<(Spanned<Stmt>, usize)>)
    requires
        p <= s.len(),
    ensures
        res_s(r) == top_def(src, s@, p as int),
        r matches Some((_, j)) ==> p < j <= s.len(),
{
    if let Some(x) = defvar_at(src, s, p) {
        return Some(x);
    }
    if let Some(x) = defn_at(src, s, p) {
        return Some(x);
    }
    typedef_at(src, s, p)
}

/// The top-level definitions at `p` (see [`top_defs`]).
pub fn top_defs_at(src: SrcId, s: &Vec<char>, p: usize) -> (r: (Vec<Spanned<Stmt>>, usize))
    requires
        p <= s.len(),
    ensures
        (sstmts_v(r.0@), r.1 as int) == top_defs(src, s@, p as int, Seq::empty()),
        p <= r.1 <= s.len(),
{
    let mut items: Vec<Spanned<Stmt>> = Vec::new();
    let mut pos = p;
    proof {
        assert(sstmts_v(items@) =~= Seq::<SV<StmtV>>::empty());
    }
    loop
        invariant
            p <= pos <= s.len(),
            top_defs(src, s@, p as int, Seq::empty()) == top_defs(
                src,
                s@,
                pos as int,
                sstmts_v(items@),
            ),
        decreases s.len() - pos,
    {
        match top_def_at(src, s, pos) {
            Some((d, q)) => {
                proof {
                    lemma_sstmts_v_push(items@, d);
                }
                items.push(d);
                pos = q;
            },
            None => {
                return (items, pos);
            },
        }
    }
}

/// The identifiers from `i` on, added to `names` (see [`idents`]).
fn idents_at(s: &Vec<char>, i: usize, names: &mut Vec<String>) -> (r: usize)
    requires
        i <= s.len(),
    ensures
        (final(names).deep_view(), r as int) == idents(s@, i as int, old(names).deep_view()),
        i <= r <= s.len(),
{
    let mut pos = i;
    loop
        invariant
            i <= pos <= s.len(),
            idents(s@, i as int, old(names).deep_view()) == idents(
                s@,
                pos as int,
                names.deep_view(),
            ),
        decreases s.len() - pos,
    {
        match ident_at(s, pos) {
            Some((n, j)) => {
                let ghost before = names.deep_view();
                names.push(n);
                proof {
                    assert(names.deep_view() =~= before.push(n@));
                }
                pos = j;
            },
            None => {
                return pos;
            },
        }
    }
}

/// The path of an import: its identifiers joined by `.` (see [`join_dots`]).
fn join_with_dots(names: &Vec<String>) -> (r: String)
    ensures
        r@ == join_dots(names.deep_view()),
{
    let mut r = String::new();
    let mut k: usize = 0;
    proof {
        assert(names.deep_view().take(0) =~= Seq::<Seq<char>>::empty());
    }
    while k < names.len()
        invariant
            0 <= k <= names.len(),
            r@ == join_dots(names.deep_view().take(k as int)),
        decreases names.len() - k,
    {
        let ghost d = names.deep_view();
        proof {
            assert(d.take(k + 1).drop_last() =~= d.take(k as int));
            assert(d[k as int] == names[k as int]@);
            reveal_strlit(".");
        }
        if k > 0 {
            r.append(".");
        } else {
            assert(d.take(0) =~= Seq::<Seq<char>>::empty());
        }
        r.append(names[k].as_str());
        proof {
            assert(d.take(k + 1).last() == d[k as int]);
        }
        k = k + 1;
    }
    proof {
        assert(names.deep_view().take(k as int) =~= names.deep_view());
    }
    r
}

/// An import at `p` (see [`import_stmt`]).
pub fn import_stmt_at(src: SrcId, s: &Vec<char>, p: usize) -> (r: Option<(Spanned<Stmt>, usize)>)
    requires
        p <= s.len(),
    ensures
        res_s(r) == import_stmt(src, s@, p as int),
        r matches Some((_, j)) ==> p < j <= s.len(),
{
    let a = skip_ws(s, p);
    let b = match keyword_at(s, a, &['i', 'm', 'p', 'o', 'r', 't']) {
        Some(b) => b,
        None => {
            return None;
        },
    };
    let mut names: Vec<String> = Vec::new();
    proof {
        assert(names.deep_view() =~= Seq::<Seq<char>>::empty());
    }
    let j = idents_at(s, b, &mut names);
    let ghost g = names.deep_view();
    let mut pos = j;
    loop
        invariant
            b <= j <= pos <= s.len(),
            path_rest(s@, j as int, g) == path_rest(s@, pos as int, names.deep_view()),
        ensures
            b <= pos <= s.len(),
            path_rest(s@, j as int, g) == (names.deep_view(), pos as int),
        decreases s.len() - pos,
    {
        if !char_at(s, pos, '.') {
            break ;
        }
        let k = idents_at(s, pos + 1, &mut names);
        pos = k;
    }
    if !char_at(s, pos, ';') {
        return None;
    }
    let path = join_with_dots(&names);
    Some((Spanned::new(Stmt::Import(path), Span::new(src, a, pos + 1)), skip_ws(s, pos + 1)))
}

/// The imports at `p` (see [`imports`]).
pub fn imports_at(src: SrcId, s: &Vec<char>, p: usize) -> (r: (Vec<Spanned<Stmt>>, usize))
    requires
        p <= s.len(),
    ensures
        (sstmts_v(r.0@), r.1 as int) == imports(src, s@, p as int, Seq::empty()),
        p <= r.1 <= s.len(),
{
    let mut items: Vec<Spanned<Stmt>> = Vec::new();
    let mut pos = p;
    proof {
        assert(sstmts_v(items@) =~= Seq::<SV<StmtV>>::empty());
    }
    loop
        invariant
            p <= pos <= s.len(),
            imports(src, s@, p as int, Seq::empty()) == imports(
                src,
                s@,
                pos as int,
                sstmts_v(items@),
            ),
        decreases s.len() - pos,
    {
        match import_stmt_at(src, s, pos) {
            Some((d, q)) => {
                proof {
                    lemma_sstmts_v_push(items@, d);
                }
                items.push(d);
                pos = q;
            },
            None => {
                return (items, pos);
            },
        }
    }
}

/// Where reading a source stops when it is not a compilation unit: the
/// first character that is not part of the imports and definitions read,
/// and the rule being read there, if it is a labelled one (an import, or a
/// variable definition).
#[derive(Debug)]
pub struct ParseError {
    pub span: Span,
    pub found: Option<char>,
    pub label: Option<String>,
}

pub open spec fn opt_str_v(o: Option<String>) -> Option<Seq<char>> {
    match o {
        Some(x) => Some(x@),
        None => None,
    }
}

/// The message of the report of a parse error.
pub open spec fn parse_message(found: Option<char>, label: Option<Seq<char>>) -> Seq<char> {
    (match found {
        Some(_) => "unexpected token"@,
        None => "unexpected end of input"@,
    }) + (match label {
        Some(l) => " while parsing "@ + l,
        None => " something else"@,
    }) + ", expected something else"@
}

/// The label of the report of a parse error: what was found.
pub open spec fn parse_label(found: Option<char>) -> Seq<char> {
    match found {
        Some(c) => "Unexpected token "@.push(c),
        None => "Unexpected end of input"@,
    }
}

impl ParseError {
    /// The report of the error: an error at its span, whose message names
    /// the rule being read, if any, and whose one label says what was found
    /// there.
    pub fn report(&self) -> (r: Report)
        ensures
            r.kind == ReportKind::Error,
            r.span == self.span,
            r.message@ == parse_message(self.found, opt_str_v(self.label)),
            r.labels@.len() == 1,
            label_v(r.labels@[0]) == (self.span, Some(parse_label(self.found)), LabelColor::Default),
            r.notes@.len() == 0,
    {
        proof {
            reveal_strlit("unexpected token");
            reveal_strlit("unexpected end of input");
            reveal_strlit(" while parsing ");
            reveal_strlit(" something else");
            reveal_strlit(", expected something else");
            reveal_strlit("Unexpected token ");
            reveal_strlit("Unexpected end of input");
        }
        let mut message = match self.found {
            Some(_) => String::from_str("unexpected token"),
            None => String::from_str("unexpected end of input"),
        };
        match &self.label {
            Some(l) => {
                message.append(" while parsing ");
                message.append(l.as_str());
            },
            None => {
                message.append(" something else");
            },
        }
        message.append(", expected something else");
        let label = match self.found {
            Some(c) => {
                let mut text = chars_of("Unexpected token ");
                text.push(c);
                let label = string_of(&text, 0, text.len());
                assert(text@.subrange(0, text@.len() as int) =~= text@);
                label
            },
            None => String::from_str("Unexpected end of input"),
        };
        let mut labels = Vec::new();
        labels.push(Label { span: self.span, message: Some(label), color: LabelColor::Default });
        Report { kind: ReportKind::Error, span: self.span, message, labels, notes: Vec::new() }
    }
}

/// The labelled rule being read where a source that is not a compilation
/// unit stops: an import when no definition was read after the imports
/// and `import` starts there; a variable definition when `let` starts
/// there; else none.
pub open spec fn unit_label(src: SrcId, s: Seq<char>) -> Option<Seq<char>> {
    let b = imports(src, s, ws_end(s, 0), Seq::empty()).1;
    let c = top_defs(src, s, b, Seq::empty()).1;
    let d = ws_end(s, c);
    if c == b && keyword(s, d, kw_import()) is Some {
        Some("import"@)
    } else if keyword(s, d, kw_let()) is Some {
        Some("variable"@)
    } else {
        None
    }
}

/// Whether `e` is the error for a source that is not a compilation unit:
/// at the character where the imports and definitions that can be read
/// end, with the label of [`unit_label`].
pub open spec fn is_unit_error(src: SrcId, s: Seq<char>, e: ParseError) -> bool {
    let d = unit_prefix(src, s).1;
    &&& e.span == sp(src, d, d + 1)
    &&& e.found == Some(s[d])
    &&& opt_str_v(e.label) == unit_label(src, s)
}

/// A whole source as a compilation unit (see [`compilation_unit`]); else
/// where reading it stopped (see [`is_unit_error`]).
pub fn compilation_unit_at(src: SrcId, s: &Vec<char>) -> (r: Result<Ast, ParseError>)
    ensures
        match r {
            Ok(ast) => compilation_unit(src, s@) == Some(ast_v(ast)),
            Err(e) => compilation_unit(src, s@) is None && is_unit_error(src, s@, e),
        },
{
    let a = skip_ws(s, 0);
    let (imports, b) = imports_at(src, s, a);
    let (defs, c) = top_defs_at(src, s, b);
    let d = skip_ws(s, c);
    if d == s.len() {
        Ok(Ast { imports, defs })
    } else {
        let found = s[d];
        proof {
            reveal_strlit("import");
            reveal_strlit("variable");
            assert(['i', 'm', 'p', 'o', 'r', 't']@ == kw_import());
            assert(['l', 'e', 't']@ == kw_let());
        }
        let label = if c == b && keyword_at(s, d, &['i', 'm', 'p', 'o', 'r', 't']).is_some() {
            Some(String::from_str("import"))
        } else if keyword_at(s, d, &['l', 'e', 't']).is_some() {
            Some(String::from_str("variable"))
        } else {
            None
        };
        Err(ParseError { span: Span::new(src, d, d + 1), found: Some(found), label })
    }
}

/// The characters of `code`, in order.
fn chars_of(code: &str) -> (r: Vec<char>)
    ensures
        r@ == code@,
{
    broadcast use vstd::string::axiom_spec_iter;

    let mut v: Vec<char> = Vec::new();
    for c in it: code.chars()
        invariant
            v@ == it.seq().take(it.index() as int),
    {
        v.push(c);
    }
    v
}

/// Parses the source `code` of the file at `path` as a compilation unit;
/// the spans of the tree point into the source id of `path`.
pub fn parse(path: &str, code: &str) -> (r: Result<Ast, Vec<ParseError>>)
    ensures
        exists|src: SrcId|
            #![trigger parse_outcome(src, code@, r)]
            src.parts() == path_components(path@) && parse_outcome(src, code@, r),
{
    let src = SrcId::from_path(path);
    let s = chars_of(code);
    let r = match compilation_unit_at(src, &s) {
        Ok(ast) => Ok(ast),
        Err(e) => {
            let mut es = Vec::new();
            es.push(e);

            Err(es)
        },
    };
    assert(parse_outcome(src, code@, r));
    r
}

/// What parsing `s` gives: the tree of the compilation unit, or the one
/// error of [`is_unit_error`].
pub open spec fn parse_outcome(src: SrcId, s: Seq<char>, r: Result<Ast, Vec<ParseError>>) -> bool {
    match r {
        Ok(ast) => compilation_unit(src, s) == Some(ast_v(ast)),
        Err(es) => compilation_unit(src, s) is None && es@.len() == 1 && is_unit_error(src, s, es@[0]),
    }
}

} // verus!

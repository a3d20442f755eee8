//! The syntax tree of a `mat` program, and its mathematical model: the same
//! tree with sequences and integers in place of vectors, strings and boxes.
use crate::span::{Span, Spanned};
use vstd::prelude::*;

verus! {

#[derive(Clone, Debug)]
pub enum Type {
    Void,
    I8,
    I16,
    I32,
    I64,
    U8,
    U16,
    U32,
    U64,
    /// User defined type
    User(String),
}

#[derive(Debug)]
pub enum Expr {
    /// ||
    Or(Spanned<Expr>, Spanned<Expr>),
    /// &&
    And(Spanned<Expr>, Spanned<Expr>),
    /// <
    Lt(Spanned<Expr>, Spanned<Expr>),
    /// >
    Gt(Spanned<Expr>, Spanned<Expr>),
    /// <=
    Lte(Spanned<Expr>, Spanned<Expr>),
    /// >=
    Gte(Spanned<Expr>, Spanned<Expr>),
    /// ==
    Eq(Spanned<Expr>, Spanned<Expr>),
    /// !=
    Neq(Spanned<Expr>, Spanned<Expr>),
    /// |
    BitOr(Spanned<Expr>, Spanned<Expr>),
    /// ^
    BitXor(Spanned<Expr>, Spanned<Expr>),
    /// &
    BitAnd(Spanned<Expr>, Spanned<Expr>),
    /// <<
    Shl(Spanned<Expr>, Spanned<Expr>),
    /// >>
    Shr(Spanned<Expr>, Spanned<Expr>),
    /// +
    Add(Spanned<Expr>, Spanned<Expr>),
    /// -
    Sub(Spanned<Expr>, Spanned<Expr>),
    /// *
    Mul(Spanned<Expr>, Spanned<Expr>),
    /// /
    Div(Spanned<Expr>, Spanned<Expr>),
    /// %
    Rem(Spanned<Expr>, Spanned<Expr>),
    /// as
    As(Spanned<Expr>, Spanned<Type>),
    FnCall { name: Spanned<Expr>, args: Vec<Spanned<Expr>> },
    I8(i8),
    I16(i16),
    I32(i32),
    I64(i64),
    U8(u8),
    U16(u16),
    U32(u32),
    U64(u64),
    String(String),
    Variable(String),
}

#[derive(Clone, Debug)]
pub struct Param {
    pub is_mut: bool,
    pub name: Spanned<String>,
    pub ty: Spanned<Type>,
}

#[derive(Debug)]
pub enum Stmt {
    Empty,
    Import(String),
    DefFn { name: Spanned<String>, args: Vec<Param>, ret_ty: Spanned<Type>, body: Spanned<Stmt> },
    DefVar { is_mut: bool, name: Spanned<String>, ty: Spanned<Type>, expr: Option<Spanned<Expr>> },
    TypeDef { name: Spanned<String>, ty: Spanned<Type> },
    Block(Vec<Spanned<Stmt>>),
    If { cond: Spanned<Expr>, then: Spanned<Stmt>, els: Option<Spanned<Stmt>> },
    Return(Option<Spanned<Expr>>),
    /// =
    Assign(Spanned<Expr>, Spanned<Expr>),
    /// +=
    AddAssign(Spanned<Expr>, Spanned<Expr>),
    /// -=
    SubAssign(Spanned<Expr>, Spanned<Expr>),
    /// *=
    MulAssign(Spanned<Expr>, Spanned<Expr>),
    /// /=
    DivAssign(Spanned<Expr>, Spanned<Expr>),
    /// %=
    RemAssign(Spanned<Expr>, Spanned<Expr>),
    /// &=
    BitAndAssign(Spanned<Expr>, Spanned<Expr>),
    /// |=
    BitOrAssign(Spanned<Expr>, Spanned<Expr>),
    /// ^=
    BitXorAssign(Spanned<Expr>, Spanned<Expr>),
    /// <<=
    ShlAssign(Spanned<Expr>, Spanned<Expr>),
    /// >>=
    ShrAssign(Spanned<Expr>, Spanned<Expr>),
    Expr(Spanned<Expr>),
}

#[derive(Debug)]
pub struct Ast {
    pub imports: Vec<Spanned<Stmt>>,
    pub defs: Vec<Spanned<Stmt>>,
}

// ---------------------------------------------------------------------------
// The model.
/// A value with its span.
pub struct SV<T> {
    pub value: T,
    pub span: Span,
}

pub enum TypeV {
    Void,
    I8,
    I16,
    I32,
    I64,
    U8,
    U16,
    U32,
    U64,
    User(Seq<char>),
}

#[derive(PartialEq, Eq, Structural, Clone, Copy)]
pub enum BinOp {
    Or,
    And,
    Lt,
    Gt,
    Lte,
    Gte,
    Eq,
    Neq,
    BitOr,
    BitXor,
    BitAnd,
    Shl,
    Shr,
    Add,
    Sub,
    Mul,
    Div,
    Rem,
}

#[derive(PartialEq, Eq, Structural, Clone, Copy)]
pub enum AssignOp {
    Assign,
    Add,
    Sub,
    Mul,
    Div,
    Rem,
    BitAnd,
    BitOr,
    BitXor,
    Shl,
    Shr,
}

pub enum ExprV {
    Binary(BinOp, Box<SV<ExprV>>, Box<SV<ExprV>>),
    As(Box<SV<ExprV>>, SV<TypeV>),
    FnCall(Box<SV<ExprV>>, Seq<SV<ExprV>>),
    I8(i8),
    I16(i16),
    I32(i32),
    I64(i64),
    U8(u8),
    U16(u16),
    U32(u32),
    U64(u64),
    Str(Seq<char>),
    Variable(Seq<char>),
}

pub struct ParamV {
    pub is_mut: bool,
    pub name: SV<Seq<char>>,
    pub ty: SV<TypeV>,
}

pub enum StmtV {
    Empty,
    Import(Seq<char>),
    DefFn { name: SV<Seq<char>>, args: Seq<ParamV>, ret_ty: SV<TypeV>, body: Box<SV<StmtV>> },
    DefVar { is_mut: bool, name: SV<Seq<char>>, ty: SV<TypeV>, expr: Option<SV<ExprV>> },
    TypeDef { name: SV<Seq<char>>, ty: SV<TypeV> },
    Block(Seq<SV<StmtV>>),
    If { cond: SV<ExprV>, then: Box<SV<StmtV>>, els: Option<Box<SV<StmtV>>> },
    Return(Option<SV<ExprV>>),
    Assign(AssignOp, SV<ExprV>, SV<ExprV>),
    Expr(SV<ExprV>),
}

pub struct AstV {
    pub imports: Seq<SV<StmtV>>,
    pub defs: Seq<SV<StmtV>>,
}

pub open spec fn type_v(t: Type) -> TypeV {
    match t {
        Type::Void => TypeV::Void,
        Type::I8 => TypeV::I8,
        Type::I16 => TypeV::I16,
        Type::I32 => TypeV::I32,
        Type::I64 => TypeV::I64,
        Type::U8 => TypeV::U8,
        Type::U16 => TypeV::U16,
        Type::U32 => TypeV::U32,
        Type::U64 => TypeV::U64,
        Type::User(s) => TypeV::User(s@),
    }
}

pub open spec fn stype_v(t: Spanned<Type>) -> SV<TypeV> {
    SV { value: type_v(*t.value), span: t.span }
}

pub open spec fn sname_v(n: Spanned<String>) -> SV<Seq<char>> {
    SV { value: (*n.value)@, span: n.span }
}

pub open spec fn expr_v(e: Expr) -> ExprV
    decreases e,
{
    match e {
        Expr::Or(a, b) => ExprV::Binary(BinOp::Or, Box::new(sexpr_v(a)), Box::new(sexpr_v(b))),
        Expr::And(a, b) => ExprV::Binary(BinOp::And, Box::new(sexpr_v(a)), Box::new(sexpr_v(b))),
        Expr::Lt(a, b) => ExprV::Binary(BinOp::Lt, Box::new(sexpr_v(a)), Box::new(sexpr_v(b))),
        Expr::Gt(a, b) => ExprV::Binary(BinOp::Gt, Box::new(sexpr_v(a)), Box::new(sexpr_v(b))),
        Expr::Lte(a, b) => ExprV::Binary(BinOp::Lte, Box::new(sexpr_v(a)), Box::new(sexpr_v(b))),
        Expr::Gte(a, b) => ExprV::Binary(BinOp::Gte, Box::new(sexpr_v(a)), Box::new(sexpr_v(b))),
        Expr::Eq(a, b) => ExprV::Binary(BinOp::Eq, Box::new(sexpr_v(a)), Box::new(sexpr_v(b))),
        Expr::Neq(a, b) => ExprV::Binary(BinOp::Neq, Box::new(sexpr_v(a)), Box::new(sexpr_v(b))),
        Expr::BitOr(a, b) => ExprV::Binary(BinOp::BitOr, Box::new(sexpr_v(a)), Box::new(sexpr_v(b))),
        Expr::BitXor(a, b) => ExprV::Binary(BinOp::BitXor, Box::new(sexpr_v(a)), Box::new(sexpr_v(b))),
        Expr::BitAnd(a, b) => ExprV::Binary(BinOp::BitAnd, Box::new(sexpr_v(a)), Box::new(sexpr_v(b))),
        Expr::Shl(a, b) => ExprV::Binary(BinOp::Shl, Box::new(sexpr_v(a)), Box::new(sexpr_v(b))),
        Expr::Shr(a, b) => ExprV::Binary(BinOp::Shr, Box::new(sexpr_v(a)), Box::new(sexpr_v(b))),
        Expr::Add(a, b) => ExprV::Binary(BinOp::Add, Box::new(sexpr_v(a)), Box::new(sexpr_v(b))),
        Expr::Sub(a, b) => ExprV::Binary(BinOp::Sub, Box::new(sexpr_v(a)), Box::new(sexpr_v(b))),
        Expr::Mul(a, b) => ExprV::Binary(BinOp::Mul, Box::new(sexpr_v(a)), Box::new(sexpr_v(b))),
        Expr::Div(a, b) => ExprV::Binary(BinOp::Div, Box::new(sexpr_v(a)), Box::new(sexpr_v(b))),
        Expr::Rem(a, b) => ExprV::Binary(BinOp::Rem, Box::new(sexpr_v(a)), Box::new(sexpr_v(b))),
        Expr::As(a, t) => ExprV::As(Box::new(sexpr_v(a)), stype_v(t)),
        Expr::FnCall { name, args } => ExprV::FnCall(Box::new(sexpr_v(name)), sexprs_v(args@)),
        Expr::I8(v) => ExprV::I8(v),
        Expr::I16(v) => ExprV::I16(v),
        Expr::I32(v) => ExprV::I32(v),
        Expr::I64(v) => ExprV::I64(v),
        Expr::U8(v) => ExprV::U8(v),
        Expr::U16(v) => ExprV::U16(v),
        Expr::U32(v) => ExprV::U32(v),
        Expr::U64(v) => ExprV::U64(v),
        Expr::String(s) => ExprV::Str(s@),
        Expr::Variable(s) => ExprV::Variable(s@),
    }
}

pub open spec fn sexpr_v(e: Spanned<Expr>) -> SV<ExprV>
    decreases e,
{
    SV { value: expr_v(*e.value), span: e.span }
}

pub open spec fn sexprs_v(v: Seq<Spanned<Expr>>) -> Seq<SV<ExprV>>
    decreases v,
{
    if v.len() == 0 {
        Seq::empty()
    } else {
        seq![sexpr_v(v[0])] + sexprs_v(v.drop_first())
    }
}

pub open spec fn opt_sexpr_v(e: Option<Spanned<Expr>>) -> Option<SV<ExprV>> {
    match e {
        Some(x) => Some(sexpr_v(x)),
        None => None,
    }
}

pub open spec fn param_v(p: Param) -> ParamV {
    ParamV { is_mut: p.is_mut, name: sname_v(p.name), ty: stype_v(p.ty) }
}

pub open spec fn params_v(v: Seq<Param>) -> Seq<ParamV> {
    v.map_values(|p: Param| param_v(p))
}

pub open spec fn assign_v(op: AssignOp, a: Spanned<Expr>, b: Spanned<Expr>) -> StmtV {
    StmtV::Assign(op, sexpr_v(a), sexpr_v(b))
}

pub open spec fn stmt_v(s: Stmt) -> StmtV
    decreases s,
{
    match s {
        Stmt::Empty => StmtV::Empty,
        Stmt::Import(p) => StmtV::Import(p@),
        Stmt::DefFn { name, args, ret_ty, body } => StmtV::DefFn {
            name: sname_v(name),
            args: params_v(args@),
            ret_ty: stype_v(ret_ty),
            body: Box::new(sstmt_v(body)),
        },
        Stmt::DefVar { is_mut, name, ty, expr } => StmtV::DefVar {
            is_mut,
            name: sname_v(name),
            ty: stype_v(ty),
            expr: opt_sexpr_v(expr),
        },
        Stmt::TypeDef { name, ty } => StmtV::TypeDef { name: sname_v(name), ty: stype_v(ty) },
        Stmt::Block(v) => StmtV::Block(sstmts_v(v@)),
        Stmt::If { cond, then, els } => StmtV::If {
            cond: sexpr_v(cond),
            then: Box::new(sstmt_v(then)),
            els: match els {
                Some(e) => Some(Box::new(sstmt_v(e))),
                None => None,
            },
        },
        Stmt::Return(e) => StmtV::Return(opt_sexpr_v(e)),
        Stmt::Assign(a, b) => assign_v(AssignOp::Assign, a, b),
        Stmt::AddAssign(a, b) => assign_v(AssignOp::Add, a, b),
        Stmt::SubAssign(a, b) => assign_v(AssignOp::Sub, a, b),
        Stmt::MulAssign(a, b) => assign_v(AssignOp::Mul, a, b),
        Stmt::DivAssign(a, b) => assign_v(AssignOp::Div, a, b),
        Stmt::RemAssign(a, b) => assign_v(AssignOp::Rem, a, b),
        Stmt::BitAndAssign(a, b) => assign_v(AssignOp::BitAnd, a, b),
        Stmt::BitOrAssign(a, b) => assign_v(AssignOp::BitOr, a, b),
        Stmt::BitXorAssign(a, b) => assign_v(AssignOp::BitXor, a, b),
        Stmt::ShlAssign(a, b) => assign_v(AssignOp::Shl, a, b),
        Stmt::ShrAssign(a, b) => assign_v(AssignOp::Shr, a, b),
        Stmt::Expr(e) => StmtV::Expr(sexpr_v(e)),
    }
}

pub open spec fn sstmt_v(s: Spanned<Stmt>) -> SV<StmtV>
    decreases s,
{
    SV { value: stmt_v(*s.value), span: s.span }
}

pub open spec fn sstmts_v(v: Seq<Spanned<Stmt>>) -> Seq<SV<StmtV>>
    decreases v,
{
    if v.len() == 0 {
        Seq::empty()
    } else {
        seq![sstmt_v(v[0])] + sstmts_v(v.drop_first())
    }
}

pub open spec fn ast_v(a: Ast) -> AstV {
    AstV { imports: sstmts_v(a.imports@), defs: sstmts_v(a.defs@) }
}

/// The model of a sequence is taken element by element.
pub proof fn lemma_sexprs_v(v: Seq<Spanned<Expr>>)
    ensures
        sexprs_v(v).len() == v.len(),
        forall|i: int| 0 <= i < v.len() ==> #[trigger] sexprs_v(v)[i] == sexpr_v(v[i]),
    decreases v.len(),
{
    if v.len() > 0 {
        lemma_sexprs_v(v.drop_first());
        assert forall|i: int| 0 <= i < v.len() implies #[trigger] sexprs_v(v)[i] == sexpr_v(v[i]) by {
            if i > 0 {
                assert(v.drop_first()[i - 1] == v[i]);
            }
        }
    }
}

/// The model of a sequence is taken element by element.
pub proof fn lemma_sstmts_v(v: Seq<Spanned<Stmt>>)
    ensures
        sstmts_v(v).len() == v.len(),
        forall|i: int| 0 <= i < v.len() ==> #[trigger] sstmts_v(v)[i] == sstmt_v(v[i]),
    decreases v.len(),
{
    if v.len() > 0 {
        lemma_sstmts_v(v.drop_first());
        assert forall|i: int| 0 <= i < v.len() implies #[trigger] sstmts_v(v)[i] == sstmt_v(v[i]) by {
            if i > 0 {
                assert(v.drop_first()[i - 1] == v[i]);
            }
        }
    }
}

/// Pushing onto a sequence pushes onto its model.
pub proof fn lemma_sexprs_v_push(v: Seq<Spanned<Expr>>, e: Spanned<Expr>)
    ensures
        sexprs_v(v.push(e)) == sexprs_v(v).push(sexpr_v(e)),
{
    lemma_sexprs_v(v);
    lemma_sexprs_v(v.push(e));
    assert(sexprs_v(v.push(e)) =~= sexprs_v(v).push(sexpr_v(e)));
}

/// Pushing onto a sequence pushes onto its model.
pub proof fn lemma_sstmts_v_push(v: Seq<Spanned<Stmt>>, e: Spanned<Stmt>)
    ensures
        sstmts_v(v.push(e)) == sstmts_v(v).push(sstmt_v(e)),
{
    lemma_sstmts_v(v);
    lemma_sstmts_v(v.push(e));
    assert(sstmts_v(v.push(e)) =~= sstmts_v(v).push(sstmt_v(e)));
}

} // verus!

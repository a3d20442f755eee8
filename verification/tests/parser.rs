use matc::ast::{Ast, Expr, Param, Stmt, Type};
use matc::expr::{args_at, binary_at, cast_at, expr_at, fn_call_at};
use matc::lex::{comment_at, ident_at};
use matc::literal::{character_at, integer_at, primary_at, string_at, typeref_at, variable_at};
use matc::parser::{compilation_unit_at, defn_at, import_stmt_at, param_at, parse, top_defs_at, typedef_at};
use matc::span::{SrcId, Spanned};
use matc::stmt::{assign_stmt_at, block_at, defvar_at, if_stmt_at, return_stmt_at, stmt_at};

fn chars(s: &str) -> Vec<char> {
    s.chars().collect()
}

fn any<T>(x: T) -> Spanned<T> {
    Spanned::any(x)
}

fn var(n: &str) -> Spanned<Expr> {
    any(Expr::Variable(n.to_string()))
}

fn num(n: i32) -> Spanned<Expr> {
    any(Expr::I32(n))
}

fn name(n: &str) -> Spanned<String> {
    any(n.to_string())
}

type P<T> = fn(SrcId, &Vec<char>, usize) -> Option<(T, usize)>;

fn run<T>(p: P<T>, code: &str) -> Option<T> {
    p(SrcId::any(), &chars(code), 0).map(|(x, _)| x)
}

fn level(l: usize, code: &str) -> Option<Spanned<Expr>> {
    binary_at(SrcId::any(), &chars(code), l, 0).map(|(x, _)| x)
}

fn comment_ok(code: &str) -> bool {
    comment_at(&chars(code), 0).is_some()
}

fn bin(f: fn(Spanned<Expr>, Spanned<Expr>) -> Expr, a: Spanned<Expr>, b: Spanned<Expr>) -> Spanned<Expr> {
    any(f(a, b))
}

#[test]
fn test_single_line_comment() {
    assert!(comment_ok("// comment\n"));
    assert!(comment_ok("//\n"));
    assert!(comment_ok("// comment"));
    assert!(!comment_ok("/\n"));
}

#[test]
fn test_multi_line_comment() {
    assert!(comment_ok(
        r#"/*
                comment
                */
            "#
    ));
    assert!(comment_ok("/**/"));
    assert!(comment_ok("/**/\n"));
    assert!(comment_ok("/* foo */\n"));
    assert!(comment_ok("/** *foo **/\n"));
    assert!(comment_ok("/* foo */"));
    assert!(!comment_ok("/* foo *\n"));
    assert!(!comment_ok("/* foo \n"));
    assert!(!comment_ok("* foo */\n"));
    assert!(!comment_ok(" foo */\n"));
}

#[test]
fn test_comment() {
    assert!(comment_ok("// comment\n"));
    assert!(comment_ok("//\n"));
    assert!(comment_ok("// comment"));
    assert!(!comment_ok("/\n"));
    assert!(comment_ok(
        r#"/*
                comment
                */
            "#
    ));
    assert!(comment_ok("/**/"));
    assert!(comment_ok("/**/\n"));
    assert!(comment_ok("/* foo */\n"));
    assert!(comment_ok("/** *foo **/\n"));
    assert!(comment_ok("/* foo */"));
    assert!(!comment_ok("/* foo *\n"));
    assert!(!comment_ok("/* foo \n"));
    assert!(!comment_ok("* foo */\n"));
    assert!(!comment_ok(" foo */\n"));
}

#[test]
fn test_args() {
    let (xs, _) = args_at(SrcId::any(), &chars("1, var, 1 +1"), 0);
    assert_eq!(xs, vec![num(1), var("var"), bin(Expr::Add, num(1), num(1))]);
    let (xs, _) = args_at(SrcId::any(), &chars("1"), 0);
    assert_eq!(xs, vec![num(1)]);
}

fn chain(first: i32, ops: &[fn(Spanned<Expr>, Spanned<Expr>) -> Expr], last: Spanned<Expr>) -> Spanned<Expr> {
    // first op (first + 1 op ...) nested to the right, ending with last
    if ops.is_empty() {
        return last;
    }
    bin(ops[0], num(first), chain(first + 1, &ops[1..], last))
}

#[test]
fn test_expr() {
    let expected = chain(
        1,
        &[Expr::Or, Expr::And, Expr::Neq, Expr::BitOr, Expr::BitXor, Expr::BitAnd, Expr::Shl, Expr::Add],
        bin(Expr::Mul, num(9), num(10)),
    );
    assert_eq!(run(expr_at, "1 || 2 && 3 != 4 | 5 ^ 6 & 7 << 8 + 9*10"), Some(expected));
    assert_eq!(run(expr_at, "1"), Some(num(1)));
}

#[test]
fn test_expr8() {
    let expected = chain(
        1,
        &[Expr::And, Expr::Neq, Expr::BitOr, Expr::BitXor, Expr::BitAnd, Expr::Shl, Expr::Add],
        bin(Expr::Mul, num(8), num(9)),
    );
    assert_eq!(level(1, "1 && 2 != 3 | 4 ^ 5 & 6 << 7 + 8*9"), Some(expected));
    assert_eq!(level(1, "1"), Some(num(1)));
}

#[test]
fn test_expr7() {
    let rest = || {
        chain(2, &[Expr::BitOr, Expr::BitXor, Expr::BitAnd, Expr::Shl, Expr::Add], bin(Expr::Mul, num(7), num(8)))
    };
    assert_eq!(level(2, "1 != 2 | 3 ^ 4 & 5 << 6 + 7*8"), Some(bin(Expr::Neq, num(1), rest())));
    assert_eq!(level(2, "1 == 2 | 3 ^ 4 & 5 << 6 + 7*8"), Some(bin(Expr::Eq, num(1), rest())));
    assert_eq!(level(2, "1 >= 2 | 3 ^ 4 & 5 << 6 + 7*8"), Some(bin(Expr::Gte, num(1), rest())));
    assert_eq!(level(2, "1 <= 2 | 3 ^ 4 & 5 << 6 + 7*8"), Some(bin(Expr::Lte, num(1), rest())));
    assert_eq!(level(2, "1 > 2 | 3 ^ 4 & 5 << 6 + 7*8"), Some(bin(Expr::Gt, num(1), rest())));
    assert_eq!(level(2, "1 < 2 | 3 ^ 4 & 5 << 6 + 7*8"), Some(bin(Expr::Lt, num(1), rest())));
    assert_eq!(level(2, "1"), Some(num(1)));
}

#[test]
fn test_expr6() {
    let expected = chain(
        1,
        &[Expr::BitOr, Expr::BitXor, Expr::BitAnd, Expr::Shl, Expr::Add],
        bin(Expr::Mul, num(6), num(7)),
    );
    assert_eq!(level(3, "1 | 2 ^ 3 & 4 << 5 + 6*7"), Some(expected));
    assert_eq!(level(3, "1"), Some(num(1)));
}

#[test]
fn test_expr5() {
    let expected = chain(1, &[Expr::BitXor, Expr::BitAnd, Expr::Shl, Expr::Add], bin(Expr::Mul, num(5), num(6)));
    assert_eq!(level(4, "1 ^ 2 & 3 << 4 + 5*6"), Some(expected));
    assert_eq!(level(4, "1"), Some(num(1)));
}

#[test]
fn test_expr4() {
    let expected = chain(1, &[Expr::BitAnd, Expr::Shl, Expr::Add], bin(Expr::Mul, num(4), num(5)));
    assert_eq!(level(5, "1 & 2 << 3 + 4*5"), Some(expected));
    assert_eq!(level(5, "1"), Some(num(1)));
}

#[test]
fn test_expr3() {
    let rhs = || bin(Expr::Add, num(2), bin(Expr::Mul, num(3), num(4)));
    assert_eq!(level(6, "1 << 2 + 3*4"), Some(bin(Expr::Shl, num(1), rhs())));
    assert_eq!(level(6, "1 >> 2 + 3*4"), Some(bin(Expr::Shr, num(1), rhs())));
    assert_eq!(level(6, "1"), Some(num(1)));
}

#[test]
fn test_expr2() {
    assert_eq!(level(7, "1 + 2*3"), Some(bin(Expr::Add, num(1), bin(Expr::Mul, num(2), num(3)))));
    assert_eq!(level(7, "1 - 2*3"), Some(bin(Expr::Sub, num(1), bin(Expr::Mul, num(2), num(3)))));
    assert_eq!(
        level(7, "1*2 + 3*4"),
        Some(bin(Expr::Add, bin(Expr::Mul, num(1), num(2)), bin(Expr::Mul, num(3), num(4))))
    );
    assert_eq!(level(7, "1"), Some(num(1)));
}

#[test]
fn test_expr1() {
    assert_eq!(level(8, "1*1"), Some(bin(Expr::Mul, num(1), num(1))));
    assert_eq!(level(8, "1 / 1"), Some(bin(Expr::Div, num(1), num(1))));
    assert_eq!(level(8, "1 %2"), Some(bin(Expr::Rem, num(1), num(2))));
    assert_eq!(
        level(8, "1 % 2 / 3 * 4"),
        Some(bin(Expr::Mul, bin(Expr::Div, bin(Expr::Rem, num(1), num(2)), num(3)), num(4)))
    );
    assert_eq!(level(8, "1"), Some(num(1)));
}

#[test]
fn test_cast() {
    assert_eq!(
        run(cast_at, "var as cast"),
        Some(any(Expr::As(var("var"), any(Type::User("cast".to_string())))))
    );
    assert_eq!(run(cast_at, "127 as u8"), Some(any(Expr::As(num(127), any(Type::U8)))));
    assert_eq!(run(cast_at, "1"), Some(num(1)));
    assert_eq!(run(cast_at, "'a'"), Some(any(Expr::I8(97))));
    assert_eq!(run(cast_at, "\"a\""), Some(any(Expr::String("a".to_string()))));
    assert_eq!(run(cast_at, "var"), Some(var("var")));
}

#[test]
fn test_fn_call() {
    assert_eq!(
        run(fn_call_at, "fun(1, a2, '3', \"4\")"),
        Some(any(Expr::FnCall {
            name: var("fun"),
            args: vec![num(1), var("a2"), any(Expr::I8(51)), any(Expr::String("4".to_string()))],
        }))
    );
    assert_eq!(
        run(fn_call_at, "fun(a1 as char, a2 as u64)"),
        Some(any(Expr::FnCall {
            name: var("fun"),
            args: vec![any(Expr::As(var("a1"), any(Type::I8))), any(Expr::As(var("a2"), any(Type::U64)))],
        }))
    );
    assert_eq!(run(fn_call_at, "1"), Some(num(1)));
    assert_eq!(run(fn_call_at, "'a'"), Some(any(Expr::I8(97))));
    assert_eq!(run(fn_call_at, "\"a\""), Some(any(Expr::String("a".to_string()))));
    assert_eq!(run(fn_call_at, "var"), Some(var("var")));
}

#[test]
fn test_primary() {
    assert_eq!(run(primary_at, "1"), Some(num(1)));
    assert_eq!(run(primary_at, "'a'"), Some(any(Expr::I8(97))));
    assert_eq!(run(primary_at, "\"a\""), Some(any(Expr::String("a".to_string()))));
    assert_eq!(run(primary_at, "var"), Some(var("var")));
}

#[test]
fn primary_test() {
    assert_eq!(run(primary_at, "1"), Some(num(1)));
    assert_eq!(run(primary_at, "'a'"), Some(any(Expr::I8(97))));
    assert_eq!(run(primary_at, "\"a\""), Some(any(Expr::String("a".to_string()))));
    assert_eq!(run(primary_at, "var"), Some(var("var")));
}

#[test]
fn integer_test_integer() {
    let i = |c: &str| run(integer_at, c);
    assert_eq!(i("0"), Some(num(0)));
    assert_eq!(i("2147483647"), Some(num(2147483647)));
    assert!(i("2147483648").is_none());
    assert_eq!(i("0 i8"), Some(num(0)));
    assert_eq!(i("0i8 "), Some(any(Expr::I8(0))));
    assert_eq!(i("127i8"), Some(any(Expr::I8(127))));
    assert!(i("128i8").is_none());
    assert_eq!(i("0i16 "), Some(any(Expr::I16(0))));
    assert_eq!(i("32767i16"), Some(any(Expr::I16(32767))));
    assert!(i("32768i16").is_none());
    assert_eq!(i("0i32 "), Some(num(0)));
    assert_eq!(i("2147483647i32"), Some(num(2147483647)));
    assert!(i("2147483648i32").is_none());
    assert_eq!(i("0i64 "), Some(any(Expr::I64(0))));
    assert_eq!(i("9223372036854775807i64"), Some(any(Expr::I64(9223372036854775807))));
    assert!(i("9223372036854775808").is_none());
    assert_eq!(i("0u8 "), Some(any(Expr::U8(0))));
    assert_eq!(i("255u8"), Some(any(Expr::U8(255))));
    assert!(i("256u8").is_none());
    assert_eq!(i("0u16 "), Some(any(Expr::U16(0))));
    assert_eq!(i("65535u16"), Some(any(Expr::U16(65535))));
    assert!(i("65536u16").is_none());
    assert_eq!(i("0u32 "), Some(any(Expr::U32(0))));
    assert_eq!(i("4294967295u32"), Some(any(Expr::U32(4294967295))));
    assert!(i("4294967296u32").is_none());
    assert_eq!(i("0u64 "), Some(any(Expr::U64(0))));
    assert_eq!(i("18446744073709551615u64"), Some(any(Expr::U64(18446744073709551615))));
    assert!(i("18446744073709551616u64").is_none());
}

#[test]
fn integer_test_character() {
    let c = |s: &str| run(character_at, s);
    assert_eq!(c("'a'"), Some(any(Expr::I8(97))));
    assert_eq!(c("'1'"), Some(any(Expr::I8(49))));
    assert_eq!(c("'\n'"), Some(any(Expr::I8(10))));
    assert!(c("'a").is_none());
    assert!(c("a'").is_none());
    assert!(c("a").is_none());
    assert!(c("'aa'").is_none());
    assert!(c("'\nn'").is_none());
}

#[test]
fn character_test() {
    let c = |s: &str| run(character_at, s);
    assert_eq!(c("'a'"), Some(any(Expr::I8(97))));
    assert_eq!(c("'1'"), Some(any(Expr::I8(49))));
    assert_eq!(c("'\n'"), Some(any(Expr::I8(10))));
    assert!(c("'a").is_none());
    assert!(c("a'").is_none());
    assert!(c("a").is_none());
    assert!(c("'aa'").is_none());
    assert!(c("'\nn'").is_none());
}

#[test]
fn test_string() {
    let s = |c: &str| run(string_at, c);
    let str_e = |v: &str| Some(any(Expr::String(v.to_string())));
    assert_eq!(s("\"a\""), str_e("a"));
    assert_eq!(s("\"a\"     "), str_e("a"));
    assert_eq!(s("\"1 \""), str_e("1 "));
    assert_eq!(s("\"\n\""), str_e("\n"));
    assert!(s("    \"a\"").is_none());
    assert!(s("\"a").is_none());
    assert!(s("a\"").is_none());
    assert!(s("a").is_none());
}

#[test]
fn string_test() {
    let s = |c: &str| run(string_at, c);
    let str_e = |v: &str| Some(any(Expr::String(v.to_string())));
    assert_eq!(s("\"a\""), str_e("a"));
    assert_eq!(s("\"1 \""), str_e("1 "));
    assert_eq!(s("\"\n\""), str_e("\n"));
    assert!(s("\"a").is_none());
    assert!(s("a\"").is_none());
    assert!(s("a").is_none());
}

fn ident(code: &str) -> Option<String> {
    ident_at(&chars(code), 0).map(|(n, _)| n)
}

#[test]
fn variable_variable_test() {
    assert_eq!(ident("var"), Some("var".to_string()));
    assert_eq!(ident("var    "), Some("var".to_string()));
    assert_eq!(ident("  var"), Some("var".to_string()));
    assert!(ident("1var").is_none());
}

#[test]
fn variable_node_variable_test() {
    assert_eq!(ident("var"), Some("var".to_string()));
    assert_eq!(ident("  var"), Some("var".to_string()));
    assert_eq!(ident("var    "), Some("var".to_string()));
    assert!(ident("1var").is_none());
}

#[test]
fn test_variable() {
    assert_eq!(run(variable_at, "var"), Some(var("var")));
    assert_eq!(run(variable_at, "var    "), Some(var("var")));
    assert_eq!(run(variable_at, "  var"), Some(var("var")));
    assert!(run(variable_at, "1var").is_none());
}

#[test]
fn ty_test_typeref() {
    let t = |c: &str| run(typeref_at, c);
    assert_eq!(t("void"), Some(any(Type::Void)));
    assert_eq!(t("char"), Some(any(Type::I8)));
    assert_eq!(t("i8"), Some(any(Type::I8)));
    assert_eq!(t("i16"), Some(any(Type::I16)));
    assert_eq!(t("i32"), Some(any(Type::I32)));
    assert_eq!(t("i64"), Some(any(Type::I64)));
    assert_eq!(t("u8"), Some(any(Type::U8)));
    assert_eq!(t("u16"), Some(any(Type::U16)));
    assert_eq!(t("u32"), Some(any(Type::U32)));
    assert_eq!(t("u64"), Some(any(Type::U64)));
    assert_eq!(t("type"), Some(any(Type::User("type".to_string()))));
    assert!(t("1type").is_none());
}

fn tdef(n: &str, ty: Type) -> Option<Spanned<Stmt>> {
    Some(any(Stmt::TypeDef { name: name(n), ty: any(ty) }))
}

#[test]
fn test_typedef() {
    let t = |c: &str| run(typedef_at, c);
    assert_eq!(t("type new = i8;"), tdef("new", Type::I8));
    assert_eq!(t("type new=i8;"), tdef("new", Type::I8));
    assert_eq!(t("type new=i8  ;"), tdef("new", Type::I8));
    assert_eq!(t("type new = old;"), tdef("new", Type::User("old".to_string())));
    assert_eq!(t("type i8 = old;"), tdef("i8", Type::User("old".to_string())));
    assert!(t("type foo = bar").is_none());
    assert!(t("type foo = ;").is_none());
    assert!(t("type foo bar;").is_none());
    assert!(t("type = bar;").is_none());
    assert!(t("foo = bar;").is_none());
    assert!(t("typefoo = bar;").is_none());
}

#[test]
fn import_stmt_test() {
    let i = |c: &str| run(import_stmt_at, c);
    assert_eq!(i("import std.io;"), Some(any(Stmt::Import("std.io".to_string()))));
    assert_eq!(i("import     std  .   io   ;"), Some(any(Stmt::Import("std.io".to_string()))));
    assert_eq!(i("import stdio;"), Some(any(Stmt::Import("stdio".to_string()))));
    assert!(i("import 1std.io;").is_none());
    assert!(i("import std.1io;").is_none());
    assert!(i("import std.io").is_none());
    assert!(i("use std.io;").is_none());
}

fn defvar(is_mut: bool, n: &str, ty: Type, e: Spanned<Expr>) -> Spanned<Stmt> {
    any(Stmt::DefVar { is_mut, name: name(n), ty: any(ty), expr: Some(e) })
}

fn block(stmts: Vec<Spanned<Stmt>>) -> Spanned<Stmt> {
    any(Stmt::Block(stmts))
}

#[test]
fn top_defs_test() {
    let (defs, _) = top_defs_at(SrcId::any(), &chars(""), 0);
    assert_eq!(defs, vec![]);
    let (defs, _) = top_defs_at(
        SrcId::any(),
        &chars(
            r#"
                let foo: i8 = 1; type newint = i32;

                fn f1() -> u32 {}
        "#,
        ),
        0,
    );
    assert_eq!(
        defs,
        vec![
            defvar(false, "foo", Type::I8, num(1)),
            tdef("newint", Type::I32).unwrap(),
            any(Stmt::DefFn { name: name("f1"), args: vec![], ret_ty: any(Type::U32), body: block(vec![]) }),
        ]
    );
}

#[test]
fn param_test() {
    let p = |c: &str| param_at(SrcId::any(), &chars(c), 0).map(|(x, _)| x);
    assert_eq!(p("name: i8"), Some(Param { is_mut: false, name: name("name"), ty: any(Type::I8) }));
    assert_eq!(p("mut name: i8"), Some(Param { is_mut: true, name: name("name"), ty: any(Type::I8) }));
}

#[test]
fn defn_test() {
    let d = |c: &str| run(defn_at, c);
    assert_eq!(
        d("fn name() -> i16 {}"),
        Some(any(Stmt::DefFn { name: name("name"), args: vec![], ret_ty: any(Type::I16), body: block(vec![]) }))
    );
    assert_eq!(
        d("fn name(a1: i8) -> i16 {}"),
        Some(any(Stmt::DefFn {
            name: name("name"),
            args: vec![Param { is_mut: false, name: name("a1"), ty: any(Type::I8) }],
            ret_ty: any(Type::I16),
            body: block(vec![]),
        }))
    );
    assert!(d("fn name(): i16 {}").is_none());
}

#[test]
fn defvar_test() {
    let d = |c: &str| run(defvar_at, c);
    let user = || Type::User("type".to_string());
    assert_eq!(d("let var: type = 10;"), Some(defvar(false, "var", user(), num(10))));
    assert_eq!(d("let mut var: type = 10;"), Some(defvar(true, "var", user(), num(10))));
    assert!(d("let var: type = 10").is_none());
    assert!(d("let mut var: type = 10").is_none());
    assert!(d("let var := 10;").is_none());
    assert!(d("let mut var := 10;").is_none());
}

#[test]
fn block_test() {
    let b = |c: &str| run(block_at, c);
    assert_eq!(b("{}"), Some(block(vec![])));
    assert_eq!(b("{     }"), Some(block(vec![])));
    let user = || Type::User("type".to_string());
    assert_eq!(
        b(r#"{
                let var1: type = 10;
    
                let mut var2: type = 10;
                // comment
                if var1 {}
            }"#),
        Some(block(vec![
            defvar(false, "var1", user(), num(10)),
            defvar(true, "var2", user(), num(10)),
            any(Stmt::If { cond: var("var1"), then: block(vec![]), els: None }),
        ]))
    );
    assert!(b("{     ").is_none());
    assert!(b("  }").is_none());
    assert!(b("let var: type = 10;").is_none());
}

fn big_expr() -> Spanned<Expr> {
    bin(
        Expr::Or,
        num(1),
        chain(2, &[Expr::And, Expr::Neq, Expr::BitOr, Expr::BitXor, Expr::BitAnd, Expr::Shl, Expr::Add], bin(Expr::Mul, num(9), num(10))),
    )
}

#[test]
fn stmt_test() {
    let s = |c: &str| run(stmt_at, c);
    assert_eq!(s(";"), Some(any(Stmt::Empty)));
    assert_eq!(
        s("var = 1 || 2 && 3 != 4 | 5 ^ 6 & 7 << 8 + 9*10 ;"),
        Some(any(Stmt::Assign(var("var"), big_expr())))
    );
    assert_eq!(s("{}"), Some(block(vec![])));
    assert_eq!(s("if foo {}"), Some(any(Stmt::If { cond: var("foo"), then: block(vec![]), els: None })));
    assert_eq!(s("return;"), Some(any(Stmt::Return(None))));
    assert_eq!(
        s("{ if foo { { return 1; } } }"),
        Some(block(vec![any(Stmt::If {
            cond: var("foo"),
            then: block(vec![block(vec![any(Stmt::Return(Some(num(1))))])]),
            els: None,
        })]))
    );
}

fn expr_stmt(n: i32) -> Spanned<Stmt> {
    any(Stmt::Expr(num(n)))
}

#[test]
fn if_stmt_test() {
    let i = |c: &str| run(if_stmt_at, c);
    assert_eq!(
        i("if foo { 1; }"),
        Some(any(Stmt::If { cond: var("foo"), then: block(vec![expr_stmt(1)]), els: None }))
    );
    assert_eq!(
        i("if foo { if bar {} }"),
        Some(any(Stmt::If {
            cond: var("foo"),
            then: block(vec![any(Stmt::If { cond: var("bar"), then: block(vec![]), els: None })]),
            els: None,
        }))
    );
    assert_eq!(
        i("if foo { 1; } else { 2; }"),
        Some(any(Stmt::If {
            cond: var("foo"),
            then: block(vec![expr_stmt(1)]),
            els: Some(block(vec![expr_stmt(2)])),
        }))
    );
    assert_eq!(
        i("if foo { 1; } else if bar { 2; } else { 3; }"),
        Some(any(Stmt::If {
            cond: var("foo"),
            then: block(vec![expr_stmt(1)]),
            els: Some(any(Stmt::If {
                cond: var("bar"),
                then: block(vec![expr_stmt(2)]),
                els: Some(block(vec![expr_stmt(3)])),
            })),
        }))
    );
    assert_eq!(
        i("if foo { 1; } else if bar { 2; }"),
        Some(any(Stmt::If {
            cond: var("foo"),
            then: block(vec![expr_stmt(1)]),
            els: Some(any(Stmt::If { cond: var("bar"), then: block(vec![expr_stmt(2)]), els: None })),
        }))
    );
    assert_eq!(
        i("if foo { 1; } else if bar { 2; } else if baz { 3; } else if qux { 4; }"),
        Some(any(Stmt::If {
            cond: var("foo"),
            then: block(vec![expr_stmt(1)]),
            els: Some(any(Stmt::If {
                cond: var("bar"),
                then: block(vec![expr_stmt(2)]),
                els: Some(any(Stmt::If {
                    cond: var("baz"),
                    then: block(vec![expr_stmt(3)]),
                    els: Some(any(Stmt::If { cond: var("qux"), then: block(vec![expr_stmt(4)]), els: None })),
                })),
            })),
        }))
    );
    assert!(i("if foo { 1 }").is_none());
}

#[test]
fn return_stmt_test() {
    let r = |c: &str| run(return_stmt_at, c);
    assert_eq!(r("return 1 + 2;"), Some(any(Stmt::Return(Some(bin(Expr::Add, num(1), num(2)))))));
    assert_eq!(r("return 1;"), Some(any(Stmt::Return(Some(num(1))))));
    assert_eq!(r("return ;"), Some(any(Stmt::Return(None))));
    assert!(r("return").is_none());
    assert!(r("return 1 + 2").is_none());
}

#[test]
fn assign_stmt_test() {
    let a = |c: &str| run(assign_stmt_at, c);
    assert_eq!(
        a("var = 1 || 2 && 3 != 4 | 5 ^ 6 & 7 << 8 + 9*10 ;"),
        Some(any(Stmt::Assign(var("var"), big_expr())))
    );
    let ops: Vec<(&str, fn(Spanned<Expr>, Spanned<Expr>) -> Stmt)> = vec![
        ("+=", Stmt::AddAssign),
        ("-=", Stmt::SubAssign),
        ("*=", Stmt::MulAssign),
        ("/=", Stmt::DivAssign),
        ("%=", Stmt::RemAssign),
        ("&=", Stmt::BitAndAssign),
        ("|=", Stmt::BitOrAssign),
        ("^=", Stmt::BitXorAssign),
        ("<<=", Stmt::ShlAssign),
        (">>=", Stmt::ShrAssign),
    ];
    for (op, f) in ops {
        let code = format!("var {} 1 || 2 && 3 != 4 | 5 ^ 6 & 7 << 8 + 9*10;", op);
        assert_eq!(a(&code), Some(any(f(var("var"), big_expr()))));
    }
    assert_eq!(a("1 ;"), Some(any(Stmt::Expr(num(1)))));
    assert!(a("1 ").is_none());
}

fn ret(e: Spanned<Expr>) -> Spanned<Stmt> {
    any(Stmt::Return(Some(e)))
}

fn param(is_mut: bool, n: &str, ty: Type) -> Param {
    Param { is_mut, name: name(n), ty: any(ty) }
}

fn cast(e: Spanned<Expr>, ty: Type) -> Spanned<Expr> {
    any(Expr::As(e, any(ty)))
}

#[test]
fn ast_test_compilation_unit() {
    let code = r#"
import std.io;
import stdio;

let fuga: i32 = 1;

type newint = i32;

fn f1(arg: char, mut arg2: u64) -> u32 {
    return arg as u64 + arg2;
}

fn main() -> i32 {
    let mut hoge: User = 12;
    //boo = 23; // unresolved reference: boo
    //hoge(1, 2, 3); // calling object is not a function
    // 1 = 2 + 4; // invalid lhs expression
    if hoge {
        return 1;
    } else if fuga {
        return f1(fuga as char, hoge as u64);
    } else {
        return 1 + 2 + 2 - 1i64 * hoge;
    }
}
        "#;
    let expected = Ast {
        imports: vec![any(Stmt::Import("std.io".to_string())), any(Stmt::Import("stdio".to_string()))],
        defs: vec![
            defvar(false, "fuga", Type::I32, num(1)),
            tdef("newint", Type::I32).unwrap(),
            any(Stmt::DefFn {
                name: name("f1"),
                args: vec![param(false, "arg", Type::I8), param(true, "arg2", Type::U64)],
                ret_ty: any(Type::U32),
                body: block(vec![ret(bin(Expr::Add, cast(var("arg"), Type::U64), var("arg2")))]),
            }),
            any(Stmt::DefFn {
                name: name("main"),
                args: vec![],
                ret_ty: any(Type::I32),
                body: block(vec![
                    defvar(true, "hoge", Type::User("User".to_string()), num(12)),
                    any(Stmt::If {
                        cond: var("hoge"),
                        then: block(vec![ret(num(1))]),
                        els: Some(any(Stmt::If {
                            cond: var("fuga"),
                            then: block(vec![ret(any(Expr::FnCall {
                                name: var("f1"),
                                args: vec![cast(var("fuga"), Type::I8), cast(var("hoge"), Type::U64)],
                            }))]),
                            els: Some(block(vec![ret(bin(
                                Expr::Sub,
                                bin(Expr::Add, bin(Expr::Add, num(1), num(2)), num(2)),
                                bin(Expr::Mul, any(Expr::I64(1)), var("hoge")),
                            ))])),
                        })),
                    }),
                ]),
            }),
        ],
    };
    assert_eq!(compilation_unit_at(SrcId::any(), &chars(code)).ok(), Some(expected));
}

#[test]
fn compilation_unit_test_compilation_unit() {
    let code = r#"
let fuga: i32 = 1;

fn f1(arg: char, mut arg2: i32) -> i32 {
    return arg as i32 + arg2;
}

fn main() -> i32 {
    let mut hoge: i32 = 12;
    //boo = 23; // unresolved reference: boo
    //hoge(1, 2, 3); // calling object is not a function
    // 1 = 2 + 4; // invalid lhs expression
    if hoge {
        return 1;
    } else if fuga {
        return f1(fuga as char, hoge as i32);
    } else {
        return 1 + 2 + 2 - 1i32 * hoge;
    }
}
        "#;
    let expected = Ast {
        imports: vec![],
        defs: vec![
            defvar(false, "fuga", Type::I32, num(1)),
            any(Stmt::DefFn {
                name: name("f1"),
                args: vec![param(false, "arg", Type::I8), param(true, "arg2", Type::I32)],
                ret_ty: any(Type::I32),
                body: block(vec![ret(bin(Expr::Add, cast(var("arg"), Type::I32), var("arg2")))]),
            }),
            any(Stmt::DefFn {
                name: name("main"),
                args: vec![],
                ret_ty: any(Type::I32),
                body: block(vec![
                    defvar(true, "hoge", Type::I32, num(12)),
                    any(Stmt::If {
                        cond: var("hoge"),
                        then: block(vec![ret(num(1))]),
                        els: Some(any(Stmt::If {
                            cond: var("fuga"),
                            then: block(vec![ret(any(Expr::FnCall {
                                name: var("f1"),
                                args: vec![cast(var("fuga"), Type::I8), cast(var("hoge"), Type::I32)],
                            }))]),
                            els: Some(block(vec![ret(bin(
                                Expr::Sub,
                                bin(Expr::Add, bin(Expr::Add, num(1), num(2)), num(2)),
                                bin(Expr::Mul, num(1), var("hoge")),
                            ))])),
                        })),
                    }),
                ]),
            }),
        ],
    };
    assert_eq!(parse("main.mat", code).ok(), Some(expected));
}

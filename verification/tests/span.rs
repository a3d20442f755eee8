use matc::ast::{Expr, Stmt};
use matc::parser::parse;
use matc::span::{Span, SrcId, Spanned};

#[test]
fn union_encloses_both() {
    let src = SrcId::from_path("a.mat");
    let a = Span::new(src, 2, 5);
    let b = Span::new(src, 4, 9);
    let u = a.union(b);
    assert_eq!((u.start(), u.end()), (2, 9));
    assert_eq!(u, b.union(a));
    assert_eq!(a.union(a), a);
    let c = Span::new(src, 0, 1);
    assert_eq!(a.union(b).union(c), a.union(b.union(c)));
    assert_eq!(u.range(), 2..9);
    assert_eq!(u.src(), src);
}

#[test]
fn source_ids() {
    assert_eq!(SrcId::any().display(), "unknown");
    assert_eq!(SrcId::from_path("src/main.mat").display(), "src/main.mat");
    assert_eq!(SrcId::from_path("main.mat"), SrcId::from_path("main.mat"));
    assert_ne!(SrcId::from_path("main.mat"), SrcId::any());
    assert_eq!(Span::any().src(), SrcId::any());
}

#[test]
fn spanned_equality_ignores_spans() {
    let a = Spanned::new(Expr::I32(1), Span::new(SrcId::any(), 0, 1));
    let b = Spanned::new(Expr::I32(1), Span::new(SrcId::any(), 5, 6));
    assert!(a == b);
    assert!(Spanned::any(Expr::I32(1)) != Spanned::any(Expr::I32(2)));
    assert_eq!(*a.value(), Expr::I32(1));
}

#[test]
fn parse_spans_point_into_the_source() {
    let ast = parse("dir/prog.mat", "import std.io;\nlet x: i8 = 10;").unwrap();
    assert_eq!(ast.imports.len(), 1);
    assert_eq!(ast.defs.len(), 1);
    match &*ast.defs[0].value {
        Stmt::DefVar { name, expr, .. } => {
            assert_eq!(*name.value, "x".to_string());
            assert_eq!(name.span.src().display(), "dir/prog.mat");
            assert_eq!((name.span.start(), name.span.end()), (19, 20));
            let e = expr.as_ref().unwrap();
            assert_eq!((e.span.start(), e.span.end()), (27, 29));
        }
        _ => panic!("expected a variable definition"),
    }
}

#[test]
fn parse_error_position() {
    let errors = parse("p.mat", "let a: i8 = 1;\nlet b: i8 = ;").err().unwrap();
    assert_eq!(errors.len(), 1);
    assert_eq!(errors[0].found, Some('l'));
    assert_eq!(errors[0].span.start(), 15);
    assert!(parse("p.mat", "").is_ok());
    // Comments are read around names only, not on their own.
    assert!(parse("p.mat", "  // only a comment\n").is_err());
}

#[test]
fn parse_error_labels() {
    let variable = parse("p.mat", "let a: i8 = 1;\nlet b: i8 = ;").err().unwrap();
    assert_eq!(variable[0].label, Some("variable".to_string()));
    assert_eq!(
        variable[0].report().message,
        "unexpected token while parsing variable, expected something else"
    );
    let import = parse("p.mat", "import std.io:\nlet a: i8 = 1;").err().unwrap();
    assert_eq!(import[0].span.start(), 0);
    assert_eq!(import[0].label, Some("import".to_string()));
    assert_eq!(
        import[0].report().message,
        "unexpected token while parsing import, expected something else"
    );
    // An import after the definitions is not read as one.
    let late = parse("p.mat", "let a: i8 = 1;\nimport std.io;").err().unwrap();
    assert_eq!(late[0].span.start(), 15);
    assert_eq!(late[0].label, None);
    let other = parse("p.mat", "fn f( -> void {}").err().unwrap();
    assert_eq!(other[0].label, None);
    assert_eq!(other[0].report().message, "unexpected token something else, expected something else");
}

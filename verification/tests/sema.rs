use matc::ast::{Ast, Expr, Param, Stmt, Type};
use matc::dereference_checker::DereferenceChecker;
use matc::diag::{Diagnostics, LabelColor, ReportKind, SemanticDiag, SemanticError, SemanticWarning};
use matc::entity::Entity;
use matc::hir::Hir;
use matc::local_resolver::{reaches_string, LocalResolver};
use matc::parser::parse;
use matc::scope::ScopeTree;
use matc::sema::analyze;
use matc::span::{Span, SrcId, Spanned};
use matc::type_resolver::TypeResolver;
use matc::type_table::TypeTable;
use matc::toplevel_scope::ToplevelScope;
use matc::util::pluralize;

fn any<T>(x: T) -> Spanned<T> {
    Spanned::any(x)
}

fn var(n: &str) -> Spanned<Expr> {
    any(Expr::Variable(n.to_string()))
}

fn let_imut_i8(name: &str, expr: Option<Spanned<Expr>>) -> Spanned<Stmt> {
    any(Stmt::DefVar {
        is_mut: false,
        name: any(name.to_string()),
        ty: any(Type::I8),
        expr,
    })
}

// let foo: i8 = 1 != bar | 2 & buz << 3 || qux;
fn let_complex() -> Spanned<Stmt> {
    any(Stmt::DefVar {
        is_mut: false,
        name: any("foo".to_string()),
        ty: any(Type::I8),
        expr: Some(any(Expr::Or(
            any(Expr::Neq(
                any(Expr::I32(1)),
                any(Expr::BitOr(
                    var("bar"), // Undefined variable
                    any(Expr::BitAnd(
                        any(Expr::I32(2)),
                        any(Expr::Shl(
                            var("buz"), // Undefined variable
                            any(Expr::I32(3)),
                        )),
                    )),
                )),
            )),
            var("qux"), // Undefined variable
        ))),
    })
}

fn resolve(defs: Vec<Spanned<Stmt>>) -> SemanticDiag {
    LocalResolver::new().resolve(&mut Hir::from_defs(defs))
}

#[test]
fn test_define_entities() {
    assert_eq!(resolve(vec![]), SemanticDiag::new());
    assert_eq!(
        resolve(vec![let_imut_i8("foo", None)]),
        SemanticDiag {
            warnings: vec![SemanticWarning::UnusedEntity(Span::any())],
            errors: vec![],
        },
    );
    assert_eq!(
        resolve(vec![let_imut_i8("foo", None), let_imut_i8("foo", None)]),
        SemanticDiag {
            warnings: vec![SemanticWarning::UnusedEntity(Span::any())],
            errors: vec![SemanticError::DuplicatedDef(Span::any(), Span::any())],
        },
    );
}

#[test]
fn test_visit_expr() {
    assert_eq!(
        resolve(vec![let_imut_i8("foo", Some(var("bar")))]), // Undefined variable
        SemanticDiag {
            warnings: vec![SemanticWarning::UnusedEntity(Span::any())],
            errors: vec![SemanticError::UnresolvedRef(Span::any())],
        },
    );
    assert_eq!(
        resolve(vec![let_imut_i8("bar", None), let_imut_i8("foo", Some(var("bar")))]),
        SemanticDiag {
            warnings: vec![SemanticWarning::UnusedEntity(Span::any())],
            errors: vec![],
        },
    );
    assert_eq!(
        resolve(vec![let_complex()]),
        SemanticDiag {
            warnings: vec![SemanticWarning::UnusedEntity(Span::any())],
            errors: vec![
                SemanticError::UnresolvedRef(Span::any()),
                SemanticError::UnresolvedRef(Span::any()),
                SemanticError::UnresolvedRef(Span::any())
            ],
        },
    );
    assert_eq!(
        resolve(vec![let_imut_i8("bar", None), let_complex()]),
        SemanticDiag {
            warnings: vec![SemanticWarning::UnusedEntity(Span::any())],
            errors: vec![
                SemanticError::UnresolvedRef(Span::any()),
                SemanticError::UnresolvedRef(Span::any()),
            ],
        },
    );
    assert_eq!(
        resolve(vec![let_imut_i8("bar", None), let_imut_i8("buz", None), let_complex()]),
        SemanticDiag {
            warnings: vec![SemanticWarning::UnusedEntity(Span::any())],
            errors: vec![SemanticError::UnresolvedRef(Span::any())],
        },
    );
    assert_eq!(
        resolve(vec![
            let_imut_i8("bar", None),
            let_imut_i8("buz", None),
            let_imut_i8("qux", None),
            let_complex(),
        ]),
        SemanticDiag {
            warnings: vec![SemanticWarning::UnusedEntity(Span::any())],
            errors: vec![],
        },
    );
}

#[test]
fn test_visit_block() {}

#[test]
fn test_check_recursive_definition_err() {
    let mut type_table = TypeTable::new();

    type_table.insert(any("baz".to_string()), any(Type::User("foo".to_string())));
    type_table.insert(any("bar".to_string()), any(Type::User("baz".to_string())));
    type_table.insert(any("foo".to_string()), any(Type::User("bar".to_string())));

    assert_eq!(
        type_table.semantic_check(),
        Diagnostics {
            warnings: vec![],
            errors: vec![
                SemanticError::RecursiveTypeDef(Span::any(), Span::any()),
                SemanticError::RecursiveTypeDef(Span::any(), Span::any()),
                SemanticError::RecursiveTypeDef(Span::any(), Span::any()),
            ]
        }
    );
}

#[test]
fn test_check_recursive_definition_ok() {
    let mut type_table = TypeTable::new();

    type_table.insert(any("bar".to_string()), any(Type::I8));
    type_table.insert(any("foo".to_string()), any(Type::User("bar".to_string())));
    type_table.insert(any("baz".to_string()), any(Type::I8));
    type_table.insert(any("bar".to_string()), any(Type::User("baz".to_string())));

    assert_eq!(type_table.semantic_check(), Diagnostics::new()); // no err
}

// ---------------------------------------------------------------------------
// Spans that tell definitions apart.

fn at(start: usize, end: usize) -> Span {
    Span::new(SrcId::any(), start, end)
}

fn sp<T>(x: T, start: usize) -> Spanned<T> {
    Spanned::new(x, at(start, start + 1))
}

fn body(stmts: Vec<Spanned<Stmt>>) -> Spanned<Stmt> {
    any(Stmt::Block(stmts))
}

fn def_fn(name: &str, start: usize, args: Vec<Param>, stmts: Vec<Spanned<Stmt>>) -> Spanned<Stmt> {
    any(Stmt::DefFn {
        name: sp(name.to_string(), start),
        args,
        ret_ty: any(Type::Void),
        body: body(stmts),
    })
}

fn local(name: &str, start: usize, expr: Option<Spanned<Expr>>) -> Spanned<Stmt> {
    any(Stmt::DefVar {
        is_mut: false,
        name: sp(name.to_string(), start),
        ty: any(Type::I8),
        expr,
    })
}

fn param(name: &str, start: usize) -> Param {
    Param { is_mut: false, name: sp(name.to_string(), start), ty: any(Type::I8) }
}

#[test]
fn duplicated_definition_spans() {
    let diag = resolve(vec![local("foo", 10, None), local("foo", 20, None)]);
    assert_eq!(diag.errors.len(), 1);
    match diag.errors[0] {
        SemanticError::DuplicatedDef(pre, span) => {
            assert_eq!(pre.start(), 10);
            assert_eq!(span.start(), 20);
        }
        _ => panic!("expected a duplicated definition"),
    }
    // The later definition replaces the earlier one; it is the unused one.
    assert_eq!(diag.warnings.len(), 1);
    match diag.warnings[0] {
        SemanticWarning::UnusedEntity(span) => assert_eq!(span.start(), 20),
    }
}

#[test]
fn forward_reference_at_top_level() {
    // let a: i8 = b; let b: i8; : both defined before any initializer is resolved.
    let diag = resolve(vec![local("a", 1, Some(var("b"))), local("b", 2, None)]);
    assert!(diag.errors.is_empty());
    assert_eq!(diag.warnings.len(), 1);
    match diag.warnings[0] {
        SemanticWarning::UnusedEntity(span) => assert_eq!(span.start(), 1),
    }
}

#[test]
fn block_scopes_and_unused_locals() {
    // fn f(x: i8) { let y: i8 = x; let z: i8 = y; w; }
    let f = def_fn(
        "f",
        1,
        vec![param("x", 2)],
        vec![
            local("y", 3, Some(var("x"))),
            local("z", 4, Some(var("y"))),
            any(Stmt::Expr(sp(Expr::Variable("w".to_string()), 5))),
        ],
    );
    let mut hir = Hir::from_defs(vec![f]);
    let diag = LocalResolver::new().resolve(&mut hir);
    assert_eq!(diag.errors, vec![SemanticError::UnresolvedRef(at(5, 6))]);
    // `f` and `z` are unused; the parameter is never reported.
    assert_eq!(
        diag.warnings,
        vec![SemanticWarning::UnusedEntity(at(1, 2)), SemanticWarning::UnusedEntity(at(4, 5))]
    );
    assert!(hir.scope.is_some());
}

#[test]
fn initializer_is_resolved_before_its_variable() {
    // fn f() { let a: i8 = a; }
    let f = def_fn("f", 1, vec![], vec![local("a", 2, Some(sp(Expr::Variable("a".to_string()), 3)))]);
    let diag = resolve(vec![f]);
    assert_eq!(diag.errors, vec![SemanticError::UnresolvedRef(at(3, 4))]);
}

#[test]
fn inner_block_sees_outer_names() {
    // fn f() { let a: i8; { a; } }  and a call of f at the top level
    let f = def_fn(
        "f",
        1,
        vec![],
        vec![local("a", 2, None), body(vec![any(Stmt::Expr(var("a")))])],
    );
    let g = local("g", 3, Some(any(Expr::FnCall { name: var("f"), args: vec![] })));
    let diag = resolve(vec![f, g]);
    assert!(diag.errors.is_empty());
    assert_eq!(diag.warnings, vec![SemanticWarning::UnusedEntity(at(3, 4))]);
}

#[test]
fn duplicated_parameter() {
    let f = def_fn("f", 1, vec![param("x", 2), param("x", 3)], vec![]);
    let diag = resolve(vec![f]);
    assert_eq!(diag.errors, vec![SemanticError::DuplicatedDef(at(2, 3), at(3, 4))]);
}

#[test]
fn resolver_keeps_earlier_diagnostics() {
    let mut resolver = LocalResolver::new();
    let first = resolver.resolve(&mut Hir::from_defs(vec![local("a", 1, Some(var("nope")))]));
    assert_eq!(first.errors.len(), 1);
    let second = resolver.resolve(&mut Hir::from_defs(vec![local("b", 2, None)]));
    assert_eq!(second.errors.len(), 1);
    assert_eq!(second.warnings.len(), 2);
}

#[test]
fn string_literals_are_detected() {
    let with_string = vec![local("s", 1, Some(any(Expr::String("x".to_string()))))];
    assert!(reaches_string(&with_string));
    // Arguments of a call are not resolved, so a string there is fine.
    let in_args = vec![local(
        "s",
        1,
        Some(any(Expr::FnCall { name: var("f"), args: vec![any(Expr::String("x".to_string()))] })),
    )];
    assert!(!reaches_string(&in_args));
    let in_body = vec![def_fn("f", 1, vec![], vec![any(Stmt::Return(Some(any(Expr::String("x".to_string())))))])];
    assert!(reaches_string(&in_body));
    assert!(!reaches_string(&vec![local("a", 1, None)]));
}

#[test]
fn not_constant_and_not_callable() {
    // let a: i8 = b(); let c: i8 = f(); fn f() {}  let d: i8 = 1; let e: i8 = x + 1;
    let defs = vec![
        local("a", 1, Some(sp(Expr::FnCall { name: sp(Expr::Variable("b".to_string()), 2), args: vec![] }, 3))),
        local("c", 4, Some(sp(Expr::FnCall { name: sp(Expr::Variable("f".to_string()), 5), args: vec![] }, 6))),
        def_fn("f", 7, vec![], vec![]),
        local("d", 8, Some(sp(Expr::I32(1), 9))),
        local("e", 10, Some(sp(Expr::Add(var("x"), any(Expr::I32(1))), 11))),
    ];
    let hir = Hir::from_defs(defs);
    let diag = DereferenceChecker::new(&hir).check();
    assert!(diag.warnings.is_empty());
    assert_eq!(
        diag.errors,
        vec![
            SemanticError::NotCallable(at(2, 3)),
            SemanticError::NotConstant(at(3, 4)),
            SemanticError::NotConstant(at(6, 7)),
            SemanticError::NotConstant(at(11, 12)),
        ]
    );
}

#[test]
fn constants() {
    assert!(Expr::I8(1).is_constant());
    assert!(Expr::U64(1).is_constant());
    assert!(Expr::String("s".to_string()).is_constant());
    assert!(!Expr::Variable("v".to_string()).is_constant());
    assert!(!Expr::Add(any(Expr::I8(1)), any(Expr::I8(2))).is_constant());
    let hir = Hir::from_defs(vec![local("a", 1, Some(sp(Expr::Variable("b".to_string()), 2))), local("c", 3, None)]);
    let vars = hir.defined_variables();
    assert_eq!(vars.len(), 2);
    assert_eq!(vars[0].is_constant(), Err(at(2, 3)));
    assert_eq!(vars[1].is_constant(), Ok(()));
    assert!(vars[1].initializer().is_none());
}

#[test]
fn definitions_and_types() {
    let hir = Hir::from_defs(vec![
        local("a", 1, None),
        any(Stmt::TypeDef { name: sp("t".to_string(), 2), ty: any(Type::I8) }),
        def_fn("f", 3, vec![], vec![]),
        any(Stmt::Empty),
    ]);
    let defs: Vec<Entity> = hir.definitions();
    let names: Vec<String> = defs.iter().map(|e| (*e.name.value).clone()).collect();
    assert_eq!(names, vec!["a".to_string(), "f".to_string()]);
    assert_eq!(defs[0].n_referred, 0);
    let tys = hir.types();
    assert_eq!(tys.len(), 1);
    assert_eq!(*tys[0].name.value, "t".to_string());
}

#[test]
fn entity_counts_references() {
    let mut e = Entity::new(any("a".to_string()), any(Type::I8));
    assert!(!e.is_referred());
    e.referred();
    e.referred();
    assert_eq!(e.n_referred, 2);
    assert!(e.is_referred());
    assert!(Entity::try_from(&Stmt::Empty).is_err());
    let from = Entity::try_from(&Stmt::TypeDef { name: any("t".to_string()), ty: any(Type::I8) });
    assert_eq!(from.err(), Some("Converting into entity is only permitted to DefVar & DefFn"));
}

#[test]
fn scope_tree_define_then_refer() {
    let mut tree = ScopeTree::new();
    let top = tree.new_scope(None);
    let inner = tree.new_scope(Some(top));
    assert_eq!((top, inner), (0, 1));
    assert!(tree.define_entity(top, Entity::new(sp("a".to_string(), 1), any(Type::I8))).is_ok());
    assert!(tree.refer(inner, "a", at(9, 10)).is_ok());
    assert_eq!(tree.entities[0].n_referred, 1);
    assert_eq!(tree.refer(top, "b", at(9, 10)), Err(SemanticError::UnresolvedRef(at(9, 10))));
    assert_eq!(
        tree.define_entity(top, Entity::new(sp("a".to_string(), 2), any(Type::I8))),
        Err(SemanticError::DuplicatedDef(at(1, 2), at(2, 3)))
    );
    // A name defined in the inner scope is not seen from the top level.
    assert!(tree.define_entity(inner, Entity::new(sp("c".to_string(), 3), any(Type::I8))).is_ok());
    assert!(tree.refer(top, "c", at(9, 10)).is_err());
}

#[test]
fn type_table_insert_then_get() {
    let mut table = TypeTable::new();
    table.insert(sp("t".to_string(), 1), any(Type::I8));
    table.insert(sp("t".to_string(), 2), any(Type::U8));
    let (key, ty) = table.get_key_value(&"t".to_string()).unwrap();
    assert_eq!(key.span, at(1, 2));
    assert_eq!(*ty.value, Type::U8);
    assert!(table.contains_key(&"t".to_string()));
    assert!(table.get(&"u".to_string()).is_none());
}

#[test]
fn self_recursive_type() {
    let mut table = TypeTable::new();
    table.insert(any("t".to_string()), sp(Type::User("t".to_string()), 5));
    let diag = table.semantic_check();
    assert_eq!(diag.errors, vec![SemanticError::RecursiveTypeDef(at(5, 6), at(5, 6))]);
}

#[test]
fn type_resolution() {
    // type a = b; type a = i8; let v: c = 1 as d; fn f(x: e) -> a {}
    let hir_defs = vec![
        any(Stmt::TypeDef { name: sp("a".to_string(), 1), ty: sp(Type::User("b".to_string()), 2) }),
        any(Stmt::TypeDef { name: sp("a".to_string(), 3), ty: any(Type::I8) }),
        any(Stmt::DefVar {
            is_mut: false,
            name: any("v".to_string()),
            ty: sp(Type::User("c".to_string()), 4),
            expr: Some(any(Expr::As(any(Expr::I32(1)), sp(Type::User("d".to_string()), 5)))),
        }),
        any(Stmt::DefFn {
            name: any("f".to_string()),
            args: vec![Param { is_mut: false, name: any("x".to_string()), ty: sp(Type::User("e".to_string()), 6) }],
            ret_ty: sp(Type::User("a".to_string()), 7),
            body: body(vec![]),
        }),
    ];
    let mut hir = Hir::from_defs(hir_defs);
    let mut resolver = TypeResolver::new(TypeTable::new());
    let diag = resolver.resolve(&mut hir);
    assert_eq!(
        diag.errors,
        vec![
            SemanticError::DuplicatedType(at(1, 2), at(3, 4)),
            SemanticError::UnresolvedType(at(2, 3)),
            SemanticError::UnresolvedType(at(4, 5)),
            SemanticError::UnresolvedType(at(5, 6)),
            SemanticError::UnresolvedType(at(6, 7)),
        ]
    );
    let table = resolver.into_table();
    assert_eq!(*table.get(&"a".to_string()).unwrap().value, Type::I8);
}

#[test]
fn analyze_a_program() {
    let ast = parse("main.mat", "let a: i8 = 1;\nfn main() -> void { let b: i8 = a; }").unwrap();
    assert!(!reaches_string(&ast.defs));
    let (warnings, result) = analyze(ast);
    assert!(result.is_ok());
    // `main` and `b` are never used.
    assert_eq!(warnings.len(), 2);
}

#[test]
fn analyze_stops_at_resolution_errors() {
    let ast = Ast { imports: vec![], defs: vec![local("a", 1, Some(sp(Expr::FnCall { name: var("g"), args: vec![] }, 2)))] };
    let (warnings, result) = analyze(ast);
    assert_eq!(warnings.len(), 1);
    assert_eq!(result.err(), Some(vec![SemanticError::UnresolvedRef(Span::any())]));
}

#[test]
fn analyze_reports_non_constants() {
    let ast = Ast { imports: vec![], defs: vec![local("a", 1, Some(sp(Expr::Variable("a2".to_string()), 2))), local("a2", 3, None)] };
    let (warnings, result) = analyze(ast);
    assert_eq!(warnings, vec![SemanticWarning::UnusedEntity(at(1, 2))]);
    assert_eq!(result.err(), Some(vec![SemanticError::NotConstant(at(2, 3))]));
}

#[test]
fn reports_of_diagnostics() {
    let w = SemanticWarning::UnusedEntity(at(1, 2)).report();
    assert_eq!(w.kind, ReportKind::Warning);
    assert_eq!(w.message, "Unused entity");
    assert_eq!(w.labels.len(), 1);
    assert_eq!(w.labels[0].color, LabelColor::Yellow);
    let e = SemanticError::DuplicatedDef(at(1, 2), at(3, 4)).report();
    assert_eq!(e.kind, ReportKind::Error);
    assert_eq!(e.span, at(3, 4));
    assert_eq!(e.message, "Duplicated definition");
    assert_eq!(e.labels[0].message, Some("previous definition".to_string()));
    assert_eq!(e.labels[1].message, Some("redefined here".to_string()));
    let n = SemanticError::NotConstant(at(5, 6)).report();
    assert_eq!(n.message, "Not a constant");
    assert_eq!(n.notes[0].text, "toplevel definitions should be constants");
    assert_eq!(SemanticError::NotCallable(at(1, 2)).report().message, "Not callable");
    assert_eq!(SemanticError::UnresolvedType(at(1, 2)).report().message, "Unresolved type");
    assert_eq!(SemanticError::RecursiveTypeDef(at(1, 2), at(1, 2)).report().message, "Recursive type definition");
    assert_eq!(SemanticError::DuplicatedType(at(1, 2), at(3, 4)).report().message, "Duplicated type");
    assert_eq!(SemanticError::UnresolvedRef(at(1, 2)).report().labels[0].message, Some("undefined ident".to_string()));
}

#[test]
fn diagnostics_count_ignores_warnings() {
    let mut d: SemanticDiag = Diagnostics::new();
    d.push_warn(SemanticWarning::UnusedEntity(Span::any()));
    assert_eq!(d.count(), 0);
    assert!(!d.has_err());
    d.push_err(SemanticError::NotCallable(Span::any()));
    assert_eq!(d.count(), 1);
    assert!(d.has_err());
}

#[test]
fn pluralize_words() {
    assert_eq!(pluralize("entity", 2), "entities");
    assert_eq!(pluralize("error", 3), "errors");
    assert_eq!(pluralize("error", 1), "error");
    assert_eq!(pluralize("warning", 0), "warning");
}

#[test]
fn toplevel_resolve_stops_at_first_duplicate() {
    let ok = Ast { imports: vec![], defs: vec![local("a", 1, None), def_fn("f", 2, vec![], vec![])] };
    assert_eq!(matc::local::resolve(ok), Ok(()));
    let dup = Ast {
        imports: vec![],
        defs: vec![local("a", 1, None), local("a", 2, None), local("a", 3, None)],
    };
    assert_eq!(matc::local::resolve(dup), Err(SemanticError::DuplicatedDef(at(1, 2), at(2, 3))));
}

#[test]
fn toplevel_scope_defines_names() {
    let mut top = ToplevelScope::new();
    assert!(ToplevelScope::is_toplevel());
    assert!(top.parent().is_none());
    assert!(top.define_entity(Entity::new(sp("a".to_string(), 1), any(Type::I8))).is_ok());
    assert_eq!(
        top.define_entity(Entity::new(sp("a".to_string(), 5), any(Type::I8))),
        Err(SemanticError::DuplicatedDef(at(1, 2), at(5, 6)))
    );
}

#[test]
fn parse_error_report() {
    let errors = parse("bad.mat", "let a: i8 = 1; ?").err().unwrap();
    assert_eq!(errors.len(), 1);
    assert_eq!(errors[0].found, Some('?'));
    assert_eq!(errors[0].span.start(), 15);
    let report = errors[0].report();
    assert_eq!(report.kind, ReportKind::Error);
    assert_eq!(report.message, "unexpected token something else, expected something else");
    assert_eq!(report.labels[0].message, Some("Unexpected token ?".to_string()));
    assert_eq!(report.labels[0].color, LabelColor::Default);
    assert_eq!(report.span.src().display(), "bad.mat");
}

#[test]
fn unused_checks_skip_every_other_level() {
    // fn f() { { let a: i8; { let b: i8; } } }
    // top level (checked) > parameters (skipped) > body (checked)
    // > block (skipped) > block (checked)
    let inner = body(vec![local("b", 3, None)]);
    let middle = body(vec![local("a", 2, None), inner]);
    let f = def_fn("f", 1, vec![], vec![middle]);
    let diag = resolve(vec![f]);
    assert!(diag.errors.is_empty());
    assert_eq!(
        diag.warnings,
        vec![SemanticWarning::UnusedEntity(at(1, 2)), SemanticWarning::UnusedEntity(at(3, 4))]
    );
}

use nameres::ast::{
    Block, CallableDecl, Expr, ExprKind, Ident, Item, ItemKind, Namespace, Package, Pat, PatKind,
    Path, QubitInit, QubitInitKind, Span, SpecBody, SpecDecl, Stmt, StmtKind, Ty, TyKind,
    VisibilityKind,
};
use nameres::names::{DefId, Error, PackageSrc};
use nameres::resolve::resolve;
use nameres::resolver::{GlobalTable, Resolver};
use nameres::tables::{Globals, OpenTable};

fn sp(lo: u32, hi: u32) -> Span {
    Span { lo, hi }
}

fn ident(id: u32, lo: u32, name: &str) -> Ident {
    Ident { id, span: sp(lo, lo + name.len() as u32), name: name.to_string() }
}

fn path(id: u32, lo: u32, ns: Option<&str>, name: &str) -> Path {
    let namespace = ns.map(|n| ident(id + 1, lo, n));
    let name_lo = match ns {
        Some(n) => lo + n.len() as u32 + 1,
        None => lo,
    };
    Path {
        id,
        span: sp(lo, name_lo + name.len() as u32),
        namespace,
        name: ident(id + 2, name_lo, name),
    }
}

fn path_expr(id: u32, lo: u32, ns: Option<&str>, name: &str) -> Expr {
    let p = path(id, lo, ns, name);
    let span = p.span;
    Expr { id: id + 3, span, kind: ExprKind::Path(p) }
}

fn unit_pat(id: u32, lo: u32) -> Pat {
    Pat { id, span: sp(lo, lo), kind: PatKind::Tuple(Vec::new()) }
}

fn bind_pat(id: u32, lo: u32, name: &str) -> Pat {
    let name_ident = ident(id + 1, lo, name);
    let span = name_ident.span;
    Pat { id, span, kind: PatKind::Bind(name_ident, None) }
}

fn block(id: u32, lo: u32, stmts: Vec<Stmt>) -> Block {
    Block { id, span: sp(lo, lo + 50), stmts }
}

fn expr_stmt(id: u32, e: Expr) -> Stmt {
    let span = e.span;
    Stmt { id, span, kind: StmtKind::Expr(e) }
}

/// A callable whose single specialization's body holds the given statements.
fn callable(id: u32, lo: u32, name: &str, stmts: Vec<Stmt>) -> CallableDecl {
    CallableDecl {
        id,
        span: sp(lo, lo + 60),
        name: ident(id + 1, lo, name),
        input: unit_pat(id + 2, lo),
        specs: vec![SpecDecl {
            id: id + 3,
            span: sp(lo, lo + 60),
            body: SpecBody::Impl(
                Pat { id: id + 4, span: sp(lo, lo), kind: PatKind::Elided },
                block(id + 5, lo, stmts),
            ),
        }],
    }
}

fn callable_item(id: u32, lo: u32, name: &str, stmts: Vec<Stmt>) -> Item {
    let decl = callable(id + 1, lo, name, stmts);
    Item { id, span: decl.span, visibility: None, kind: ItemKind::Callable(decl) }
}

/// A callable declared with no body tree, as library intrinsics are.
fn intrinsic_item(id: u32, lo: u32, name: &str) -> Item {
    let decl = CallableDecl {
        id: id + 1,
        span: sp(lo, lo + 20),
        name: ident(id + 2, lo, name),
        input: unit_pat(id + 3, lo),
        specs: vec![SpecDecl { id: id + 4, span: sp(lo, lo + 20), body: SpecBody::Extern }],
    };
    Item { id, span: sp(lo, lo + 20), visibility: None, kind: ItemKind::Callable(decl) }
}

fn open_item(id: u32, lo: u32, ns: &str, alias: Option<&str>) -> Item {
    let name = ident(id + 1, lo, ns);
    let alias_ident = alias.map(|a| ident(id + 2, lo + 30, a));
    Item { id, span: sp(lo, lo + 40), visibility: None, kind: ItemKind::Open(name, alias_ident) }
}

fn namespace(id: u32, lo: u32, name: &str, items: Vec<Item>) -> Namespace {
    Namespace { id, span: sp(lo, lo + 100), name: ident(id + 1, lo, name), items }
}

fn package(namespaces: Vec<Namespace>) -> Package {
    Package { id: 0, namespaces }
}

/// The standard-library package the evaluation tests link against: the Math
/// namespace of intrinsic operations, plus an Intrinsic namespace.
fn math_stdlib() -> Package {
    let names = [
        "ArcCos", "ArcSin", "ArcTan", "ArcTan2", "Cos", "Cosh", "Sin", "Sinh", "Tan", "Tanh",
        "PI",
    ];
    let mut items = Vec::new();
    let mut id = 1000;
    let mut lo = 0;
    for name in names {
        items.push(intrinsic_item(id, lo, name));
        id += 10;
        lo += 30;
    }
    let math = namespace(2000, 0, "Microsoft.Quantum.Math", items);
    let intrinsic = namespace(
        2100,
        500,
        "Microsoft.Quantum.Intrinsic",
        vec![intrinsic_item(2110, 510, "X"), intrinsic_item(2120, 540, "Message")],
    );
    package(vec![math, intrinsic])
}

/// The node id of the stdlib declaration of the given Math operation.
fn math_decl_node(name: &str) -> u32 {
    let names = [
        "ArcCos", "ArcSin", "ArcTan", "ArcTan2", "Cos", "Cosh", "Sin", "Sinh", "Tan", "Tanh",
        "PI",
    ];
    let idx = names.iter().position(|n| *n == name).unwrap() as u32;
    1000 + 10 * idx + 2
}

/// Resolves `Microsoft.Quantum.Math.<name>(<arg>)` in a fresh package linked
/// against the stdlib and checks the call's path lands on the stdlib
/// declaration.
fn check_math_call(name: &str) {
    let call = Expr {
        id: 60,
        span: sp(100, 140),
        kind: ExprKind::Call(
            Box::new(path_expr(50, 100, Some("Microsoft.Quantum.Math"), name)),
            Box::new(Expr { id: 61, span: sp(138, 141), kind: ExprKind::Lit }),
        ),
    };
    let local = package(vec![namespace(
        10,
        0,
        "Test",
        vec![callable_item(20, 10, "Main", vec![expr_stmt(40, call)])],
    )]);
    let mut table = GlobalTable::new();
    table.visit_package(&local);
    table.set_package(0);
    table.visit_package(&math_stdlib());
    let mut resolver = table.into_resolver();
    resolver.visit_package(&local);
    assert!(resolver.errors().is_empty());
    let got = resolver.resolutions().get(50);
    let want = DefId { package: PackageSrc::Extern(0), node: math_decl_node(name) };
    assert_eq!(got, Some(want));
}

#[test]
fn arccos() {
    check_math_call("ArcCos");
}

#[test]
fn arcsin() {
    check_math_call("ArcSin");
}

#[test]
fn arctan() {
    check_math_call("ArcTan");
}

#[test]
fn arctan2() {
    check_math_call("ArcTan2");
}

#[test]
fn cos() {
    check_math_call("Cos");
}

#[test]
fn cosh() {
    check_math_call("Cosh");
}

#[test]
fn sin() {
    check_math_call("Sin");
}

#[test]
fn sinh() {
    check_math_call("Sinh");
}

#[test]
fn tan() {
    check_math_call("Tan");
}

#[test]
fn tanh() {
    check_math_call("Tanh");
}

/// A local binding shadows a namespace item of the same name and anything
/// brought in by opens.
#[test]
fn local_shadows_namespace_item_and_open() {
    // namespace Test { operation Foo(); operation Main { let Foo = ...; Foo } }
    // namespace Lib { operation Foo(); }  with `open Lib;` in Test.
    let let_stmt = Stmt {
        id: 40,
        span: sp(20, 30),
        kind: StmtKind::Local(
            bind_pat(41, 20, "Foo"),
            Expr { id: 43, span: sp(26, 27), kind: ExprKind::Lit },
        ),
    };
    let use_stmt = expr_stmt(44, path_expr(45, 31, None, "Foo"));
    let local = package(vec![
        namespace(
            10,
            0,
            "Test",
            vec![
                open_item(11, 0, "Lib", None),
                intrinsic_item(14, 2, "Foo"),
                callable_item(20, 10, "Main", vec![let_stmt, use_stmt]),
            ],
        ),
        namespace(70, 200, "Lib", vec![intrinsic_item(71, 210, "Foo")]),
    ]);
    let mut table = GlobalTable::new();
    table.visit_package(&local);
    let mut resolver = table.into_resolver();
    resolver.visit_package(&local);
    assert!(resolver.errors().is_empty());
    // node 42 is the bound name's ident inside the `let` pattern
    assert_eq!(
        resolver.resolutions().get(45),
        Some(DefId { package: PackageSrc::Local, node: 42 })
    );
}

/// An item of the enclosing namespace shadows a same-named item of an opened
/// namespace.
#[test]
fn own_namespace_shadows_open() {
    let use_stmt = expr_stmt(44, path_expr(45, 31, None, "Foo"));
    let local = package(vec![
        namespace(
            10,
            0,
            "Test",
            vec![
                open_item(11, 0, "Lib", None),
                intrinsic_item(14, 2, "Foo"),
                callable_item(20, 10, "Main", vec![use_stmt]),
            ],
        ),
        namespace(70, 200, "Lib", vec![intrinsic_item(71, 210, "Foo")]),
    ]);
    let mut table = GlobalTable::new();
    table.visit_package(&local);
    let mut resolver = table.into_resolver();
    resolver.visit_package(&local);
    assert!(resolver.errors().is_empty());
    // node 16 is Test's own Foo declaration name; Lib's is 73
    assert_eq!(
        resolver.resolutions().get(45),
        Some(DefId { package: PackageSrc::Local, node: 16 })
    );
}

/// Opening two namespaces that resolve a name to the identical definition is
/// not ambiguous.
#[test]
fn duplicate_open_definitions_collapse() {
    let the_def = DefId { package: PackageSrc::Extern(0), node: 9 };
    let mut globals = Globals::new();
    globals.bind("B".to_string(), "Foo".to_string(), the_def);
    globals.bind("C".to_string(), "Foo".to_string(), the_def);
    let mut opens = OpenTable::new();
    opens.add(String::new(), "B".to_string(), sp(0, 7));
    opens.add(String::new(), "C".to_string(), sp(8, 15));
    let p = path(50, 20, None, "Foo");
    let r = resolve(&globals, &opens, &"Test".to_string(), &Vec::new(), &p);
    assert_eq!(r, Ok(the_def));
}

/// Opening two namespaces that declare distinct definitions of the name is
/// ambiguous: one error, citing the two opening directives in source order.
#[test]
fn distinct_open_definitions_are_ambiguous() {
    let use_stmt = expr_stmt(44, path_expr(45, 31, None, "Foo"));
    let local = package(vec![
        namespace(
            10,
            0,
            "Test",
            vec![
                open_item(11, 0, "B", None),
                open_item(17, 50, "C", None),
                callable_item(20, 100, "Main", vec![use_stmt]),
            ],
        ),
        namespace(70, 200, "B", vec![intrinsic_item(71, 210, "Foo")]),
        namespace(80, 300, "C", vec![intrinsic_item(81, 310, "Foo")]),
    ]);
    let mut table = GlobalTable::new();
    table.visit_package(&local);
    let mut resolver = table.into_resolver();
    resolver.visit_package(&local);
    let p = path(45, 31, None, "Foo");
    // the spans cited are those of the opened namespaces' names, in source order
    let open_b_span = ident(12, 0, "B").span;
    let open_c_span = ident(18, 50, "C").span;
    assert_eq!(
        resolver.errors().as_slice(),
        &[Error::Ambiguous("Foo".to_string(), p.span, open_b_span, open_c_span)]
    );
    assert_eq!(resolver.resolutions().get(45), None);
}

/// A name only a prelude namespace defines resolves to the prelude
/// definition with no open in sight.
#[test]
fn prelude_fallback() {
    let the_def = DefId { package: PackageSrc::Extern(0), node: 33 };
    let mut globals = Globals::new();
    globals.bind("Microsoft.Quantum.Core".to_string(), "Length".to_string(), the_def);
    let opens = OpenTable::new();
    let p = path(50, 20, None, "Length");
    let r = resolve(&globals, &opens, &"Test".to_string(), &Vec::new(), &p);
    assert_eq!(r, Ok(the_def));
}

/// A fully qualified path resolves against the global table with no `open`
/// for its namespace.
#[test]
fn qualified_path_needs_no_open() {
    let the_def = DefId { package: PackageSrc::Extern(2), node: 5 };
    let mut globals = Globals::new();
    globals.bind("Far.Away".to_string(), "Thing".to_string(), the_def);
    let opens = OpenTable::new();
    let p = path(50, 20, Some("Far.Away"), "Thing");
    let r = resolve(&globals, &opens, &"Test".to_string(), &Vec::new(), &p);
    assert_eq!(r, Ok(the_def));
}

/// An undeclared name yields exactly one `NotFound` error citing the
/// occurrence's own span.
#[test]
fn undeclared_name_not_found() {
    let use_stmt = expr_stmt(44, path_expr(45, 31, None, "Nowhere"));
    let local = package(vec![namespace(
        10,
        0,
        "Test",
        vec![callable_item(20, 10, "Main", vec![use_stmt])],
    )]);
    let mut table = GlobalTable::new();
    table.visit_package(&local);
    let mut resolver = table.into_resolver();
    resolver.visit_package(&local);
    let p = path(45, 31, None, "Nowhere");
    assert_eq!(
        resolver.errors().as_slice(),
        &[Error::NotFound("Nowhere".to_string(), p.span)]
    );
    assert_eq!(resolver.resolutions().get(45), None);
}

/// The end-to-end example: `open Microsoft.Quantum.Intrinsic;` makes an
/// unqualified `X` resolve to the intrinsic declaration; removing the open
/// turns the same reference into a `NotFound` at the reference's span.
#[test]
fn open_then_use_intrinsic_end_to_end() {
    let with_open = package(vec![namespace(
        10,
        0,
        "Test",
        vec![
            open_item(11, 0, "Microsoft.Quantum.Intrinsic", None),
            callable_item(20, 40, "Foo", vec![expr_stmt(44, path_expr(45, 50, None, "X"))]),
        ],
    )]);
    let mut table = GlobalTable::new();
    table.visit_package(&with_open);
    table.set_package(0);
    table.visit_package(&math_stdlib());
    let mut resolver = table.into_resolver();
    resolver.visit_package(&with_open);
    assert!(resolver.errors().is_empty());
    assert_eq!(
        resolver.resolutions().get(45),
        Some(DefId { package: PackageSrc::Extern(0), node: 2112 })
    );

    // Without the open, and with no prelude namespace defining `X` in the
    // linked packages, the same reference fails at its own span.
    let without_open = package(vec![namespace(
        10,
        0,
        "Test",
        vec![callable_item(20, 40, "Foo", vec![expr_stmt(44, path_expr(45, 50, None, "X"))])],
    )]);
    let bare_stdlib = package(vec![namespace(
        70,
        200,
        "Microsoft.Quantum.Measurement",
        vec![intrinsic_item(71, 210, "X")],
    )]);
    let mut table = GlobalTable::new();
    table.visit_package(&without_open);
    table.set_package(0);
    table.visit_package(&bare_stdlib);
    let mut resolver = table.into_resolver();
    resolver.visit_package(&without_open);
    let p = path(45, 50, None, "X");
    assert_eq!(
        resolver.errors().as_slice(),
        &[Error::NotFound("X".to_string(), p.span)]
    );
}

/// After walking a tree of nested blocks, loops and lambdas, the lexical
/// scope stack is empty again.
#[test]
fn scope_stack_balances() {
    let lambda_body = path_expr(90, 80, None, "y");
    let lambda = Expr {
        id: 93,
        span: sp(75, 85),
        kind: ExprKind::Lambda(bind_pat(94, 75, "y"), Box::new(lambda_body)),
    };
    let for_loop = Expr {
        id: 96,
        span: sp(60, 90),
        kind: ExprKind::For(
            bind_pat(97, 60, "i"),
            Box::new(Expr { id: 99, span: sp(65, 66), kind: ExprKind::Lit }),
            block(100, 70, vec![expr_stmt(101, lambda)]),
        ),
    };
    let inner_block = Expr {
        id: 103,
        span: sp(55, 95),
        kind: ExprKind::Block(block(104, 55, vec![expr_stmt(105, for_loop)])),
    };
    let local = package(vec![namespace(
        10,
        0,
        "Test",
        vec![callable_item(20, 10, "Main", vec![expr_stmt(44, inner_block)])],
    )]);
    let mut table = GlobalTable::new();
    table.visit_package(&local);
    let mut resolver = table.into_resolver();
    resolver.visit_package(&local);
    assert!(resolver.locals.is_empty());
    assert!(resolver.errors().is_empty());
}

/// A local item and an externally linked item that share a node id value
/// never collide: the origin tells them apart.
#[test]
fn same_node_id_different_packages() {
    let local_def = DefId { package: PackageSrc::Local, node: 7 };
    let extern_def = DefId { package: PackageSrc::Extern(0), node: 7 };
    assert_ne!(local_def, extern_def);

    let mut globals = Globals::new();
    globals.bind("Mine".to_string(), "F".to_string(), local_def);
    globals.bind("Theirs".to_string(), "F".to_string(), extern_def);
    let opens = OpenTable::new();
    let mine = resolve(
        &globals,
        &opens,
        &"Test".to_string(),
        &Vec::new(),
        &path(50, 20, Some("Mine"), "F"),
    );
    let theirs = resolve(
        &globals,
        &opens,
        &"Test".to_string(),
        &Vec::new(),
        &path(60, 40, Some("Theirs"), "F"),
    );
    assert_eq!(mine, Ok(local_def));
    assert_eq!(theirs, Ok(extern_def));
    assert_ne!(mine, theirs);
}

/// A qubit allocation's bindings cover the rest of the block, but not the
/// initializer that produced the allocation.
#[test]
fn qubit_binding_not_visible_in_initializer() {
    let init = QubitInit {
        id: 46,
        span: sp(25, 30),
        kind: QubitInitKind::Array(Box::new(path_expr(47, 26, None, "q"))),
    };
    let qubit_stmt = Stmt {
        id: 40,
        span: sp(20, 35),
        kind: StmtKind::Qubit(bind_pat(41, 20, "q"), init, None),
    };
    let use_stmt = expr_stmt(50, path_expr(51, 40, None, "q"));
    let local = package(vec![namespace(
        10,
        0,
        "Test",
        vec![callable_item(20, 10, "Main", vec![qubit_stmt, use_stmt])],
    )]);
    let mut table = GlobalTable::new();
    table.visit_package(&local);
    let mut resolver = table.into_resolver();
    resolver.visit_package(&local);
    // the initializer's `q` is unresolved; the later use sees the binding
    let p = path(47, 26, None, "q");
    assert_eq!(
        resolver.errors().as_slice(),
        &[Error::NotFound("q".to_string(), p.span)]
    );
    assert_eq!(
        resolver.resolutions().get(51),
        Some(DefId { package: PackageSrc::Local, node: 42 })
    );
}

/// An aliased open is reachable only through its alias.
#[test]
fn aliased_open_uses_alias() {
    let good = expr_stmt(44, path_expr(45, 31, Some("Math"), "ArcCos"));
    let local = package(vec![namespace(
        10,
        0,
        "Test",
        vec![
            open_item(11, 0, "Microsoft.Quantum.Math", Some("Math")),
            callable_item(20, 10, "Main", vec![good]),
        ],
    )]);
    let mut table = GlobalTable::new();
    table.visit_package(&local);
    table.set_package(0);
    table.visit_package(&math_stdlib());
    let mut resolver = table.into_resolver();
    resolver.visit_package(&local);
    assert!(resolver.errors().is_empty());
    assert_eq!(
        resolver.resolutions().get(45),
        Some(DefId { package: PackageSrc::Extern(0), node: math_decl_node("ArcCos") })
    );
}

/// An internal item of a linked package is invisible to the importing
/// package; a local internal item is not filtered.
#[test]
fn internal_items_of_linked_packages_are_hidden() {
    let mut hidden = intrinsic_item(71, 210, "Secret");
    hidden.visibility = Some(VisibilityKind::Internal);
    let dep = package(vec![namespace(70, 200, "Lib", vec![hidden])]);
    let use_stmt = expr_stmt(44, path_expr(45, 31, Some("Lib"), "Secret"));
    let local = package(vec![namespace(
        10,
        0,
        "Test",
        vec![callable_item(20, 10, "Main", vec![use_stmt])],
    )]);
    let mut table = GlobalTable::new();
    table.visit_package(&local);
    table.set_package(0);
    table.visit_package(&dep);
    let mut resolver = table.into_resolver();
    resolver.visit_package(&local);
    let p = path(45, 31, Some("Lib"), "Secret");
    assert_eq!(
        resolver.errors().as_slice(),
        &[Error::NotFound("Secret".to_string(), p.span)]
    );
}

/// A type declaration's name is visible in both type and term position; a
/// type annotation resolves against the type table.
#[test]
fn type_declaration_feeds_both_tables() {
    let ty_item = Item {
        id: 14,
        span: sp(2, 8),
        visibility: None,
        kind: ItemKind::Ty(
            ident(15, 2, "Pair"),
            Ty { id: 16, span: sp(5, 8), kind: TyKind::Hole },
        ),
    };
    let annotated = Stmt {
        id: 40,
        span: sp(20, 35),
        kind: StmtKind::Local(
            Pat {
                id: 41,
                span: sp(20, 30),
                kind: PatKind::Bind(
                    ident(42, 20, "p"),
                    Some(Ty {
                        id: 46,
                        span: sp(24, 28),
                        kind: TyKind::Path(path(47, 24, None, "Pair")),
                    }),
                ),
            },
            path_expr(50, 32, None, "Pair"),
        ),
    };
    let local = package(vec![namespace(
        10,
        0,
        "Test",
        vec![ty_item, callable_item(20, 10, "Main", vec![annotated])],
    )]);
    let mut table = GlobalTable::new();
    table.visit_package(&local);
    let mut resolver = table.into_resolver();
    resolver.visit_package(&local);
    assert!(resolver.errors().is_empty());
    let decl = DefId { package: PackageSrc::Local, node: 15 };
    assert_eq!(resolver.resolutions().get(47), Some(decl));
    assert_eq!(resolver.resolutions().get(50), Some(decl));
}

/// Errors accumulate in walk order and can be cleared for a re-run over the
/// same resolver state.
#[test]
fn errors_accumulate_and_reset() {
    let first = expr_stmt(44, path_expr(45, 31, None, "Missing1"));
    let second = expr_stmt(48, path_expr(49, 60, None, "Missing2"));
    let local = package(vec![namespace(
        10,
        0,
        "Test",
        vec![callable_item(20, 10, "Main", vec![first, second])],
    )]);
    let mut table = GlobalTable::new();
    table.visit_package(&local);
    let mut resolver = table.into_resolver();
    resolver.visit_package(&local);
    let p1 = path(45, 31, None, "Missing1");
    let p2 = path(49, 60, None, "Missing2");
    assert_eq!(
        resolver.errors().as_slice(),
        &[
            Error::NotFound("Missing1".to_string(), p1.span),
            Error::NotFound("Missing2".to_string(), p2.span),
        ]
    );
    resolver.reset_errors();
    assert!(resolver.errors().is_empty());
    resolver.visit_package(&local);
    assert_eq!(resolver.errors().len(), 2);
}

/// A late-added global callable becomes resolvable and resolves to itself.
#[test]
fn add_global_callable_binds_and_self_resolves() {
    let table = GlobalTable::new();
    let mut resolver: Resolver = table.into_resolver();
    resolver.namespace = "Test".to_string();
    let decl = callable(20, 10, "Added", Vec::new());
    resolver.add_global_callable(&decl);
    let decl_def = DefId { package: PackageSrc::Local, node: 21 };
    assert_eq!(resolver.resolutions().get(21), Some(decl_def));

    let r = resolve(
        &resolver.terms,
        &resolver.opens,
        &resolver.namespace,
        &Vec::new(),
        &path(50, 30, Some("Test"), "Added"),
    );
    assert_eq!(r, Ok(decl_def));
}

/// The resolution map answers for resolved nodes only, and the resolver can
/// be consumed for its outputs.
#[test]
fn resolutions_map_and_into_resolutions() {
    let use_stmt = expr_stmt(44, path_expr(45, 31, None, "Foo"));
    let local = package(vec![namespace(
        10,
        0,
        "Test",
        vec![intrinsic_item(14, 2, "Foo"), callable_item(20, 10, "Main", vec![use_stmt])],
    )]);
    let mut table = GlobalTable::new();
    table.visit_package(&local);
    let mut resolver = table.into_resolver();
    resolver.visit_package(&local);
    let (resolutions, errors) = resolver.into_resolutions();
    assert!(errors.is_empty());
    assert_eq!(
        resolutions.get(45),
        Some(DefId { package: PackageSrc::Local, node: 16 })
    );
    assert_eq!(resolutions.get(999), None);
}

/// A `repeat` group shares one scope between its body, its condition and the
/// fixup block: a name bound in the body is visible in both.
#[test]
fn repeat_scope_covers_condition_and_fixup() {
    let bind = Stmt {
        id: 40,
        span: sp(20, 30),
        kind: StmtKind::Local(
            bind_pat(41, 20, "flag"),
            Expr { id: 43, span: sp(26, 27), kind: ExprKind::Lit },
        ),
    };
    let cond = path_expr(50, 40, None, "flag");
    let fixup_use = expr_stmt(54, path_expr(55, 60, None, "flag"));
    let repeat = Expr {
        id: 58,
        span: sp(15, 70),
        kind: ExprKind::Repeat(
            block(59, 15, vec![bind]),
            Box::new(cond),
            Some(block(60, 55, vec![fixup_use])),
        ),
    };
    let local = package(vec![namespace(
        10,
        0,
        "Test",
        vec![callable_item(20, 10, "Main", vec![expr_stmt(44, repeat)])],
    )]);
    let mut table = GlobalTable::new();
    table.visit_package(&local);
    let mut resolver = table.into_resolver();
    resolver.visit_package(&local);
    assert!(resolver.errors().is_empty());
    let bound = DefId { package: PackageSrc::Local, node: 42 };
    assert_eq!(resolver.resolutions().get(50), Some(bound));
    assert_eq!(resolver.resolutions().get(55), Some(bound));
    assert!(resolver.locals.is_empty());
}

/// Within one scope a later binding of the same name shadows the earlier
/// one; an inner scope's binding shadows the outer one only inside it.
#[test]
fn later_and_inner_bindings_shadow() {
    let first_let = Stmt {
        id: 40,
        span: sp(20, 25),
        kind: StmtKind::Local(
            bind_pat(41, 20, "x"),
            Expr { id: 43, span: sp(24, 25), kind: ExprKind::Lit },
        ),
    };
    let second_let = Stmt {
        id: 44,
        span: sp(26, 31),
        kind: StmtKind::Local(
            bind_pat(45, 26, "x"),
            Expr { id: 47, span: sp(30, 31), kind: ExprKind::Lit },
        ),
    };
    let inner_let = Stmt {
        id: 48,
        span: sp(36, 41),
        kind: StmtKind::Local(
            bind_pat(49, 36, "x"),
            Expr { id: 51, span: sp(40, 41), kind: ExprKind::Lit },
        ),
    };
    let inner_use = expr_stmt(52, path_expr(53, 42, None, "x"));
    let inner = Expr {
        id: 57,
        span: sp(35, 45),
        kind: ExprKind::Block(block(58, 35, vec![inner_let, inner_use])),
    };
    let outer_use = expr_stmt(60, path_expr(61, 46, None, "x"));
    let local = package(vec![namespace(
        10,
        0,
        "Test",
        vec![callable_item(
            20,
            10,
            "Main",
            vec![first_let, second_let, expr_stmt(59, inner), outer_use],
        )],
    )]);
    let mut table = GlobalTable::new();
    table.visit_package(&local);
    let mut resolver = table.into_resolver();
    resolver.visit_package(&local);
    assert!(resolver.errors().is_empty());
    // inside the inner block, the inner binding wins
    assert_eq!(
        resolver.resolutions().get(53),
        Some(DefId { package: PackageSrc::Local, node: 50 })
    );
    // after it, the second outer binding wins over the first
    assert_eq!(
        resolver.resolutions().get(61),
        Some(DefId { package: PackageSrc::Local, node: 46 })
    );
}

/// An empty package resolves to nothing and leaves no state behind.
#[test]
fn empty_package_is_a_clean_walk() {
    let empty = package(Vec::new());
    let mut table = GlobalTable::new();
    table.visit_package(&empty);
    let mut resolver = table.into_resolver();
    resolver.visit_package(&empty);
    assert!(resolver.errors().is_empty());
    assert!(resolver.locals.is_empty());
    assert_eq!(resolver.resolutions().get(0), None);
}

/// A specialization with its own input pattern shadows the callable's
/// parameter for its body only.
#[test]
fn specialization_input_shadows_parameter() {
    // operation Main(q) { body(alt) { alt } }
    let alt_use = expr_stmt(44, path_expr(45, 40, None, "arg"));
    let decl = CallableDecl {
        id: 21,
        span: sp(10, 70),
        name: ident(22, 10, "Main"),
        input: bind_pat(23, 15, "arg"),
        specs: vec![SpecDecl {
            id: 26,
            span: sp(20, 70),
            body: SpecBody::Impl(bind_pat(27, 25, "arg"), block(30, 30, vec![alt_use])),
        }],
    };
    let item = Item { id: 20, span: sp(10, 70), visibility: None, kind: ItemKind::Callable(decl) };
    let local = package(vec![namespace(10, 0, "Test", vec![item])]);
    let mut table = GlobalTable::new();
    table.visit_package(&local);
    let mut resolver = table.into_resolver();
    resolver.visit_package(&local);
    assert!(resolver.errors().is_empty());
    // node 28 is the specialization's own binding; node 24 the parameter's
    assert_eq!(
        resolver.resolutions().get(45),
        Some(DefId { package: PackageSrc::Local, node: 28 })
    );
    assert!(resolver.locals.is_empty());
}

/// The iterated expression of a `for` loop is resolved in the enclosing
/// scope: the loop variable is not visible in it.
#[test]
fn for_loop_variable_not_visible_in_iterated_expression() {
    let for_loop = Expr {
        id: 96,
        span: sp(20, 60),
        kind: ExprKind::For(
            bind_pat(97, 20, "i"),
            Box::new(path_expr(99, 25, None, "i")),
            block(103, 30, vec![expr_stmt(104, path_expr(105, 35, None, "i"))]),
        ),
    };
    let local = package(vec![namespace(
        10,
        0,
        "Test",
        vec![callable_item(20, 10, "Main", vec![expr_stmt(44, for_loop)])],
    )]);
    let mut table = GlobalTable::new();
    table.visit_package(&local);
    let mut resolver = table.into_resolver();
    resolver.visit_package(&local);
    let p = path(99, 25, None, "i");
    assert_eq!(
        resolver.errors().as_slice(),
        &[Error::NotFound("i".to_string(), p.span)]
    );
    assert_eq!(
        resolver.resolutions().get(105),
        Some(DefId { package: PackageSrc::Local, node: 98 })
    );
}

/// With more than two conflicting opens, the error still cites exactly the
/// two earliest directives by source position, in increasing order.
#[test]
fn many_conflicting_opens_cite_the_two_earliest() {
    let id_b = DefId { package: PackageSrc::Extern(0), node: 1 };
    let id_c = DefId { package: PackageSrc::Extern(0), node: 2 };
    let id_d = DefId { package: PackageSrc::Extern(0), node: 3 };
    let mut globals = Globals::new();
    globals.bind("B".to_string(), "Foo".to_string(), id_b);
    globals.bind("C".to_string(), "Foo".to_string(), id_c);
    globals.bind("D".to_string(), "Foo".to_string(), id_d);
    // registered out of span order: B's directive is last in the source
    let mut opens = OpenTable::new();
    opens.add(String::new(), "B".to_string(), sp(100, 101));
    opens.add(String::new(), "C".to_string(), sp(0, 1));
    opens.add(String::new(), "D".to_string(), sp(50, 51));
    let p = path(50, 200, None, "Foo");
    let r = resolve(&globals, &opens, &"Test".to_string(), &Vec::new(), &p);
    assert_eq!(
        r,
        Err(Error::Ambiguous("Foo".to_string(), p.span, sp(0, 1), sp(50, 51)))
    );
}

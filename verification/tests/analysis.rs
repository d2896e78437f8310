//! End-to-end tests of the analysis over in-memory workspaces: modules are
//! built as syntax trees, the filesystem is a value listing files,
//! directories and declaration-map artifacts.

use unused_exports::AnalyzeOptions;
use unused_exports::AnalyzedPackage;
use unused_exports::Decl;
use unused_exports::Expr;
use unused_exports::FileIndex;
use unused_exports::Import;
use unused_exports::ImportDecl;
use unused_exports::MemberProp;
use unused_exports::Module;
use unused_exports::ModuleDecl;
use unused_exports::ModuleItem;
use unused_exports::SourceMap;
use unused_exports::Stmt;
use unused_exports::Symbol;
use unused_exports::VarDeclarator;
use unused_exports::analyze_package;
use unused_exports::filter_ignored;
use unused_exports::find_unused_exports;

fn s(x: &str) -> String {
    x.to_string()
}

fn export_var(name: &str) -> ModuleItem {
    ModuleItem::ModuleDecl(ModuleDecl::ExportDecl(Decl::Var(vec![VarDeclarator {
        name: s(name),
        init: None,
    }])))
}

fn export_default() -> ModuleItem {
    ModuleItem::ModuleDecl(ModuleDecl::ExportDefaultExpr(Box::new(Expr::Lit)))
}

fn export_all(from: &str) -> ModuleItem {
    ModuleItem::ModuleDecl(ModuleDecl::ExportAll(s(from)))
}

fn import_named(names: &[&str], from: &str) -> ModuleItem {
    ModuleItem::ModuleDecl(ModuleDecl::Import(ImportDecl {
        from: s(from),
        specifiers: names.iter().map(|n| Import::Named(s(n))).collect(),
    }))
}

fn import_default(local: &str, from: &str) -> ModuleItem {
    ModuleItem::ModuleDecl(ModuleDecl::Import(ImportDecl {
        from: s(from),
        specifiers: vec![Import::Default(s(local))],
    }))
}

fn import_namespace(local: &str, from: &str) -> ModuleItem {
    ModuleItem::ModuleDecl(ModuleDecl::Import(ImportDecl {
        from: s(from),
        specifiers: vec![Import::Namespace(s(local))],
    }))
}

fn member_use(alias: &str, member: &str) -> ModuleItem {
    ModuleItem::Stmt(Stmt::Expr(Box::new(Expr::Member(
        Box::new(Expr::Ident(s(alias))),
        MemberProp::Ident(s(member)),
    ))))
}

fn index_of(files: &[&str], dirs: &[&str]) -> FileIndex {
    FileIndex {
        files: files.iter().map(|f| s(f)).collect(),
        dirs: dirs.iter().map(|d| s(d)).collect(),
        maps: vec![],
    }
}

fn no_options() -> AnalyzeOptions {
    AnalyzeOptions { ignore_patterns: vec![], exclude_patterns: vec![] }
}

fn analyze_one(
    index: &FileIndex,
    options: &AnalyzeOptions,
    files: Vec<(String, Module)>,
) -> AnalyzedPackage {
    analyze_package(&s("ws"), &None, options, &vec![], index, &files)
        .expect("package analysis failed")
}

fn report_pairs(packages: &Vec<AnalyzedPackage>) -> Vec<(String, String)> {
    let unused = find_unused_exports(packages).expect("analysis failed");
    let mut pairs: Vec<(String, String)> = unused
        .iter()
        .map(|u| {
            let sym = match &u.symbol {
                Symbol::Default => s("<default>"),
                Symbol::Symbol(n) => n.clone(),
            };
            (u.filename.clone(), sym)
        })
        .collect();
    pairs.sort();
    pairs
}

#[test]
fn relative_imports() {
    let index = index_of(&["ws/src/a.ts", "ws/src/b.ts"], &["ws", "ws/src"]);
    let files = vec![
        (s("ws/src/a.ts"), Module { body: vec![export_var("x")] }),
        (s("ws/src/b.ts"), Module { body: vec![import_named(&["x"], "./a")] }),
    ];
    let pkg = analyze_one(&index, &no_options(), files);
    let unused = find_unused_exports(&vec![pkg]).unwrap();
    assert_eq!(unused.len(), 0);
}

#[test]
fn find_unused_exports_reexported_symbols() {
    let index = index_of(
        &[
            "ws/src/app.ts",
            "ws/src/sub-module/index.ts",
            "ws/src/sub-module/module.ts",
        ],
        &["ws", "ws/src", "ws/src/sub-module"],
    );
    let files = vec![
        (
            s("ws/src/sub-module/module.ts"),
            Module { body: vec![export_var("x")] },
        ),
        (
            s("ws/src/sub-module/index.ts"),
            Module { body: vec![export_all("./module")] },
        ),
        (
            s("ws/src/app.ts"),
            Module { body: vec![import_named(&["x"], "./sub-module")] },
        ),
    ];
    let pkg = analyze_one(&index, &no_options(), files);
    let unused = find_unused_exports(&vec![pkg]).unwrap();
    assert_eq!(unused.len(), 0);
}

#[test]
fn namespace_import() {
    let index = index_of(&["ws/src/app.ts", "ws/src/another.ts"], &["ws", "ws/src"]);
    let files = vec![
        (s("ws/src/another.ts"), Module { body: vec![export_var("x")] }),
        (
            s("ws/src/app.ts"),
            Module { body: vec![import_namespace("A", "./another"), member_use("A", "x")] },
        ),
    ];
    let pkg = analyze_one(&index, &no_options(), files);
    let unused = find_unused_exports(&vec![pkg]).unwrap();
    assert_eq!(unused.len(), 0);
}

#[test]
fn default_import() {
    let index = index_of(&["ws/src/app.ts", "ws/src/lib.ts"], &["ws", "ws/src"]);
    let files = vec![
        (s("ws/src/lib.ts"), Module { body: vec![export_default()] }),
        (
            s("ws/src/app.ts"),
            Module { body: vec![import_default("lib", "./lib")] },
        ),
    ];
    let pkg = analyze_one(&index, &no_options(), files);
    assert_eq!(pkg.modules.len(), 2);
    let unused = find_unused_exports(&vec![pkg]).unwrap();
    assert_eq!(unused.len(), 0);
}

#[test]
fn analysis_is_idempotent() {
    let index = index_of(&["ws/src/a.ts", "ws/src/b.ts"], &["ws", "ws/src"]);
    let files = vec![
        (
            s("ws/src/a.ts"),
            Module { body: vec![export_var("x"), export_var("dead")] },
        ),
        (s("ws/src/b.ts"), Module { body: vec![import_named(&["x"], "./a")] }),
    ];
    let pkg1 = analyze_one(&index, &no_options(), files);
    let packages = vec![pkg1];
    let first = report_pairs(&packages);
    let second = report_pairs(&packages);
    assert_eq!(first, second);
    assert_eq!(first, vec![(s("ws/src/a.ts"), s("dead"))]);
}

#[test]
fn named_import_counts_without_reference() {
    // Merely importing the name marks it used; the body never mentions it.
    let index = index_of(&["ws/src/a.ts", "ws/src/b.ts"], &["ws", "ws/src"]);
    let files = vec![
        (s("ws/src/a.ts"), Module { body: vec![export_var("x")] }),
        (
            s("ws/src/b.ts"),
            Module { body: vec![import_named(&["x"], "./a"), ModuleItem::Stmt(Stmt::Empty)] },
        ),
    ];
    let pkg = analyze_one(&index, &no_options(), files);
    assert_eq!(report_pairs(&vec![pkg]), vec![]);
}

#[test]
fn namespace_precision_reports_unused_member() {
    // A exports x and y; only NS.x is referenced: y is unused, x is not.
    let index = index_of(&["ws/src/a.ts", "ws/src/b.ts"], &["ws", "ws/src"]);
    let files = vec![
        (
            s("ws/src/a.ts"),
            Module { body: vec![export_var("x"), export_var("y")] },
        ),
        (
            s("ws/src/b.ts"),
            Module { body: vec![import_namespace("NS", "./a"), member_use("NS", "x")] },
        ),
    ];
    let pkg = analyze_one(&index, &no_options(), files);
    assert_eq!(report_pairs(&vec![pkg]), vec![(s("ws/src/a.ts"), s("y"))]);
}

#[test]
fn namespace_import_without_usage_hides_nothing() {
    // A namespace import with zero recorded usages marks nothing used.
    let index = index_of(&["ws/src/a.ts", "ws/src/b.ts"], &["ws", "ws/src"]);
    let files = vec![
        (s("ws/src/a.ts"), Module { body: vec![export_var("x")] }),
        (
            s("ws/src/b.ts"),
            Module { body: vec![import_namespace("NS", "./a")] },
        ),
    ];
    let pkg = analyze_one(&index, &no_options(), files);
    assert_eq!(report_pairs(&vec![pkg]), vec![(s("ws/src/a.ts"), s("x"))]);
}

#[test]
fn wildcard_reexport_transitivity() {
    // A exports x; B re-exports all of A; C imports x from B: A's x is used.
    let index = index_of(
        &["ws/src/a.ts", "ws/src/b.ts", "ws/src/c.ts"],
        &["ws", "ws/src"],
    );
    let files = vec![
        (s("ws/src/a.ts"), Module { body: vec![export_var("x")] }),
        (s("ws/src/b.ts"), Module { body: vec![export_all("./a")] }),
        (s("ws/src/c.ts"), Module { body: vec![import_named(&["x"], "./b")] }),
    ];
    let pkg = analyze_one(&index, &no_options(), files);
    assert_eq!(report_pairs(&vec![pkg]), vec![]);
}

#[test]
fn unresolved_specifier_is_diagnostic_not_fatal() {
    let index = index_of(&["ws/src/a.ts"], &["ws", "ws/src"]);
    let files = vec![(
        s("ws/src/a.ts"),
        Module { body: vec![export_var("x"), import_named(&["q"], "./missing")] },
    )];
    let pkg = analyze_one(&index, &no_options(), files);
    assert_eq!(pkg.unresolved_paths, vec![s("./missing")]);
    // The run completes; the dropped edge marks nothing used.
    assert_eq!(report_pairs(&vec![pkg]), vec![(s("ws/src/a.ts"), s("x"))]);
}

#[test]
fn ignore_suppresses_report_but_not_raw_count() {
    let index = index_of(&["ws/src/a.ts"], &["ws", "ws/src"]);
    let files = vec![(s("ws/src/a.ts"), Module { body: vec![export_var("dead")] })];
    let pkg = analyze_one(&index, &no_options(), files);
    let raw = find_unused_exports(&vec![pkg]).unwrap();
    assert_eq!(raw.len(), 1);
    let filtered = filter_ignored(&raw, &vec![s("src/a")]);
    assert_eq!(filtered.len(), 0);
    let kept = filter_ignored(&raw, &vec![s("elsewhere")]);
    assert_eq!(kept.len(), 1);
}

#[test]
fn exclude_removes_file_from_graph() {
    // With b.ts in the graph, a.ts's export is used; excluding b.ts makes
    // the export show up as unused.
    let index = index_of(&["ws/src/a.ts", "ws/src/b.ts"], &["ws", "ws/src"]);
    let make_files = || {
        vec![
            (s("ws/src/a.ts"), Module { body: vec![export_var("x")] }),
            (s("ws/src/b.ts"), Module { body: vec![import_named(&["x"], "./a")] }),
        ]
    };
    let with_b = analyze_one(&index, &no_options(), make_files());
    assert_eq!(report_pairs(&vec![with_b]), vec![]);

    let exclude = AnalyzeOptions { ignore_patterns: vec![], exclude_patterns: vec![s("b\\.ts")] };
    let without_b = analyze_one(&index, &exclude, make_files());
    assert_eq!(without_b.modules.len(), 1);
    assert_eq!(report_pairs(&vec![without_b]), vec![(s("ws/src/a.ts"), s("x"))]);
}

#[test]
fn default_marker_never_conflated_with_named_default() {
    // The module has a default export and a named export literally called
    // "default"; a default import reaches only the default marker.
    let index = index_of(&["ws/src/a.ts", "ws/src/b.ts"], &["ws", "ws/src"]);
    let files = vec![
        (
            s("ws/src/a.ts"),
            Module { body: vec![export_default(), export_var("default")] },
        ),
        (
            s("ws/src/b.ts"),
            Module { body: vec![import_default("a", "./a")] },
        ),
    ];
    let pkg = analyze_one(&index, &no_options(), files);
    let unused = find_unused_exports(&vec![pkg]).unwrap();
    assert_eq!(unused.len(), 1);
    assert_eq!(unused[0].symbol, Symbol::Symbol(s("default")));
    assert_eq!(unused[0].filename, s("ws/src/a.ts"));
}

#[test]
fn default_export_reported_with_marker() {
    let index = index_of(&["ws/src/a.ts"], &["ws", "ws/src"]);
    let files = vec![(s("ws/src/a.ts"), Module { body: vec![export_default()] })];
    let pkg = analyze_one(&index, &no_options(), files);
    // A default export is indirection-free but unnamed: it is not a named
    // export, so it is not a candidate pair of the difference.
    assert_eq!(report_pairs(&vec![pkg]), vec![]);
}

#[test]
fn cross_package_named_import() {
    // Two packages; a module of the second imports from the first by a
    // relative path within the shared tree.
    let index = index_of(
        &["ws/p1/src/a.ts", "ws/p2/src/b.ts"],
        &["ws", "ws/p1", "ws/p1/src", "ws/p2", "ws/p2/src"],
    );
    let files1 = vec![(s("ws/p1/src/a.ts"), Module { body: vec![export_var("x")] })];
    let files2 = vec![(
        s("ws/p2/src/b.ts"),
        Module { body: vec![import_named(&["x"], "../../p1/src/a")] },
    )];
    let pkg1 = analyze_package(&s("ws/p1"), &None, &no_options(), &vec![], &index, &files1)
        .unwrap();
    let pkg2 = analyze_package(&s("ws/p2"), &None, &no_options(), &vec![], &index, &files2)
        .unwrap();
    assert_eq!(report_pairs(&vec![pkg1, pkg2]), vec![]);
}

#[test]
fn missing_graph_target_is_fatal() {
    // b.ts forwards a module that resolved but was never analyzed into the
    // graph; a named import that needs the hop makes this fatal.
    let index = index_of(
        &["ws/src/b.ts", "ws/src/c.ts", "ws/src/outside.ts"],
        &["ws", "ws/src"],
    );
    let files = vec![
        (s("ws/src/b.ts"), Module { body: vec![export_all("./outside")] }),
        (s("ws/src/c.ts"), Module { body: vec![import_named(&["x"], "./b")] }),
    ];
    let pkg = analyze_one(&index, &no_options(), files);
    let r = find_unused_exports(&vec![pkg]);
    assert!(matches!(
        r,
        Err(unused_exports::AnalysisError::MissingModule(p)) if p == s("ws/src/outside.ts")
    ));
}

#[test]
fn missing_graph_target_is_fatal_without_importer() {
    // The graph-closure check is eager: a forwarding export whose resolved
    // target is absent from the graph is fatal even when no import ever
    // examines the hop.
    let index = index_of(&["ws/src/b.ts", "ws/src/outside.ts"], &["ws", "ws/src"]);
    let files = vec![(s("ws/src/b.ts"), Module { body: vec![export_all("./outside")] })];
    let pkg = analyze_one(&index, &no_options(), files);
    let r = find_unused_exports(&vec![pkg]);
    assert!(matches!(
        r,
        Err(unused_exports::AnalysisError::MissingModule(p)) if p == s("ws/src/outside.ts")
    ));
}

#[test]
fn unresolved_package_import_is_diagnostic_not_fatal() {
    // A specifier matching a workspace package name that resolves to
    // nothing is a diagnostic like any other unresolved specifier.
    let index = index_of(&["ws/app/src/main.ts"], &["ws", "ws/app", "ws/app/src"]);
    let packages = vec![unused_exports::Package {
        path: s("ws/packages/corelib"),
        package_json: unused_exports::PackageJson {
            name: s("corelib"),
            workspaces: None,
            types: None,
        },
        tsconfig: None,
    }];
    let files = vec![(
        s("ws/app/src/main.ts"),
        Module { body: vec![import_named(&["x"], "corelib")] },
    )];
    let pkg = analyze_package(&s("ws/app"), &None, &no_options(), &packages, &index, &files)
        .unwrap();
    assert_eq!(pkg.unresolved_paths, vec![s("corelib")]);
    assert_eq!(report_pairs(&vec![pkg]), vec![]);
}

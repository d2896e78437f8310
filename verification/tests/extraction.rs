//! Tests of the symbol extractor and the namespace usage walk over single
//! modules.

use unused_exports::AnalyzeOptions;
use unused_exports::ArrowBody;
use unused_exports::Callee;
use unused_exports::Decl;
use unused_exports::Expr;
use unused_exports::ExportSpecifier;
use unused_exports::FileIndex;
use unused_exports::Function;
use unused_exports::Import;
use unused_exports::ImportDecl;
use unused_exports::ImportedSymbol;
use unused_exports::Export;
use unused_exports::MemberProp;
use unused_exports::Module;
use unused_exports::ModuleDecl;
use unused_exports::ModuleItem;
use unused_exports::Stmt;
use unused_exports::Usage;
use unused_exports::VarDeclarator;
use unused_exports::analyze_file;
use unused_exports::analyze_package;

fn s(x: &str) -> String {
    x.to_string()
}

fn ns_import(local: &str, from: &str) -> ModuleItem {
    ModuleItem::ModuleDecl(ModuleDecl::Import(ImportDecl {
        from: s(from),
        specifiers: vec![Import::Namespace(s(local))],
    }))
}

fn member(alias: &str, prop: &str) -> Expr {
    Expr::Member(Box::new(Expr::Ident(s(alias))), MemberProp::Ident(s(prop)))
}

#[test]
fn analyze_file_namespace_imports() {
    let module = Module { body: vec![ns_import("A", "./another")] };
    let analyzed = analyze_file(&s("ws/src/app.ts"), &module);
    assert_eq!(
        analyzed.symbols.imports,
        vec![ImportedSymbol { from: s("./another"), symbols: vec![Import::Namespace(s("A"))] }]
    );
}

#[test]
fn analyze_file_reexported_symbols() {
    let module = Module {
        body: vec![ModuleItem::ModuleDecl(ModuleDecl::ExportAll(s("./module")))],
    };
    let analyzed = analyze_file(&s("ws/src/sub-module/index.ts"), &module);
    assert_eq!(analyzed.symbols.exports, vec![Export::AllFrom(s("./module"))]);
}

#[test]
fn usage_walk_reaches_nested_expressions() {
    // The alias is dereferenced inside an if test, a function body, an
    // arrow body and a call argument; all four members are recorded.
    let module = Module {
        body: vec![
            ns_import("NS", "./lib"),
            ModuleItem::Stmt(Stmt::If(
                Box::new(member("NS", "a")),
                Box::new(Stmt::Expr(Box::new(member("NS", "b")))),
                None,
            )),
            ModuleItem::Stmt(Stmt::Decl(Decl::Fn(
                s("f"),
                Function { body: Some(vec![Stmt::Return(Some(Box::new(member("NS", "c"))))]) },
            ))),
            ModuleItem::Stmt(Stmt::Expr(Box::new(Expr::Call(
                Callee::Expr(Box::new(Expr::Arrow(ArrowBody::Expr(Box::new(member(
                    "NS", "d",
                )))))),
                vec![],
            )))),
        ],
    };
    let analyzed = analyze_file(&s("ws/src/app.ts"), &module);
    let mut members: Vec<String> = analyzed
        .symbols
        .usages
        .iter()
        .map(|u| match u {
            Usage::Namespace(m, a) => {
                assert_eq!(a, &s("NS"));
                m.clone()
            },
            Usage::Symbol(m) => m.clone(),
        })
        .collect();
    members.sort();
    assert_eq!(members, vec![s("a"), s("b"), s("c"), s("d")]);
}

#[test]
fn member_access_of_plain_identifier_records_nothing() {
    let module = Module {
        body: vec![
            ns_import("NS", "./lib"),
            ModuleItem::Stmt(Stmt::Expr(Box::new(member("other", "a")))),
        ],
    };
    let analyzed = analyze_file(&s("ws/src/app.ts"), &module);
    assert_eq!(analyzed.symbols.usages.len(), 0);
}

#[test]
fn named_export_list_uses_exported_alias() {
    let module = Module {
        body: vec![ModuleItem::ModuleDecl(ModuleDecl::ExportNamed(vec![
            ExportSpecifier { orig: s("inner"), exported: Some(s("outer")) },
            ExportSpecifier { orig: s("plain"), exported: None },
        ]))],
    };
    let analyzed = analyze_file(&s("ws/src/a.ts"), &module);
    let mut names: Vec<String> = analyzed
        .symbols
        .exports
        .iter()
        .map(|e| match e {
            Export::Symbol(n) => n.clone(),
            _ => panic!("unexpected export"),
        })
        .collect();
    names.sort();
    assert_eq!(names, vec![s("outer"), s("plain")]);
}

#[test]
fn var_declaration_exports_each_declarator() {
    let module = Module {
        body: vec![ModuleItem::ModuleDecl(ModuleDecl::ExportDecl(Decl::Var(vec![
            VarDeclarator { name: s("a"), init: None },
            VarDeclarator { name: s("b"), init: Some(Expr::Lit) },
        ])))],
    };
    let analyzed = analyze_file(&s("ws/src/a.ts"), &module);
    assert_eq!(analyzed.symbols.exports.len(), 2);
}

#[test]
fn analyze_package_namespace_imports() {
    let index = FileIndex {
        files: vec![s("ws/src/app.ts"), s("ws/src/another.ts")],
        dirs: vec![s("ws"), s("ws/src")],
        maps: vec![],
    };
    let files = vec![
        (
            s("ws/src/another.ts"),
            Module {
                body: vec![ModuleItem::ModuleDecl(ModuleDecl::ExportDecl(Decl::Var(vec![
                    VarDeclarator { name: s("x"), init: None },
                ])))],
            },
        ),
        (
            s("ws/src/app.ts"),
            Module {
                body: vec![
                    ns_import("A", "./another"),
                    ModuleItem::Stmt(Stmt::Expr(Box::new(member("A", "x")))),
                ],
            },
        ),
    ];
    let options = AnalyzeOptions { ignore_patterns: vec![], exclude_patterns: vec![] };
    let pkg = analyze_package(&s("ws"), &None, &options, &vec![], &index, &files).unwrap();
    assert_eq!(pkg.modules.len(), 2);
    let app = pkg.modules.iter().find(|m| m.path == s("ws/src/app.ts")).unwrap();
    assert_eq!(
        app.symbols.imports,
        vec![ImportedSymbol {
            from: s("ws/src/another.ts"),
            symbols: vec![Import::Namespace(s("A"))],
        }]
    );
}

#[test]
fn computed_member_property_is_walked() {
    // o[NS.x]: the computed property expression is a sub-expression the
    // walk must reach.
    let module = Module {
        body: vec![
            ns_import("NS", "./lib"),
            ModuleItem::Stmt(Stmt::Expr(Box::new(Expr::Member(
                Box::new(Expr::Ident(s("o"))),
                MemberProp::Computed(Box::new(member("NS", "x"))),
            )))),
        ],
    };
    let analyzed = analyze_file(&s("ws/src/app.ts"), &module);
    assert_eq!(analyzed.symbols.usages, vec![Usage::Namespace(s("x"), s("NS"))]);
}

#[test]
fn optional_chain_is_walked() {
    let module = Module {
        body: vec![
            ns_import("NS", "./lib"),
            ModuleItem::Stmt(Stmt::Expr(Box::new(Expr::OptChain(Box::new(member(
                "NS", "y",
            )))))),
        ],
    };
    let analyzed = analyze_file(&s("ws/src/app.ts"), &module);
    assert_eq!(analyzed.symbols.usages, vec![Usage::Namespace(s("y"), s("NS"))]);
}

#[test]
fn jsx_embedded_expressions_are_walked() {
    // <NS.Comp prop={NS.z}/>: the element name and the attribute value are
    // member accesses through the namespace alias.
    let module = Module {
        body: vec![
            ns_import("NS", "./lib"),
            ModuleItem::Stmt(Stmt::Expr(Box::new(Expr::JsxElement(vec![
                member("NS", "Comp"),
                member("NS", "z"),
            ])))),
        ],
    };
    let analyzed = analyze_file(&s("ws/src/app.ts"), &module);
    let mut members: Vec<String> = analyzed
        .symbols
        .usages
        .iter()
        .map(|u| match u {
            Usage::Namespace(m, _) => m.clone(),
            Usage::Symbol(m) => m.clone(),
        })
        .collect();
    members.sort();
    assert_eq!(members, vec![s("Comp"), s("z")]);
}

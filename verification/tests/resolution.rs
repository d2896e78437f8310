//! Tests of the import path resolver, the path helpers and the report
//! shaping.

use unused_exports::FileIndex;
use unused_exports::Package;
use unused_exports::PackageJson;
use unused_exports::ResolveError;
use unused_exports::SourceMap;
use unused_exports::Symbol;
use unused_exports::TsConfig;
use unused_exports::TsConfigCompilerOptions;
use unused_exports::UnusedExport;
use unused_exports::canonical_path;
use unused_exports::group_by_path;
use unused_exports::pattern_is_valid;
use unused_exports::pattern_matches;
use unused_exports::prepare_analyze_plan;
use unused_exports::resolve_import_path;
use unused_exports::wildcard_folder;

fn s(x: &str) -> String {
    x.to_string()
}

fn index_of(files: &[&str], dirs: &[&str]) -> FileIndex {
    FileIndex {
        files: files.iter().map(|f| s(f)).collect(),
        dirs: dirs.iter().map(|d| s(d)).collect(),
        maps: vec![],
    }
}

fn resolve(current: &str, import: &str, index: &FileIndex) -> Option<String> {
    resolve_import_path(&s(current), &s(import), &None, &s("ws"), &vec![], index).unwrap()
}

#[test]
fn extension_order_prefers_ts() {
    let index = index_of(&["ws/src/x.ts", "ws/src/x.js"], &["ws", "ws/src"]);
    assert_eq!(resolve("ws/src/app.ts", "./x", &index), Some(s("ws/src/x.ts")));
}

#[test]
fn exact_extension_wins_over_suffixing() {
    let index = index_of(&["ws/src/x.ts", "ws/src/x.ts.ts"], &["ws", "ws/src"]);
    assert_eq!(resolve("ws/src/app.ts", "./x.ts", &index), Some(s("ws/src/x.ts")));
}

#[test]
fn directory_resolves_to_index_file() {
    let index = index_of(&["ws/src/lib/index.ts"], &["ws", "ws/src", "ws/src/lib"]);
    assert_eq!(resolve("ws/src/app.ts", "./lib", &index), Some(s("ws/src/lib/index.ts")));
}

#[test]
fn parent_relative_specifier() {
    let index = index_of(&["ws/src/a.ts", "ws/other/b.ts"], &["ws", "ws/src", "ws/other"]);
    assert_eq!(resolve("ws/src/a.ts", "../other/b", &index), Some(s("ws/other/b.ts")));
}

#[test]
fn missing_file_is_unresolved() {
    let index = index_of(&["ws/src/a.ts"], &["ws", "ws/src"]);
    assert_eq!(resolve("ws/src/a.ts", "./nope", &index), None);
}

#[test]
fn bare_specifier_without_alias_base_is_unresolved() {
    let index = index_of(&["ws/src/a.ts", "ws/src/index.ts"], &["ws", "ws/src"]);
    assert_eq!(resolve("ws/src/a.ts", "react", &index), None);
}

#[test]
fn alias_base_resolves_bare_specifier() {
    let index = index_of(&["ws/lib/util.ts", "ws/src/a.ts"], &["ws", "ws/lib", "ws/src"]);
    let tsconfig = Some(TsConfig {
        compiler_options: Some(TsConfigCompilerOptions {
            base_url: Some(s("lib")),
            out_dir: None,
        }),
    });
    let r = resolve_import_path(&s("ws/src/a.ts"), &s("util"), &tsconfig, &s("ws"), &vec![], &index)
        .unwrap();
    assert_eq!(r, Some(s("ws/lib/util.ts")));
}

fn monorepo_packages() -> Vec<Package> {
    vec![Package {
        path: s("ws/packages/corelib"),
        package_json: PackageJson {
            name: s("corelib"),
            workspaces: None,
            types: Some(s("dist/index.d.ts")),
        },
        tsconfig: None,
    }]
}

#[test]
fn monorepo_package_entry_resolves_through_declaration_map() {
    let index = FileIndex {
        files: vec![s("ws/packages/corelib/src/index.ts")],
        dirs: vec![s("ws"), s("ws/packages"), s("ws/packages/corelib")],
        maps: vec![(
            s("ws/packages/corelib/dist/index.d.ts.map"),
            SourceMap { sources: vec![s("../src/index.ts")] },
        )],
    };
    let r = resolve_import_path(
        &s("ws/app/main.ts"),
        &s("corelib"),
        &None,
        &s("ws/app"),
        &monorepo_packages(),
        &index,
    )
    .unwrap();
    assert_eq!(r, Some(s("ws/packages/corelib/src/index.ts")));
}

#[test]
fn monorepo_sub_path_resolves_through_declaration_map() {
    let index = FileIndex {
        files: vec![s("ws/packages/corelib/src/util.ts")],
        dirs: vec![s("ws"), s("ws/packages"), s("ws/packages/corelib")],
        maps: vec![(
            s("ws/packages/corelib/dist/util.d.ts.map"),
            SourceMap { sources: vec![s("../src/util.ts")] },
        )],
    };
    let r = resolve_import_path(
        &s("ws/app/main.ts"),
        &s("corelib/dist/util"),
        &None,
        &s("ws/app"),
        &monorepo_packages(),
        &index,
    )
    .unwrap();
    assert_eq!(r, Some(s("ws/packages/corelib/src/util.ts")));
}

#[test]
fn ambiguous_declaration_map_is_fatal() {
    let index = FileIndex {
        files: vec![s("ws/packages/corelib/src/index.ts")],
        dirs: vec![s("ws"), s("ws/packages"), s("ws/packages/corelib")],
        maps: vec![(
            s("ws/packages/corelib/dist/index.d.ts.map"),
            SourceMap { sources: vec![s("../src/index.ts"), s("../src/other.ts")] },
        )],
    };
    let r = resolve_import_path(
        &s("ws/app/main.ts"),
        &s("corelib"),
        &None,
        &s("ws/app"),
        &monorepo_packages(),
        &index,
    );
    assert!(matches!(r, Err(ResolveError::AmbiguousDeclarationMap(_))));
}

#[test]
fn package_without_types_entry_probes_package_root() {
    // No types entry and no artifact: the specifier is rewritten to the
    // package root, whose index file resolves it.
    let packages = vec![Package {
        path: s("ws/packages/corelib"),
        package_json: PackageJson { name: s("corelib"), workspaces: None, types: None },
        tsconfig: None,
    }];
    let index = FileIndex {
        files: vec![s("ws/packages/corelib/index.ts")],
        dirs: vec![s("ws"), s("ws/packages"), s("ws/packages/corelib")],
        maps: vec![],
    };
    let r = resolve_import_path(
        &s("ws/app/main.ts"),
        &s("corelib"),
        &None,
        &s("ws/app"),
        &packages,
        &index,
    )
    .unwrap();
    assert_eq!(r, Some(s("ws/packages/corelib/index.ts")));

    let empty = index_of(&[], &["ws"]);
    let r2 = resolve_import_path(
        &s("ws/app/main.ts"),
        &s("corelib"),
        &None,
        &s("ws/app"),
        &packages,
        &empty,
    )
    .unwrap();
    assert_eq!(r2, None);
}

#[test]
fn missing_declaration_map_falls_back_to_rewritten_path() {
    // No artifact is listed: the sub-path specifier is rewritten to the
    // package root plus the remainder and resolved by extension.
    let index = FileIndex {
        files: vec![s("ws/packages/corelib/dist/util.ts")],
        dirs: vec![s("ws"), s("ws/packages"), s("ws/packages/corelib")],
        maps: vec![],
    };
    let r = resolve_import_path(
        &s("ws/app/main.ts"),
        &s("corelib/dist/util"),
        &None,
        &s("ws/app"),
        &monorepo_packages(),
        &index,
    )
    .unwrap();
    assert_eq!(r, Some(s("ws/packages/corelib/dist/util.ts")));

    // With nothing at the rewritten path either, the specifier is
    // unresolved, never fatal.
    let empty = index_of(&[], &["ws"]);
    let r2 = resolve_import_path(
        &s("ws/app/main.ts"),
        &s("corelib/dist/util"),
        &None,
        &s("ws/app"),
        &monorepo_packages(),
        &empty,
    )
    .unwrap();
    assert_eq!(r2, None);
}

#[test]
fn canonical_path_resolves_dot_segments() {
    assert_eq!(canonical_path(&s("a/b/../c/./d")), Some(s("a/c/d")));
    assert_eq!(canonical_path(&s("a//b")), Some(s("a/b")));
    assert_eq!(canonical_path(&s("../a")), None);
}

#[test]
fn wildcard_folder_parses_supported_shape() {
    assert_eq!(wildcard_folder(&s("packages/*")), Some(s("packages")));
    assert_eq!(wildcard_folder(&s("packages/**")), None);
    assert_eq!(wildcard_folder(&s("a/b/c")), None);
    assert_eq!(wildcard_folder(&s("pack*/sub")), None);
}

#[test]
fn workspace_plan_single_package() {
    let manifest = PackageJson { name: s("solo"), workspaces: None, types: None };
    let plan = prepare_analyze_plan(&s("ws"), manifest, None, vec![]);
    assert_eq!(plan.packages.len(), 1);
    assert_eq!(plan.packages[0].path, s("ws"));
    assert_eq!(plan.packages[0].package_json.name, s("solo"));
}

#[test]
fn workspace_plan_monorepo_uses_discovered_packages() {
    let manifest = PackageJson {
        name: s("root"),
        workspaces: Some(vec![s("packages/*")]),
        types: None,
    };
    let discovered = vec![Package {
        path: s("ws/packages/one"),
        package_json: PackageJson { name: s("one"), workspaces: None, types: None },
        tsconfig: None,
    }];
    let plan = prepare_analyze_plan(&s("ws"), manifest, None, discovered);
    assert_eq!(plan.packages.len(), 1);
    assert_eq!(plan.packages[0].path, s("ws/packages/one"));
}

#[test]
fn regex_patterns_compile_and_match() {
    assert!(pattern_is_valid("src/.*\\.ts"));
    assert!(!pattern_is_valid("("));
    assert!(pattern_matches("a\\.ts$", "ws/src/a.ts"));
    assert!(!pattern_matches("b\\.ts$", "ws/src/a.ts"));
    assert!(!pattern_matches("(", "anything"));
}

#[test]
fn grouping_by_path_keeps_per_file_order() {
    let unused = vec![
        UnusedExport { filename: s("a.ts"), symbol: Symbol::Symbol(s("x")) },
        UnusedExport { filename: s("b.ts"), symbol: Symbol::Symbol(s("y")) },
        UnusedExport { filename: s("a.ts"), symbol: Symbol::Symbol(s("z")) },
    ];
    let groups = group_by_path(&unused);
    assert_eq!(groups.len(), 2);
    let ga = groups.iter().find(|g| g.0 == s("a.ts")).unwrap();
    assert_eq!(
        ga.1,
        vec![
            UnusedExport { filename: s("a.ts"), symbol: Symbol::Symbol(s("x")) },
            UnusedExport { filename: s("a.ts"), symbol: Symbol::Symbol(s("z")) },
        ]
    );
    let gb = groups.iter().find(|g| g.0 == s("b.ts")).unwrap();
    assert_eq!(gb.1.len(), 1);
}

#[test]
fn missing_redirect_target_is_unresolved() {
    // The declaration map names a source that does not exist: the
    // specifier is unresolved, never fatal.
    let index = FileIndex {
        files: vec![],
        dirs: vec![s("ws"), s("ws/packages"), s("ws/packages/corelib")],
        maps: vec![(
            s("ws/packages/corelib/dist/index.d.ts.map"),
            SourceMap { sources: vec![s("../src/index.ts")] },
        )],
    };
    let r = resolve_import_path(
        &s("ws/app/main.ts"),
        &s("corelib"),
        &None,
        &s("ws/app"),
        &monorepo_packages(),
        &index,
    )
    .unwrap();
    assert_eq!(r, None);
}

#[test]
fn valid_patterns_are_accepted_together() {
    assert!(unused_exports::patterns_valid(&vec![s("a"), s("b\\d+")]));
    assert!(!unused_exports::patterns_valid(&vec![s("a"), s("(")]));
}

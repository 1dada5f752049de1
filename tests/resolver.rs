use fluxel_node_resolver::exports::{
    resolve_exports, resolve_exports_types, select_export_target,
    select_export_target_with_conditions, JsonValue,
};
use fluxel_node_resolver::locate::{
    package_dir_candidates, probe_paths, resolve_first_target, resolve_with_extensions,
};
use fluxel_node_resolver::resolve::{
    build_options, detect_format, finish_response, main_targets, package_not_found, package_targets,
    prepare_resolve, ModuleFormat, ResolveError, ResolveOptions, ResolvePlan, ResolveRequest,
};
use fluxel_node_resolver::specifier::{is_relative, merge_conditions, split_package_specifier};

fn s(v: &str) -> String {
    v.to_string()
}

fn obj(entries: Vec<(&str, JsonValue)>) -> JsonValue {
    JsonValue::Object(entries.into_iter().map(|(k, v)| (k.to_string(), v)).collect())
}

fn text(v: &str) -> JsonValue {
    JsonValue::Str(v.to_string())
}

fn conditions_map() -> JsonValue {
    obj(vec![("import", text("./esm.js")), ("require", text("./cjs.js")), ("default", text("./esm.js"))])
}

fn request(specifier: &str, importer: &str, root: Option<&str>) -> ResolveRequest {
    ResolveRequest { specifier: s(specifier), importer: s(importer), project_root: root.map(s) }
}

#[test]
fn default_conditions_pick_import_target() {
    let opts = ResolveOptions::default();
    let conds = merge_conditions(&opts.conditions, opts.prefer_cjs);
    assert_eq!(conds, vec![s("import"), s("default")]);
    assert_eq!(resolve_exports(&conditions_map(), ".", &conds), Some(s("./esm.js")));
}

#[test]
fn prefer_cjs_picks_require_target() {
    let opts = ResolveOptions::default();
    let conds = merge_conditions(&opts.conditions, true);
    assert_eq!(conds, vec![s("require"), s("import"), s("default")]);
    assert_eq!(resolve_exports(&conditions_map(), ".", &conds), Some(s("./cjs.js")));
}

#[test]
fn prefer_cjs_keeps_existing_require() {
    let conds = merge_conditions(&vec![s("default"), s("require")], true);
    assert_eq!(conds, vec![s("default"), s("require")]);
}

#[test]
fn wildcard_pattern_substitutes_capture() {
    let exports = obj(vec![(".", text("./index.js")), ("./feature/*", text("./src/feature/*.js"))]);
    let conds = vec![s("import"), s("default")];
    assert_eq!(resolve_exports(&exports, "./feature/x", &conds), Some(s("./src/feature/x.js")));
    assert_eq!(resolve_exports(&exports, "feature/x", &conds), Some(s("./src/feature/x.js")));
    assert_eq!(resolve_exports(&exports, "./other", &conds), None);
}

#[test]
fn first_matching_pattern_decides() {
    let exports = obj(vec![
        ("./a/*", obj(vec![("browser", text("./b/*.js"))])),
        ("./a/*.js", text("./c/*.js")),
    ]);
    let conds = vec![s("import"), s("default")];
    assert_eq!(resolve_exports(&exports, "./a/x.js", &conds), None);
}

#[test]
fn exact_subpath_key_wins_over_pattern() {
    let exports = obj(vec![("./feature/*", text("./p/*.js")), ("./feature/x", text("./exact.js"))]);
    let conds = vec![s("default")];
    assert_eq!(resolve_exports(&exports, "./feature/x", &conds), Some(s("./exact.js")));
}

#[test]
fn array_and_nested_selection() {
    let value = JsonValue::Array(vec![
        JsonValue::Other,
        obj(vec![("node", obj(vec![("import", text("./node.mjs"))])), ("default", text("./d.js"))]),
    ]);
    let conds = vec![s("node"), s("import")];
    assert_eq!(select_export_target(&value, &conds), Some(s("./node.mjs")));
    let conds = vec![s("browser")];
    assert_eq!(select_export_target(&value, &conds), Some(s("./d.js")));
    assert_eq!(select_export_target(&JsonValue::Other, &conds), None);
}

#[test]
fn non_object_exports_have_no_subpaths() {
    let conds = vec![s("default")];
    assert_eq!(resolve_exports(&text("./main.js"), ".", &conds), Some(s("./main.js")));
    assert_eq!(resolve_exports(&text("./main.js"), "./x", &conds), None);
}

#[test]
fn types_selection_prefers_types_key() {
    let value = obj(vec![("import", text("./esm.d.ts")), ("types", text("./types.js"))]);
    let conds = vec![s("types"), s("typings"), s("default")];
    assert_eq!(select_export_target_with_conditions(&value, &conds), Some(s("./types.js")));
    let value = obj(vec![("default", text("./index.js"))]);
    assert_eq!(select_export_target_with_conditions(&value, &conds), None);
    let value = obj(vec![("default", text("./index.d.mts"))]);
    assert_eq!(select_export_target_with_conditions(&value, &conds), Some(s("./index.d.mts")));
}

#[test]
fn types_resolution_of_subpaths() {
    let exports = obj(vec![
        (".", obj(vec![("types", text("./dist/index.d.ts"))])),
        ("./sub/*", obj(vec![("types", text("./dist/sub/*.d.ts"))])),
    ]);
    assert_eq!(resolve_exports_types(&exports, "."), Some(s("./dist/index.d.ts")));
    assert_eq!(resolve_exports_types(&exports, "./missing"), None);
    assert_eq!(resolve_exports_types(&exports, "./sub/a"), Some(s("./dist/sub/a.d.ts")));
    let exports = obj(vec![("types", text("./t.d.cts"))]);
    assert_eq!(resolve_exports_types(&exports, "."), Some(s("./t.d.cts")));
}

#[test]
fn relative_specifiers() {
    assert!(is_relative("./a"));
    assert!(is_relative("../a"));
    assert!(!is_relative("/a"));
    assert!(!is_relative("pkg"));
    assert!(!is_relative(".a"));
}

#[test]
fn package_specifier_split() {
    assert_eq!(split_package_specifier("pkg"), (s("pkg"), s(".")));
    assert_eq!(split_package_specifier("pkg/a/b"), (s("pkg"), s("./a/b")));
    assert_eq!(split_package_specifier("@scope/pkg"), (s("@scope/pkg"), s(".")));
    assert_eq!(split_package_specifier("@scope/pkg/utils"), (s("@scope/pkg"), s("./utils")));
    assert_eq!(split_package_specifier("@scope"), (s("@scope"), s(".")));
}

#[test]
fn empty_specifier_is_rejected() {
    let opts = ResolveOptions::default();
    for importer in ["/p/src/index.ts", ""] {
        let r = prepare_resolve(&request("", importer, None), &opts);
        assert!(matches!(r, Err(ResolveError::EmptySpecifier)));
        let r = prepare_resolve(&request("  \t", importer, Some("/p")), &opts);
        assert!(matches!(r, Err(ResolveError::EmptySpecifier)));
        let r = prepare_resolve(&request("\u{3000}\n", importer, Some("/p")), &opts);
        assert!(matches!(r, Err(ResolveError::EmptySpecifier)));
    }
}

#[test]
fn importer_without_parent_is_rejected() {
    let opts = ResolveOptions::default();
    let r = prepare_resolve(&request("pkg", "", None), &opts);
    assert!(matches!(r, Err(ResolveError::MissingImporter)));
    let r = prepare_resolve(&request("pkg", "/", None), &opts);
    assert!(matches!(r, Err(ResolveError::MissingImporter)));
}

#[test]
fn relative_specifier_plan() {
    let opts = ResolveOptions::default();
    let p = prepare_resolve(&request(".\\util\\x", "/p/src/index.ts", None), &opts).unwrap();
    assert_eq!(p.importer_dir, "/p/src");
    match p.plan {
        ResolvePlan::Path(t) => assert_eq!(t, "/p/src/./util/x"),
        _ => panic!("expected a path plan"),
    }
    let p = prepare_resolve(&request("/abs/mod", "/p/src/index.ts", None), &opts).unwrap();
    match p.plan {
        ResolvePlan::Path(t) => assert_eq!(t, "/abs/mod"),
        _ => panic!("expected a path plan"),
    }
}

#[test]
fn bare_specifier_plan_stops_at_project_root() {
    let opts = ResolveOptions { conditions: vec![s("import")], extensions: vec![], prefer_cjs: true };
    let p = prepare_resolve(&request("@s/pkg/sub", "/p/src/a/index.ts", Some("/p")), &opts).unwrap();
    assert_eq!(p.conditions, vec![s("require"), s("import")]);
    match p.plan {
        ResolvePlan::Package { name, subpath, candidates } => {
            assert_eq!(name, "@s/pkg");
            assert_eq!(subpath, "./sub");
            assert_eq!(
                candidates,
                vec![
                    s("/p/src/a/node_modules/@s/pkg"),
                    s("/p/src/node_modules/@s/pkg"),
                    s("/p/node_modules/@s/pkg"),
                ]
            );
        }
        _ => panic!("expected a package plan"),
    }
}

#[test]
fn package_search_reaches_filesystem_root() {
    let c = package_dir_candidates("/a/b", None, "x");
    assert_eq!(c, vec![s("/a/b/node_modules/x"), s("/a/node_modules/x"), s("/node_modules/x")]);
}

#[test]
fn extension_and_index_probing() {
    let exts = vec![s(".ts"), s(".js")];
    let paths = probe_paths("/p/util", &exts);
    assert_eq!(
        paths,
        vec![s("/p/util"), s("/p/util.ts"), s("/p/util.js"), s("/p/util/index.ts"), s("/p/util/index.js")]
    );
    let none = vec![false; 5];
    assert_eq!(resolve_with_extensions("/p/util", &exts, &none, true), None);
    let js = vec![false, false, true, true, false];
    assert_eq!(resolve_with_extensions("/p/util", &exts, &js, true), Some(s("/p/util.js")));
    let index = vec![false, false, false, false, true];
    assert_eq!(resolve_with_extensions("/p/util", &exts, &index, true), Some(s("/p/util/index.js")));
    assert_eq!(resolve_with_extensions("/p/util", &exts, &index, false), None);
    let verbatim = vec![true, true, true, true, true];
    assert_eq!(resolve_with_extensions("/p/util", &exts, &verbatim, false), Some(s("/p/util")));
}

#[test]
fn package_targets_follow_exports_then_main_fields() {
    let manifest = obj(vec![("name", text("pkg")), ("exports", obj(vec![(".", text("./esm.js"))]))]);
    let t = package_targets("/p/node_modules/pkg", Some(&manifest), ".", &vec![s("import")]);
    assert_eq!(t.matched_export, Some(s("./esm.js")));
    let manifest = obj(vec![("exports", obj(vec![("./other", text("./o.js"))]))]);
    let t = package_targets("/p/node_modules/pkg", Some(&manifest), ".", &vec![s("import")]);
    assert_eq!(t.matched_export, None);
    assert_eq!(t.targets, vec![s("/p/node_modules/pkg")]);
    let manifest = obj(vec![("exports", conditions_map())]);
    let t = package_targets("/p/node_modules/pkg", Some(&manifest), ".", &vec![s("import"), s("default")]);
    assert_eq!(t.matched_export, Some(s("./esm.js")));
    assert_eq!(t.targets, vec![s("/p/node_modules/pkg/esm.js")]);
    assert_eq!(t.package_json, "/p/node_modules/pkg/package.json");
    let manifest = obj(vec![("main", text("lib/main.js")), ("typings", text("t.d.ts")), ("module", JsonValue::Other)]);
    let t = package_targets("/q", Some(&manifest), ".", &vec![s("import")]);
    assert_eq!(t.matched_export, None);
    assert_eq!(t.targets, vec![s("/q/t.d.ts"), s("/q/lib/main.js"), s("/q")]);
    assert_eq!(main_targets("/q", None), vec![s("/q")]);
    let manifest = obj(vec![("types", JsonValue::Other), ("typings", text("t.d.ts"))]);
    assert_eq!(main_targets("/q", Some(&manifest)), vec![s("/q")]);
}

#[test]
fn formats_by_suffix() {
    assert_eq!(detect_format("/a/index.d.ts"), ModuleFormat::TypeDefinition);
    assert_eq!(detect_format("/a/index.d.cts"), ModuleFormat::TypeDefinition);
    assert_eq!(detect_format("/a/x.cjs"), ModuleFormat::CommonJs);
    assert_eq!(detect_format("/a/x.cts"), ModuleFormat::CommonJs);
    assert_eq!(detect_format("/a/x.mjs"), ModuleFormat::Esm);
    assert_eq!(detect_format("/a/x.tsx"), ModuleFormat::Esm);
    assert_eq!(detect_format("/a/x.jsx"), ModuleFormat::Esm);
    assert_eq!(detect_format("/a/x.json"), ModuleFormat::Unknown);
    assert_eq!(detect_format("/a/x"), ModuleFormat::Unknown);
}

#[test]
fn responses() {
    let r = finish_response(Some(s("/p/a.mjs")), Some(s("./a.mjs")), Some(s("/p/package.json")), vec![]);
    assert_eq!(r.format, ModuleFormat::Esm);
    assert_eq!(r.resolved_path, Some(s("/p/a.mjs")));
    let r = finish_response(None, None, None, vec![]);
    assert_eq!(r.format, ModuleFormat::Unknown);
    let r = package_not_found("pkg", "/p/src");
    assert_eq!(r.resolved_path, None);
    assert_eq!(r.warnings, vec![s("Package 'pkg' not found from \"/p/src\"")]);
}

#[test]
fn first_target_that_resolves_wins() {
    let exts = vec![s(".js")];
    let targets = vec![s("/p/types.d.ts"), s("/p/lib/main"), s("/p")];
    let flags = vec![vec![false, false, false], vec![false, true, false], vec![false, false, true]];
    assert_eq!(resolve_first_target(&targets, &exts, &flags, &vec![false, false, true]), Some(s("/p/lib/main.js")));
    let flags = vec![vec![false, false, false], vec![false, false, false], vec![false, false, true]];
    assert_eq!(resolve_first_target(&targets, &exts, &flags, &vec![false, false, true]), Some(s("/p/index.js")));
    assert_eq!(resolve_first_target(&targets, &exts, &flags, &vec![false, false, false]), None);
}

#[test]
fn options_from_caller() {
    let o = build_options(None, Some(vec![]), None);
    assert_eq!(o.conditions, vec![s("import"), s("default")]);
    assert_eq!(o.extensions, vec![s(".ts"), s(".tsx"), s(".js"), s(".mjs"), s(".cjs")]);
    assert!(!o.prefer_cjs);
    let o = build_options(Some(vec![s("node")]), Some(vec![s(".js")]), Some(true));
    assert_eq!(o.conditions, vec![s("node")]);
    assert_eq!(o.extensions, vec![s(".js")]);
    assert!(o.prefer_cjs);
}

#[test]
fn resolves_exports_with_conditions() {
    let manifest = obj(vec![
        ("name", text("pkg")),
        ("exports", obj(vec![(".", conditions_map())])),
    ]);
    let opts = ResolveOptions::default();
    let conds = merge_conditions(&opts.conditions, opts.prefer_cjs);
    let t = package_targets("/root/node_modules/pkg", Some(&manifest), ".", &conds);
    assert_eq!(t.matched_export, Some(s("./esm.js")));
    assert_eq!(t.targets, vec![s("/root/node_modules/pkg/esm.js")]);
    let exts = opts.extensions.clone();
    let flags = vec![vec![true; 2 * exts.len() + 1]];
    let resolved = resolve_first_target(&t.targets, &exts, &flags, &vec![false]);
    assert!(resolved.unwrap().ends_with("node_modules/pkg/esm.js"));
    let cjs = merge_conditions(&opts.conditions, true);
    let t = package_targets("/root/node_modules/pkg", Some(&manifest), ".", &cjs);
    assert_eq!(t.matched_export, Some(s("./cjs.js")));
}

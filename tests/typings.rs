use fluxel_node_resolver::exports::JsonValue;
use fluxel_node_resolver::typings::{
    add_discovered, begin_scan, finish_typings, scan_entry, sorted_unique, types_package_name,
    typings_candidates, ScanStep, TypingsDiscovery, MAX_TYPINGS_FILES,
};

fn s(v: &str) -> String {
    v.to_string()
}

#[test]
fn types_field_candidate_comes_before_fallbacks() {
    let manifest = JsonValue::Object(vec![
        (s("name"), JsonValue::Str(s("foo"))),
        (s("types"), JsonValue::Str(s("types/index.d.ts"))),
    ]);
    let c = typings_candidates("/r/node_modules/foo", Some(&manifest));
    assert_eq!(
        c,
        vec![
            s("/r/node_modules/foo/types/index.d.ts"),
            s("/r/node_modules/foo/index.d.ts"),
            s("/r/node_modules/foo/index.d.mts"),
            s("/r/node_modules/foo/dist/index.d.ts"),
            s("/r/node_modules/foo/lib/index.d.ts"),
            s("/r/node_modules/foo/types/index.d.ts"),
            s("/r/node_modules/foo/build/index.d.ts"),
        ]
    );
}

#[test]
fn exports_types_candidate_comes_first() {
    let manifest = JsonValue::Object(vec![(
        s("exports"),
        JsonValue::Object(vec![(s("types"), JsonValue::Str(s("./dist/main.d.ts")))]),
    )]);
    let c = typings_candidates("/r/foo", Some(&manifest));
    assert_eq!(c[0], "/r/foo/dist/main.d.ts");
    assert_eq!(c.len(), 7);
    assert_eq!(typings_candidates("/r/foo", None).len(), 6);
}

#[test]
fn one_types_file_found_twice_is_listed_once() {
    let mut files: Vec<String> = Vec::new();
    let dir = add_discovered(&mut files, "/r/node_modules/foo/types/index.d.ts");
    assert_eq!(dir, Some(s("/r/node_modules/foo/types")));
    let mut visited: Vec<String> = Vec::new();
    assert!(begin_scan(files.len(), &mut visited, "/r/node_modules/foo/types", 0));
    let step = scan_entry(&mut files, 0, "/r/node_modules/foo/types/index.d.ts", true, false);
    assert!(matches!(step, ScanStep::Next));
    add_discovered(&mut files, "/r/node_modules/foo/types/index.d.ts");
    let r = finish_typings("foo", &files, Some(s("/r/node_modules/foo/package.json")));
    assert_eq!(r.package_name, "foo");
    assert_eq!(r.files, vec![s("/r/node_modules/foo/types/index.d.ts")]);
}

#[test]
fn files_are_sorted_and_unique() {
    let files = vec![s("/b.d.ts"), s("/a.d.ts"), s("/c/x.d.ts"), s("/a.d.ts"), s("/B.d.ts")];
    assert_eq!(sorted_unique(&files), vec![s("/B.d.ts"), s("/a.d.ts"), s("/b.d.ts"), s("/c/x.d.ts")]);
    assert_eq!(sorted_unique(&vec![]), Vec::<String>::new());
}

#[test]
fn scan_stops_at_file_cap() {
    let mut files: Vec<String> = (0..49).map(|i| format!("/t/f{}.d.ts", i)).collect();
    let step = scan_entry(&mut files, 0, "/t/g.d.ts", true, false);
    assert!(matches!(step, ScanStep::Next));
    assert_eq!(files.len(), MAX_TYPINGS_FILES);
    let step = scan_entry(&mut files, 0, "/t/h.d.ts", true, false);
    assert!(matches!(step, ScanStep::Stop));
    assert_eq!(files.len(), 50);
    let mut visited: Vec<String> = Vec::new();
    assert!(!begin_scan(files.len(), &mut visited, "/t", 0));
    assert!(visited.is_empty());
}

#[test]
fn scan_depth_and_directory_rules() {
    let mut files: Vec<String> = Vec::new();
    assert!(matches!(scan_entry(&mut files, 0, "/t/sub", false, true), ScanStep::Descend { dir, depth: 1 } if dir == "/t/sub"));
    assert!(matches!(scan_entry(&mut files, 1, "/t/sub/deeper", false, true), ScanStep::Descend { depth: 2, .. }));
    assert!(matches!(scan_entry(&mut files, 2, "/t/sub", false, true), ScanStep::Next));
    assert!(matches!(scan_entry(&mut files, 0, "/t/node_modules", false, true), ScanStep::Next));
    assert!(matches!(scan_entry(&mut files, 0, "/t/.git", false, true), ScanStep::Next));
    assert!(matches!(scan_entry(&mut files, 1, "/t/x.js", true, false), ScanStep::Next));
    assert!(files.is_empty());
    scan_entry(&mut files, 1, "C:\\t\\y.d.cts", true, false);
    assert_eq!(files, vec![s("C:/t/y.d.cts")]);
    let mut visited: Vec<String> = Vec::new();
    assert!(begin_scan(0, &mut visited, "/t", 2));
    assert!(!begin_scan(0, &mut visited, "/t", 2));
    assert!(!begin_scan(0, &mut visited, "/u", 3));
    assert_eq!(visited, vec![s("/t")]);
}

#[test]
fn shadow_types_package_name() {
    assert_eq!(types_package_name("foo"), "@types/foo");
    assert_eq!(types_package_name("@scope/pkg"), "@types/scope__pkg");
}

#[test]
fn discovers_typings_with_types_field() {
    let manifest = JsonValue::Object(vec![
        (s("name"), JsonValue::Str(s("foo"))),
        (s("types"), JsonValue::Str(s("types/index.d.ts"))),
    ]);
    let pkg = "/root/node_modules/foo";
    let mut d = TypingsDiscovery::new();
    d.record_package(pkg);
    for candidate in typings_candidates(pkg, Some(&manifest)) {
        // Only the types file exists; its directory holds nothing else.
        if candidate == "/root/node_modules/foo/types/index.d.ts" {
            let dir = d.add_source(&candidate).unwrap();
            assert_eq!(dir, "/root/node_modules/foo/types");
            if d.enter_dir(&dir, 0) {
                d.entry(0, "/root/node_modules/foo/types/index.d.ts", true, false);
            }
        }
    }
    let t = d.finish("foo");
    assert_eq!(t.package_name, "foo");
    assert_eq!(t.files, vec![s("/root/node_modules/foo/types/index.d.ts")]);
    assert_eq!(t.package_json, Some(s("/root/node_modules/foo/package.json")));
}

#[test]
fn root_types_condition_is_a_candidate() {
    let manifest = JsonValue::Object(vec![(
        s("exports"),
        JsonValue::Object(vec![(
            s("."),
            JsonValue::Object(vec![
                (s("types"), JsonValue::Str(s("./dist/index.d.ts"))),
                (s("import"), JsonValue::Str(s("./dist/index.js"))),
            ]),
        )]),
    )]);
    let c = typings_candidates("/r/foo", Some(&manifest));
    assert_eq!(c[0], "/r/foo/dist/index.d.ts");
    assert_eq!(c.len(), 7);
}

#[test]
fn sources_stop_at_file_cap() {
    let mut d = TypingsDiscovery::new();
    assert!(d.enter_dir("/t", 0));
    for i in 0..60 {
        d.entry(0, &format!("/t/f{:02}.d.ts", i), true, false);
    }
    assert!(d.is_full());
    d.add_source("/t/extra/index.d.ts");
    d.record_types_package("/r/node_modules/@types/t");
    let t = d.finish("t");
    assert_eq!(t.files.len(), MAX_TYPINGS_FILES);
    assert!(!t.files.contains(&s("/t/extra/index.d.ts")));
    assert_eq!(t.package_json, Some(s("/r/node_modules/@types/t/package.json")));
}

#[test]
fn types_manifest_does_not_replace_package_manifest() {
    let mut d = TypingsDiscovery::new();
    d.record_package("/r/node_modules/t");
    d.record_types_package("/r/node_modules/@types/t");
    assert_eq!(d.finish("t").package_json, Some(s("/r/node_modules/t/package.json")));
}

use fluxel_node_resolver::graph::{
    analyze_items, syntax_for_path, BindingPattern, DefaultDecl, ExportEntry, ExportName,
    ExportedDecl, ModuleItem, ObjectProp, SourceSyntax,
};

fn s(v: &str) -> String {
    v.to_string()
}

fn sorted(mut v: Vec<String>) -> Vec<String> {
    v.sort();
    v
}

#[test]
fn import_const_and_default_export() {
    let source = s("\nimport foo from \"./foo\";\nexport const bar = 1;\nexport default foo;\n");
    let items = vec![
        ModuleItem::Import(s("./foo")),
        ModuleItem::ExportDecl(ExportedDecl::Var(vec![BindingPattern::Ident(s("bar"))])),
        ModuleItem::ExportDefaultExpr,
    ];
    let r = analyze_items(&items, source.clone());
    assert!(r.imports.contains(&s("./foo")));
    assert!(r.exports.contains(&s("bar")));
    assert!(r.exports.iter().any(|e| e.contains("default")));
    assert_eq!(r.transformed, source);
}

#[test]
fn every_export_shape() {
    let items = vec![
        ModuleItem::Import(s("a")),
        ModuleItem::Import(s("a")),
        ModuleItem::ExportDecl(ExportedDecl::Class(s("C"))),
        ModuleItem::ExportDecl(ExportedDecl::Fn(s("f"))),
        ModuleItem::ExportDecl(ExportedDecl::Var(vec![
            BindingPattern::Array(vec![BindingPattern::Ident(s("x")), BindingPattern::Other]),
            BindingPattern::Object(vec![
                ObjectProp::KeyValue(Some(s("k"))),
                ObjectProp::KeyValue(None),
                ObjectProp::Assign(s("d")),
                ObjectProp::Rest,
            ]),
        ])),
        ModuleItem::ExportAll(s("./all")),
        ModuleItem::ExportNamed(vec![
            ExportEntry::Named { orig: ExportName::Ident(s("o")), exported: Some(ExportName::Ident(s("alias"))) },
            ExportEntry::Named { orig: ExportName::Str(s("lit")), exported: None },
            ExportEntry::Default,
            ExportEntry::Namespace(ExportName::Ident(s("ns"))),
        ]),
        ModuleItem::ExportDefaultDecl(DefaultDecl::Fn(Some(s("main")))),
        ModuleItem::ExportDefaultDecl(DefaultDecl::Class(None)),
        ModuleItem::ExportDefaultDecl(DefaultDecl::Interface(s("Shape"))),
        ModuleItem::Other,
    ];
    let r = analyze_items(&items, s(""));
    assert_eq!(r.imports, vec![s("a")]);
    assert_eq!(
        sorted(r.exports),
        sorted(vec![
            s("C"), s("f"), s("x"), s("k"), s("d"), s("*from:./all"), s("alias"), s("lit"),
            s("default"), s("*as:ns"), s("main"), s("Shape"),
        ])
    );
}

#[test]
fn syntax_by_extension() {
    assert_eq!(syntax_for_path("/a/b.ts"), SourceSyntax::TypeScript { tsx: false });
    assert_eq!(syntax_for_path("/a/b.mts"), SourceSyntax::TypeScript { tsx: false });
    assert_eq!(syntax_for_path("/a/b.tsx"), SourceSyntax::TypeScript { tsx: true });
    assert_eq!(syntax_for_path("/a/b.jsx"), SourceSyntax::JavaScript);
    assert_eq!(syntax_for_path("/a/b"), SourceSyntax::JavaScript);
}

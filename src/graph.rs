//! The import/export summary of one module, gathered from its top-level items.

use vstd::prelude::*;
use crate::paths::{extension_of, path_extension};

verus! {

/// A name in an export list: an identifier or a string literal.
pub enum ExportName {
    Ident(String),
    Str(String),
}

/// A property of an object destructuring pattern.
pub enum ObjectProp {
    /// `key: pattern`; the key when it is an identifier.
    KeyValue(Option<String>),
    /// `key` or `key = default`.
    Assign(String),
    /// `...rest`.
    Rest,
}

/// A binding pattern of a variable declaration.
pub enum BindingPattern {
    Ident(String),
    /// The elements of an array pattern, holes left out.
    Array(Vec<BindingPattern>),
    Object(Vec<ObjectProp>),
    Other,
}

/// One entry of a named export list.
pub enum ExportEntry {
    /// `orig` or `orig as exported`.
    Named { orig: ExportName, exported: Option<ExportName> },
    /// `export v from "..."`.
    Default,
    /// `export * as name from "..."`.
    Namespace(ExportName),
}

/// What an `export` declaration declares.
pub enum ExportedDecl {
    Class(String),
    Fn(String),
    /// The binding patterns of a variable statement.
    Var(Vec<BindingPattern>),
    Other,
}

/// What an `export default` declaration declares.
pub enum DefaultDecl {
    Class(Option<String>),
    Fn(Option<String>),
    /// An interface, which always has a name.
    Interface(String),
}

/// A top-level item of a module, as far as the summary reads it.
pub enum ModuleItem {
    /// An import declaration and its source.
    Import(String),
    ExportDecl(ExportedDecl),
    /// `export * from "..."` and its source.
    ExportAll(String),
    ExportNamed(Vec<ExportEntry>),
    ExportDefaultDecl(DefaultDecl),
    ExportDefaultExpr,
    /// A statement or any other declaration.
    Other,
}

pub struct AnalyzeResponse {
    /// Specifiers of the module's import declarations, each once.
    pub imports: Vec<String>,
    /// Exported names and re-export tokens, each once.
    pub exports: Vec<String>,
    /// The source text, as it was read.
    pub transformed: String,
}

pub open spec fn name_text(n: ExportName) -> Seq<char> {
    match n {
        ExportName::Ident(s) => s@,
        ExportName::Str(s) => s@,
    }
}

/// Names bound by a pattern.
pub open spec fn pattern_names(p: BindingPattern) -> Set<Seq<char>>
    decreases p, 0int,
{
    match p {
        BindingPattern::Ident(s) => set![s@],
        BindingPattern::Array(elems) => patterns_names(elems@, 0),
        BindingPattern::Object(props) => props_names(props@),
        BindingPattern::Other => set![],
    }
}

/// Names bound by `ps[i..]`.
pub open spec fn patterns_names(ps: Seq<BindingPattern>, i: int) -> Set<Seq<char>>
    decreases ps, ps.len() - i,
{
    if i < 0 || i >= ps.len() {
        set![]
    } else {
        pattern_names(ps[i]).union(patterns_names(ps, i + 1))
    }
}

pub open spec fn prop_names(p: ObjectProp) -> Set<Seq<char>> {
    match p {
        ObjectProp::KeyValue(Some(k)) => set![k@],
        ObjectProp::KeyValue(None) => set![],
        ObjectProp::Assign(k) => set![k@],
        ObjectProp::Rest => set![],
    }
}

pub open spec fn props_names(ps: Seq<ObjectProp>) -> Set<Seq<char>>
    decreases ps.len(),
{
    if ps.len() == 0 {
        set![]
    } else {
        props_names(ps.drop_last()).union(prop_names(ps.last()))
    }
}

pub open spec fn entry_tokens(e: ExportEntry) -> Set<Seq<char>> {
    match e {
        ExportEntry::Named { orig, exported } => match exported {
            Some(x) => set![name_text(x)],
            None => set![name_text(orig)],
        },
        ExportEntry::Default => set!["default"@],
        ExportEntry::Namespace(n) => set!["*as:"@ + name_text(n)],
    }
}

pub open spec fn entries_tokens(es: Seq<ExportEntry>) -> Set<Seq<char>>
    decreases es.len(),
{
    if es.len() == 0 {
        set![]
    } else {
        entries_tokens(es.drop_last()).union(entry_tokens(es.last()))
    }
}

pub open spec fn named_or_default(n: Option<String>) -> Seq<char> {
    match n {
        Some(s) => s@,
        None => "default"@,
    }
}

/// What one item adds to the exports.
pub open spec fn item_exports(item: ModuleItem) -> Set<Seq<char>> {
    match item {
        ModuleItem::ExportDecl(d) => match d {
            ExportedDecl::Class(n) => set![n@],
            ExportedDecl::Fn(n) => set![n@],
            ExportedDecl::Var(pats) => patterns_names(pats@, 0),
            ExportedDecl::Other => set![],
        },
        ModuleItem::ExportAll(src) => set!["*from:"@ + src@],
        ModuleItem::ExportNamed(es) => entries_tokens(es@),
        ModuleItem::ExportDefaultDecl(d) => match d {
            DefaultDecl::Class(n) => set![named_or_default(n)],
            DefaultDecl::Fn(n) => set![named_or_default(n)],
            DefaultDecl::Interface(n) => set![n@],
        },
        ModuleItem::ExportDefaultExpr => set!["default"@],
        _ => set![],
    }
}

/// What one item adds to the imports.
pub open spec fn item_imports(item: ModuleItem) -> Set<Seq<char>> {
    match item {
        ModuleItem::Import(src) => set![src@],
        _ => set![],
    }
}

pub open spec fn module_imports(items: Seq<ModuleItem>) -> Set<Seq<char>>
    decreases items.len(),
{
    if items.len() == 0 {
        set![]
    } else {
        module_imports(items.drop_last()).union(item_imports(items.last()))
    }
}

pub open spec fn module_exports(items: Seq<ModuleItem>) -> Set<Seq<char>>
    decreases items.len(),
{
    if items.len() == 0 {
        set![]
    } else {
        module_exports(items.drop_last()).union(item_exports(items.last()))
    }
}

/// Adds `s` to `out` unless it is there already.
pub fn add_unique(out: &mut Vec<String>, s: String)
    requires
        old(out).deep_view().no_duplicates(),
    ensures
        final(out).deep_view().no_duplicates(),
        final(out).deep_view().to_set() == old(out).deep_view().to_set().insert(s@),
{
    let ghost sv = s@;
    if crate::specifier::contains_string(out, &s) {
        proof {
            assert(old(out).deep_view().to_set().insert(sv) =~= old(out).deep_view().to_set());
        }
        return;
    }
    out.push(s);
    proof {
        let before = old(out).deep_view();
        assert(out.deep_view() =~= before.push(sv));
        assert(out.deep_view().to_set() =~= before.to_set().insert(sv)) by {
            assert forall|x: Seq<char>| out.deep_view().to_set().contains(x) <==> before.to_set().insert(sv).contains(x) by {
                if out.deep_view().contains(x) && x != sv {
                    let i = choose|i: int| 0 <= i < out.deep_view().len() && out.deep_view()[i] == x;
                    assert(before[i] == x);
                }
                if before.contains(x) {
                    let i = choose|i: int| 0 <= i < before.len() && before[i] == x;
                    assert(out.deep_view()[i] == x);
                }
                if x == sv {
                    assert(out.deep_view()[before.len() as int] == x);
                }
            }
        }
    }
}


/// Adds the names bound by `p`.
pub fn collect_pattern_names(out: &mut Vec<String>, p: &BindingPattern)
    requires
        old(out).deep_view().no_duplicates(),
    ensures
        final(out).deep_view().no_duplicates(),
        final(out).deep_view().to_set() == old(out).deep_view().to_set().union(pattern_names(*p)),
    decreases p,
{
    let ghost start = out.deep_view().to_set();
    match p {
        BindingPattern::Ident(s) => {
            add_unique(out, s.clone());
            proof {
                assert(start.insert(s@) =~= start.union(set![s@]));
            }
        },
        BindingPattern::Array(elems) => {
            let mut i: usize = 0;
            while i < elems.len()
                invariant
                    i <= elems@.len(),
                    *p == BindingPattern::Array(*elems),
                    out.deep_view().no_duplicates(),
                    out.deep_view().to_set().union(patterns_names(elems@, i as int))
                        == start.union(patterns_names(elems@, 0)),
                decreases elems.len() - i,
            {
                proof {
                    assert(decreases_to!(elems => elems[i as int]));
                    assert(decreases_to!(*p => (*p)->Array_0));
                }
                let ghost before = out.deep_view().to_set();
                collect_pattern_names(out, &elems[i]);
                proof {
                    assert(patterns_names(elems@, i as int)
                        == pattern_names(elems@[i as int]).union(patterns_names(elems@, i + 1)));
                    assert(out.deep_view().to_set().union(patterns_names(elems@, i + 1))
                        =~= before.union(patterns_names(elems@, i as int)));
                }
                i = i + 1;
            }
            proof {
                assert(out.deep_view().to_set().union(patterns_names(elems@, i as int)) =~= out.deep_view().to_set());
            }
        },
        BindingPattern::Object(props) => {
            let mut i: usize = 0;
            while i < props.len()
                invariant
                    i <= props@.len(),
                    *p == BindingPattern::Object(*props),
                    out.deep_view().no_duplicates(),
                    out.deep_view().to_set() == start.union(props_names(props@.subrange(0, i as int))),
                decreases props.len() - i,
            {
                let ghost before = out.deep_view().to_set();
                match &props[i] {
                    ObjectProp::KeyValue(Some(k)) => add_unique(out, k.clone()),
                    ObjectProp::Assign(k) => add_unique(out, k.clone()),
                    _ => {},
                }
                proof {
                    let pre = props@.subrange(0, i as int);
                    let post = props@.subrange(0, i + 1);
                    assert(post.drop_last() =~= pre);
                    assert(post.last() == props@[i as int]);
                    assert(out.deep_view().to_set() =~= before.union(prop_names(props@[i as int])));
                    assert(out.deep_view().to_set() =~= start.union(props_names(post)));
                }
                i = i + 1;
            }
            proof {
                assert(props@.subrange(0, props@.len() as int) =~= props@);
            }
        },
        BindingPattern::Other => {
            proof {
                assert(start.union(set![]) =~= start);
            }
        },
    }
}

/// Adds the tokens of a named export list.
fn collect_entries(out: &mut Vec<String>, es: &Vec<ExportEntry>)
    requires
        old(out).deep_view().no_duplicates(),
    ensures
        final(out).deep_view().no_duplicates(),
        final(out).deep_view().to_set() == old(out).deep_view().to_set().union(entries_tokens(es@)),
{
    let ghost start = out.deep_view().to_set();
    let mut i: usize = 0;
    while i < es.len()
        invariant
            i <= es@.len(),
            out.deep_view().no_duplicates(),
            out.deep_view().to_set() == start.union(entries_tokens(es@.subrange(0, i as int))),
        decreases es.len() - i,
    {
        let ghost before = out.deep_view().to_set();
        let token = match &es[i] {
            ExportEntry::Named { orig, exported } => {
                let n = match exported {
                    Some(x) => x,
                    None => orig,
                };
                match n {
                    ExportName::Ident(s) => s.clone(),
                    ExportName::Str(s) => s.clone(),
                }
            },
            ExportEntry::Default => String::from_str("default"),
            ExportEntry::Namespace(n) => {
                let t = match n {
                    ExportName::Ident(s) => s.as_str(),
                    ExportName::Str(s) => s.as_str(),
                };
                String::from_str("*as:").concat(t)
            },
        };
        proof {
            assert(entry_tokens(es@[i as int]) == set![token@]);
        }
        add_unique(out, token);
        proof {
            let pre = es@.subrange(0, i as int);
            let post = es@.subrange(0, i + 1);
            assert(post.drop_last() =~= pre);
            assert(post.last() == es@[i as int]);
            assert(out.deep_view().to_set() =~= start.union(entries_tokens(post)));
        }
        i = i + 1;
    }
    proof {
        assert(es@.subrange(0, es@.len() as int) =~= es@);
    }
}

/// Adds what one item contributes to the imports and the exports.
pub fn collect_item(imports: &mut Vec<String>, exports: &mut Vec<String>, item: &ModuleItem)
    requires
        old(imports).deep_view().no_duplicates(),
        old(exports).deep_view().no_duplicates(),
    ensures
        final(imports).deep_view().no_duplicates(),
        final(exports).deep_view().no_duplicates(),
        final(imports).deep_view().to_set() == old(imports).deep_view().to_set().union(item_imports(*item)),
        final(exports).deep_view().to_set() == old(exports).deep_view().to_set().union(item_exports(*item)),
{
    let ghost imp = imports.deep_view().to_set();
    let ghost exp = exports.deep_view().to_set();
    match item {
        ModuleItem::Import(src) => {
            add_unique(imports, src.clone());
        },
        ModuleItem::ExportDecl(d) => match d {
            ExportedDecl::Class(n) => add_unique(exports, n.clone()),
            ExportedDecl::Fn(n) => add_unique(exports, n.clone()),
            ExportedDecl::Var(pats) => {
                let mut i: usize = 0;
                while i < pats.len()
                    invariant
                        i <= pats@.len(),
                        exports.deep_view().no_duplicates(),
                        exports.deep_view().to_set().union(patterns_names(pats@, i as int))
                            == exp.union(patterns_names(pats@, 0)),
                    decreases pats.len() - i,
                {
                    let ghost before = exports.deep_view().to_set();
                    collect_pattern_names(exports, &pats[i]);
                    proof {
                        assert(patterns_names(pats@, i as int)
                            == pattern_names(pats@[i as int]).union(patterns_names(pats@, i + 1)));
                        assert(exports.deep_view().to_set().union(patterns_names(pats@, i + 1))
                            =~= before.union(patterns_names(pats@, i as int)));
                    }
                    i = i + 1;
                }
                proof {
                    assert(exports.deep_view().to_set().union(patterns_names(pats@, i as int))
                        =~= exports.deep_view().to_set());
                }
            },
            ExportedDecl::Other => {},
        },
        ModuleItem::ExportAll(src) => {
            add_unique(exports, String::from_str("*from:").concat(src.as_str()));
        },
        ModuleItem::ExportNamed(es) => collect_entries(exports, es),
        ModuleItem::ExportDefaultDecl(d) => {
            let name = match d {
                DefaultDecl::Class(Some(n)) => n.clone(),
                DefaultDecl::Fn(Some(n)) => n.clone(),
                DefaultDecl::Interface(n) => n.clone(),
                _ => String::from_str("default"),
            };
            add_unique(exports, name);
        },
        ModuleItem::ExportDefaultExpr => add_unique(exports, String::from_str("default")),
        ModuleItem::Other => {},
    }
    proof {
        assert(imports.deep_view().to_set() =~= imp.union(item_imports(*item)));
        assert(exports.deep_view().to_set() =~= exp.union(item_exports(*item)));
    }
}


/// The import/export summary of a module whose top-level items are `items`
/// and whose text is `source`.
pub fn analyze_items(items: &Vec<ModuleItem>, source: String) -> (r: AnalyzeResponse)
    ensures
        r.imports.deep_view().no_duplicates(),
        r.exports.deep_view().no_duplicates(),
        r.imports.deep_view().to_set() == module_imports(items@),
        r.exports.deep_view().to_set() == module_exports(items@),
        r.transformed@ == source@,
{
    let mut imports: Vec<String> = Vec::new();
    let mut exports: Vec<String> = Vec::new();
    proof {
        assert(imports.deep_view().to_set() =~= set![]);
        assert(exports.deep_view().to_set() =~= set![]);
    }
    let mut i: usize = 0;
    while i < items.len()
        invariant
            i <= items@.len(),
            imports.deep_view().no_duplicates(),
            exports.deep_view().no_duplicates(),
            imports.deep_view().to_set() == module_imports(items@.subrange(0, i as int)),
            exports.deep_view().to_set() == module_exports(items@.subrange(0, i as int)),
        decreases items.len() - i,
    {
        collect_item(&mut imports, &mut exports, &items[i]);
        proof {
            let post = items@.subrange(0, i + 1);
            assert(post.drop_last() =~= items@.subrange(0, i as int));
            assert(post.last() == items@[i as int]);
        }
        i = i + 1;
    }
    proof {
        assert(items@.subrange(0, items@.len() as int) =~= items@);
    }
    AnalyzeResponse { imports, exports, transformed: source }
}

/// The grammar a module is parsed under.
#[derive(Clone, Copy, Debug, PartialEq, Eq, Structural)]
pub enum SourceSyntax {
    /// TypeScript with decorators; JSX only when `tsx` is set.
    TypeScript { tsx: bool },
    /// JavaScript with JSX.
    JavaScript,
}

/// The grammar for an extension: TypeScript for `ts`, `tsx`, `mts` and
/// `cts`, with JSX for `tsx` alone; JavaScript for any other.
pub open spec fn syntax_of_extension(ext: Option<Seq<char>>) -> SourceSyntax {
    match ext {
        Some(e) => if e == "ts"@ || e == "mts"@ || e == "cts"@ {
            SourceSyntax::TypeScript { tsx: false }
        } else if e == "tsx"@ {
            SourceSyntax::TypeScript { tsx: true }
        } else {
            SourceSyntax::JavaScript
        },
        None => SourceSyntax::JavaScript,
    }
}

/// The grammar for a file, by its extension.
pub open spec fn syntax_of(path: Seq<char>) -> SourceSyntax {
    syntax_of_extension(extension_of(path))
}

/// The grammar for an extension (without its dot).
pub fn syntax_for_extension(ext: Option<&str>) -> (r: SourceSyntax)
    ensures
        r == syntax_of_extension(match ext {
            Some(e) => Some(e@),
            None => None,
        }),
{
    match ext {
        Some(x) => {
            let e = String::from_str(x);
            if e == String::from_str("ts") || e == String::from_str("mts") || e == String::from_str("cts") {
                SourceSyntax::TypeScript { tsx: false }
            } else if e == String::from_str("tsx") {
                SourceSyntax::TypeScript { tsx: true }
            } else {
                SourceSyntax::JavaScript
            }
        },
        None => SourceSyntax::JavaScript,
    }
}

/// The grammar a file is parsed under.
pub fn syntax_for_path(path: &str) -> (r: SourceSyntax)
    ensures
        r == syntax_of(path@),
{
    match path_extension(path) {
        Some(e) => syntax_for_extension(Some(e.as_str())),
        None => syntax_for_extension(None),
    }
}

} // verus!

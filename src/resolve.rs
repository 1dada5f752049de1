//! Resolution of a module specifier from an importing file: the request and
//! its options, the decisions taken before and after the filesystem is
//! consulted, and the response.

use vstd::prelude::*;
use crate::exports::{entry_value, exports_target, find_entry, is_declaration, is_declaration_path, resolve_exports, JsonValue};
use crate::locate::{package_candidates, package_dir_candidates, path_target, path_target_of};
use crate::paths::{extension_of, joined, parent_of, path_extension, path_join, path_parent};
use crate::specifier::{is_relative, merge_conditions, merged_conditions, relative_spec, split_package_specifier, split_spec};
use crate::text::{has_prefix, opt_view, replace_char, replaced, starts_with, stripped_prefix, trim, trim_start_matches, trimmed};

verus! {

/// How a specifier is resolved.
pub struct ResolveOptions {
    /// Acceptable `exports` conditions, most preferred first.
    pub conditions: Vec<String>,
    /// Suffixes tried after a path, in order.
    pub extensions: Vec<String>,
    /// Put `"require"` first among the conditions.
    pub prefer_cjs: bool,
}

/// Conditions used when a caller names none.
pub open spec fn default_conditions() -> Seq<Seq<char>> {
    seq!["import"@, "default"@]
}

/// Extensions tried when a caller names none, in order.
pub open spec fn default_extensions() -> Seq<Seq<char>> {
    seq![".ts"@, ".tsx"@, ".js"@, ".mjs"@, ".cjs"@]
}

impl Default for ResolveOptions {
    fn default() -> (r: Self)
        ensures
            r.conditions.deep_view() == default_conditions(),
            r.extensions.deep_view() == default_extensions(),
            !r.prefer_cjs,
    {
        let mut conditions: Vec<String> = Vec::new();
        conditions.push(String::from_str("import"));
        conditions.push(String::from_str("default"));
        let mut extensions: Vec<String> = Vec::new();
        extensions.push(String::from_str(".ts"));
        extensions.push(String::from_str(".tsx"));
        extensions.push(String::from_str(".js"));
        extensions.push(String::from_str(".mjs"));
        extensions.push(String::from_str(".cjs"));
        proof {
            assert(conditions.deep_view() =~= default_conditions());
            assert(extensions.deep_view() =~= default_extensions());
        }
        ResolveOptions { conditions, extensions, prefer_cjs: false }
    }
}

/// Options from what a caller supplied: a non-empty condition or extension
/// list replaces the default one, and `prefer_cjs` defaults to false.
pub fn build_options(conditions: Option<Vec<String>>, extensions: Option<Vec<String>>, prefer_cjs: Option<bool>) -> (r: ResolveOptions)
    ensures
        r.conditions.deep_view() == match conditions {
            Some(c) => if c@.len() > 0 { c.deep_view() } else { default_conditions() },
            None => default_conditions(),
        },
        r.extensions.deep_view() == match extensions {
            Some(e) => if e@.len() > 0 { e.deep_view() } else { default_extensions() },
            None => default_extensions(),
        },
        r.prefer_cjs == match prefer_cjs {
            Some(p) => p,
            None => false,
        },
{
    let mut opts = ResolveOptions::default();
    if let Some(conds) = conditions {
        if conds.len() > 0 {
            opts.conditions = conds;
        }
    }
    if let Some(exts) = extensions {
        if exts.len() > 0 {
            opts.extensions = exts;
        }
    }
    if let Some(prefer) = prefer_cjs {
        opts.prefer_cjs = prefer;
    }
    opts
}

/// A specifier to resolve from an importing file.
pub struct ResolveRequest {
    pub specifier: String,
    pub importer: String,
    /// The search for packages goes no higher than this directory.
    pub project_root: Option<String>,
}

/// Module format, as told by a resolved path's suffix.
#[derive(Clone, Copy, Debug, PartialEq, Eq, Structural)]
pub enum ModuleFormat {
    Esm,
    CommonJs,
    TypeDefinition,
    Unknown,
}

pub struct ResolveResponse {
    pub resolved_path: Option<String>,
    pub format: ModuleFormat,
    /// The raw target chosen from the package's `exports`, before it is joined
    /// onto the package directory.
    pub matched_export: Option<String>,
    /// The manifest path of the package the specifier was found in.
    pub package_json: Option<String>,
    pub warnings: Vec<String>,
}

/// Why a request could not be resolved at all.
#[derive(Debug)]
pub enum ResolveError {
    /// The specifier is empty or whitespace.
    EmptySpecifier,
    /// The importing path has no parent directory.
    MissingImporter,
    /// A manifest could not be read or parsed.
    PackageJson(String),
}

/// The format told by a path's extension.
pub open spec fn format_of_extension(ext: Option<Seq<char>>) -> ModuleFormat {
    match ext {
        Some(e) => if e == "cjs"@ || e == "cts"@ {
            ModuleFormat::CommonJs
        } else if e == "mjs"@ || e == "mts"@ || e == "ts"@ || e == "tsx"@ || e == "js"@ || e == "jsx"@ {
            ModuleFormat::Esm
        } else {
            ModuleFormat::Unknown
        },
        None => ModuleFormat::Unknown,
    }
}

/// The format of a resolved path: declaration files first, then by extension.
pub open spec fn format_of(path: Seq<char>) -> ModuleFormat {
    if is_declaration(path) {
        ModuleFormat::TypeDefinition
    } else {
        format_of_extension(extension_of(path))
    }
}

fn is_one_of(e: &String, names: &Vec<String>) -> (r: bool)
    ensures
        r == names.deep_view().contains(e@),
{
    crate::specifier::contains_string(names, e)
}

/// The module format told by an extension (without its dot).
pub fn format_for_extension(ext: Option<&str>) -> (r: ModuleFormat)
    ensures
        r == format_of_extension(match ext {
            Some(e) => Some(e@),
            None => None,
        }),
{
    match ext {
        Some(x) => {
            let e = String::from_str(x);
            let cjs = vec![String::from_str("cjs"), String::from_str("cts")];
            let esm = vec![
                String::from_str("mjs"),
                String::from_str("mts"),
                String::from_str("ts"),
                String::from_str("tsx"),
                String::from_str("js"),
                String::from_str("jsx"),
            ];
            proof {
                assert(cjs.deep_view() =~= seq!["cjs"@, "cts"@]);
                assert(esm.deep_view() =~= seq!["mjs"@, "mts"@, "ts"@, "tsx"@, "js"@, "jsx"@]);
                assert(seq!["cjs"@, "cts"@].contains(e@) <==> (e@ == "cjs"@ || e@ == "cts"@)) by {
                    if e@ == "cts"@ {
                        assert(seq!["cjs"@, "cts"@][1] == e@);
                    }
                    if e@ == "cjs"@ {
                        assert(seq!["cjs"@, "cts"@][0] == e@);
                    }
                }
                let es = seq!["mjs"@, "mts"@, "ts"@, "tsx"@, "js"@, "jsx"@];
                assert(es.contains(e@) <==> (e@ == "mjs"@ || e@ == "mts"@ || e@ == "ts"@ || e@ == "tsx"@ || e@ == "js"@ || e@ == "jsx"@)) by {
                    if e@ == "mjs"@ { assert(es[0] == e@); }
                    if e@ == "mts"@ { assert(es[1] == e@); }
                    if e@ == "ts"@ { assert(es[2] == e@); }
                    if e@ == "tsx"@ { assert(es[3] == e@); }
                    if e@ == "js"@ { assert(es[4] == e@); }
                    if e@ == "jsx"@ { assert(es[5] == e@); }
                }
            }
            if is_one_of(&e, &cjs) {
                ModuleFormat::CommonJs
            } else if is_one_of(&e, &esm) {
                ModuleFormat::Esm
            } else {
                ModuleFormat::Unknown
            }
        },
        None => ModuleFormat::Unknown,
    }
}

/// The module format of a resolved path.
pub fn detect_format(path: &str) -> (r: ModuleFormat)
    ensures
        r == format_of(path@),
{
    if is_declaration_path(path) {
        return ModuleFormat::TypeDefinition;
    }
    match path_extension(path) {
        Some(e) => format_for_extension(Some(e.as_str())),
        None => format_for_extension(None),
    }
}

/// A string field of a manifest.
pub open spec fn str_field(manifest: JsonValue, key: Seq<char>) -> Option<Seq<char>> {
    match manifest {
        JsonValue::Object(entries) => match entry_value(entries@, key) {
            Some(JsonValue::Str(s)) => Some(s@),
            _ => None,
        },
        _ => None,
    }
}

/// The manifest's `types` field when present, else its `typings` field; only
/// a string counts.
pub open spec fn types_field(manifest: JsonValue) -> Option<Seq<char>> {
    match manifest {
        JsonValue::Object(entries) => match entry_value(entries@, "types"@) {
            Some(JsonValue::Str(s)) => Some(s@),
            Some(_) => None,
            None => str_field(manifest, "typings"@),
        },
        _ => None,
    }
}

pub open spec fn joined_opt(dir: Seq<char>, rel: Option<Seq<char>>) -> Seq<Seq<char>> {
    match rel {
        Some(r) => seq![joined(dir, r)],
        None => seq![],
    }
}

/// The entry points tried, in order, when no `exports` entry matched: the
/// types field, then `module`, `main` and `browser`, each joined onto the
/// package directory, and last the package directory itself.
pub open spec fn main_targets_of(pkg_dir: Seq<char>, manifest: Option<JsonValue>) -> Seq<Seq<char>> {
    match manifest {
        Some(m) => joined_opt(pkg_dir, types_field(m)) + joined_opt(pkg_dir, str_field(m, "module"@))
            + joined_opt(pkg_dir, str_field(m, "main"@)) + joined_opt(pkg_dir, str_field(m, "browser"@))
            + seq![pkg_dir],
        None => seq![pkg_dir],
    }
}

/// A string field of a manifest.
pub fn manifest_str_field(manifest: &JsonValue, key: &String) -> (r: Option<String>)
    ensures
        opt_view(r) == str_field(*manifest, key@),
{
    match manifest {
        JsonValue::Object(entries) => match find_entry(entries, key) {
            Some(i) => match &entries[i].1 {
                JsonValue::Str(s) => Some(s.clone()),
                _ => None,
            },
            None => None,
        },
        _ => None,
    }
}

/// The manifest's `types` field, or its `typings` field when `types` is absent.
pub fn manifest_types_field(manifest: &JsonValue) -> (r: Option<String>)
    ensures
        opt_view(r) == types_field(*manifest),
{
    match manifest {
        JsonValue::Object(entries) => match find_entry(entries, &String::from_str("types")) {
            Some(i) => match &entries[i].1 {
                JsonValue::Str(s) => Some(s.clone()),
                _ => None,
            },
            None => manifest_str_field(manifest, &String::from_str("typings")),
        },
        _ => None,
    }
}

fn push_joined(out: &mut Vec<String>, dir: &str, rel: Option<String>)
    ensures
        final(out).deep_view() == old(out).deep_view() + joined_opt(dir@, opt_view(rel)),
{
    match rel {
        Some(r) => {
            out.push(path_join(dir, r.as_str()));
        },
        None => {},
    }
    proof {
        assert(final(out).deep_view() =~= old(out).deep_view() + joined_opt(dir@, opt_view(rel)));
    }
}

/// The entry points tried when no `exports` entry matched.
pub fn main_targets(pkg_dir: &str, manifest: Option<&JsonValue>) -> (r: Vec<String>)
    ensures
        r.deep_view() == main_targets_of(pkg_dir@, match manifest { Some(m) => Some(*m), None => None }),
{
    let mut r: Vec<String> = Vec::new();
    if let Some(m) = manifest {
        push_joined(&mut r, pkg_dir, manifest_types_field(m));
        push_joined(&mut r, pkg_dir, manifest_str_field(m, &String::from_str("module")));
        push_joined(&mut r, pkg_dir, manifest_str_field(m, &String::from_str("main")));
        push_joined(&mut r, pkg_dir, manifest_str_field(m, &String::from_str("browser")));
    }
    r.push(String::from_str(pkg_dir));
    proof {
        assert(r.deep_view() =~= main_targets_of(pkg_dir@, match manifest { Some(m) => Some(*m), None => None }));
    }
    r
}

/// What resolution tries inside a located package.
pub struct PackageTargets {
    /// The raw `exports` target, when one matched.
    pub matched_export: Option<String>,
    /// The paths handed to the path resolver, in order; the first that
    /// resolves wins.
    pub targets: Vec<String>,
    /// The package's manifest path.
    pub package_json: String,
}

/// The manifest's `exports` field.
pub open spec fn exports_field(manifest: Option<JsonValue>) -> Option<JsonValue> {
    match manifest {
        Some(JsonValue::Object(entries)) => entry_value(entries@, "exports"@),
        _ => None,
    }
}

/// The raw `exports` target for `subpath`, when the manifest has one.
pub open spec fn matched_export_of(manifest: Option<JsonValue>, subpath: Seq<char>, conds: Seq<Seq<char>>) -> Option<Seq<char>> {
    match exports_field(manifest) {
        Some(e) => exports_target(e, subpath, conds),
        None => None,
    }
}

/// A target of the `exports` map, joined onto the package directory without
/// its leading `./`.
pub open spec fn export_path_of(pkg_dir: Seq<char>, target: Seq<char>) -> Seq<char> {
    joined(pkg_dir, stripped_prefix(target, "./"@))
}

/// The targets tried inside a package: the matched `exports` target alone
/// when there is one, else the entry points.
pub open spec fn package_targets_of(pkg_dir: Seq<char>, manifest: Option<JsonValue>, subpath: Seq<char>, conds: Seq<Seq<char>>) -> Seq<Seq<char>> {
    match matched_export_of(manifest, subpath, conds) {
        Some(t) => seq![export_path_of(pkg_dir, t)],
        None => main_targets_of(pkg_dir, manifest),
    }
}

pub open spec fn opt_deref(m: Option<&JsonValue>) -> Option<JsonValue> {
    match m {
        Some(v) => Some(*v),
        None => None,
    }
}

/// What to try inside the package installed at `pkg_dir`, whose manifest,
/// when it could be read, is `manifest`.
pub fn package_targets(pkg_dir: &str, manifest: Option<&JsonValue>, subpath: &str, conditions: &Vec<String>) -> (r: PackageTargets)
    ensures
        opt_view(r.matched_export) == matched_export_of(opt_deref(manifest), subpath@, conditions.deep_view()),
        r.targets.deep_view() == package_targets_of(pkg_dir@, opt_deref(manifest), subpath@, conditions.deep_view()),
        r.package_json@ == joined(pkg_dir@, "package.json"@),
{
    let package_json = path_join(pkg_dir, "package.json");
    let exports = match manifest {
        Some(JsonValue::Object(entries)) => match find_entry(entries, &String::from_str("exports")) {
            Some(i) => Some(&entries[i].1),
            None => None,
        },
        _ => None,
    };
    let matched = match exports {
        Some(e) => resolve_exports(e, subpath, conditions),
        None => None,
    };
    match matched {
        Some(t) => {
            proof {
                reveal_strlit("./");
            }
            let path = path_join(pkg_dir, trim_start_matches(t.as_str(), "./"));
            let targets = vec![path];
            proof {
                assert(targets.deep_view() =~= seq![export_path_of(pkg_dir@, t@)]);
            }
            PackageTargets { matched_export: Some(t), targets, package_json }
        },
        None => {
            let targets = main_targets(pkg_dir, manifest);
            PackageTargets { matched_export: None, targets, package_json }
        },
    }
}


/// A specifier with its backslashes turned into forward slashes.
pub open spec fn normalized_spec(s: Seq<char>) -> Seq<char> {
    replaced(s, '\\', "/"@)
}

/// A specifier that names a path rather than a package.
pub open spec fn path_like(s: Seq<char>) -> bool {
    relative_spec(s) || has_prefix(s, "/"@)
}

/// What is done with a specifier once it has been classified.
pub enum ResolvePlan {
    /// A relative or absolute specifier: the path to resolve.
    Path(String),
    /// A bare specifier: the package, the subpath inside it, and where the
    /// package may be installed, nearest first.
    Package { name: String, subpath: String, candidates: Vec<String> },
}

/// A request checked and classified, ready for the filesystem to be consulted.
pub struct PreparedRequest {
    /// The conditions the request is resolved under.
    pub conditions: Vec<String>,
    /// The directory of the importing file.
    pub importer_dir: String,
    pub plan: ResolvePlan,
}

/// The plan for a specifier seen from `dir`.
pub open spec fn plan_matches(plan: ResolvePlan, spec: Seq<char>, dir: Seq<char>, root: Option<Seq<char>>) -> bool {
    let n = normalized_spec(spec);
    if path_like(n) {
        plan matches ResolvePlan::Path(t) && t@ == path_target_of(dir, n)
    } else {
        plan matches ResolvePlan::Package { name, subpath, candidates } && (name@, subpath@) == split_spec(n)
            && candidates.deep_view() == package_candidates(dir, root, split_spec(n).0)
    }
}

/// Checks and classifies a request: the specifier must not be blank and the
/// importer must have a parent directory; a relative or absolute specifier
/// becomes the path it names from that directory, a bare one the package it
/// names with the places it may be installed.
pub fn prepare_resolve(req: &ResolveRequest, options: &ResolveOptions) -> (r: Result<PreparedRequest, ResolveError>)
    ensures
        req.specifier@.len() == 0 ==> r matches Err(ResolveError::EmptySpecifier),
        r matches Err(ResolveError::EmptySpecifier) <==> trimmed(req.specifier@).len() == 0,
        r matches Err(ResolveError::MissingImporter) <==> trimmed(req.specifier@).len() != 0
            && parent_of(req.importer@) is None,
        !(r matches Err(ResolveError::PackageJson(_))),
        r matches Ok(p) ==> {
            &&& parent_of(req.importer@) == Some(p.importer_dir@)
            &&& p.conditions.deep_view() == merged_conditions(options.conditions.deep_view(), options.prefer_cjs)
            &&& plan_matches(p.plan, req.specifier@, p.importer_dir@, opt_view(req.project_root))
        },
{
    let conditions = merge_conditions(&options.conditions, options.prefer_cjs);
    if trim(req.specifier.as_str()).unicode_len() == 0 {
        return Err(ResolveError::EmptySpecifier);
    }
    let importer_dir = match path_parent(req.importer.as_str()) {
        Some(d) => d,
        None => {
            return Err(ResolveError::MissingImporter);
        },
    };
    let spec = replace_char(req.specifier.as_str(), '\\', "/");
    let plan = if is_relative(spec.as_str()) || starts_with(spec.as_str(), "/") {
        ResolvePlan::Path(path_target(importer_dir.as_str(), spec.as_str()))
    } else {
        let (name, subpath) = split_package_specifier(spec.as_str());
        let candidates = package_dir_candidates(importer_dir.as_str(), req.project_root.as_ref(), name.as_str());
        ResolvePlan::Package { name, subpath, candidates }
    };
    Ok(PreparedRequest { conditions, importer_dir, plan })
}

/// The response for a resolution that ended with `resolved`.
pub fn finish_response(
    resolved: Option<String>,
    matched_export: Option<String>,
    package_json: Option<String>,
    warnings: Vec<String>,
) -> (r: ResolveResponse)
    ensures
        opt_view(r.resolved_path) == opt_view(resolved),
        r.format == match resolved {
            Some(p) => format_of(p@),
            None => ModuleFormat::Unknown,
        },
        opt_view(r.matched_export) == opt_view(matched_export),
        opt_view(r.package_json) == opt_view(package_json),
        r.warnings.deep_view() == warnings.deep_view(),
{
    let format = match &resolved {
        Some(p) => detect_format(p.as_str()),
        None => ModuleFormat::Unknown,
    };
    ResolveResponse { resolved_path: resolved, format, matched_export, package_json, warnings }
}

/// The warning given when a package is installed nowhere along the search.
pub open spec fn not_found_warning(name: Seq<char>, dir: Seq<char>) -> Seq<char> {
    "Package '"@ + name + "' not found from \""@ + dir + "\""@
}

/// The response for a bare specifier whose package was not found.
pub fn package_not_found(name: &str, importer_dir: &str) -> (r: ResolveResponse)
    ensures
        r.resolved_path is None,
        r.format == ModuleFormat::Unknown,
        r.matched_export is None,
        r.package_json is None,
        r.warnings.deep_view() == seq![not_found_warning(name@, importer_dir@)],
{
    let text = String::from_str("Package '").concat(name).concat("' not found from \"").concat(importer_dir).concat("\"");
    let warnings = vec![text];
    proof {
        assert(warnings.deep_view() =~= seq![not_found_warning(name@, importer_dir@)]);
    }
    ResolveResponse {
        resolved_path: None,
        format: ModuleFormat::Unknown,
        matched_export: None,
        package_json: None,
        warnings,
    }
}


/// Under the default options, an `exports` field whose root is a condition
/// map holding `"import"`, `"require"` and `"default"` targets (the map under
/// its `"."` key, or the field itself when it has no such key) gives the
/// `"import"` target for the package root; once CommonJS is preferred it
/// gives the `"require"` target.
pub proof fn lemma_condition_preference(
    exports: JsonValue,
    entries: Vec<(String, JsonValue)>,
    import: Seq<char>,
    require: Seq<char>,
    default: Seq<char>,
)
    requires
        crate::exports::root_value(exports) == JsonValue::Object(entries),
        entry_value(entries@, "import"@) matches Some(JsonValue::Str(s)) && s@ == import,
        entry_value(entries@, "require"@) matches Some(JsonValue::Str(s)) && s@ == require,
        entry_value(entries@, "default"@) matches Some(JsonValue::Str(s)) && s@ == default,
    ensures
        exports_target(exports, "."@, merged_conditions(default_conditions(), false)) == Some(import),
        exports_target(exports, "."@, merged_conditions(default_conditions(), true)) == Some(require),
{
    reveal_strlit("import");
    reveal_strlit("require");
    reveal_strlit("default");
    let conds = default_conditions();
    assert(conds[0] == "import"@);
    assert(!conds.contains("require"@)) by {
        assert("require"@.len() != "import"@.len());
        assert("require"@[0] != "default"@[0]);
        if conds.contains("require"@) {
            let j = choose|j: int| 0 <= j < conds.len() && conds[j] == "require"@;
            assert(j == 0 || j == 1);
        }
    }
    let cjs = merged_conditions(conds, true);
    assert(cjs[0] == "require"@);
    let i = crate::exports::entry_index(entries@, "import"@, 0)->Some_0;
    assert(crate::exports::select_target(entries@[i].1, conds) == Some(import));
    assert(crate::exports::object_target(entries@, conds, 0) == Some(import));
    let j = crate::exports::entry_index(entries@, "require"@, 0)->Some_0;
    assert(crate::exports::select_target(entries@[j].1, cjs) == Some(require));
    assert(crate::exports::object_target(entries@, cjs, 0) == Some(require));
}

} // verus!

//! Discovery of a package's declaration files: the candidates of each
//! source, the bounded scan of their directories, and the sorted,
//! duplicate-free result.

use vstd::prelude::*;
use crate::exports::{exports_types_target, is_declaration, is_declaration_path, types_conditions, JsonValue, resolve_exports_types};
use crate::paths::{file_name_of, joined, parent_of, path_file_name, path_join, path_parent};
use crate::resolve::{exports_field, manifest_types_field, opt_deref, types_field, joined_opt};
use crate::text::{
    has_prefix, lemma_lex_irreflexive, lemma_lex_total, lemma_lex_transitive, lex_less, opt_view,
    replace_char, replaced, starts_with, str_less, stripped_prefix, trim_start_matches,
};

verus! {

/// Deepest level, below a discovered file's directory, that the scan reads.
pub const MAX_SCAN_DEPTH: usize = 2;

/// Most files the scan accumulates for one package.
pub const MAX_TYPINGS_FILES: usize = 50;

/// Declaration files found for a package.
pub struct TypingsResponse {
    pub package_name: String,
    /// Sorted and free of duplicates.
    pub files: Vec<String>,
    pub package_json: Option<String>,
}

/// The `@types` package that shadows `name`: its leading `@` signs dropped
/// and each `/` written `__`.
pub open spec fn types_package_of(name: Seq<char>) -> Seq<char> {
    "@types/"@ + replaced(stripped_prefix(name, "@"@), '/', "__"@)
}

/// Name of the `@types` package that shadows `name`.
pub fn types_package_name(name: &str) -> (r: String)
    ensures
        r@ == types_package_of(name@),
{
    proof {
        reveal_strlit("@");
    }
    let bare = trim_start_matches(name, "@");
    let flat = replace_char(bare, '/', "__");
    String::from_str("@types/").concat(flat.as_str())
}

/// Paths inside a package where a declaration file is conventionally found.
pub open spec fn fallback_paths() -> Seq<Seq<char>> {
    seq![
        "index.d.ts"@,
        "index.d.mts"@,
        "dist/index.d.ts"@,
        "lib/index.d.ts"@,
        "types/index.d.ts"@,
        "build/index.d.ts"@,
    ]
}

/// The declaration-file candidates of a package, in the order they are
/// tried: the `exports` root under the types-first selection and the
/// `types`/`typings` field (both only when the manifest could be read), then
/// the conventional paths. Each is kept when it is a file.
pub open spec fn typings_candidates_of(pkg_dir: Seq<char>, manifest: Option<JsonValue>) -> Seq<Seq<char>> {
    let from_exports = match exports_field(manifest) {
        Some(e) => match exports_types_target(e, "."@, types_conditions()) {
            Some(t) => seq![joined(pkg_dir, stripped_prefix(t, "./"@))],
            None => seq![],
        },
        None => seq![],
    };
    let from_field = match manifest {
        Some(m) => joined_opt(pkg_dir, types_field(m)),
        None => seq![],
    };
    from_exports + from_field + fallback_paths().map_values(|p: Seq<char>| joined(pkg_dir, p))
}

/// The declaration-file candidates of the package installed at `pkg_dir`.
pub fn typings_candidates(pkg_dir: &str, manifest: Option<&JsonValue>) -> (r: Vec<String>)
    ensures
        r.deep_view() == typings_candidates_of(pkg_dir@, opt_deref(manifest)),
{
    let mut r: Vec<String> = Vec::new();
    let exports = match manifest {
        Some(JsonValue::Object(entries)) => match crate::exports::find_entry(entries, &String::from_str("exports")) {
            Some(i) => Some(&entries[i].1),
            None => None,
        },
        _ => None,
    };
    if let Some(e) = exports {
        proof {
            reveal_strlit(".");
            reveal_strlit("./");
        }
        if let Some(t) = resolve_exports_types(e, ".") {
            r.push(path_join(pkg_dir, trim_start_matches(t.as_str(), "./")));
        }
    }
    let ghost first = r.deep_view();
    if let Some(m) = manifest {
        if let Some(t) = manifest_types_field(m) {
            r.push(path_join(pkg_dir, t.as_str()));
        }
    }
    let ghost second = r.deep_view();
    let fallbacks = vec![
        String::from_str("index.d.ts"),
        String::from_str("index.d.mts"),
        String::from_str("dist/index.d.ts"),
        String::from_str("lib/index.d.ts"),
        String::from_str("types/index.d.ts"),
        String::from_str("build/index.d.ts"),
    ];
    proof {
        assert(fallbacks.deep_view() =~= fallback_paths());
    }
    let mut i: usize = 0;
    while i < fallbacks.len()
        invariant
            i <= fallbacks@.len(),
            fallbacks.deep_view() == fallback_paths(),
            r@.len() == second.len() + i,
            forall|k: int| 0 <= k < second.len() ==> #[trigger] r@[k]@ == second[k],
            forall|k: int| 0 <= k < i ==> #[trigger] r@[second.len() + k]@ == joined(pkg_dir@, fallback_paths()[k]),
        decreases fallbacks.len() - i,
    {
        r.push(path_join(pkg_dir, fallbacks[i].as_str()));
        proof {
            assert(fallbacks.deep_view()[i as int] == fallback_paths()[i as int]);
        }
        i = i + 1;
    }
    proof {
        let want = typings_candidates_of(pkg_dir@, opt_deref(manifest));
        assert(second.len() + 6 == want.len());
        assert forall|k: int| 0 <= k < want.len() implies #[trigger] r.deep_view()[k] == want[k] by {
            if k >= second.len() {
                assert(r@[second.len() + (k - second.len())]@ == joined(pkg_dir@, fallback_paths()[k - second.len()]));
            }
        }
        assert(r.deep_view() =~= typings_candidates_of(pkg_dir@, opt_deref(manifest)));
    }
    r
}


/// Whether a directory is scanned: it lies at most `MAX_SCAN_DEPTH` levels
/// below where the scan started, fewer than `MAX_TYPINGS_FILES` files have
/// been gathered, and it has not been scanned before.
pub open spec fn scan_admits(files_len: int, visited: Seq<Seq<char>>, dir: Seq<char>, depth: int) -> bool {
    depth <= MAX_SCAN_DEPTH && files_len < MAX_TYPINGS_FILES && !visited.contains(dir)
}

/// Decides whether the directory `dir`, `depth` levels below where the scan
/// started, is read, and records it as visited when it is.
pub fn begin_scan(files_len: usize, visited: &mut Vec<String>, dir: &str, depth: usize) -> (r: bool)
    ensures
        r == scan_admits(files_len as int, old(visited).deep_view(), dir@, depth as int),
        final(visited).deep_view() == if r { old(visited).deep_view().push(dir@) } else { old(visited).deep_view() },
        r ==> depth <= MAX_SCAN_DEPTH,
{
    if depth > MAX_SCAN_DEPTH || files_len >= MAX_TYPINGS_FILES {
        return false;
    }
    let d = String::from_str(dir);
    if crate::specifier::contains_string(visited, &d) {
        return false;
    }
    visited.push(d);
    proof {
        assert(final(visited).deep_view() =~= old(visited).deep_view().push(dir@));
    }
    true
}

/// What the scan does after one directory entry.
pub enum ScanStep {
    /// The file cap is reached: the scan stops, in this directory and in
    /// every directory above it.
    Stop,
    /// Go on with the next entry.
    Next,
    /// Scan the subdirectory `dir`, at level `depth` (one deeper than the
    /// directory being scanned), before the next entry.
    Descend { dir: String, depth: usize },
}

/// The final component of a path, or nothing.
pub open spec fn name_of(p: Seq<char>) -> Seq<char> {
    match file_name_of(p) {
        Some(n) => n,
        None => seq![],
    }
}

/// A subdirectory that the scan enters: neither `node_modules` nor hidden.
pub open spec fn enters_dir(name: Seq<char>) -> bool {
    name != "node_modules"@ && !has_prefix(name, "."@)
}

fn final_name(p: &str) -> (r: String)
    ensures
        r@ == name_of(p@),
{
    match path_file_name(p) {
        Some(n) => n,
        None => String::new(),
    }
}

/// Handles one entry of a scanned directory `depth` levels below the start:
/// once `MAX_TYPINGS_FILES` files are gathered the scan stops; a declaration
/// file is gathered; a subdirectory above the depth limit that is neither
/// `node_modules` nor hidden is entered. The entry's path is taken with
/// backslashes written as forward slashes.
pub fn scan_entry(files: &mut Vec<String>, depth: usize, path: &str, is_file: bool, is_dir: bool) -> (r: ScanStep)
    ensures
        final(files)@.len() <= if old(files)@.len() < MAX_TYPINGS_FILES { MAX_TYPINGS_FILES as int } else { old(files)@.len() as int },
        r matches ScanStep::Descend { depth: d, .. } ==> depth < MAX_SCAN_DEPTH && d == depth + 1,
        old(files)@.len() >= MAX_TYPINGS_FILES ==> r is Stop && final(files).deep_view() == old(files).deep_view(),
        old(files)@.len() < MAX_TYPINGS_FILES ==> {
            let p = replaced(path@, '\\', "/"@);
            &&& final(files).deep_view() == if is_file && is_declaration(name_of(p)) {
                old(files).deep_view().push(p)
            } else {
                old(files).deep_view()
            }
            &&& match r {
                ScanStep::Stop => false,
                ScanStep::Next => is_file || !is_dir || depth >= MAX_SCAN_DEPTH || !enters_dir(name_of(p)),
                ScanStep::Descend { dir, depth: d } => !is_file && is_dir && depth < MAX_SCAN_DEPTH
                    && enters_dir(name_of(p)) && dir@ == p && d == depth + 1,
            }
        },
{
    if files.len() >= MAX_TYPINGS_FILES {
        return ScanStep::Stop;
    }
    let p = replace_char(path, '\\', "/");
    let name = final_name(p.as_str());
    if is_file {
        if is_declaration_path(name.as_str()) {
            files.push(p);
            proof {
                assert(files.deep_view() =~= old(files).deep_view().push(replaced(path@, '\\', "/"@)));
            }
        }
        ScanStep::Next
    } else if is_dir && depth < MAX_SCAN_DEPTH {
        let modules = String::from_str("node_modules");
        if !(name == modules) && !starts_with(name.as_str(), ".") {
            ScanStep::Descend { dir: p, depth: depth + 1 }
        } else {
            ScanStep::Next
        }
    } else {
        ScanStep::Next
    }
}

/// Every string of `s` comes before every later one.
pub open spec fn strictly_sorted(s: Seq<Seq<char>>) -> bool {
    forall|i: int, j: int| 0 <= i < j < s.len() ==> lex_less(#[trigger] s[i], #[trigger] s[j])
}

proof fn lemma_sorted_insert(old_s: Seq<Seq<char>>, k: int, f: Seq<char>)
    requires
        strictly_sorted(old_s),
        0 <= k <= old_s.len(),
        forall|j: int| 0 <= j < k ==> lex_less(#[trigger] old_s[j], f),
        k < old_s.len() ==> !lex_less(old_s[k], f) && old_s[k] != f,
    ensures
        strictly_sorted(old_s.insert(k, f)),
{
    let s = old_s.insert(k, f);
    if k < old_s.len() {
        lemma_lex_total(old_s[k], f);
    }
    assert forall|i: int, j: int| 0 <= i < j < s.len() implies lex_less(#[trigger] s[i], #[trigger] s[j]) by {
        if j < k {
            assert(s[i] == old_s[i] && s[j] == old_s[j]);
        } else if j == k {
            assert(s[i] == old_s[i]);
        } else if i < k {
            assert(s[i] == old_s[i] && s[j] == old_s[j - 1]);
            assert(lex_less(old_s[i], old_s[j - 1]));
        } else if i == k {
            assert(s[j] == old_s[j - 1]);
            if j - 1 > k {
                assert(lex_less(old_s[k], old_s[j - 1]));
                lemma_lex_transitive(f, old_s[k], old_s[j - 1]);
            }
        } else {
            assert(s[i] == old_s[i - 1] && s[j] == old_s[j - 1]);
        }
    }
}

fn insert_sorted(out: &mut Vec<String>, f: String)
    requires
        strictly_sorted(old(out).deep_view()),
    ensures
        strictly_sorted(final(out).deep_view()),
        forall|x: Seq<char>| final(out).deep_view().contains(x) <==> (old(out).deep_view().contains(x) || x == f@),
{
    let ghost before = out.deep_view();
    let mut k: usize = 0;
    while k < out.len() && str_less(out[k].as_str(), f.as_str())
        invariant
            k <= out@.len(),
            out.deep_view() == before,
            forall|j: int| 0 <= j < k ==> lex_less(#[trigger] before[j], f@),
        decreases out.len() - k,
    {
        k = k + 1;
    }
    if k < out.len() && out[k] == f {
        proof {
            assert(before[k as int] == f@);
        }
        return;
    }
    let ghost fv = f@;
    out.insert(k, f);
    proof {
        lemma_sorted_insert(before, k as int, fv);
        assert(before == old(out).deep_view());
        assert(fv == f@);
        assert(out.deep_view() =~= before.insert(k as int, fv));
        assert forall|x: Seq<char>| #[trigger] out.deep_view().contains(x) <==> (before.contains(x) || x == fv) by {
            if out.deep_view().contains(x) {
                let i = choose|i: int| 0 <= i < out.deep_view().len() && out.deep_view()[i] == x;
                if i < k {
                    assert(before[i] == x);
                } else if i > k {
                    assert(before[i - 1] == x);
                }
            }
            if x == fv {
                assert(out.deep_view()[k as int] == x);
            } else if before.contains(x) {
                let i = choose|i: int| 0 <= i < before.len() && before[i] == x;
                if i < k {
                    assert(out.deep_view()[i] == x);
                } else {
                    assert(out.deep_view()[i + 1] == x);
                }
            }
        }
    }
}

/// `files` sorted, each path once.
pub fn sorted_unique(files: &Vec<String>) -> (r: Vec<String>)
    ensures
        strictly_sorted(r.deep_view()),
        forall|x: Seq<char>| r.deep_view().contains(x) <==> files.deep_view().contains(x),
{
    let mut out: Vec<String> = Vec::new();
    let mut i: usize = 0;
    while i < files.len()
        invariant
            i <= files@.len(),
            strictly_sorted(out.deep_view()),
            forall|x: Seq<char>| out.deep_view().contains(x) <==> files.deep_view().subrange(0, i as int).contains(x),
        decreases files.len() - i,
    {
        insert_sorted(&mut out, files[i].clone());
        proof {
            let pre = files.deep_view().subrange(0, i as int);
            let post = files.deep_view().subrange(0, i + 1);
            assert(post =~= pre.push(files.deep_view()[i as int]));
            assert forall|x: Seq<char>| post.contains(x) <==> (pre.contains(x) || x == files.deep_view()[i as int]) by {
                if post.contains(x) && x != files.deep_view()[i as int] {
                    let j = choose|j: int| 0 <= j < post.len() && post[j] == x;
                    assert(pre[j] == x);
                }
                if pre.contains(x) {
                    let j = choose|j: int| 0 <= j < pre.len() && pre[j] == x;
                    assert(post[j] == x);
                }
                if x == files.deep_view()[i as int] {
                    assert(post[i as int] == x);
                }
            }
        }
        i = i + 1;
    }
    proof {
        assert(files.deep_view().subrange(0, files@.len() as int) =~= files.deep_view());
    }
    out
}

/// The response for a package, with its files sorted and each given once.
pub fn finish_typings(package_name: &str, files: &Vec<String>, package_json: Option<String>) -> (r: TypingsResponse)
    ensures
        r.package_name@ == package_name@,
        strictly_sorted(r.files.deep_view()),
        forall|x: Seq<char>| r.files.deep_view().contains(x) <==> files.deep_view().contains(x),
        opt_view(r.package_json) == opt_view(package_json),
        r.files@.len() <= files@.len(),
{
    let sorted = sorted_unique(files);
    proof {
        lemma_sorted_len(sorted.deep_view(), files.deep_view());
    }
    TypingsResponse { package_name: String::from_str(package_name), files: sorted, package_json }
}


/// Gathers a candidate that turned out to be a file, while fewer than
/// `MAX_TYPINGS_FILES` files are gathered, and gives the directory whose
/// declaration files are scanned next: the file's parent.
pub fn add_discovered(files: &mut Vec<String>, path: &str) -> (r: Option<String>)
    ensures
        final(files).deep_view() == if old(files)@.len() < MAX_TYPINGS_FILES {
            old(files).deep_view().push(path@)
        } else {
            old(files).deep_view()
        },
        final(files)@.len() <= if old(files)@.len() < MAX_TYPINGS_FILES { MAX_TYPINGS_FILES as int } else { old(files)@.len() as int },
        opt_view(r) == parent_of(path@),
{
    if files.len() < MAX_TYPINGS_FILES {
        files.push(String::from_str(path));
        proof {
            assert(files.deep_view() =~= old(files).deep_view().push(path@));
        }
    }
    path_parent(path)
}

/// The manifest path recorded for a package: the package's own when one was
/// recorded, else that of the `@types` package found at `types_dir`.
pub fn record_types_manifest(package_json: Option<String>, types_dir: &str) -> (r: Option<String>)
    ensures
        opt_view(r) == match opt_view(package_json) {
            Some(p) => Some(p),
            None => Some(joined(types_dir@, "package.json"@)),
        },
{
    match package_json {
        Some(p) => Some(p),
        None => Some(path_join(types_dir, "package.json")),
    }
}

proof fn lemma_sorted_no_duplicates(s: Seq<Seq<char>>)
    requires
        strictly_sorted(s),
    ensures
        s.no_duplicates(),
{
    assert forall|i: int, j: int| 0 <= i < s.len() && 0 <= j < s.len() && i != j implies s[i] != s[j] by {
        if i < j {
            assert(lex_less(s[i], s[j]));
        } else {
            assert(lex_less(s[j], s[i]));
        }
        lemma_lex_irreflexive(s[i]);
    }
}

/// A sorted list holding exactly the strings of `files` is no longer than it.
proof fn lemma_sorted_len(r: Seq<Seq<char>>, files: Seq<Seq<char>>)
    requires
        strictly_sorted(r),
        forall|x: Seq<char>| r.contains(x) <==> files.contains(x),
    ensures
        r.len() <= files.len(),
{
    lemma_sorted_no_duplicates(r);
    r.unique_seq_to_set();
    files.lemma_cardinality_of_set();
    assert(r.to_set() =~= files.to_set());
}

/// One package's discovery in progress: the files gathered, the
/// directories scanned and the manifest path recorded. It never holds more
/// than `MAX_TYPINGS_FILES` files.
pub struct TypingsDiscovery {
    files: Vec<String>,
    visited: Vec<String>,
    package_json: Option<String>,
}

impl TypingsDiscovery {
    #[verifier::type_invariant]
    spec fn capped(&self) -> bool {
        self.files@.len() <= MAX_TYPINGS_FILES
    }

    /// The files gathered so far, in order.
    pub closed spec fn files(&self) -> Seq<Seq<char>> {
        self.files.deep_view()
    }

    /// The directories scanned so far.
    pub closed spec fn visited(&self) -> Seq<Seq<char>> {
        self.visited.deep_view()
    }

    /// The manifest path recorded so far.
    pub closed spec fn manifest(&self) -> Option<Seq<char>> {
        opt_view(self.package_json)
    }

    /// Nothing gathered, scanned or recorded.
    pub fn new() -> (r: TypingsDiscovery)
        ensures
            r.files() == Seq::<Seq<char>>::empty(),
            r.visited() == Seq::<Seq<char>>::empty(),
            r.manifest() is None,
    {
        let r = TypingsDiscovery { files: Vec::new(), visited: Vec::new(), package_json: None };
        proof {
            assert(r.files() =~= Seq::<Seq<char>>::empty());
            assert(r.visited() =~= Seq::<Seq<char>>::empty());
        }
        r
    }

    /// Records the manifest path of the package installed at `pkg_dir`.
    pub fn record_package(&mut self, pkg_dir: &str)
        ensures
            final(self).manifest() == Some(joined(pkg_dir@, "package.json"@)),
            final(self).files() == old(self).files(),
            final(self).visited() == old(self).visited(),
    {
        proof {
            use_type_invariant(&*self);
        }
        self.package_json = Some(path_join(pkg_dir, "package.json"));
    }

    /// Records the manifest of the `@types` package at `types_dir`, unless a
    /// manifest path was recorded already.
    pub fn record_types_package(&mut self, types_dir: &str)
        ensures
            final(self).manifest() == match old(self).manifest() {
                Some(p) => Some(p),
                None => Some(joined(types_dir@, "package.json"@)),
            },
            final(self).files() == old(self).files(),
            final(self).visited() == old(self).visited(),
    {
        proof {
            use_type_invariant(&*self);
        }
        let current = match &self.package_json {
            Some(p) => Some(p.clone()),
            None => None,
        };
        self.package_json = record_types_manifest(current, types_dir);
    }

    /// Gathers a source candidate that is a file (see `add_discovered`) and
    /// gives the directory to scan next.
    pub fn add_source(&mut self, path: &str) -> (r: Option<String>)
        ensures
            final(self).files() == if old(self).files().len() < MAX_TYPINGS_FILES {
                old(self).files().push(path@)
            } else {
                old(self).files()
            },
            final(self).visited() == old(self).visited(),
            final(self).manifest() == old(self).manifest(),
            opt_view(r) == parent_of(path@),
    {
        proof {
            use_type_invariant(&*self);
        }
        let mut files: Vec<String> = Vec::new();
        std::mem::swap(&mut files, &mut self.files);
        let r = add_discovered(&mut files, path);
        self.files = files;
        r
    }

    /// Whether `MAX_TYPINGS_FILES` files are gathered.
    pub fn is_full(&self) -> (r: bool)
        ensures
            r == (self.files().len() >= MAX_TYPINGS_FILES),
    {
        self.files.len() >= MAX_TYPINGS_FILES
    }

    /// Decides whether to read `dir`, at level `depth` (see `begin_scan`).
    pub fn enter_dir(&mut self, dir: &str, depth: usize) -> (r: bool)
        ensures
            r == scan_admits(old(self).files().len() as int, old(self).visited(), dir@, depth as int),
            final(self).visited() == if r { old(self).visited().push(dir@) } else { old(self).visited() },
            final(self).files() == old(self).files(),
            final(self).manifest() == old(self).manifest(),
            r ==> depth <= MAX_SCAN_DEPTH,
    {
        proof {
            use_type_invariant(&*self);
        }
        let n = self.files.len();
        let mut visited: Vec<String> = Vec::new();
        std::mem::swap(&mut visited, &mut self.visited);
        let r = begin_scan(n, &mut visited, dir, depth);
        self.visited = visited;
        r
    }

    /// Handles one entry of a directory being scanned at level `depth` (see
    /// `scan_entry`).
    pub fn entry(&mut self, depth: usize, path: &str, is_file: bool, is_dir: bool) -> (r: ScanStep)
        ensures
            r matches ScanStep::Descend { depth: d, .. } ==> depth < MAX_SCAN_DEPTH && d == depth + 1,
            old(self).files().len() >= MAX_TYPINGS_FILES ==> r is Stop && final(self).files() == old(self).files(),
            old(self).files().len() < MAX_TYPINGS_FILES ==> {
                let p = replaced(path@, '\\', "/"@);
                &&& final(self).files() == if is_file && is_declaration(name_of(p)) {
                    old(self).files().push(p)
                } else {
                    old(self).files()
                }
                &&& match r {
                    ScanStep::Stop => false,
                    ScanStep::Next => is_file || !is_dir || depth >= MAX_SCAN_DEPTH || !enters_dir(name_of(p)),
                    ScanStep::Descend { dir, depth: d } => !is_file && is_dir && depth < MAX_SCAN_DEPTH
                        && enters_dir(name_of(p)) && dir@ == p && d == depth + 1,
                }
            },
            final(self).visited() == old(self).visited(),
            final(self).manifest() == old(self).manifest(),
    {
        proof {
            use_type_invariant(&*self);
        }
        let mut files: Vec<String> = Vec::new();
        std::mem::swap(&mut files, &mut self.files);
        let r = scan_entry(&mut files, depth, path, is_file, is_dir);
        self.files = files;
        r
    }

    /// The response: the gathered files sorted, each once, never more than
    /// `MAX_TYPINGS_FILES` of them, with the recorded manifest path.
    pub fn finish(self, package_name: &str) -> (r: TypingsResponse)
        ensures
            r.package_name@ == package_name@,
            strictly_sorted(r.files.deep_view()),
            forall|x: Seq<char>| r.files.deep_view().contains(x) <==> self.files().contains(x),
            r.files@.len() <= MAX_TYPINGS_FILES,
            opt_view(r.package_json) == self.manifest(),
    {
        proof {
            use_type_invariant(&self);
        }
        finish_typings(package_name, &self.files, self.package_json)
    }
}

} // verus!

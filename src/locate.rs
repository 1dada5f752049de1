//! The paths that resolution probes, in the order in which it probes them,
//! and the choice among them once the caller has found which exist.

use vstd::prelude::*;
use crate::paths::{joined, parent_of, path_eq, path_join, path_parent, same_path};
use crate::text::{has_prefix, opt_view, starts_with};

verus! {

/// The first of `paths[i..end]` whose flag in `found` is set.
pub open spec fn first_found(paths: Seq<Seq<char>>, found: Seq<bool>, i: int, end: int) -> Option<Seq<char>>
    decreases end - i,
{
    if i < 0 || i >= end {
        None
    } else if found[i] {
        Some(paths[i])
    } else {
        first_found(paths, found, i + 1, end)
    }
}

/// The first of `paths[from..end]` whose flag in `found` is set.
pub fn pick_first(paths: &Vec<String>, found: &Vec<bool>, from: usize, end: usize) -> (r: Option<String>)
    requires
        end <= paths@.len(),
        paths@.len() == found@.len(),
    ensures
        opt_view(r) == first_found(paths.deep_view(), found@, from as int, end as int),
{
    let mut i: usize = from;
    while i < end
        invariant
            from <= i,
            end <= paths@.len(),
            paths@.len() == found@.len(),
            first_found(paths.deep_view(), found@, from as int, end as int)
                == first_found(paths.deep_view(), found@, i as int, end as int),
        decreases end - i,
    {
        if found[i] {
            return Some(paths[i].clone());
        }
        i = i + 1;
    }
    None
}

/// The path a specifier names from `base`: itself when absolute, else joined onto `base`.
pub open spec fn path_target_of(base: Seq<char>, spec: Seq<char>) -> Seq<char> {
    if has_prefix(spec, "/"@) { spec } else { joined(base, spec) }
}

pub fn path_target(base: &str, specifier: &str) -> (r: String)
    ensures
        r@ == path_target_of(base@, specifier@),
{
    if starts_with(specifier, "/") {
        String::from_str(specifier)
    } else {
        path_join(base, specifier)
    }
}

/// The files tried for `target`, in order: the target itself, the target
/// with each extension appended, then `index` with each extension inside it.
pub open spec fn probe_paths_of(target: Seq<char>, exts: Seq<Seq<char>>) -> Seq<Seq<char>> {
    seq![target] + exts.map_values(|e: Seq<char>| target + e)
        + exts.map_values(|e: Seq<char>| joined(target, "index"@ + e))
}

pub fn probe_paths(target: &str, extensions: &Vec<String>) -> (r: Vec<String>)
    ensures
        r.deep_view() == probe_paths_of(target@, extensions.deep_view()),
        r@.len() == 2 * extensions@.len() + 1,
{
    let ghost exts = extensions.deep_view();
    let n = extensions.len();
    let mut r: Vec<String> = Vec::new();
    r.push(String::from_str(target));
    let mut i: usize = 0;
    while i < n
        invariant
            i <= n == extensions@.len(),
            exts == extensions.deep_view(),
            r@.len() == i + 1,
            r@[0]@ == target@,
            forall|k: int| 0 <= k < i ==> #[trigger] r@[k + 1]@ == target@ + exts[k],
        decreases n - i,
    {
        r.push(String::from_str(target).concat(extensions[i].as_str()));
        i = i + 1;
    }
    let mut j: usize = 0;
    while j < n
        invariant
            j <= n == extensions@.len(),
            exts == extensions.deep_view(),
            r@.len() == n + j + 1,
            r@[0]@ == target@,
            forall|k: int| 0 <= k < n ==> #[trigger] r@[k + 1]@ == target@ + exts[k],
            forall|k: int| 0 <= k < j ==> #[trigger] r@[n + 1 + k]@ == joined(target@, "index"@ + exts[k]),
        decreases n - j,
    {
        let name = String::from_str("index").concat(extensions[j].as_str());
        r.push(path_join(target, name.as_str()));
        j = j + 1;
    }
    proof {
        let spec_paths = probe_paths_of(target@, exts);
        assert forall|k: int| 0 <= k < r@.len() implies #[trigger] r.deep_view()[k] == spec_paths[k] by {
            if k == 0 {
            } else if k <= n {
                assert(r@[(k - 1) + 1]@ == target@ + exts[k - 1]);
            } else {
                assert(r@[n + 1 + (k - n - 1)]@ == joined(target@, "index"@ + exts[k - n - 1]));
            }
        }
        assert(r.deep_view() =~= spec_paths);
    }
    r
}

/// The file that `target` resolves to given which of its `2 * n + 1` probe
/// paths are files (`n` extensions): the first file among the target and
/// its suffixed forms, else, when the target is a directory, the first file
/// among its index forms.
pub open spec fn resolved_from(paths: Seq<Seq<char>>, found: Seq<bool>, n: int, target_is_dir: bool) -> Option<Seq<char>> {
    match first_found(paths, found, 0, n + 1) {
        Some(p) => Some(p),
        None => if target_is_dir { first_found(paths, found, n + 1, 2 * n + 1) } else { None },
    }
}

/// Resolves `target` against the extension list, from the flags saying which
/// of `probe_paths(target, extensions)` are files.
pub fn resolve_with_extensions(target: &str, extensions: &Vec<String>, is_file: &Vec<bool>, target_is_dir: bool) -> (r: Option<String>)
    requires
        is_file@.len() == 2 * extensions@.len() + 1,
    ensures
        opt_view(r) == resolved_from(
            probe_paths_of(target@, extensions.deep_view()),
            is_file@,
            extensions@.len() as int,
            target_is_dir,
        ),
{
    let paths = probe_paths(target, extensions);
    let n = extensions.len();
    let total = paths.len();
    match pick_first(&paths, is_file, 0, n + 1) {
        Some(p) => Some(p),
        None => {
            if target_is_dir {
                pick_first(&paths, is_file, n + 1, total)
            } else {
                None
            }
        },
    }
}

/// The first of `targets[i..]` that resolves, given for each target which of
/// its probe paths are files and whether it is a directory.
pub open spec fn first_resolved(
    targets: Seq<Seq<char>>,
    exts: Seq<Seq<char>>,
    is_file: Seq<Seq<bool>>,
    is_dir: Seq<bool>,
    i: int,
) -> Option<Seq<char>>
    decreases targets.len() - i,
{
    if i < 0 || i >= targets.len() {
        None
    } else {
        match resolved_from(probe_paths_of(targets[i], exts), is_file[i], exts.len() as int, is_dir[i]) {
            Some(p) => Some(p),
            None => first_resolved(targets, exts, is_file, is_dir, i + 1),
        }
    }
}

pub open spec fn flags_view(v: Seq<Vec<bool>>) -> Seq<Seq<bool>> {
    v.map_values(|f: Vec<bool>| f@)
}

/// The first target that resolves; `is_file[i]` flags which of
/// `probe_paths(targets[i], extensions)` are files and `is_dir[i]` whether
/// `targets[i]` is a directory.
pub fn resolve_first_target(
    targets: &Vec<String>,
    extensions: &Vec<String>,
    is_file: &Vec<Vec<bool>>,
    is_dir: &Vec<bool>,
) -> (r: Option<String>)
    requires
        is_file@.len() == targets@.len(),
        is_dir@.len() == targets@.len(),
        forall|i: int| 0 <= i < is_file@.len() ==> (#[trigger] is_file@[i])@.len() == 2 * extensions@.len() + 1,
    ensures
        opt_view(r) == first_resolved(targets.deep_view(), extensions.deep_view(), flags_view(is_file@), is_dir@, 0),
{
    let mut i: usize = 0;
    while i < targets.len()
        invariant
            i <= targets@.len(),
            is_file@.len() == targets@.len(),
            is_dir@.len() == targets@.len(),
            forall|j: int| 0 <= j < is_file@.len() ==> (#[trigger] is_file@[j])@.len() == 2 * extensions@.len() + 1,
            first_resolved(targets.deep_view(), extensions.deep_view(), flags_view(is_file@), is_dir@, 0)
                == first_resolved(targets.deep_view(), extensions.deep_view(), flags_view(is_file@), is_dir@, i as int),
        decreases targets.len() - i,
    {
        let found = resolve_with_extensions(targets[i].as_str(), extensions, &is_file[i], is_dir[i]);
        proof {
            assert(flags_view(is_file@)[i as int] == is_file@[i as int]@);
        }
        if found.is_some() {
            return found;
        }
        i = i + 1;
    }
    None
}

/// The directories searched, from `cur` upward, for a `node_modules` entry:
/// each directory and then its parent, stopping after the project root when
/// one is given and after the last directory that has no parent.
pub open spec fn ancestors(cur: Seq<char>, root: Option<Seq<char>>) -> Seq<Seq<char>>
    decreases cur.len(),
{
    if root matches Some(r) && same_path(cur, r) {
        seq![cur]
    } else {
        match parent_of(cur) {
            Some(p) => if p.len() < cur.len() { seq![cur] + ancestors(p, root) } else { seq![cur] },
            None => seq![cur],
        }
    }
}

/// Where a package may be installed, nearest first.
pub open spec fn package_candidates(start: Seq<char>, root: Option<Seq<char>>, package: Seq<char>) -> Seq<Seq<char>> {
    ancestors(start, root).map_values(|a: Seq<char>| joined(joined(a, "node_modules"@), package))
}

pub open spec fn opt_str_view(o: Option<&String>) -> Option<Seq<char>> {
    match o {
        Some(s) => Some(s@),
        None => None,
    }
}

fn push_package_candidates(current: &str, project_root: Option<&String>, package: &str, out: &mut Vec<String>)
    ensures
        final(out).deep_view() == old(out).deep_view() + package_candidates(current@, opt_str_view(project_root), package@),
    decreases current@.len(),
{
    let ghost root = opt_str_view(project_root);
    let modules = path_join(current, "node_modules");
    out.push(path_join(modules.as_str(), package));
    let ghost first = joined(joined(current@, "node_modules"@), package@);
    let stop = match project_root {
        Some(r) => path_eq(current, r.as_str()),
        None => false,
    };
    if stop {
        proof {
            assert(package_candidates(current@, root, package@) =~= seq![first]);
        }
        return;
    }
    match path_parent(current) {
        Some(p) => {
            let ghost mid = out.deep_view();
            push_package_candidates(p.as_str(), project_root, package, out);
            proof {
                assert(ancestors(current@, root) == seq![current@] + ancestors(p@, root));
                assert(package_candidates(current@, root, package@)
                    =~= seq![first] + package_candidates(p@, root, package@));
            }
        },
        None => {
            proof {
                assert(package_candidates(current@, root, package@) =~= seq![first]);
            }
        },
    }
}

/// Where a package may be installed, from the directory of the importing file
/// up to the project root or the filesystem root, nearest first.
pub fn package_dir_candidates(start: &str, project_root: Option<&String>, package: &str) -> (r: Vec<String>)
    ensures
        r.deep_view() == package_candidates(start@, opt_str_view(project_root), package@),
{
    let mut r: Vec<String> = Vec::new();
    push_package_candidates(start, project_root, package, &mut r);
    proof {
        assert(r.deep_view() =~= package_candidates(start@, opt_str_view(project_root), package@));
    }
    r
}


/// The upward search for a package always ends: it visits the start
/// directory first and then each directory's parent, passes neither the
/// project root nor a directory without a parent, and so visits at most one
/// directory more than the start path has characters. When the package is in
/// none of the places visited, nothing is found.
pub proof fn lemma_package_search_ends(start: Seq<char>, root: Option<Seq<char>>, package: Seq<char>, found: Seq<bool>)
    requires
        found.len() == package_candidates(start, root, package).len(),
        forall|i: int| 0 <= i < found.len() ==> !found[i],
    ensures
        ancestors(start, root).len() >= 1,
        ancestors(start, root)[0] == start,
        ancestors(start, root).len() <= start.len() + 1,
        forall|i: int| 0 <= i < ancestors(start, root).len() - 1 ==> {
            &&& parent_of(#[trigger] ancestors(start, root)[i]) == Some(ancestors(start, root)[i + 1])
            &&& !(root matches Some(r) && same_path(ancestors(start, root)[i], r))
        },
        ({
            let last = ancestors(start, root).last();
            (root matches Some(r) && same_path(last, r)) || parent_of(last) is None
                || parent_of(last).unwrap().len() >= last.len()
        }),
        first_found(package_candidates(start, root, package), found, 0, found.len() as int) is None,
    decreases start.len(),
{
    reveal_with_fuel(first_found, 2);
    let a = ancestors(start, root);
    if !(root matches Some(r) && same_path(start, r)) {
        if let Some(p) = parent_of(start) {
            if p.len() < start.len() {
                let rest = package_candidates(p, root, package);
                let rest_found = found.subrange(1, found.len() as int);
                assert(package_candidates(start, root, package) =~= seq![joined(joined(start, "node_modules"@), package)] + rest);
                assert forall|i: int| 0 <= i < rest_found.len() implies !rest_found[i] by {
                    assert(rest_found[i] == found[i + 1]);
                }
                lemma_package_search_ends(p, root, package, rest_found);
                assert(a == seq![start] + ancestors(p, root));
                assert forall|i: int| 0 <= i < a.len() - 1 implies {
                    &&& parent_of(#[trigger] a[i]) == Some(a[i + 1])
                    &&& !(root matches Some(r) && same_path(a[i], r))
                } by {
                    if i > 0 {
                        assert(a[i] == ancestors(p, root)[i - 1]);
                    }
                }
                assert(package_candidates(start, root, package).drop_first() =~= rest);
                assert(found.drop_first() =~= rest_found);
                lemma_first_found_shift(package_candidates(start, root, package), found, rest, rest_found);
            }
        }
    }
}

proof fn lemma_first_found_shift(paths: Seq<Seq<char>>, found: Seq<bool>, rest: Seq<Seq<char>>, rest_found: Seq<bool>)
    requires
        paths.len() == found.len() >= 1,
        !found[0],
        rest == paths.drop_first(),
        rest_found == found.drop_first(),
        first_found(rest, rest_found, 0, rest_found.len() as int) is None,
    ensures
        first_found(paths, found, 0, found.len() as int) is None,
{
    assert forall|k: int| 0 <= k <= rest_found.len() implies
        #[trigger] first_found(rest, rest_found, k, rest_found.len() as int)
            == first_found(paths, found, k + 1, found.len() as int) by {
        lemma_first_found_step(paths, found, rest, rest_found, k);
    }
}

proof fn lemma_first_found_step(paths: Seq<Seq<char>>, found: Seq<bool>, rest: Seq<Seq<char>>, rest_found: Seq<bool>, k: int)
    requires
        paths.len() == found.len() >= 1,
        rest == paths.drop_first(),
        rest_found == found.drop_first(),
        0 <= k <= rest_found.len(),
    ensures
        first_found(rest, rest_found, k, rest_found.len() as int) == first_found(paths, found, k + 1, found.len() as int),
    decreases rest_found.len() - k,
{
    if k < rest_found.len() {
        lemma_first_found_step(paths, found, rest, rest_found, k + 1);
    }
}

} // verus!

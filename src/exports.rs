//! Evaluation of a package's `exports` field against a subpath and an ordered
//! list of acceptable conditions.

use vstd::prelude::*;
use crate::text::{
    char_index, ends_with, find_char, has_prefix, has_suffix, lemma_char_index_bounds, opt_index,
    opt_view, replace_char, replaced, starts_with, stripped_prefix, trim_start_matches,
};

verus! {

/// A JSON value as far as `exports` evaluation reads it.
pub enum JsonValue {
    Str(String),
    Array(Vec<JsonValue>),
    /// Entries in the manifest's order.
    Object(Vec<(String, JsonValue)>),
    /// A number, a boolean or `null`.
    Other,
}

/// Index of the first entry at or after `from` whose key is `key`.
pub open spec fn entry_index(entries: Seq<(String, JsonValue)>, key: Seq<char>, from: int) -> Option<int>
    decreases entries.len() - from,
{
    if from < 0 || from >= entries.len() {
        None
    } else if entries[from].0@ == key {
        Some(from)
    } else {
        entry_index(entries, key, from + 1)
    }
}

/// The value stored under `key`: that of the first entry with that key.
pub open spec fn entry_value(entries: Seq<(String, JsonValue)>, key: Seq<char>) -> Option<JsonValue> {
    match entry_index(entries, key, 0) {
        Some(i) => if 0 <= i < entries.len() { Some(entries[i].1) } else { None },
        None => None,
    }
}

/// Target selected from `v` under the ordered conditions `conds`: a string is
/// its own target; an array gives the target of its first entry that has one;
/// an object gives that of the first condition present as a key whose value
/// has one, else that of its `"default"` key.
pub open spec fn select_target(v: JsonValue, conds: Seq<Seq<char>>) -> Option<Seq<char>>
    decreases v, 0int,
{
    match v {
        JsonValue::Str(s) => Some(s@),
        JsonValue::Array(items) => first_target(items@, conds, 0),
        JsonValue::Object(entries) => object_target(entries@, conds, 0),
        JsonValue::Other => None,
    }
}

/// Target of the first of `items[i..]` that has one.
pub open spec fn first_target(items: Seq<JsonValue>, conds: Seq<Seq<char>>, i: int) -> Option<Seq<char>>
    decreases items, items.len() - i,
{
    if i < 0 || i >= items.len() {
        None
    } else {
        match select_target(items[i], conds) {
            Some(t) => Some(t),
            None => first_target(items, conds, i + 1),
        }
    }
}

/// Object selection from the `k`-th condition on.
pub open spec fn object_target(entries: Seq<(String, JsonValue)>, conds: Seq<Seq<char>>, k: int) -> Option<Seq<char>>
    decreases entries, conds.len() - k,
{
    if k < 0 || k >= conds.len() {
        match entry_index(entries, "default"@, 0) {
            Some(i) => if 0 <= i < entries.len() { select_target(entries[i].1, conds) } else { None },
            None => None,
        }
    } else {
        match entry_index(entries, conds[k], 0) {
            Some(i) => if 0 <= i < entries.len() {
                match select_target(entries[i].1, conds) {
                    Some(t) => Some(t),
                    None => object_target(entries, conds, k + 1),
                }
            } else {
                object_target(entries, conds, k + 1)
            },
            None => object_target(entries, conds, k + 1),
        }
    }
}


/// Position of the first entry whose key is `key`.
pub fn find_entry(entries: &Vec<(String, JsonValue)>, key: &String) -> (r: Option<usize>)
    ensures
        opt_index(r) == entry_index(entries@, key@, 0),
        r matches Some(i) ==> i < entries@.len(),
{
    let mut i: usize = 0;
    while i < entries.len()
        invariant
            i <= entries@.len(),
            entry_index(entries@, key@, 0) == entry_index(entries@, key@, i as int),
        decreases entries.len() - i,
    {
        if entries[i].0 == *key {
            return Some(i);
        }
        i = i + 1;
    }
    None
}

/// Selects the target of an `exports` value under the ordered `conditions`.
pub fn select_export_target(value: &JsonValue, conditions: &Vec<String>) -> (r: Option<String>)
    ensures
        opt_view(r) == select_target(*value, conditions.deep_view()),
    decreases value,
{
    let ghost conds = conditions.deep_view();
    match value {
        JsonValue::Str(s) => Some(s.clone()),
        JsonValue::Array(items) => {
            let mut i: usize = 0;
            while i < items.len()
                invariant
                    i <= items@.len(),
                    *value == JsonValue::Array(*items),
                    conds == conditions.deep_view(),
                    first_target(items@, conds, 0) == first_target(items@, conds, i as int),
                decreases items.len() - i,
            {
                proof {
                    assert(decreases_to!(items => items[i as int]));
                }
                let t = select_export_target(&items[i], conditions);
                if t.is_some() {
                    return t;
                }
                i = i + 1;
            }
            None
        },
        JsonValue::Object(entries) => {
            let mut k: usize = 0;
            while k < conditions.len()
                invariant
                    k <= conditions@.len(),
                    *value == JsonValue::Object(*entries),
                    conds == conditions.deep_view(),
                    object_target(entries@, conds, 0) == object_target(entries@, conds, k as int),
                decreases conditions.len() - k,
            {
                if let Some(i) = find_entry(entries, &conditions[k]) {
                    proof {
                        assert(decreases_to!(entries => entries[i as int]));
                    }
                    let t = select_export_target(&entries[i].1, conditions);
                    if t.is_some() {
                        return t;
                    }
                }
                k = k + 1;
            }
            let default_key = String::from_str("default");
            match find_entry(entries, &default_key) {
                Some(i) => {
                    proof {
                        assert(decreases_to!(entries => entries[i as int]));
                    }
                    select_export_target(&entries[i].1, conditions)
                },
                None => None,
            }
        },
        JsonValue::Other => None,
    }
}


/// A declaration file path: one ending in `.d.ts`, `.d.mts` or `.d.cts`.
pub open spec fn is_declaration(s: Seq<char>) -> bool {
    has_suffix(s, ".d.ts"@) || has_suffix(s, ".d.mts"@) || has_suffix(s, ".d.cts"@)
}

/// Whether `path` names a declaration file.
pub fn is_declaration_path(path: &str) -> (r: bool)
    ensures
        r == is_declaration(path@),
{
    ends_with(path, ".d.ts") || ends_with(path, ".d.mts") || ends_with(path, ".d.cts")
}

/// Types-first selection: as `select_target`, but a string counts only when it
/// names a declaration file, and an object's `"types"` key is tried before the
/// conditions (its value is taken as it stands when it is a string).
pub open spec fn types_target(v: JsonValue, conds: Seq<Seq<char>>) -> Option<Seq<char>>
    decreases v, 0int,
{
    match v {
        JsonValue::Str(s) => if is_declaration(s@) { Some(s@) } else { None },
        JsonValue::Array(items) => first_types_target(items@, conds, 0),
        JsonValue::Object(entries) => object_types_target(entries@, conds),
        JsonValue::Other => None,
    }
}

pub open spec fn first_types_target(items: Seq<JsonValue>, conds: Seq<Seq<char>>, i: int) -> Option<Seq<char>>
    decreases items, items.len() - i,
{
    if i < 0 || i >= items.len() {
        None
    } else {
        match types_target(items[i], conds) {
            Some(t) => Some(t),
            None => first_types_target(items, conds, i + 1),
        }
    }
}

pub open spec fn object_types_target(entries: Seq<(String, JsonValue)>, conds: Seq<Seq<char>>) -> Option<Seq<char>>
    decreases entries, conds.len() + 1,
{
    match entry_index(entries, "types"@, 0) {
        Some(i) => if 0 <= i < entries.len() {
            match types_target(entries[i].1, conds) {
                Some(t) => Some(t),
                None => match entries[i].1 {
                    JsonValue::Str(s) => Some(s@),
                    _ => conds_types_target(entries, conds, 0),
                },
            }
        } else {
            conds_types_target(entries, conds, 0)
        },
        None => conds_types_target(entries, conds, 0),
    }
}

pub open spec fn conds_types_target(entries: Seq<(String, JsonValue)>, conds: Seq<Seq<char>>, k: int) -> Option<Seq<char>>
    decreases entries, conds.len() - k,
{
    if k < 0 || k >= conds.len() {
        match entry_index(entries, "default"@, 0) {
            Some(i) => if 0 <= i < entries.len() { types_target(entries[i].1, conds) } else { None },
            None => None,
        }
    } else {
        match entry_index(entries, conds[k], 0) {
            Some(i) => if 0 <= i < entries.len() {
                match types_target(entries[i].1, conds) {
                    Some(t) => Some(t),
                    None => conds_types_target(entries, conds, k + 1),
                }
            } else {
                conds_types_target(entries, conds, k + 1)
            },
            None => conds_types_target(entries, conds, k + 1),
        }
    }
}

/// Selects a declaration-file target of an `exports` value, trying `"types"`
/// first and then the ordered `conditions`.
pub fn select_export_target_with_conditions(value: &JsonValue, conditions: &Vec<String>) -> (r: Option<String>)
    ensures
        opt_view(r) == types_target(*value, conditions.deep_view()),
    decreases value,
{
    let ghost conds = conditions.deep_view();
    match value {
        JsonValue::Str(s) => {
            if is_declaration_path(s.as_str()) {
                Some(s.clone())
            } else {
                None
            }
        },
        JsonValue::Array(items) => {
            let mut i: usize = 0;
            while i < items.len()
                invariant
                    i <= items@.len(),
                    *value == JsonValue::Array(*items),
                    conds == conditions.deep_view(),
                    first_types_target(items@, conds, 0) == first_types_target(items@, conds, i as int),
                decreases items.len() - i,
            {
                proof {
                    assert(decreases_to!(items => items[i as int]));
                }
                let t = select_export_target_with_conditions(&items[i], conditions);
                if t.is_some() {
                    return t;
                }
                i = i + 1;
            }
            None
        },
        JsonValue::Object(entries) => {
            let types_key = String::from_str("types");
            if let Some(i) = find_entry(entries, &types_key) {
                proof {
                    assert(decreases_to!(entries => entries[i as int]));
                }
                let t = select_export_target_with_conditions(&entries[i].1, conditions);
                if t.is_some() {
                    return t;
                }
                if let JsonValue::Str(s) = &entries[i].1 {
                    return Some(s.clone());
                }
            }
            let mut k: usize = 0;
            while k < conditions.len()
                invariant
                    k <= conditions@.len(),
                    *value == JsonValue::Object(*entries),
                    conds == conditions.deep_view(),
                    types_target(*value, conds) == conds_types_target(entries@, conds, k as int),
                decreases conditions.len() - k,
            {
                if let Some(i) = find_entry(entries, &conditions[k]) {
                    proof {
                        assert(decreases_to!(entries => entries[i as int]));
                    }
                    let t = select_export_target_with_conditions(&entries[i].1, conditions);
                    if t.is_some() {
                        return t;
                    }
                }
                k = k + 1;
            }
            let default_key = String::from_str("default");
            match find_entry(entries, &default_key) {
                Some(i) => {
                    proof {
                        assert(decreases_to!(entries => entries[i as int]));
                    }
                    select_export_target_with_conditions(&entries[i].1, conditions)
                },
                None => None,
            }
        },
        JsonValue::Other => None,
    }
}


/// The `exports` key that a non-root subpath is looked up under: `"./"`
/// followed by the subpath without its leading `"./"`.
pub open spec fn export_key(subpath: Seq<char>) -> Seq<char> {
    "./"@ + stripped_prefix(subpath, "./"@)
}

/// What the `*` of `pattern` captures in `key`: `pattern` is split at its
/// first `*` into a prefix and a suffix, and `key` must start with the one,
/// end with the other and hold both without overlap.
pub open spec fn pattern_capture(pattern: Seq<char>, key: Seq<char>) -> Option<Seq<char>> {
    match char_index(pattern, '*', 0) {
        Some(p) => {
            let pre = pattern.subrange(0, p);
            let suf = pattern.subrange(p + 1, pattern.len() as int);
            if pre.len() + suf.len() <= key.len() && has_prefix(key, pre) && has_suffix(key, suf) {
                Some(key.subrange(pre.len() as int, key.len() - suf.len()))
            } else {
                None
            }
        },
        None => None,
    }
}

/// Index of the first entry at or after `from` whose key is a pattern matching `key`.
pub open spec fn pattern_index(entries: Seq<(String, JsonValue)>, key: Seq<char>, from: int) -> Option<int>
    decreases entries.len() - from,
{
    if from < 0 || from >= entries.len() {
        None
    } else if pattern_capture(entries[from].0@, key) is Some {
        Some(from)
    } else {
        pattern_index(entries, key, from + 1)
    }
}

/// What the root subpath `"."` selects from: the value of the `"."` key when
/// `exports` is an object that has one, else `exports` itself (a bare target
/// or a condition map).
pub open spec fn root_value(exports: JsonValue) -> JsonValue {
    match exports {
        JsonValue::Object(entries) => match entry_value(entries@, "."@) {
            Some(v) => v,
            None => exports,
        },
        _ => exports,
    }
}

/// Raw target that `exports` maps `subpath` to under `conds`. The root
/// subpath `"."` selects from the root value; any other is looked up as an
/// exact key of an object, and failing that under the first pattern key that
/// matches it, whose target has each `*` replaced by the captured text.
pub open spec fn exports_target(exports: JsonValue, subpath: Seq<char>, conds: Seq<Seq<char>>) -> Option<Seq<char>> {
    if subpath == "."@ {
        select_target(root_value(exports), conds)
    } else {
        match exports {
            JsonValue::Object(entries) => {
                let key = export_key(subpath);
                match entry_value(entries@, key) {
                    Some(v) => select_target(v, conds),
                    None => match pattern_index(entries@, key, 0) {
                        Some(i) => match (select_target(entries@[i].1, conds), pattern_capture(entries@[i].0@, key)) {
                            (Some(t), Some(m)) => Some(replaced(t, '*', m)),
                            _ => None,
                        },
                        None => None,
                    },
                }
            },
            _ => None,
        }
    }
}

/// Raw declaration-file target for `subpath`: the same dispatch as
/// `exports_target`, under the types-first selection.
pub open spec fn exports_types_target(exports: JsonValue, subpath: Seq<char>, conds: Seq<Seq<char>>) -> Option<Seq<char>> {
    if subpath == "."@ {
        types_target(root_value(exports), conds)
    } else {
        match exports {
            JsonValue::Object(entries) => {
                let key = export_key(subpath);
                match entry_value(entries@, key) {
                    Some(v) => types_target(v, conds),
                    None => match pattern_index(entries@, key, 0) {
                        Some(i) => match (types_target(entries@[i].1, conds), pattern_capture(entries@[i].0@, key)) {
                            (Some(t), Some(m)) => Some(replaced(t, '*', m)),
                            _ => None,
                        },
                        None => None,
                    },
                }
            },
            _ => None,
        }
    }
}

/// The value the root subpath selects from.
pub fn root_entry(exports: &JsonValue) -> (r: &JsonValue)
    ensures
        *r == root_value(*exports),
{
    match exports {
        JsonValue::Object(entries) => match find_entry(entries, &String::from_str(".")) {
            Some(i) => &entries[i].1,
            None => exports,
        },
        _ => exports,
    }
}

/// Whether `s` is exactly `"."`.
pub fn is_root_subpath(s: &str) -> (r: bool)
    ensures
        r == (s@ == "."@),
{
    proof {
        reveal_strlit(".");
    }
    let n = s.unicode_len();
    if n == 1 {
        let c = s.get_char(0);
        proof {
            if c == '.' {
                assert(s@ =~= "."@);
            }
        }
        c == '.'
    } else {
        false
    }
}

/// What the `*` of `pattern` captures in `key`, if `pattern` matches `key`.
pub fn capture_pattern(pattern: &str, key: &str) -> (r: Option<String>)
    ensures
        opt_view(r) == pattern_capture(pattern@, key@),
{
    match find_char(pattern, '*') {
        Some(p) => {
            proof {
                lemma_char_index_bounds(pattern@, '*', 0);
            }
            let n = pattern.unicode_len();
            let pre = pattern.substring_char(0, p);
            let suf = pattern.substring_char(p + 1, n);
            let kn = key.unicode_len();
            let pl = pre.unicode_len();
            let sl = suf.unicode_len();
            if pl + sl <= kn && starts_with(key, pre) && ends_with(key, suf) {
                Some(String::from_str(key.substring_char(pl, kn - sl)))
            } else {
                None
            }
        },
        None => None,
    }
}

/// Index of the first pattern key that matches `key`, with what its `*` captures.
pub fn find_pattern(entries: &Vec<(String, JsonValue)>, key: &str) -> (r: Option<(usize, String)>)
    ensures
        match r {
            Some((i, m)) => pattern_index(entries@, key@, 0) == Some(i as int) && i < entries@.len()
                && pattern_capture(entries@[i as int].0@, key@) == Some(m@),
            None => pattern_index(entries@, key@, 0) is None,
        },
{
    let mut i: usize = 0;
    while i < entries.len()
        invariant
            i <= entries@.len(),
            pattern_index(entries@, key@, 0) == pattern_index(entries@, key@, i as int),
        decreases entries.len() - i,
    {
        if let Some(m) = capture_pattern(entries[i].0.as_str(), key) {
            return Some((i, m));
        }
        i = i + 1;
    }
    None
}

/// The `exports` key for a non-root subpath.
pub fn make_export_key(subpath: &str) -> (r: String)
    ensures
        r@ == export_key(subpath@),
{
    proof {
        reveal_strlit("./");
    }
    String::from_str("./").concat(trim_start_matches(subpath, "./"))
}

/// Raw target (before joining onto the package directory) that an `exports`
/// value maps `subpath` to under the ordered `conditions`.
pub fn resolve_exports(exports: &JsonValue, subpath: &str, conditions: &Vec<String>) -> (r: Option<String>)
    ensures
        opt_view(r) == exports_target(*exports, subpath@, conditions.deep_view()),
{
    if is_root_subpath(subpath) {
        return select_export_target(root_entry(exports), conditions);
    }
    match exports {
        JsonValue::Object(entries) => {
            let key = make_export_key(subpath);
            match find_entry(entries, &key) {
                Some(i) => select_export_target(&entries[i].1, conditions),
                None => match find_pattern(entries, key.as_str()) {
                    Some((i, m)) => match select_export_target(&entries[i].1, conditions) {
                        Some(t) => Some(replace_char(t.as_str(), '*', m.as_str())),
                        None => None,
                    },
                    None => None,
                },
            }
        },
        _ => None,
    }
}

/// Raw declaration-file target that an `exports` value gives `subpath`,
/// trying the `"types"`, `"typings"` and `"default"` conditions in turn.
pub fn resolve_exports_types(exports: &JsonValue, subpath: &str) -> (r: Option<String>)
    ensures
        opt_view(r) == exports_types_target(*exports, subpath@, types_conditions()),
{
    let conditions = types_condition_list();
    if is_root_subpath(subpath) {
        return select_export_target_with_conditions(root_entry(exports), &conditions);
    }
    match exports {
        JsonValue::Object(entries) => {
            let key = make_export_key(subpath);
            match find_entry(entries, &key) {
                Some(i) => select_export_target_with_conditions(&entries[i].1, &conditions),
                None => match find_pattern(entries, key.as_str()) {
                    Some((i, m)) => match select_export_target_with_conditions(&entries[i].1, &conditions) {
                        Some(t) => Some(replace_char(t.as_str(), '*', m.as_str())),
                        None => None,
                    },
                    None => None,
                },
            }
        },
        _ => None,
    }
}

/// The condition order of typings discovery.
pub open spec fn types_conditions() -> Seq<Seq<char>> {
    seq!["types"@, "typings"@, "default"@]
}

pub fn types_condition_list() -> (r: Vec<String>)
    ensures
        r.deep_view() == types_conditions(),
{
    let mut r: Vec<String> = Vec::new();
    r.push(String::from_str("types"));
    r.push(String::from_str("typings"));
    r.push(String::from_str("default"));
    proof {
        assert(r.deep_view() =~= types_conditions());
    }
    r
}

} // verus!

//! Classification and splitting of module specifiers, and the condition list
//! that a request is resolved under.

use vstd::prelude::*;
use crate::text::{
    char_index, find_char, find_char_from, has_prefix, lemma_char_index_bounds, starts_with,
};

verus! {

/// A relative specifier: one that starts with `./` or `../`.
pub open spec fn relative_spec(s: Seq<char>) -> bool {
    has_prefix(s, "./"@) || has_prefix(s, "../"@)
}

/// Whether `spec` is relative.
pub fn is_relative(spec: &str) -> (r: bool)
    ensures
        r == relative_spec(spec@),
{
    starts_with(spec, "./") || starts_with(spec, "../")
}

/// Where the package name of a bare specifier ends: at its first `/`, or at
/// its second one when the specifier is scoped (starts with `@`).
pub open spec fn package_name_end(s: Seq<char>) -> Option<int> {
    match char_index(s, '/', 0) {
        Some(a) => if s.len() > 0 && s[0] == '@' { char_index(s, '/', a + 1) } else { Some(a) },
        None => None,
    }
}

/// A bare specifier split into its package name and its subpath: the
/// subpath is `"./"` followed by what comes after the name's closing `/`,
/// or `"."` when the specifier names the package alone.
pub open spec fn split_spec(s: Seq<char>) -> (Seq<char>, Seq<char>) {
    match package_name_end(s) {
        Some(b) => (s.subrange(0, b), "./"@ + s.subrange(b + 1, s.len() as int)),
        None => (s, "."@),
    }
}

/// Splits a bare specifier into its package name and its subpath.
pub fn split_package_specifier(spec: &str) -> (r: (String, String))
    ensures
        (r.0@, r.1@) == split_spec(spec@),
{
    let end = match find_char(spec, '/') {
        Some(a) => {
            proof {
                lemma_char_index_bounds(spec@, '/', 0);
            }
            // `a` is a character position, so `a + 1` fits.
            let len = spec.unicode_len();
            if spec.get_char(0) == '@' && a < len {
                find_char_from(spec, '/', a + 1)
            } else {
                Some(a)
            }
        },
        None => None,
    };
    match end {
        Some(b) => {
            proof {
                lemma_char_index_bounds(spec@, '/', 0);
                if spec@[0] == '@' {
                    let a = char_index(spec@, '/', 0)->Some_0;
                    lemma_char_index_bounds(spec@, '/', a + 1);
                }
            }
            let n = spec.unicode_len();
            let name = String::from_str(spec.substring_char(0, b));
            let sub = String::from_str("./").concat(spec.substring_char(b + 1, n));
            (name, sub)
        },
        None => (String::from_str(spec), String::from_str(".")),
    }
}

/// The condition list a request is resolved under: `"require"` goes first
/// when CommonJS is preferred and the list lacks it.
pub open spec fn merged_conditions(conds: Seq<Seq<char>>, prefer_cjs: bool) -> Seq<Seq<char>> {
    if prefer_cjs && !conds.contains("require"@) {
        seq!["require"@] + conds
    } else {
        conds
    }
}

/// Whether `v` holds `s`.
pub fn contains_string(v: &Vec<String>, s: &String) -> (r: bool)
    ensures
        r == v.deep_view().contains(s@),
{
    let mut i: usize = 0;
    while i < v.len()
        invariant
            i <= v@.len(),
            forall|j: int| 0 <= j < i ==> v@[j]@ != s@,
        decreases v.len() - i,
    {
        if v[i] == *s {
            proof {
                assert(v.deep_view()[i as int] == s@);
            }
            return true;
        }
        i = i + 1;
    }
    proof {
        if v.deep_view().contains(s@) {
            let j = choose|j: int| 0 <= j < v.deep_view().len() && v.deep_view()[j] == s@;
            assert(v@[j]@ == s@);
        }
    }
    false
}

/// The conditions of `conditions` with `"require"` put first when
/// `prefer_cjs` asks for it.
pub fn merge_conditions(conditions: &Vec<String>, prefer_cjs: bool) -> (r: Vec<String>)
    ensures
        r.deep_view() == merged_conditions(conditions.deep_view(), prefer_cjs),
{
    let mut r = conditions.clone();
    let require = String::from_str("require");
    if prefer_cjs && !contains_string(conditions, &require) {
        r.insert(0, require);
        proof {
            assert(r.deep_view() =~= seq!["require"@] + conditions.deep_view());
        }
    }
    r
}

} // verus!

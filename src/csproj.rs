//! Reading build configurations and target frameworks out of the lines of
//! a C# project file.

use vstd::prelude::*;
use crate::text::{
    char_index, contains, find_char_from, find_str_from, has_infix, lemma_char_index_bounds,
    lemma_str_index_bounds, lines_of, opt_view, str_index, text_lines, trim, trimmed,
};
use crate::typings::{sorted_unique, strictly_sorted};

verus! {

/// A build configuration of a project.
pub struct BuildConfiguration {
    pub name: String,
    pub target_framework: Option<String>,
}

/// The trimmed text between the first `q` at or after `start` and the next `q`.
pub open spec fn quoted_after(line: Seq<char>, start: int, q: char) -> Option<Seq<char>> {
    match char_index(line, q, start) {
        Some(q1) => match char_index(line, q, q1 + 1) {
            Some(q2) => Some(trimmed(line.subrange(q1 + 1, q2))),
            None => None,
        },
        None => None,
    }
}

/// The configuration named by a `Condition` attribute: either the text
/// between `=='` and the next `|` (as in
/// `'$(Configuration)|$(Platform)'=='Debug|AnyCPU'`), or, after
/// `$(Configuration)` and a following `==`, the trimmed text between the next
/// pair of single quotes, else of double quotes.
pub open spec fn configuration_of(line: Seq<char>) -> Option<Seq<char>> {
    let paired = match str_index(line, "=='"@, 0) {
        Some(a) => match char_index(line, '|', a + 3) {
            Some(b) => Some(line.subrange(a + 3, b)),
            None => None,
        },
        None => None,
    };
    match paired {
        Some(c) => Some(c),
        None => match str_index(line, "$(Configuration)"@, 0) {
            Some(idx) => match str_index(line, "=="@, idx) {
                Some(e) => match quoted_after(line, e + 2, '\'') {
                    Some(c) => Some(c),
                    None => quoted_after(line, e + 2, '"'),
                },
                None => None,
            },
            None => None,
        },
    }
}

fn quoted_text(line: &str, start: usize, q: char) -> (r: Option<String>)
    ensures
        opt_view(r) == quoted_after(line@, start as int, q),
{
    match find_char_from(line, q, start) {
        Some(q1) => {
            proof {
                lemma_char_index_bounds(line@, q, start as int);
            }
            // `q1` is below the line's length, so `q1 + 1` fits in usize.
            let _char_count = line.unicode_len();
            match find_char_from(line, q, q1 + 1) {
                Some(q2) => {
                    proof {
                        lemma_char_index_bounds(line@, q, q1 + 1);
                    }
                    Some(String::from_str(trim(line.substring_char(q1 + 1, q2))))
                },
                None => None,
            }
        },
        None => None,
    }
}

/// The configuration named by a `Condition` attribute on `line`.
pub fn extract_configuration_from_condition(line: &str) -> (r: Option<String>)
    ensures
        opt_view(r) == configuration_of(line@),
{
    proof {
        reveal_strlit("=='");
        reveal_strlit("==");
    }
    // Positions found in the line are below its length, which fits in usize,
    // so stepping past a found tag stays in range.
    let _char_count = line.unicode_len();
    if let Some(a) = find_str_from(line, "=='", 0) {
        proof {
            lemma_str_index_bounds(line@, "=='"@, 0);
        }
        if let Some(b) = find_char_from(line, '|', a + 3) {
            proof {
                lemma_char_index_bounds(line@, '|', a + 3);
            }
            return Some(String::from_str(line.substring_char(a + 3, b)));
        }
    }
    if let Some(idx) = find_str_from(line, "$(Configuration)", 0) {
        if let Some(e) = find_str_from(line, "==", idx) {
            proof {
                lemma_str_index_bounds(line@, "=="@, idx as int);
            }
            if let Some(c) = quoted_text(line, e + 2, '\'') {
                return Some(c);
            }
            return quoted_text(line, e + 2, '"');
        }
    }
    None
}

/// The trimmed text between `<TargetFramework>` and the first
/// `</TargetFramework>` on a line, when the closing tag comes after the
/// opening one.
pub open spec fn target_framework_of(line: Seq<char>) -> Option<Seq<char>> {
    match (str_index(line, "<TargetFramework>"@, 0), str_index(line, "</TargetFramework>"@, 0)) {
        (Some(start), Some(end)) => if start + 17 <= end {
            Some(trimmed(line.subrange(start + 17, end)))
        } else {
            None
        },
        _ => None,
    }
}

/// The target framework named on `line`.
pub fn extract_target_framework(line: &str) -> (r: Option<String>)
    ensures
        opt_view(r) == target_framework_of(line@),
{
    proof {
        reveal_strlit("<TargetFramework>");
    }
    // Positions found in the line are below its length, which fits in usize.
    let _char_count = line.unicode_len();
    if let Some(start) = find_str_from(line, "<TargetFramework>", 0) {
        if let Some(end) = find_str_from(line, "</TargetFramework>", 0) {
            proof {
                lemma_str_index_bounds(line@, "<TargetFramework>"@, 0);
                lemma_str_index_bounds(line@, "</TargetFramework>"@, 0);
            }
            if start + 17 <= end {
                return Some(String::from_str(trim(line.substring_char(start + 17, end))));
            }
        }
    }
    None
}


/// A line that sets the unconditional target framework.
pub open spec fn default_framework_line(t: Seq<char>) -> bool {
    has_infix(t, "<TargetFramework>"@) && !has_infix(t, "Condition"@)
}

/// The target framework of the first trimmed line at or after `i` that sets
/// the unconditional target framework.
pub open spec fn default_framework_from(lines: Seq<Seq<char>>, i: int) -> Option<Seq<char>>
    decreases lines.len() - i,
{
    if i < 0 || i >= lines.len() {
        None
    } else if default_framework_line(trimmed(lines[i])) {
        target_framework_of(trimmed(lines[i]))
    } else {
        default_framework_from(lines, i + 1)
    }
}

/// The unconditional target framework named in the lines of a project file.
pub fn default_target_framework_in(lines: &Vec<String>) -> (r: Option<String>)
    ensures
        opt_view(r) == default_framework_from(lines.deep_view(), 0),
{
    let mut i: usize = 0;
    while i < lines.len()
        invariant
            i <= lines@.len(),
            default_framework_from(lines.deep_view(), 0) == default_framework_from(lines.deep_view(), i as int),
        decreases lines.len() - i,
    {
        let t = trim(lines[i].as_str());
        proof {
            assert(lines.deep_view()[i as int] == lines@[i as int]@);
        }
        if contains(t, "<TargetFramework>") && !contains(t, "Condition") {
            return extract_target_framework(t);
        }
        i = i + 1;
    }
    None
}

/// The unconditional target framework of a project file.
pub fn extract_default_target_framework(content: &str) -> (r: Option<String>)
    ensures
        opt_view(r) == default_framework_from(lines_of(content@), 0),
{
    default_target_framework_in(&text_lines(content))
}

/// What the line scan has seen so far: the configuration names in the order
/// first seen, the target framework recorded for each, and the position of
/// the configuration named last.
pub struct ConfigScan {
    pub names: Seq<Seq<char>>,
    pub frameworks: Seq<Option<Seq<char>>>,
    pub last: Option<int>,
}

/// A line that opens a conditional property group.
pub open spec fn condition_line(t: Seq<char>) -> bool {
    has_infix(t, "<PropertyGroup"@) && has_infix(t, "Condition"@)
}

/// The scan after one more trimmed line: a conditional property group names
/// a configuration, which is added if new, has its framework reset and
/// becomes the last named; a `<TargetFramework>` line gives the last named
/// configuration that framework.
pub open spec fn scan_line(st: ConfigScan, t: Seq<char>) -> ConfigScan {
    let st1 = if condition_line(t) {
        match configuration_of(t) {
            Some(c) => if st.names.contains(c) {
                let k = st.names.index_of(c);
                ConfigScan { names: st.names, frameworks: st.frameworks.update(k, None), last: Some(k) }
            } else {
                ConfigScan { names: st.names.push(c), frameworks: st.frameworks.push(None), last: Some(st.names.len() as int) }
            },
            None => st,
        }
    } else {
        st
    };
    if has_infix(t, "<TargetFramework>"@) {
        match (target_framework_of(t), st1.last) {
            (Some(tf), Some(k)) => ConfigScan { frameworks: st1.frameworks.update(k, Some(tf)), ..st1 },
            _ => st1,
        }
    } else {
        st1
    }
}

/// The scan over the first `n` lines, each trimmed.
pub open spec fn scan_lines(lines: Seq<Seq<char>>, n: int) -> ConfigScan
    decreases n,
{
    if n <= 0 {
        ConfigScan { names: seq![], frameworks: seq![], last: None }
    } else {
        scan_line(scan_lines(lines, n - 1), trimmed(lines[n - 1]))
    }
}

pub open spec fn scan_ok(st: ConfigScan) -> bool {
    &&& st.names.no_duplicates()
    &&& st.frameworks.len() == st.names.len()
    &&& st.last matches Some(k) ==> 0 <= k < st.names.len()
}

fn name_position(names: &Vec<String>, c: &String) -> (r: Option<usize>)
    ensures
        match r {
            Some(k) => k < names@.len() && names.deep_view()[k as int] == c@,
            None => !names.deep_view().contains(c@),
        },
{
    let mut k: usize = 0;
    while k < names.len()
        invariant
            k <= names@.len(),
            forall|j: int| 0 <= j < k ==> names.deep_view()[j] != c@,
        decreases names.len() - k,
    {
        if names[k] == *c {
            return Some(k);
        }
        k = k + 1;
    }
    None
}

pub open spec fn frameworks_view(v: Seq<Option<String>>) -> Seq<Option<Seq<char>>> {
    v.map_values(|o: Option<String>| opt_view(o))
}

/// `r` lists the build configurations named in `lines`: those the
/// conditional property groups name, sorted by name, each with the target
/// framework last recorded for it; `Debug` and `Release` with the
/// unconditional target framework when none is named.
pub open spec fn configurations_agree(r: Seq<BuildConfiguration>, lines: Seq<Seq<char>>) -> bool {
    let st = scan_lines(lines, lines.len() as int);
    if st.names.len() == 0 {
        &&& r.len() == 2
        &&& r[0].name@ == "Debug"@ && r[1].name@ == "Release"@
        &&& opt_view(r[0].target_framework) == default_framework_from(lines, 0)
        &&& opt_view(r[1].target_framework) == default_framework_from(lines, 0)
    } else {
        &&& strictly_sorted(r.map_values(|b: BuildConfiguration| b.name@))
        &&& forall|x: Seq<char>| r.map_values(|b: BuildConfiguration| b.name@).contains(x) <==> st.names.contains(x)
        &&& forall|k: int| 0 <= k < r.len() ==> opt_view(#[trigger] r[k].target_framework)
            == st.frameworks[st.names.index_of(r[k].name@)]
    }
}

/// The build configurations of a project file: those its conditional
/// property groups name, sorted by name, each with the target framework last
/// recorded for it; `Debug` and `Release` with the unconditional target
/// framework when none is named.
pub fn configurations_from_content(content: &str) -> (r: Vec<BuildConfiguration>)
    ensures
        configurations_agree(r@, lines_of(content@)),
{
    configurations_from_lines(&text_lines(content))
}

/// The build configurations named in the lines of a project file.
pub fn configurations_from_lines(lines: &Vec<String>) -> (r: Vec<BuildConfiguration>)
    ensures
        configurations_agree(r@, lines.deep_view()),
{
    let ghost ls = lines.deep_view();
    let mut names: Vec<String> = Vec::new();
    let mut frameworks: Vec<Option<String>> = Vec::new();
    let mut last: Option<usize> = None;
    let mut i: usize = 0;
    while i < lines.len()
        invariant
            i <= lines@.len(),
            lines.deep_view() == ls,
            ({
                let st = scan_lines(ls, i as int);
                &&& scan_ok(st)
                &&& names.deep_view() == st.names
                &&& frameworks_view(frameworks@) == st.frameworks
                &&& opt_usize(last) == st.last
            }),
        decreases lines.len() - i,
    {
        let ghost st0 = scan_lines(ls, i as int);
        let t = trim(lines[i].as_str());
        proof {
            assert(lines.deep_view()[i as int] == lines@[i as int]@);
        }
        if contains(t, "<PropertyGroup") && contains(t, "Condition") {
            if let Some(c) = extract_configuration_from_condition(t) {
                match name_position(&names, &c) {
                    Some(k) => {
                        frameworks.set(k, None);
                        last = Some(k);
                        proof {
                            assert(names.deep_view().contains(c@));
                            assert(names.deep_view().index_of(c@) == k as int) by {
                                let j = names.deep_view().index_of(c@);
                                if j != k as int {
                                    assert(names.deep_view()[j] == names.deep_view()[k as int]);
                                }
                            }
                        }
                    },
                    None => {
                        last = Some(names.len());
                        names.push(c);
                        frameworks.push(None);
                    },
                }
            }
        }
        let ghost st1 = ConfigScan { names: names.deep_view(), frameworks: frameworks_view(frameworks@), last: opt_usize(last) };
        proof {
            assert(frameworks_view(frameworks@) =~= st1.frameworks);
        }
        if contains(t, "<TargetFramework>") {
            if let Some(tf) = extract_target_framework(t) {
                if let Some(k) = last {
                    frameworks.set(k, Some(tf));
                }
            }
        }
        proof {
            let st = scan_lines(ls, i + 1);
            assert(frameworks_view(frameworks@) =~= st.frameworks);
            assert(names.deep_view() =~= st.names);
        }
        i = i + 1;
    }
    let ghost st = scan_lines(ls, ls.len() as int);
    if names.len() == 0 {
        let tf = default_target_framework_in(lines);
        let tf2 = match &tf {
            Some(f) => Some(f.clone()),
            None => None,
        };
        return vec![
            BuildConfiguration { name: String::from_str("Debug"), target_framework: tf },
            BuildConfiguration { name: String::from_str("Release"), target_framework: tf2 },
        ];
    }
    let sorted = sorted_unique(&names);
    let mut r: Vec<BuildConfiguration> = Vec::new();
    let mut k: usize = 0;
    while k < sorted.len()
        invariant
            k <= sorted@.len(),
            names.deep_view() == st.names,
            frameworks_view(frameworks@) == st.frameworks,
            scan_ok(st),
            strictly_sorted(sorted.deep_view()),
            forall|x: Seq<char>| sorted.deep_view().contains(x) <==> names.deep_view().contains(x),
            r@.len() == k,
            forall|j: int| 0 <= j < k ==> (#[trigger] r@[j]).name@ == sorted.deep_view()[j],
            forall|j: int| 0 <= j < k ==> opt_view(#[trigger] r@[j].target_framework)
                == st.frameworks[st.names.index_of(r@[j].name@)],
        decreases sorted.len() - k,
    {
        proof {
            assert(names.deep_view().contains(sorted.deep_view()[k as int]));
        }
        let p = name_position(&names, &sorted[k]);
        let pos = match p {
            Some(q) => q,
            None => 0,
        };
        proof {
            assert(p is Some);
            let j = names.deep_view().index_of(sorted.deep_view()[k as int]);
            if j != pos as int {
                assert(names.deep_view()[j] == names.deep_view()[pos as int]);
            }
            assert(frameworks_view(frameworks@)[pos as int] == opt_view(frameworks@[pos as int]));
        }
        let tf = match &frameworks[pos] {
            Some(f) => Some(f.clone()),
            None => None,
        };
        r.push(BuildConfiguration { name: sorted[k].clone(), target_framework: tf });
        k = k + 1;
    }
    proof {
        let rn = r@.map_values(|b: BuildConfiguration| b.name@);
        assert(rn =~= sorted.deep_view());
    }
    r
}

pub open spec fn opt_usize(o: Option<usize>) -> Option<int> {
    match o {
        Some(k) => Some(k as int),
        None => None,
    }
}

} // verus!

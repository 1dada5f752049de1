//! What kind of project a workspace holds, from the files found at its root.

use vstd::prelude::*;
use crate::text::{opt_view, replace_char, replaced};

verus! {

#[derive(Clone, Copy, Debug, PartialEq, Eq, Structural)]
pub enum PackageManager {
    Bun,
    Pnpm,
    Yarn,
    Npm,
}

#[derive(Clone, Copy, Debug, PartialEq, Eq, Structural)]
pub enum ProjectKind {
    Dotnet,
    Javascript,
    Mixed,
    Unknown,
}

/// The .NET solution and project files of a workspace, with forward slashes.
pub struct DotnetInfo {
    pub solution_path: Option<String>,
    pub project_path: Option<String>,
}

/// The Node.js files at a workspace root.
pub struct NodeInfo {
    pub has_package_json: bool,
    pub has_tsconfig: bool,
    pub has_jsconfig: bool,
    pub package_manager: Option<PackageManager>,
}

pub struct ProjectProfile {
    pub root_path: String,
    pub kind: ProjectKind,
    pub dotnet: DotnetInfo,
    pub node: NodeInfo,
    /// The build system suggested for automatic builds.
    pub build_system_hint: Option<String>,
}

/// The package manager told by the lockfiles present, Bun's first, then
/// pnpm's, Yarn's and npm's.
pub open spec fn manager_of(bun_lockb: bool, bun_lock: bool, pnpm_lock: bool, yarn_lock: bool, npm_lock: bool) -> Option<PackageManager> {
    if bun_lockb || bun_lock {
        Some(PackageManager::Bun)
    } else if pnpm_lock {
        Some(PackageManager::Pnpm)
    } else if yarn_lock {
        Some(PackageManager::Yarn)
    } else if npm_lock {
        Some(PackageManager::Npm)
    } else {
        None
    }
}

/// The package manager told by which lockfiles exist: `bun.lockb`,
/// `bun.lock`, `pnpm-lock.yaml`, `yarn.lock`, `package-lock.json`.
pub fn package_manager_from_lockfiles(bun_lockb: bool, bun_lock: bool, pnpm_lock: bool, yarn_lock: bool, npm_lock: bool) -> (r: Option<PackageManager>)
    ensures
        r == manager_of(bun_lockb, bun_lock, pnpm_lock, yarn_lock, npm_lock),
{
    if bun_lockb || bun_lock {
        Some(PackageManager::Bun)
    } else if pnpm_lock {
        Some(PackageManager::Pnpm)
    } else if yarn_lock {
        Some(PackageManager::Yarn)
    } else if npm_lock {
        Some(PackageManager::Npm)
    } else {
        None
    }
}

pub open spec fn kind_of(has_dotnet: bool, has_node: bool) -> ProjectKind {
    if has_dotnet && has_node {
        ProjectKind::Mixed
    } else if has_dotnet {
        ProjectKind::Dotnet
    } else if has_node {
        ProjectKind::Javascript
    } else {
        ProjectKind::Unknown
    }
}

/// Mixed when both .NET and Node.js files are present, else whichever is.
pub fn project_kind(dotnet: &DotnetInfo, node: &NodeInfo) -> (r: ProjectKind)
    ensures
        r == kind_of(
            dotnet.solution_path is Some || dotnet.project_path is Some,
            node.has_package_json || node.has_tsconfig || node.has_jsconfig,
        ),
{
    let has_dotnet = dotnet.solution_path.is_some() || dotnet.project_path.is_some();
    let has_node = node.has_package_json || node.has_tsconfig || node.has_jsconfig;
    if has_dotnet && has_node {
        ProjectKind::Mixed
    } else if has_dotnet {
        ProjectKind::Dotnet
    } else if has_node {
        ProjectKind::Javascript
    } else {
        ProjectKind::Unknown
    }
}

/// The build system suggested for a kind of project.
pub open spec fn hint_of(kind: ProjectKind, manager: Option<PackageManager>) -> Option<Seq<char>> {
    match kind {
        ProjectKind::Dotnet => Some("dotnet"@),
        ProjectKind::Javascript => Some(match manager {
            Some(PackageManager::Pnpm) => "pnpm"@,
            Some(PackageManager::Yarn) => "yarn"@,
            Some(PackageManager::Npm) => "npm"@,
            _ => "bun"@,
        }),
        ProjectKind::Mixed => Some("auto"@),
        ProjectKind::Unknown => None,
    }
}

/// `dotnet` for .NET, the package manager (Bun when none is known) for
/// Node.js, `auto` for a mixed project, nothing otherwise.
pub fn build_system_hint(kind: &ProjectKind, node: &NodeInfo) -> (r: Option<String>)
    ensures
        opt_view(r) == hint_of(*kind, node.package_manager),
{
    match kind {
        ProjectKind::Dotnet => Some(String::from_str("dotnet")),
        ProjectKind::Javascript => Some(match node.package_manager {
            Some(PackageManager::Pnpm) => String::from_str("pnpm"),
            Some(PackageManager::Yarn) => String::from_str("yarn"),
            Some(PackageManager::Npm) => String::from_str("npm"),
            _ => String::from_str("bun"),
        }),
        ProjectKind::Mixed => Some(String::from_str("auto")),
        ProjectKind::Unknown => None,
    }
}

pub open spec fn slashed(o: Option<Seq<char>>) -> Option<Seq<char>> {
    match o {
        Some(s) => Some(replaced(s, '\\', "/"@)),
        None => None,
    }
}

fn forward_slashes(o: Option<String>) -> (r: Option<String>)
    ensures
        opt_view(r) == slashed(opt_view(o)),
{
    match o {
        Some(s) => Some(replace_char(s.as_str(), '\\', "/")),
        None => None,
    }
}

/// The .NET files found, written with forward slashes.
pub fn dotnet_info(solution_path: Option<String>, project_path: Option<String>) -> (r: DotnetInfo)
    ensures
        opt_view(r.solution_path) == slashed(opt_view(solution_path)),
        opt_view(r.project_path) == slashed(opt_view(project_path)),
{
    DotnetInfo { solution_path: forward_slashes(solution_path), project_path: forward_slashes(project_path) }
}

/// The profile of the workspace at `root` (written with forward slashes),
/// with its kind and build-system hint worked out from what was found.
pub fn project_profile(root: &str, dotnet: DotnetInfo, node: NodeInfo) -> (r: ProjectProfile)
    ensures
        r.root_path@ == replaced(root@, '\\', "/"@),
        r.kind == kind_of(
            dotnet.solution_path is Some || dotnet.project_path is Some,
            node.has_package_json || node.has_tsconfig || node.has_jsconfig,
        ),
        opt_view(r.build_system_hint) == hint_of(r.kind, node.package_manager),
        r.dotnet == dotnet,
        r.node == node,
{
    let kind = project_kind(&dotnet, &node);
    let hint = build_system_hint(&kind, &node);
    ProjectProfile { root_path: replace_char(root, '\\', "/"), kind, dotnet, node, build_system_hint: hint }
}

} // verus!

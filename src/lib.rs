//! Node-style module resolution, package typings discovery and module
//! import/export summaries, with the decisions of each stated and proved;
//! beside them, the small pieces of editor state that go with them (span
//! profiling, sessions, project detection, C# project files).
//!
//! The library never touches the filesystem itself: it computes the paths
//! that resolution probes, in the order in which they are probed, and picks
//! the answer from what the caller found there.
//!
//! - `specifier`, `exports`, `locate`, `resolve`: resolving a specifier.
//! - `typings`: gathering a package's declaration files.
//! - `graph`: the import/export summary of a parsed module.
//! - `text`, `paths`: string and path primitives the others are stated over.
//! - `profiling`, `profiler`, `sessions`: recorded spans and sessions.
//! - `project`, `csproj`, `state`: workspace detection and application state.

pub mod csproj;
pub mod exports;
pub mod graph;
pub mod locate;
pub mod paths;
pub mod profiler;
pub mod profiling;
pub mod project;
pub mod resolve;
pub mod sessions;
pub mod specifier;
pub mod state;
pub mod text;
pub mod typings;

//! Where packaging finds the workspace, the host's tools and the built
//! component, and where it writes the package. Checking and copying files
//! and running the tools is the caller's part.
use vstd::prelude::*;
use vstd::string::*;

verus! {

/// `std::path::Path::parent` of a path, as text, on the target platform.
pub uninterp spec fn path_parent(path: Seq<char>) -> Option<Seq<char>>;

/// `std::path::Path::join` of two paths, as text, on the target platform.
pub uninterp spec fn path_join(base: Seq<char>, part: Seq<char>) -> Seq<char>;

/// Calls `std::path::Path::parent` on `path` and returns it as text. The
/// contract names the result and states nothing more of it: what the parent
/// of a path is depends on the target platform's path grammar.
#[verifier::external_body]
fn parent_of(path: &str) -> (r: Option<String>)
    ensures
        match r {
            None => path_parent(path@) is None,
            Some(p) => path_parent(path@) == Some(p@),
        },
{
    match std::path::Path::new(path).parent() {
        Some(p) => Some(p.to_string_lossy().into_owned()),
        None => None,
    }
}

/// Calls `std::path::Path::join` and returns the joined path as text; the
/// contract names the result.
#[verifier::external_body]
fn join_path(base: &str, part: &str) -> (r: String)
    ensures
        r@ == path_join(base@, part@),
{
    std::path::Path::new(base).join(part).to_string_lossy().into_owned()
}

pub open spec fn root_failure() -> Seq<char> {
    "cannot resolve the workspace root"@
}

/// The workspace root: two levels above the tool's manifest directory.
pub open spec fn workspace_root_spec(manifest_dir: Seq<char>) -> Option<Seq<char>> {
    match path_parent(manifest_dir) {
        Some(p) => path_parent(p),
        None => None,
    }
}

/// The workspace root two levels above `manifest_dir`, or the reason it has none.
pub fn workspace_root(manifest_dir: &str) -> (r: Result<String, String>)
    ensures
        match workspace_root_spec(manifest_dir@) {
            Some(root) => r matches Ok(s) && s@ == root,
            None => r matches Err(e) && e@ == root_failure(),
        },
{
    match parent_of(manifest_dir) {
        Some(p) => match parent_of(p.as_str()) {
            Some(root) => Ok(root),
            None => Err(String::from_str("cannot resolve the workspace root")),
        },
        None => Err(String::from_str("cannot resolve the workspace root")),
    }
}

pub open spec fn package_name(version: Seq<char>) -> Seq<char> {
    "RF-Tines-"@ + version + ".rfplugin"@
}

/// The package file of `version`: `dist/RF-Tines-<version>.rfplugin` under
/// the workspace root.
pub open spec fn package_path(root: Seq<char>, version: Seq<char>) -> Seq<char> {
    path_join(path_join(root, "dist"@), package_name(version))
}

/// Where the package of `version` is built, for the tool whose manifest
/// directory is `manifest_dir`.
pub fn build(manifest_dir: &str, version: &str) -> (r: Result<String, String>)
    ensures
        match workspace_root_spec(manifest_dir@) {
            Some(root) => r matches Ok(s) && s@ == package_path(root, version@),
            None => r matches Err(e) && e@ == root_failure(),
        },
{
    let root = match workspace_root(manifest_dir) {
        Ok(root) => root,
        Err(e) => return Err(e),
    };
    let dist = join_path(root.as_str(), "dist");
    let mut name = String::from_str("RF-Tines-");
    name.append(version);
    name.append(".rfplugin");
    Ok(join_path(dist.as_str(), name.as_str()))
}

/// The files packaging reads and writes.
pub struct PackageLayout {
    pub root: String,
    /// The host's store tool.
    pub store: String,
    /// The host's core tool.
    pub core: String,
    /// The built plugin component.
    pub component: String,
    /// The package source directory.
    pub package: String,
    /// The output directory.
    pub dist: String,
}

pub open spec fn host_failure() -> Seq<char> {
    "cannot resolve sibling host"@
}

pub open spec fn tools_of(parent: Seq<char>) -> Seq<char> {
    path_join(path_join(parent, "rackforge"@), "target/release"@)
}

/// The layout around the workspace root: the host checkout beside the
/// workspace, its release tools with the platform's executable suffix, the
/// component in the workspace's wasm release target, and the `package` and
/// `dist` directories.
pub open spec fn layout_spec(root: Seq<char>, parent: Seq<char>, exe_suffix: Seq<char>) -> (Seq<char>, Seq<char>, Seq<char>, Seq<char>, Seq<char>) {
    (
        path_join(tools_of(parent), "rackforge-store"@ + exe_suffix),
        path_join(tools_of(parent), "rackforge-core"@ + exe_suffix),
        path_join(root, "target/wasm32-unknown-unknown/release/rf_tines_plugin.wasm"@),
        path_join(root, "package"@),
        path_join(root, "dist"@),
    )
}

pub fn package_layout(manifest_dir: &str, exe_suffix: &str) -> (r: Result<PackageLayout, String>)
    ensures
        match workspace_root_spec(manifest_dir@) {
            None => r matches Err(e) && e@ == root_failure(),
            Some(root) => match path_parent(root) {
                None => r matches Err(e) && e@ == host_failure(),
                Some(parent) => r matches Ok(l) && l.root@ == root && (l.store@, l.core@,
                    l.component@, l.package@, l.dist@) == layout_spec(root, parent, exe_suffix@),
            },
        },
{
    let root = match workspace_root(manifest_dir) {
        Ok(root) => root,
        Err(e) => return Err(e),
    };
    let parent = match parent_of(root.as_str()) {
        Some(p) => p,
        None => return Err(String::from_str("cannot resolve sibling host")),
    };
    let host = join_path(parent.as_str(), "rackforge");
    let tools = join_path(host.as_str(), "target/release");
    let mut store_name = String::from_str("rackforge-store");
    store_name.append(exe_suffix);
    let mut core_name = String::from_str("rackforge-core");
    core_name.append(exe_suffix);
    let store = join_path(tools.as_str(), store_name.as_str());
    let core = join_path(tools.as_str(), core_name.as_str());
    let component = join_path(
        root.as_str(),
        "target/wasm32-unknown-unknown/release/rf_tines_plugin.wasm",
    );
    let package = join_path(root.as_str(), "package");
    let dist = join_path(root.as_str(), "dist");
    Ok(PackageLayout { root, store, core, component, package, dist })
}

} // verus!

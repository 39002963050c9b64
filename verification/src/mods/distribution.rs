//! Mod distribution bookkeeping at server startup.

use vstd::prelude::*;

verus! {

/// Default config file name
pub const CONFIG_FILE_NAME: &'static str = "server_mods.toml";

/// Name of the lockfile in the server root
pub const LOCKFILE_NAME: &'static str = "mods.lock";

/// Whether a path begins with a Windows verbatim prefix (`\\?\`).
pub open spec fn is_verbatim(path: Seq<char>) -> bool {
    path.len() >= 4 && path.subrange(0, 4) == seq!['\\', '\\', '?', '\\']
}

/// Whether `joined` is `base` with `name` appended, directly or after one
/// separator (`/` or `\`).
pub open spec fn appended(base: Seq<char>, name: Seq<char>, joined: Seq<char>) -> bool {
    ||| joined == base + name
    ||| joined == base + seq!['/'] + name
    ||| joined == base + seq!['\\'] + name
}

/// Whether a file name can be joined as one plain component: no separator and
/// no drive colon, so that it can be neither absolute nor a prefix.
pub open spec fn plain_component(name: Seq<char>) -> bool {
    forall|i: int| 0 <= i < name.len() ==> name[i] != '/' && name[i] != '\\' && name[i] != ':'
}

/// Calls `Path::join` (`PathBuf::push`) and renders the joined path with
/// `to_string_lossy`, which is exact here since both parts are UTF-8. A relative
/// component is appended to the base, after the platform's separator unless the
/// base already ends with one (or, on Windows, is a bare drive such as `C:`).
/// Under a verbatim base (`\\?\...`) std normalizes the joined path, dropping
/// `.` and `..`: nothing is claimed there. Which separator is used is not stated.
#[verifier::external_body]
fn join_path(base: &str, name: &str) -> (r: String)
    requires
        plain_component(name@),
    ensures
        !is_verbatim(base@) ==> appended(base@, name@, r@),
{
    std::path::Path::new(base).join(name).to_string_lossy().into_owned()
}

/// Get the lockfile path for a server: the lockfile's name joined to the
/// server root.
pub fn lockfile_path(server_root: &str) -> (p: String)
    ensures
        !is_verbatim(server_root@) ==> appended(server_root@, LOCKFILE_NAME@, p@),
{
    proof {
        reveal_strlit("mods.lock");
    }
    join_path(server_root, LOCKFILE_NAME)
}

/// Get the mod distribution config path for a server: the config file's name
/// joined to the server root.
pub fn config_path(server_root: &str) -> (p: String)
    ensures
        !is_verbatim(server_root@) ==> appended(server_root@, CONFIG_FILE_NAME@, p@),
{
    proof {
        reveal_strlit("server_mods.toml");
    }
    join_path(server_root, CONFIG_FILE_NAME)
}

/// Distribution statistics for server startup
#[derive(Debug, Clone, Copy, PartialEq, Eq, Structural)]
pub struct DistributionStats {
    /// Number of mods resolved
    pub mods_resolved: usize,
    /// Total download size in bytes
    pub total_download_size: u64,
    /// Number of mods already cached
    pub cache_hits: usize,
    /// Number of mods downloaded
    pub downloads: usize,
}

impl DistributionStats {
    /// The statistics of a resolution of `mods_resolved` mods, `cached_count` of
    /// them already cached, weighing `total_size` bytes: the mods not cached
    /// were downloaded.
    pub fn from_counts(mods_resolved: usize, total_size: u64, cached_count: usize) -> (s: DistributionStats)
        ensures
            s == (DistributionStats {
                mods_resolved,
                total_download_size: total_size,
                cache_hits: cached_count,
                downloads: if mods_resolved >= cached_count {
                    (mods_resolved - cached_count) as usize
                } else {
                    0
                },
            }),
    {
        DistributionStats {
            mods_resolved,
            total_download_size: total_size,
            cache_hits: cached_count,
            downloads: mods_resolved.saturating_sub(cached_count),
        }
    }
}

impl Default for DistributionStats {
    fn default() -> (s: DistributionStats)
        ensures
            s == (DistributionStats { mods_resolved: 0, total_download_size: 0, cache_hits: 0, downloads: 0 }),
    {
        DistributionStats { mods_resolved: 0, total_download_size: 0, cache_hits: 0, downloads: 0 }
    }
}

} // verus!

//! Paths of the portable installation: the data root is the `home`
//! directory beside the executable, and every data path lies under it.

use vstd::prelude::*;
use crate::text::{join_path, path_join};

verus! {

/// The paths of an installation rooted at the executable's directory.
#[derive(Debug, Clone)]
pub struct PathManager {
    data_root: String,
    exe_dir: String,
}

impl PathManager {
    /// The directory of the executable, holding `config.toml` and `.env`.
    pub closed spec fn exe_dir_spec(&self) -> Seq<char> {
        self.exe_dir@
    }

    /// The data root.
    pub closed spec fn root_spec(&self) -> Seq<char> {
        self.data_root@
    }

    /// The paths of an installation whose executable lies in `exe_dir`: its
    /// data root is `exe_dir/home`.
    pub fn with_root(exe_dir: String) -> (p: PathManager)
        ensures
            p.exe_dir_spec() == exe_dir@,
            p.root_spec() == join_path(exe_dir@, "home"@),
    {
        let data_root = path_join(exe_dir.as_str(), "home");
        PathManager { data_root, exe_dir }
    }

    /// The data root.
    pub fn data_root(&self) -> (r: &str)
        ensures
            r@ == self.root_spec(),
    {
        self.data_root.as_str()
    }

    /// The main configuration file, beside the executable.
    pub fn config_path(&self) -> (r: String)
        ensures
            r@ == join_path(self.exe_dir_spec(), "config.toml"@),
    {
        path_join(self.exe_dir.as_str(), "config.toml")
    }

    /// The memory database.
    pub fn memory_db_path(&self) -> (r: String)
        ensures
            r@ == join_path(self.root_spec(), "memory.db"@),
    {
        path_join(self.data_root.as_str(), "memory.db")
    }

    /// The skills directory.
    pub fn skills_dir(&self) -> (r: String)
        ensures
            r@ == join_path(self.root_spec(), "skills"@),
    {
        path_join(self.data_root.as_str(), "skills")
    }

    /// The session archive directory.
    pub fn sessions_dir(&self) -> (r: String)
        ensures
            r@ == join_path(self.root_spec(), "sessions"@),
    {
        path_join(self.data_root.as_str(), "sessions")
    }

    /// The log directory.
    pub fn logs_dir(&self) -> (r: String)
        ensures
            r@ == join_path(self.root_spec(), "logs"@),
    {
        path_join(self.data_root.as_str(), "logs")
    }

    /// The cache directory (safe to delete).
    pub fn cache_dir(&self) -> (r: String)
        ensures
            r@ == join_path(self.root_spec(), "cache"@),
    {
        path_join(self.data_root.as_str(), "cache")
    }

    /// The user's working directory.
    pub fn workspace_dir(&self) -> (r: String)
        ensures
            r@ == join_path(self.root_spec(), "workspace"@),
    {
        path_join(self.data_root.as_str(), "workspace")
    }

    /// The standard directories, created on first use: the data root, then
    /// the skills, sessions, logs, cache and workspace directories.
    pub fn standard_dirs(&self) -> (r: Vec<String>)
        ensures
            r@.len() == 6,
            r@[0]@ == self.root_spec(),
            r@[1]@ == join_path(self.root_spec(), "skills"@),
            r@[2]@ == join_path(self.root_spec(), "sessions"@),
            r@[3]@ == join_path(self.root_spec(), "logs"@),
            r@[4]@ == join_path(self.root_spec(), "cache"@),
            r@[5]@ == join_path(self.root_spec(), "workspace"@),
    {
        let mut v: Vec<String> = Vec::new();
        v.push(self.data_root.clone());
        v.push(self.skills_dir());
        v.push(self.sessions_dir());
        v.push(self.logs_dir());
        v.push(self.cache_dir());
        v.push(self.workspace_dir());
        v
    }
}

/// Every data path of an installation lies under its data root, which lies
/// under the executable's directory.
pub proof fn lemma_paths_under_root(exe_dir: Seq<char>, name: Seq<char>)
    requires
        exe_dir.len() > 0,
    ensures
        crate::text::has_prefix(join_path(exe_dir, "home"@), exe_dir),
        crate::text::has_prefix(join_path(join_path(exe_dir, "home"@), name), join_path(exe_dir, "home"@)),
{
    let r = join_path(exe_dir, "home"@);
    assert(join_path(exe_dir, "home"@).take(exe_dir.len() as int) =~= exe_dir);
    assert(r.len() > 0) by {
        reveal_strlit("home");
    }
    assert(join_path(r, name).take(r.len() as int) =~= r);
}

} // verus!

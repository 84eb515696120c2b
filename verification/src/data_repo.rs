//! Where the sessions are kept.

use vstd::prelude::*;
use crate::entry::{basename_of, join_path, joined, Entry};

verus! {

/// The store of the sessions: one directory for each, inside `data_dir`.
#[derive(Debug)]
pub struct DataRepo {
    pub data_dir: String,
}

/// The application's own directory inside the user's data directory.
pub open spec fn app_data_dir_of(data_home: Seq<char>) -> Seq<char> {
    joined(data_home, "com.github.tokuhirom.meetnote2"@)
}

/// The place of the stored configuration inside the user's
/// configuration directory.
pub open spec fn config_path_of(config_home: Seq<char>) -> Seq<char> {
    joined(config_home, "meetnote2/config.json"@)
}

/// The application's own directory inside the user's data directory.
pub fn get_app_data_dir(data_home: &str) -> (dir: String)
    ensures
        dir@ == app_data_dir_of(data_home@),
{
    join_path(data_home, "com.github.tokuhirom.meetnote2")
}

/// The place of the stored configuration inside the user's
/// configuration directory.
pub fn get_config_path(config_home: &str) -> (path: String)
    ensures
        path@ == config_path_of(config_home@),
{
    join_path(config_home, "meetnote2/config.json")
}

impl DataRepo {
    /// The store inside the application's directory `app_data_dir`.
    pub fn new(app_data_dir: &str) -> (repo: DataRepo)
        ensures
            repo.data_dir@ == joined(app_data_dir@, "data"@),
    {
        DataRepo { data_dir: join_path(app_data_dir, "data") }
    }

    /// The session of the directory named `dirname` in the store.
    pub fn new_entry(&self, dirname: &str) -> (entry: Entry)
        ensures
            entry.dir@ == joined(self.data_dir@, dirname@),
            entry.basename@ == basename_of(joined(self.data_dir@, dirname@)),
    {
        Entry::new(join_path(self.data_dir.as_str(), dirname))
    }
}

} // verus!

//! Where the program finds its settings and keeps its files.

use vstd::prelude::*;

use crate::local_path::LocalPath;

verus! {

/// Where media files are kept, and where the program's own data is.
#[derive(Debug)]
pub struct Config {
    pub download_path: LocalPath,
    pub database_path: LocalPath,
}

/// The file with the settings.
pub fn config_path(current_dir: &LocalPath) -> (r: LocalPath)
    ensures
        r@ == current_dir@.join("turnik.toml"@),
        r.root@ == current_dir.root@,
        r.parts.deep_view() == current_dir.parts.deep_view() + seq!["turnik.toml"@],
{
    current_dir.join("turnik.toml")
}

/// The configuration, given the folder that the settings name, which has to
/// exist.
pub fn get_config(current_dir: &LocalPath, download_path: String, folder_exists: bool) -> (r: Config)
    requires
        folder_exists,
    ensures
        r.download_path@.root == download_path@,
        r.download_path@.parts == Seq::<Seq<char>>::empty(),
        r.database_path@ == current_dir@.join("db"@),
        r.download_path.root@ == download_path@,
        r.download_path.parts.deep_view().len() == 0,
        r.database_path.root@ == current_dir.root@,
        r.database_path.parts.deep_view() == current_dir.parts.deep_view() + seq!["db"@],
{
    Config {
        download_path: LocalPath::from_root(download_path),
        database_path: current_dir.join("db"),
    }
}

/// The file of the store of threads. It lies beside the media files.
pub fn threads_db(config: &Config) -> (r: LocalPath)
    ensures
        r@ == config.download_path@.join("threads.db"@),
        r.root@ == config.download_path.root@,
        r.parts.deep_view() == config.download_path.parts.deep_view() + seq!["threads.db"@],
{
    config.download_path.join("threads.db")
}

} // verus!

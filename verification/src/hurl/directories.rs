//! Where the client keeps its files.

use crate::hurl::paths::{join_path, path_join};
use vstd::prelude::*;

verus! {

/// The directories of the client.
pub struct Directories {
    config: String,
}

/// `dirs::config_dir`: the directory for the configuration files of the
/// user, which the environment of the process decides. Nothing is claimed
/// of it. A directory whose name is not Unicode counts as none.
#[verifier::external_body]
fn config_dir() -> (dir: Option<String>) {
    match dirs::config_dir() {
        Some(dir) => dir.into_os_string().into_string().ok(),
        None => None,
    }
}

impl Directories {
    /// The directory of the configuration of the client.
    pub closed spec fn config_text(&self) -> Seq<char> {
        self.config@
    }

    /// The directories under the configuration directory of the user;
    /// none if the user has no such directory.
    pub fn under(config_dir: Option<String>) -> (directories: Option<Directories>)
        ensures
            config_dir is None ==> directories is None,
            config_dir matches Some(dir) ==> (directories matches Some(d) && d.config_text()
                == path_join(dir@, "hurl"@)),
    {
        match config_dir {
            Some(dir) => Some(Directories { config: join_path(dir.as_str(), "hurl") }),
            None => None,
        }
    }

    /// Finds the directories of the client for the user who runs it. Which
    /// they are, and whether there are any, the environment decides; if
    /// there are, the configuration of the client lies in `hurl` under some
    /// directory.
    pub fn new() -> (directories: Option<Directories>)
        ensures
            directories matches Some(d) ==> exists|dir: Seq<char>|
                d.config_text() == #[trigger] path_join(dir, "hurl"@),
    {
        let dir = config_dir();
        let ghost found = dir;
        let directories = Directories::under(dir);
        assert(found matches Some(f) ==> directories->0.config_text() == path_join(f@, "hurl"@));
        directories
    }

    /// The directory of the configuration of the client.
    pub fn config(&self) -> (path: &str)
        ensures
            path@ == self.config_text(),
    {
        self.config.as_str()
    }
}

} // verus!

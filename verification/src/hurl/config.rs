//! The configuration file of the client: defaults for some of its options.

use crate::hurl::app::App;
use crate::hurl::directories::Directories;
use crate::hurl::paths::{join_path, path_join};
use vstd::prelude::*;

verus! {

/// What a configuration file can set. Every key is optional.
#[derive(Debug)]
pub struct Config {
    pub verbose: Option<u8>,
    pub form: Option<bool>,
    pub auth: Option<String>,
    pub token: Option<String>,
    pub secure: Option<bool>,
}

/// The path of the configuration file: the one that was named on the
/// command line, provided that it is a file (`is_file` tells so), and
/// else the file `config` in the configuration directory of the client.
pub fn config_file(app: &App, is_file: bool, directories: &Directories) -> (path: String)
    ensures
        path@ == (if app.config is Some && is_file {
            app.config->0@
        } else {
            path_join(directories.config_text(), "config"@)
        }),
{
    match &app.config {
        Some(config_path) if is_file => config_path.clone(),
        _ => join_path(directories.config(), "config"),
    }
}

} // verus!

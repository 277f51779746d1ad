//! The daemon's command line and its configuration.
use vstd::prelude::*;
use crate::peer::opt_string_view;

verus! {

/// The daemon's command-line arguments.
pub struct Cli {
    pub new_profile: bool,
    pub no_save: bool,
    pub log_file_name: Option<String>,
    pub sock: Option<String>,
}

/// The daemon's configuration.
pub struct Config {
    pub new_profile: bool,
    pub no_save: bool,
    pub log_file_name: String,
    pub sock: Option<String>,
}

impl Config {
    /// The configuration the command line asks for; the log file is "runtime-log" unless
    /// named.
    pub fn from(value: Cli) -> (r: Config)
        ensures
            r.new_profile == value.new_profile,
            r.no_save == value.no_save,
            r.log_file_name@ == match value.log_file_name {
                Some(n) => n@,
                None => "runtime-log"@,
            },
            opt_string_view(r.sock) == opt_string_view(value.sock),
    {
        Config {
            new_profile: value.new_profile,
            no_save: value.no_save,
            log_file_name: match value.log_file_name {
                Some(n) => n,
                None => "runtime-log".to_string(),
            },
            sock: value.sock,
        }
    }
}

} // verus!

//! Where the configuration and the history live on disk: the path choices,
//! computed from the relevant environment values. Reading the environment
//! and the files themselves is the surrounding program's work.

use vstd::prelude::*;
use vstd::string::*;
use crate::logger::Logger;

verus! {

/// A path joined under a base directory: a separator is added unless the
/// base already ends with one, and an empty base adds none.
pub open spec fn join_path(base: Seq<char>, rel: Seq<char>) -> Seq<char> {
    if base.len() == 0 {
        rel
    } else if base.last() == '/' {
        base + rel
    } else {
        base + "/"@ + rel
    }
}

/// Joins a relative path under a base directory.
pub fn join_path_exec(base: &str, rel: &str) -> (r: String)
    ensures
        r@ == join_path(base@, rel@),
{
    let n = base.unicode_len();
    if n == 0 {
        String::from_str(rel)
    } else if base.get_char(n - 1) == '/' {
        String::from_str(base).concat(rel)
    } else {
        String::from_str(base).concat("/").concat(rel)
    }
}

/// The configuration file's location: an explicitly named file wins; else it
/// sits under the configuration directory, which is the configured one or
/// `.config` under the home directory.
pub open spec fn config_file_spec(
    explicit: Option<Seq<char>>,
    xdg_config_home: Option<Seq<char>>,
    home: Option<Seq<char>>,
) -> Seq<char> {
    if explicit is Some {
        explicit->0
    } else if xdg_config_home is Some {
        join_path(xdg_config_home->0, "fesh/config.toml"@)
    } else {
        join_path(join_path(home->0, ".config"@), "fesh/config.toml"@)
    }
}

/// The history file's default location: under the data directory, which is
/// the configured one or `.local/share` under the home directory.
pub open spec fn history_path_spec(
    xdg_data_home: Option<Seq<char>>,
    home: Option<Seq<char>>,
) -> Seq<char> {
    if xdg_data_home is Some {
        join_path(xdg_data_home->0, "fesh/history"@)
    } else {
        join_path(join_path(home->0, ".local/share"@), "fesh/history"@)
    }
}

/// Computes the history file's default location from the data-directory and
/// home-directory environment values.
pub fn default_history_path(xdg_data_home: Option<String>, home: Option<String>) -> (r: String)
    requires
        xdg_data_home is Some || home is Some,
    ensures
        r@ == history_path_spec(xdg_data_home.deep_view(), home.deep_view()),
{
    match xdg_data_home {
        Some(x) => join_path_exec(x.as_str(), "fesh/history"),
        None => {
            match home {
                Some(h) => {
                    let base = join_path_exec(h.as_str(), ".local/share");
                    join_path_exec(base.as_str(), "fesh/history")
                },
                None => String::new(),
            }
        },
    }
}

/// Finds and reads the configuration file; the reading is the surrounding
/// program's work, the location is decided here.
pub struct ConfigParser {
    pub logger: Logger,
    pub config_file: String,
}

impl ConfigParser {
    /// Decides the configuration file's location from the explicit override
    /// and the configuration-directory and home-directory environment
    /// values.
    pub fn new(explicit: Option<String>, xdg_config_home: Option<String>, home: Option<String>) -> (r:
        ConfigParser)
        requires
            explicit is Some || xdg_config_home is Some || home is Some,
        ensures
            r.config_file@ == config_file_spec(
                explicit.deep_view(),
                xdg_config_home.deep_view(),
                home.deep_view(),
            ),
            r.logger.debug_enabled == false,
    {
        let config_file = match explicit {
            Some(p) => p,
            None => {
                match xdg_config_home {
                    Some(x) => join_path_exec(x.as_str(), "fesh/config.toml"),
                    None => {
                        match home {
                            Some(h) => {
                                let base = join_path_exec(h.as_str(), ".config");
                                join_path_exec(base.as_str(), "fesh/config.toml")
                            },
                            None => String::new(),
                        }
                    },
                }
            },
        };
        ConfigParser { logger: Logger::new(false), config_file }
    }
}

} // verus!

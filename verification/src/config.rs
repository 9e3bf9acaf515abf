//! Configuration data and the path rules for finding it on disk.
//!
//! The structures here are the plain-value form of the engine's configuration.
//! Reading and writing the actual files is done outside the crate; the
//! functions below only decide which path is used, given which candidate
//! files exist.

use vstd::prelude::*;

verus! {

/// Homeserver-related configuration.
pub struct HomeserverConfig {
    /// Homeserver URL.
    pub url: String,
}

/// Bot-related configuration.
pub struct BotConfig {
    /// Prefix used to invoke bot commands.
    pub command_prefix: String,
    /// Users the bot accepts invites from.
    pub allow_invites: Vec<String>,
}

/// Top-level configuration.
pub struct Config {
    /// Homeserver-related configuration.
    pub homeserver: HomeserverConfig,
    /// Bot-related configuration.
    pub bot: BotConfig,
}

/// Returns the path to be used for reading the configuration file: the
/// working-directory copy when it exists, else the system-wide copy when it
/// exists, else the working-directory name for a file yet to be created.
pub fn config_path(local_exists: bool, system_exists: bool) -> (p: String)
    ensures
        p@ == if local_exists {
            "clobber.toml"@
        } else if system_exists {
            "/etc/clobber/clobber.toml"@
        } else {
            "clobber.toml"@
        },
{
    if local_exists {
        String::from_str("clobber.toml")
    } else if system_exists {
        String::from_str("/etc/clobber/clobber.toml")
    } else {
        String::from_str("clobber.toml")
    }
}

/// Returns the path of the data directory: the working-directory one when it
/// exists, else the system-wide one when it exists, else the
/// working-directory name for a directory yet to be created.
pub fn data_dir_path(local_exists: bool, system_exists: bool) -> (p: String)
    ensures
        p@ == if local_exists {
            "data"@
        } else if system_exists {
            "/var/lib/clobber"@
        } else {
            "data"@
        },
{
    if local_exists {
        String::from_str("data")
    } else if system_exists {
        String::from_str("/var/lib/clobber")
    } else {
        String::from_str("data")
    }
}

} // verus!

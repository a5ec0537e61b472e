//! Command-line settings.

use vstd::prelude::*;

verus! {

/// Command-line configuration for the watchdog daemon.
#[derive(Debug)]
pub struct Cli {
    /// TOML configuration file path.
    pub config: String,
    /// Validate configuration and exit without starting scanner or tasks.
    pub check_config: bool,
    /// Let actions succeed without sending them.
    pub dry_run: bool,
}

/// Returns the path of the configuration file that is read unless another one is given.
pub fn default_config_path() -> (path: &'static str)
    ensures
        path@ == "/etc/wattdog/config.toml"@,
{
    "/etc/wattdog/config.toml"
}

impl Default for Cli {
    fn default() -> (cli: Self)
        ensures
            cli.config@ == "/etc/wattdog/config.toml"@,
            !cli.check_config,
            !cli.dry_run,
    {
        Cli { config: default_config_path().to_owned(), check_config: false, dry_run: false }
    }
}

} // verus!

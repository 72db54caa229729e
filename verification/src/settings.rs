//! The settings of a run: what the config file says, overridden by the
//! command line.

use vstd::prelude::*;

verus! {

/// The settings of the config file that the command line can override.
#[derive(Debug)]
pub struct Config {
    /// Where cove stores its data, relative to the home directory.
    pub data_dir: Option<String>,
    /// Store nothing permanently.
    pub ephemeral: bool,
    /// Measure the widths of characters in the terminal instead of guessing.
    pub measure_widths: bool,
    /// Ignore the autojoin option of rooms.
    pub offline: bool,
}

/// The command line arguments that override settings of the config file.
#[derive(Debug)]
pub struct Args {
    /// Show more detailed log messages.
    pub verbose: bool,
    /// Path to the config file, relative to the current directory.
    pub config: Option<String>,
    /// Where cove stores its data, relative to the current directory.
    pub data_dir: Option<String>,
    pub ephemeral: bool,
    pub offline: bool,
    pub measure_widths: bool,
}

/// The data directory after the command line is taken into account: the one
/// it gives, else the one of the config file (as `resolved`, relative to the
/// home directory), else none.
pub open spec fn resolved_data_dir(
    config: Option<String>,
    args: Option<String>,
    resolved: Option<String>,
) -> Option<Seq<char>> {
    match args {
        Some(d) => Some(d@),
        None => match config {
            Some(_) => match resolved {
                Some(r) => Some(r@),
                None => None,
            },
            None => None,
        },
    }
}

/// Overrides the settings of `config` with those of `args`: the data
/// directory given on the command line replaces that of the config file,
/// which is otherwise taken relative to the home directory (`in_home`, the
/// config's data directory joined onto the home directory); the flags are
/// set where either sets them.
pub fn update_config_with_args(config: &mut Config, args: &Args, in_home: Option<String>)
    requires
        args.data_dir is None && old(config).data_dir is Some ==> in_home is Some,
    ensures
        match final(config).data_dir {
            Some(d) => resolved_data_dir(old(config).data_dir, args.data_dir, in_home) == Some(d@),
            None => resolved_data_dir(old(config).data_dir, args.data_dir, in_home) is None,
        },
        final(config).ephemeral == (old(config).ephemeral || args.ephemeral),
        final(config).measure_widths == (old(config).measure_widths || args.measure_widths),
        final(config).offline == (old(config).offline || args.offline),
{
    match &args.data_dir {
        Some(data_dir) => {
            config.data_dir = Some(data_dir.clone());
        },
        None => {
            if config.data_dir.is_some() {
                config.data_dir = in_home;
            }
        },
    }
    config.ephemeral = config.ephemeral || args.ephemeral;
    config.measure_widths = config.measure_widths || args.measure_widths;
    config.offline = config.offline || args.offline;
}

} // verus!

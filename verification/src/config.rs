//! The bot's configuration and start-up decisions: the configuration values,
//! the checks made on them, the command line, and the backup schedule.
use vstd::prelude::*;
use crate::text::{chars_eq, chars_of, string_of};

verus! {

/// The main configuration.
pub struct Config {
    /// The Discord bot token.
    pub token: String,
    /// The prefix of bot commands.
    pub prefix: String,
    /// The Discord users allowed to run host commands.
    pub shell_access: Vec<u64>,
    /// Where the bot rebuilds itself.
    pub build_dir: String,
    /// The optional part.
    pub optional: Optional,
}

/// The optional part of the configuration: chat bridge, sessions and backups.
pub struct Optional {
    /// The Discord channel of the chat bridge.
    pub chat_bridge_id: Option<u64>,
    /// The Minecraft tmux sessions.
    pub server_name: Vec<String>,
    /// The other tmux sessions.
    pub generic_name: Vec<String>,
    /// Seconds between scheduled backups.
    pub backup_time: Option<i64>,
    /// The directory that is backed up.
    pub backup_dir: Option<String>,
    /// Seconds a backup is kept.
    pub keep_time: Option<u64>,
    /// Where backups are stored.
    pub backup_store: Option<String>,
    /// The prefix of in-game commands.
    pub ign_prefix: Option<String>,
    /// Seconds between runs of the script file.
    pub script_update: Option<u64>,
}

/// Why a configuration is refused.
pub enum ConfigError {
    /// The bot token is empty.
    TokenMissing,
    /// The backup directory is set but does not exist.
    BackupDirMissing,
    /// The backup store is set but does not exist.
    BackupStoreMissing,
}

/// Whether a configuration is accepted, given whether its token is empty and
/// whether its backup directory and backup store are set and exist.
pub open spec fn config_verdict(
    token_empty: bool,
    backup_dir_set: bool,
    backup_dir_exists: bool,
    backup_store_set: bool,
    backup_store_exists: bool,
) -> Result<(), ConfigError> {
    if token_empty {
        Err(ConfigError::TokenMissing)
    } else if backup_dir_set && !backup_dir_exists {
        Err(ConfigError::BackupDirMissing)
    } else if backup_store_set && !backup_store_exists {
        Err(ConfigError::BackupStoreMissing)
    } else {
        Ok(())
    }
}

/// The checks made on a loaded configuration, in order: the bot token must not
/// be empty; a backup directory or backup store that is set must exist
/// (`backup_dir_exists` and `backup_store_exists` tell whether they do).
pub fn validate_config(config: &Config, backup_dir_exists: bool, backup_store_exists: bool) -> (r:
    Result<(), ConfigError>)
    ensures
        r == config_verdict(
            config.token@.len() == 0,
            config.optional.backup_dir is Some,
            backup_dir_exists,
            config.optional.backup_store is Some,
            backup_store_exists,
        ),
{
    if chars_of(config.token.as_str()).len() == 0 {
        Err(ConfigError::TokenMissing)
    } else if config.optional.backup_dir.is_some() && !backup_dir_exists {
        Err(ConfigError::BackupDirMissing)
    } else if config.optional.backup_store.is_some() && !backup_store_exists {
        Err(ConfigError::BackupStoreMissing)
    } else {
        Ok(())
    }
}

/// The scheduled backup interval: the configured one when it is more than
/// 200 seconds, else -1 (no scheduled backups).
pub open spec fn backup_interval_spec(backup_time: Option<i64>) -> i64 {
    match backup_time {
        Some(t) => if t > 200 {
            t
        } else {
            -1i64
        },
        None => -1i64,
    }
}

/// The scheduled backup interval: the configured one when it is more than
/// 200 seconds, else -1 (no scheduled backups).
pub fn backup_interval(backup_time: Option<i64>) -> (r: i64)
    ensures
        r == backup_interval_spec(backup_time),
{
    match backup_time {
        Some(t) => if t > 200 {
            t
        } else {
            -1
        },
        None => -1,
    }
}

/// Whether the backup loop runs for the interval `backup_time`.
pub fn schedules_backups(backup_time: i64) -> (r: bool)
    ensures
        r == (backup_time > 200),
{
    backup_time > 200
}

/// Backups are scheduled exactly when the configured interval is more than 200 seconds.
pub proof fn law_backups_scheduled_iff_long_interval(backup_time: Option<i64>)
    ensures
        (backup_interval_spec(backup_time) > 200) == (backup_time matches Some(t) && t > 200),
        backup_interval_spec(backup_time) == -1 || backup_interval_spec(backup_time) > 200,
{
}

/// What the bot does at start.
pub enum StartAction {
    /// Run the bot.
    Run,
    /// Write the default configuration, then run.
    ResetConfig,
    /// Print the help text and exit.
    Help,
    /// Warn about an unknown argument, then run.
    UnknownArgument,
}

/// What the command line asks for.
pub struct StartOptions {
    /// What to do.
    pub action: StartAction,
    /// The configuration file to load.
    pub config_path: String,
}

/// The configuration file used when none is named.
pub open spec fn default_config_path() -> Seq<char> {
    "./hypnos_core.conf"@
}

/// A command line `c` without the path that must follow it.
pub open spec fn config_path_missing(args: Seq<Seq<char>>) -> bool {
    args.len() > 1 && args[1] == "c"@ && args.len() <= 2
}

/// What the command line `args` (program name first) asks for.
pub open spec fn start_spec(args: Seq<Seq<char>>) -> (StartAction, Seq<char>) {
    if args.len() <= 1 {
        (StartAction::Run, default_config_path())
    } else if args[1] == "reset-cfg"@ {
        (StartAction::ResetConfig, default_config_path())
    } else if args[1] == "c"@ {
        (StartAction::Run, args[2])
    } else if args[1] == "help"@ {
        (StartAction::Help, default_config_path())
    } else {
        (StartAction::UnknownArgument, default_config_path())
    }
}

/// Reads the command line (program name first): `reset-cfg`, `c <config file>`,
/// `help`, or nothing; any other first argument is unknown.
pub fn parse_args(args: &Vec<String>) -> (r: StartOptions)
    requires
        !config_path_missing(crate::log::string_views(args@)),
    ensures
        (r.action, r.config_path@) == start_spec(crate::log::string_views(args@)),
{
    let ghost av = crate::log::string_views(args@);
    let default_path = string_of(&chars_of("./hypnos_core.conf"));
    if args.len() <= 1 {
        return StartOptions { action: StartAction::Run, config_path: default_path };
    }
    let first = chars_of(args[1].as_str());
    assert(av[1] == first@);
    if chars_eq(&first, &chars_of("reset-cfg")) {
        StartOptions { action: StartAction::ResetConfig, config_path: default_path }
    } else if chars_eq(&first, &chars_of("c")) {
        let path = string_of(&chars_of(args[2].as_str()));
        assert(av[2] == path@);
        StartOptions { action: StartAction::Run, config_path: path }
    } else if chars_eq(&first, &chars_of("help")) {
        StartOptions { action: StartAction::Help, config_path: default_path }
    } else {
        StartOptions { action: StartAction::UnknownArgument, config_path: default_path }
    }
}

/// Whether the command line names `c` without a path (see `parse_args`).
pub fn config_path_missing_exec(args: &Vec<String>) -> (r: bool)
    ensures
        r == config_path_missing(crate::log::string_views(args@)),
{
    if args.len() <= 1 {
        return false;
    }
    let first = chars_of(args[1].as_str());
    assert(crate::log::string_views(args@)[1] == first@);
    chars_eq(&first, &chars_of("c")) && args.len() <= 2
}

/// Whether a path is absolute as `Path::is_absolute` decides on Unix: it starts
/// at the root, `/` (other platforms are not covered); other paths draw a warning.
pub fn path_is_absolute(dir: &str) -> (r: bool)
    ensures
        r == (dir@.len() > 0 && dir@[0] == '/'),
{
    let c = chars_of(dir);
    c.len() > 0 && c[0] == '/'
}

/// How long to wait, in milliseconds, for tmux to create the pipe files of
/// `servers` sessions: 20 ms each.
pub fn pipe_wait_millis(servers: usize) -> (r: u64)
    requires
        servers * 20 <= usize::MAX,
    ensures
        r == servers * 20,
{
    (servers * 20) as u64
}

} // verus!

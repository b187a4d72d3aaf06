//! Configuration: which sync targets mirror the log, and UI preferences.

use vstd::prelude::*;

verus! {

/// Version tag written into every envelope.
pub const SERIALIZATION_VERSION: &'static str = "1";

/// Application directory, directly under each replica root.
pub const YO_DIRNAME: &'static str = ".yo";

/// File that holds the configuration, in the primary replica only.
pub const CONFIG_FILENAME: &'static str = "config.json";

/// Root of the iCloud Drive replica, relative to the home directory.
pub const ICLOUD_DIRNAME: &'static str = "Library/Mobile Documents/com~apple~CloudDocs";

/// Root of the Dropbox replica, relative to the home directory.
pub const DROPBOX_DIRNAME: &'static str = "Library/CloudStorage/Dropbox";

/// File that holds the encrypted event log.
pub const TASKS_FILENAME: &'static str = "tasks";

/// File that holds the salt, unencrypted.
pub const SALT_FILENAME: &'static str = "salt";

/// Ten minutes, in milliseconds.
pub const DEFAULT_AUTO_LOCK_TIMEOUT: u32 = 600_000;

/// Preferences of the user interface. The core carries them through unread.
#[derive(Debug, Clone, Copy, PartialEq, Eq)]
pub struct UiConfig {
    pub auto_lock_timeout: u32,
}

impl Default for UiConfig {
    fn default() -> (ui: Self)
        ensures
            ui.auto_lock_timeout == DEFAULT_AUTO_LOCK_TIMEOUT,
    {
        UiConfig { auto_lock_timeout: DEFAULT_AUTO_LOCK_TIMEOUT }
    }
}

/// Which replicas exist besides the primary one, and the UI preferences.
#[derive(Debug, Clone, Copy, PartialEq, Eq)]
pub struct Config {
    pub icloud_enabled: bool,
    pub dropbox_enabled: bool,
    pub ui: UiConfig,
}

impl Config {
    /// The configuration of a fresh installation.
    pub open spec fn initial() -> Config {
        Config {
            icloud_enabled: false,
            dropbox_enabled: false,
            ui: UiConfig { auto_lock_timeout: DEFAULT_AUTO_LOCK_TIMEOUT },
        }
    }

    /// Number of replicas of every artifact: the primary one and one for
    /// each enabled sync target.
    pub open spec fn replica_count(self) -> nat {
        1 + (if self.icloud_enabled { 1nat } else { 0nat })
          + (if self.dropbox_enabled { 1nat } else { 0nat })
    }

    pub fn new() -> (config: Self)
        ensures
            config == Config::initial(),
    {
        Config {
            icloud_enabled: false,
            dropbox_enabled: false,
            ui: UiConfig { auto_lock_timeout: DEFAULT_AUTO_LOCK_TIMEOUT },
        }
    }
}

impl Default for Config {
    fn default() -> (config: Self)
        ensures
            config == Config::initial(),
    {
        Config::new()
    }
}

/// The configuration in force, owned by the session.
#[derive(Debug)]
pub struct AppConfig {
    pub config: Config,
}

impl AppConfig {
    pub fn new() -> (app_config: Self)
        ensures
            app_config.config == Config::initial(),
    {
        AppConfig { config: Config::new() }
    }
}

impl Default for AppConfig {
    fn default() -> (app_config: Self)
        ensures
            app_config.config == Config::initial(),
    {
        AppConfig::new()
    }
}

} // verus!

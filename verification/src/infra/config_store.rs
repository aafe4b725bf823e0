//! Where the settings file lives and what a reset writes. Reading and writing the file
//! is the application's.
use crate::models::config::AppConfig;
use crate::paths::{join_path, join_path_exec, main_separator, platform_sep};
use vstd::prelude::*;

verus! {

pub struct ConfigStore {
    pub file_path: String,
}

impl ConfigStore {
    /// The settings file "config.json" in the configuration directory, joined with the
    /// separator of the platform the program runs on.
    pub fn new(config_dir: &str) -> (s: ConfigStore)
        ensures
            exists|sep: char| platform_sep(sep) && s.file_path@ == #[trigger] join_path(config_dir@, "config.json"@, sep),
    {
        let sep = main_separator();
        ConfigStore { file_path: join_path_exec(config_dir, "config.json", sep) }
    }

    /// The settings that a reset writes, and that a missing file is created with: the
    /// defaults.
    pub fn reset(&self) -> (c: AppConfig)
        ensures
            c.scan.is_default(),
            c.ai.is_default(),
            c.cache.is_default(),
            c.export.is_default(),
            c.ui.is_default(),
    {
        AppConfig::default()
    }
}

} // verus!

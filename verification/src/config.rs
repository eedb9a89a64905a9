use vstd::prelude::*;

verus! {

#[verifier::external_type_specification]
#[verifier::external_body]
pub struct ExIoError(std::io::Error);

/// The number of lines per page that a reader starts with when nothing else
/// is configured.
pub const DEFAULT_PAGE_SIZE: usize = 30;

/// Errors that can occur during config operations.
#[derive(Debug)]
pub enum ConfigError {
    /// The home directory cannot be found.
    HomeDirNotFound,
    /// Reading or writing the configuration failed.
    IoError(std::io::Error),
}

impl From<std::io::Error> for ConfigError {
    fn from(err: std::io::Error) -> (e: Self) {
        ConfigError::IoError(err)
    }
}

impl vstd::std_specs::convert::FromSpecImpl<std::io::Error> for ConfigError {
    open spec fn obeys_from_spec() -> bool {
        true
    }

    open spec fn from_spec(v: std::io::Error) -> ConfigError {
        ConfigError::IoError(v)
    }
}

/// The reader's configuration.
#[derive(Debug, Clone, Copy)]
pub struct CliConfig {
    /// The number of lines per page.
    pub page_size: usize,
}

impl Default for CliConfig {
    fn default() -> (c: Self)
        ensures
            c.page_size == DEFAULT_PAGE_SIZE,
    {
        CliConfig { page_size: DEFAULT_PAGE_SIZE }
    }
}

} // verus!

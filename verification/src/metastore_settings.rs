//! Process-wide settings of the metastore: the timeouts of its object-store client, set
//! once and read afterwards.
use vstd::prelude::*;

verus! {

/// The options of the object-store client the metastore uses.
#[derive(Clone, Copy, Debug, PartialEq, Eq, Structural)]
pub struct ClientOptions {
    /// The request timeout, in seconds, where one is set.
    pub timeout_secs: Option<u64>,
    /// The connection timeout, in seconds, where one is set.
    pub connect_timeout_secs: Option<u64>,
}

/// The metastore's settings.
#[derive(Clone, Copy, Debug, PartialEq, Eq, Structural)]
pub struct MetastoreSettingsConfig {
    pub object_store_config: ClientOptions,
}

/// Why the settings cannot be set or read.
#[derive(Clone, Copy, Debug, PartialEq, Eq, Structural)]
pub enum MetastoreSettingsConfigError {
    AlreadyInitialized,
    NotInitialized,
}

impl MetastoreSettingsConfig {
    /// Settings with the client's default options: no timeouts.
    pub fn new() -> (r: MetastoreSettingsConfig)
        ensures
            r.object_store_config.timeout_secs is None,
            r.object_store_config.connect_timeout_secs is None,
    {
        MetastoreSettingsConfig { object_store_config: ClientOptions { timeout_secs: None, connect_timeout_secs: None } }
    }

    /// The same settings with a request timeout.
    pub fn with_object_store_timeout(self, timeout_secs: u64) -> (r: MetastoreSettingsConfig)
        ensures
            r.object_store_config.timeout_secs == Some(timeout_secs),
            r.object_store_config.connect_timeout_secs == self.object_store_config.connect_timeout_secs,
    {
        MetastoreSettingsConfig {
            object_store_config: ClientOptions { timeout_secs: Some(timeout_secs), ..self.object_store_config },
        }
    }

    /// The same settings with a connection timeout.
    pub fn with_object_store_connect_timeout(self, timeout_secs: u64) -> (r: MetastoreSettingsConfig)
        ensures
            r.object_store_config.connect_timeout_secs == Some(timeout_secs),
            r.object_store_config.timeout_secs == self.object_store_config.timeout_secs,
    {
        MetastoreSettingsConfig {
            object_store_config: ClientOptions { connect_timeout_secs: Some(timeout_secs), ..self.object_store_config },
        }
    }
}

impl Default for MetastoreSettingsConfig {
    fn default() -> (r: Self)
        ensures
            r.object_store_config.timeout_secs is None,
            r.object_store_config.connect_timeout_secs is None,
    {
        MetastoreSettingsConfig::new()
    }
}

/// What initializing does to the settings held: the first settings are kept, and a later
/// initialization is refused.
pub open spec fn initialize_step(held: Option<MetastoreSettingsConfig>, settings: MetastoreSettingsConfig) -> (
    Option<MetastoreSettingsConfig>,
    Result<(), MetastoreSettingsConfigError>,
) {
    match held {
        None => (Some(settings), Ok(())),
        Some(_) => (held, Err(MetastoreSettingsConfigError::AlreadyInitialized)),
    }
}

/// A place for the settings that is written once: the first write wins and later writes
/// are refused.
#[derive(Debug)]
pub struct SettingsCell {
    value: Option<MetastoreSettingsConfig>,
}

impl SettingsCell {
    /// What the cell holds.
    pub closed spec fn contents(&self) -> Option<MetastoreSettingsConfig> {
        self.value
    }

    /// An empty cell.
    pub fn new() -> (r: SettingsCell)
        ensures
            r.contents() is None,
    {
        SettingsCell { value: None }
    }

    /// Sets the settings, unless they are set already.
    pub fn initialize(&mut self, settings: MetastoreSettingsConfig) -> (r: Result<(), MetastoreSettingsConfigError>)
        ensures
            (final(self).contents(), r) == initialize_step(old(self).contents(), settings),
    {
        if self.value.is_some() {
            return Err(MetastoreSettingsConfigError::AlreadyInitialized);
        }
        self.value = Some(settings);
        Ok(())
    }

    /// The object-store options of the settings, once they are set.
    pub fn get_object_store_config(&self) -> (r: Result<ClientOptions, MetastoreSettingsConfigError>)
        ensures
            self.contents() matches Some(s) ==> r == Ok::<ClientOptions, MetastoreSettingsConfigError>(
                s.object_store_config,
            ),
            self.contents() is None ==> r == Err::<ClientOptions, MetastoreSettingsConfigError>(
                MetastoreSettingsConfigError::NotInitialized,
            ),
    {
        match &self.value {
            Some(s) => Ok(s.object_store_config),
            None => Err(MetastoreSettingsConfigError::NotInitialized),
        }
    }
}

/// The settings are written once: after a first initialization of an empty place, a
/// second one is refused and the first settings stay.
pub proof fn law_settings_written_once(first: MetastoreSettingsConfig, second: MetastoreSettingsConfig)
    ensures
        initialize_step(None, first).1 is Ok,
        initialize_step(initialize_step(None, first).0, second) == (
            Some(first),
            Err::<(), MetastoreSettingsConfigError>(MetastoreSettingsConfigError::AlreadyInitialized),
        ),
{
}

} // verus!

use vstd::prelude::*;

verus! {

/// Connection settings for the work-item tracker.
pub struct Settings {
    pub server_url: String,
    pub org: String,
    pub project: String,
    pub pat_token: String,
}

/// The process configuration.
pub struct Config {
    pub settings: Settings,
}

/// Holds the configuration once loaded. The host reads and parses the
/// configuration file at process start and stores the result here exactly
/// once; everything after that only reads it.
pub struct ConfigCell {
    slot: Option<Config>,
}

impl ConfigCell {
    /// What the cell holds.
    pub closed spec fn stored(self) -> Option<Config> {
        self.slot
    }

    /// A cell with nothing stored yet.
    pub fn empty() -> (c: ConfigCell)
        ensures
            c.stored() is None,
    {
        ConfigCell { slot: None }
    }

    /// Whether the configuration has been stored.
    pub fn is_set(&self) -> (b: bool)
        ensures
            b == (self.stored() is Some),
    {
        self.slot.is_some()
    }
}

/// Store the configuration; to be called once, before any read.
pub fn init_config(cell: &mut ConfigCell, cfg: Config)
    requires
        old(cell).stored() is None,
    ensures
        final(cell).stored() == Some(cfg),
{
    cell.slot = Some(cfg);
}

/// Read the configuration; it must have been stored first.
pub fn get_config(cell: &ConfigCell) -> (c: &Config)
    requires
        cell.stored() is Some,
    ensures
        Some(*c) == cell.stored(),
{
    cell.slot.as_ref().unwrap()
}

} // verus!

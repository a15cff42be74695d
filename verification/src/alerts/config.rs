//! Where the alert rules file is read from. Reading and parsing it is left to the
//! caller.

use vstd::prelude::*;
use super::models::AlertRule;

verus! {

/// The rules file: `{config_dir}/portwatch/alerts.json` is canonical, and
/// `~/.config/portwatch/alerts.json` is the legacy place.
#[derive(Debug, Clone, Copy, PartialEq, Eq, Structural)]
pub enum ConfigLocation {
    Canonical,
    Legacy,
}

/// The file to use, from whether each place is known and whether a file is there
/// (`None`: the directory is unknown). The canonical file when it exists, else the
/// legacy file when it exists; when neither exists, the canonical place (where saves
/// go), or the legacy place if the configuration directory is unknown. `None` when
/// neither place is known.
pub open spec fn location_for(
    canonical_exists: Option<bool>,
    legacy_exists: Option<bool>,
) -> Option<ConfigLocation> {
    if canonical_exists == Some(true) {
        Some(ConfigLocation::Canonical)
    } else if legacy_exists == Some(true) {
        Some(ConfigLocation::Legacy)
    } else if canonical_exists is Some {
        Some(ConfigLocation::Canonical)
    } else if legacy_exists is Some {
        Some(ConfigLocation::Legacy)
    } else {
        None
    }
}

/// Chooses the rules file to read.
pub fn config_location(canonical_exists: Option<bool>, legacy_exists: Option<bool>) -> (r: Option<
    ConfigLocation,
>)
    ensures
        r == location_for(canonical_exists, legacy_exists),
{
    match (canonical_exists, legacy_exists) {
        (Some(true), _) => Some(ConfigLocation::Canonical),
        (_, Some(true)) => Some(ConfigLocation::Legacy),
        (Some(false), _) => Some(ConfigLocation::Canonical),
        (None, Some(false)) => Some(ConfigLocation::Legacy),
        (None, None) => None,
    }
}

/// The contents of the rules file.
#[derive(Debug)]
pub struct AlertConfig {
    pub rules: Vec<AlertRule>,
}

impl Default for AlertConfig {
    /// No rules.
    fn default() -> (c: Self)
        ensures
            c.rules@ == Seq::<AlertRule>::empty(),
    {
        AlertConfig { rules: Vec::new() }
    }
}

} // verus!

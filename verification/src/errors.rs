use vstd::prelude::*;
use vstd::string::StringExecFns;

use crate::model::Settings;

verus! {

/// Classified failure of settings resolution.  `SNotFound` carries the
/// freshly written defaults when the orchestrator recovers from a missing
/// file; `SWarning` always carries the best still-usable configuration.
#[derive(Debug)]
pub enum SettingsError {
    SNotFound(Option<Settings>),
    SWarning(Settings, String),
    SError(String),
}

impl SettingsError {
    /// The message a caller should display for this failure.
    pub open spec fn spec_message(&self) -> Seq<char> {
        match self {
            SettingsError::SNotFound(_) => "Settings Not Found"@,
            SettingsError::SWarning(_, err) => err@,
            SettingsError::SError(err) => err@,
        }
    }

    /// Human-readable description of the failure.
    pub fn to_string(&self) -> (r: String)
        ensures
            r@ == self.spec_message(),
    {
        match self {
            SettingsError::SNotFound(_) => "Settings Not Found".to_owned(),
            SettingsError::SWarning(_, err) => err.clone(),
            SettingsError::SError(err) => err.clone(),
        }
    }
}

} // verus!

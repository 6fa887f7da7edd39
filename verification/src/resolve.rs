use vstd::prelude::*;

use crate::codec::{spec_parse, spec_render, lemma_render_parse_round_trip};
use crate::defaults::{get_default_settings, spec_default_settings};
use crate::errors::SettingsError;
use crate::model::Settings;
use crate::store::{corrupt_message, read_failed_message, read_settings, ReadOutcome};

verus! {

/// What resolution decides after the settings file has been read: write
/// freshly computed defaults and signal a first run, give up with a
/// classified failure, or go on to validation.
pub enum ResolveStep {
    FirstRun(Settings),
    Fail(SettingsError),
    Validate(Settings),
}

/// The resolution decision for a read outcome.  A missing file yields the
/// computed defaults to be persisted and signalled as a first run; a read
/// failure or corrupt text is a hard failure; loaded settings go on to
/// validation.
pub fn get_settings(load: ReadOutcome) -> (r: ResolveStep)
    ensures
        match load {
            ReadOutcome::Missing => r matches ResolveStep::FirstRun(s) && (exists|
                l: Option<Seq<char>>,
                d: Option<Seq<char>>,
            | s@ == spec_default_settings(l, d)),
            ReadOutcome::ReadFailed(err) => r matches ResolveStep::Fail(e) && e matches
                SettingsError::SError(m) && m@ == read_failed_message(err@),
            ReadOutcome::Content(text) => match spec_parse(text@) {
                Some(v) => r matches ResolveStep::Validate(s) && s@ == v,
                None => r matches ResolveStep::Fail(e) && e matches SettingsError::SError(m) && m@
                    == corrupt_message(),
            },
        },
{
    match read_settings(load) {
        Err(SettingsError::SNotFound(None)) => match get_default_settings() {
            Ok(d) => ResolveStep::FirstRun(d),
            Err(e) => ResolveStep::Fail(e),
        },
        Err(e) => ResolveStep::Fail(e),
        Ok(s) => ResolveStep::Validate(s),
    }
}

/// Wraps the outcome of persisting first-run defaults: a successful save
/// becomes `SNotFound` carrying the freshly written settings — a signal, not
/// a blocking failure — and a save failure propagates unchanged.
pub fn finish_first_run(saved: Result<Settings, SettingsError>) -> (r: Result<
    Settings,
    SettingsError,
>)
    ensures
        match saved {
            Ok(s) => r matches Err(e) && e matches SettingsError::SNotFound(n) && n matches Some(
                s2,
            ) && s2 == s,
            Err(e0) => r matches Err(e) && e == e0,
        },
{
    match saved {
        Ok(s) => Err(SettingsError::SNotFound(Some(s))),
        Err(e) => Err(e),
    }
}

/// Law: the first-run settings survive persistence.  For any pair of
/// environment lookups, the default configuration renders to a text that
/// parses back to the same value, so a load right after the first-run save
/// returns exactly the saved defaults.
pub proof fn lemma_first_run_round_trip(l: Option<Seq<char>>, d: Option<Seq<char>>)
    ensures
        spec_parse(spec_render(spec_default_settings(l, d))) == Some(spec_default_settings(l, d)),
{
    lemma_render_parse_round_trip(spec_default_settings(l, d));
}

} // verus!

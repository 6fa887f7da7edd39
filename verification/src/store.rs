use vstd::prelude::*;
use vstd::string::StringExecFns;

use crate::codec::{parse_settings, spec_parse};
use crate::errors::SettingsError;
use crate::model::{join_path, spec_join, Settings};
use crate::validate::message_with;

verus! {

/// What reading the settings file produced: no file, an unreadable file, or
/// its text.  The file system hands this in as a plain value.
pub enum ReadOutcome {
    Missing,
    ReadFailed(String),
    Content(String),
}

/// What writing the settings file produced: a failure to create the parent
/// directory (one that was not "it already exists"), a failure to write, or
/// success.
pub enum WriteOutcome {
    DirCreateFailed { dir: String, err: String },
    WriteFailed(String),
    Written,
}

pub open spec fn read_failed_message(err: Seq<char>) -> Seq<char> {
    "Failed to read settings file: "@ + err
}

pub open spec fn corrupt_message() -> Seq<char> {
    "Error reading settings file: the file does not hold a settings value"@
}

pub open spec fn dir_create_failed_message(dir: Seq<char>, err: Seq<char>) -> Seq<char> {
    "Error creating settings directory "@ + dir + ": "@ + err
}

pub open spec fn write_failed_message(err: Seq<char>) -> Seq<char> {
    "Failed to write settings file: "@ + err
}

pub open spec fn no_config_dir_message() -> Seq<char> {
    "Failed to find settings folder"@
}

/// Relies on directories::ProjectDirs::from and config_dir: the per-user
/// configuration directory under the platform's conventions.  The answer
/// depends on the environment, so nothing is promised of it.
#[verifier::external_body]
fn project_config_dir() -> (r: Option<String>) {
    directories::ProjectDirs::from("org", "valbak", "Valbak").map(
        |d| d.config_dir().to_string_lossy().into_owned(),
    )
}

/// The per-user settings file path, or a hard error when the platform cannot
/// supply a configuration directory.
pub fn get_settings_file_path() -> (r: Result<String, SettingsError>)
    ensures
        r matches Ok(p) ==> exists|d: Seq<char>| p@ == spec_join(d, "settings.json"@),
        r matches Err(e) ==> e matches SettingsError::SError(m) && m@ == no_config_dir_message(),
{
    match project_config_dir() {
        None => Err(SettingsError::SError("Failed to find settings folder".to_owned())),
        Some(dir) => {
            let ghost d = dir@;
            let p = join_path(dir.as_str(), "settings.json");
            proof {
                assert(p@ == spec_join(d, "settings.json"@));
            }
            Ok(p)
        },
    }
}

/// Classifies what came back from reading the settings file: a missing file
/// is `SNotFound` with no prior settings, an unreadable one a hard error,
/// and text is parsed — yielding the settings or a hard corruption error.
pub fn read_settings(outcome: ReadOutcome) -> (r: Result<Settings, SettingsError>)
    ensures
        match outcome {
            ReadOutcome::Missing => r matches Err(e) && e matches SettingsError::SNotFound(n) && n
                is None,
            ReadOutcome::ReadFailed(err) => r matches Err(e) && e matches SettingsError::SError(m)
                && m@ == read_failed_message(err@),
            ReadOutcome::Content(text) => match spec_parse(text@) {
                Some(v) => r matches Ok(s) && s@ == v,
                None => r matches Err(e) && e matches SettingsError::SError(m) && m@
                    == corrupt_message(),
            },
        },
{
    match outcome {
        ReadOutcome::Missing => Err(SettingsError::SNotFound(None)),
        ReadOutcome::ReadFailed(err) => Err(
            SettingsError::SError(message_with("Failed to read settings file: ", err.as_str())),
        ),
        ReadOutcome::Content(text) => match parse_settings(text.as_str()) {
            Some(s) => Ok(s),
            None => Err(
                SettingsError::SError(
                    "Error reading settings file: the file does not hold a settings value".to_owned(),
                ),
            ),
        },
    }
}

/// Classifies what came back from persisting the settings file.  A failure
/// keeps the caller's settings usable: both failure cases are warnings that
/// carry the unmodified input.
pub fn write_settings(settings: Settings, outcome: WriteOutcome) -> (r: Result<
    Settings,
    SettingsError,
>)
    ensures
        match outcome {
            WriteOutcome::DirCreateFailed { dir, err } => r matches Err(e) && e matches
                SettingsError::SWarning(s, m) && s == settings && m@ == dir_create_failed_message(
                dir@,
                err@,
            ),
            WriteOutcome::WriteFailed(err) => r matches Err(e) && e matches SettingsError::SWarning(
                s,
                m,
            ) && s == settings && m@ == write_failed_message(err@),
            WriteOutcome::Written => r matches Ok(s) && s == settings,
        },
{
    match outcome {
        WriteOutcome::DirCreateFailed { dir, err } => {
            let mut m = message_with("Error creating settings directory ", dir.as_str());
            m.append(": ");
            m.append(err.as_str());
            proof {
                assert(m@ =~= dir_create_failed_message(dir@, err@));
            }
            Err(SettingsError::SWarning(settings, m))
        },
        WriteOutcome::WriteFailed(err) => Err(
            SettingsError::SWarning(
                settings,
                message_with("Failed to write settings file: ", err.as_str()),
            ),
        ),
        WriteOutcome::Written => Ok(settings),
    }
}

} // verus!

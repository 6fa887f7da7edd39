use vstd::prelude::*;
use vstd::string::StringExecFns;

use crate::errors::SettingsError;
use crate::model::{spec_join, join_path, BackupFilePattern, Settings, SpecPattern, SpecSettings};

verus! {

/// Relies on dirs::data_local_dir: the platform's local application data
/// directory, if the platform can supply one.  The answer depends on the
/// environment, so nothing is promised of it.
#[verifier::external_body]
fn data_local_dir_string() -> (r: Option<String>) {
    dirs::data_local_dir().map(|p| p.to_string_lossy().into_owned())
}

/// Relies on dirs::document_dir: the user's documents directory, if the
/// platform can supply one.  The answer depends on the environment, so
/// nothing is promised of it.
#[verifier::external_body]
fn document_dir_string() -> (r: Option<String>) {
    dirs::document_dir().map(|p| p.to_string_lossy().into_owned())
}

/// The platform-appropriate default configuration, as a function of the two
/// environment directory lookups alone.  Without a local-data directory the
/// pattern list is empty and the destination is the unset sentinel; otherwise
/// three fixed patterns point at the game's worlds and character data, and
/// the destination is the documents directory with the application's own
/// folder appended, or the unset sentinel when the documents lookup fails.
pub open spec fn spec_default_settings(
    local_data_dir: Option<Seq<char>>,
    document_dir: Option<Seq<char>>,
) -> SpecSettings {
    match local_data_dir {
        None => SpecSettings {
            settings_version: "1"@,
            backup_patterns: Seq::empty(),
            backup_dest_path: Seq::empty(),
            backup_count: 5,
            backup_delay_sec: 10,
        },
        Some(local) => {
            let valheim = spec_join(spec_join(local + "Low"@, "IronGate"@), "Valheim"@);
            let worlds = spec_join(valheim, "worlds"@);
            let characters = spec_join(valheim, "characters"@);
            let dest = match document_dir {
                None => Seq::<char>::empty(),
                Some(d) => spec_join(d, "Valbak"@),
            };
            SpecSettings {
                settings_version: "1"@,
                backup_patterns: seq![
                    SpecPattern { source_dir: worlds, filename_pattern: "*.db"@ },
                    SpecPattern { source_dir: worlds, filename_pattern: "*.fwl"@ },
                    SpecPattern { source_dir: characters, filename_pattern: "*.fch"@ },
                ],
                backup_dest_path: dest,
                backup_count: 5,
                backup_delay_sec: 10,
            }
        },
    }
}

pub open spec fn opt_view(o: Option<String>) -> Option<Seq<char>> {
    match o {
        None => None,
        Some(s) => Some(s@),
    }
}

/// Builds the default configuration from the given directory lookups.
pub fn default_settings_from(local_data_dir: Option<String>, document_dir: Option<String>) -> (r:
    Settings)
    ensures
        r@ == spec_default_settings(opt_view(local_data_dir), opt_view(document_dir)),
{
    let ghost ld = opt_view(local_data_dir);
    let ghost dd = opt_view(document_dir);
    match local_data_dir {
        None => {
            let r = Settings {
                settings_version: "1".to_owned(),
                backup_patterns: Vec::new(),
                backup_dest_path: String::new(),
                backup_count: 5,
                backup_delay_sec: 10,
            };
            proof {
                assert(r@ =~~= spec_default_settings(ld, dd));
            }
            r
        },
        Some(local) => {
            let ghost local_v = local@;
            let mut local_low = local;
            local_low.append("Low");
            let valheim = join_path(join_path(local_low.as_str(), "IronGate").as_str(), "Valheim");
            let worlds = join_path(valheim.as_str(), "worlds");
            let characters = join_path(valheim.as_str(), "characters");
            let dest = match document_dir {
                None => String::new(),
                Some(d) => join_path(d.as_str(), "Valbak"),
            };
            let mut patterns: Vec<BackupFilePattern> = Vec::new();
            patterns.push(
                BackupFilePattern {
                    source_dir: worlds.clone(),
                    filename_pattern: "*.db".to_owned(),
                },
            );
            patterns.push(
                BackupFilePattern {
                    source_dir: worlds,
                    filename_pattern: "*.fwl".to_owned(),
                },
            );
            patterns.push(
                BackupFilePattern {
                    source_dir: characters,
                    filename_pattern: "*.fch".to_owned(),
                },
            );
            let r = Settings {
                settings_version: "1".to_owned(),
                backup_patterns: patterns,
                backup_dest_path: dest,
                backup_count: 5,
                backup_delay_sec: 10,
            };
            proof {
                assert(local_low@ == local_v + "Low"@);
                assert(r@.backup_patterns =~= spec_default_settings(ld, dd).backup_patterns);
                assert(r@ =~~= spec_default_settings(ld, dd));
            }
            r
        },
    }
}

/// Computes the default configuration from the live environment lookups.
/// Always succeeds; the result is the default for some pair of lookups.
pub fn get_default_settings() -> (r: Result<Settings, SettingsError>)
    ensures
        r matches Ok(s) && (exists|l: Option<Seq<char>>, d: Option<Seq<char>>|
            s@ == spec_default_settings(l, d)),
{
    let local = data_local_dir_string();
    let docs = document_dir_string();
    let ghost l = opt_view(local);
    let ghost d = opt_view(docs);
    let s = default_settings_from(local, docs);
    proof {
        assert(s@ == spec_default_settings(l, d));
    }
    Ok(s)
}

/// Law: the default configuration is deterministic — it depends on the two
/// environment directory lookups alone, so identical lookups always produce
/// identical settings.
pub proof fn lemma_defaults_deterministic(
    l1: Option<Seq<char>>,
    d1: Option<Seq<char>>,
    l2: Option<Seq<char>>,
    d2: Option<Seq<char>>,
)
    requires
        l1 == l2,
        d1 == d2,
    ensures
        spec_default_settings(l1, d1) == spec_default_settings(l2, d2),
{
}

} // verus!

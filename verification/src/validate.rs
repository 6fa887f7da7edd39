use vstd::prelude::*;
use vstd::string::StringExecFns;

use crate::errors::SettingsError;
use crate::model::{Settings, SpecPattern, SpecSettings};

verus! {

/// Whether a string is a syntactically valid glob; decided by the glob crate,
/// on the characters of the string alone.
pub uninterp spec fn glob_ok(pattern: Seq<char>) -> bool;

/// Relies on glob::Pattern::new: compiling a pattern depends on its
/// characters alone, and an invalid pattern yields an error.
#[verifier::external_body]
fn glob_is_valid(pattern: &str) -> (r: bool)
    ensures
        r == glob_ok(pattern@),
{
    glob::Pattern::new(pattern).is_ok()
}

/// Answer of the interactive remediation surface when the destination
/// directory is missing: create it, or leave things as they are.
pub enum RemedyChoice {
    Accept,
    Decline,
}

/// Index of the first pattern whose source directory is missing, if any.
pub open spec fn first_missing_dir(dirs_exist: Seq<bool>) -> Option<int>
    decreases dirs_exist.len(),
{
    if dirs_exist.len() == 0 {
        None
    } else if !dirs_exist[0] {
        Some(0)
    } else {
        match first_missing_dir(dirs_exist.drop_first()) {
            Some(i) => Some(i + 1),
            None => None,
        }
    }
}

/// Index of the last pattern whose glob does not compile, if any.
pub open spec fn last_bad_glob(patterns: Seq<SpecPattern>) -> Option<int>
    decreases patterns.len(),
{
    if patterns.len() == 0 {
        None
    } else if !glob_ok(patterns.last().filename_pattern) {
        Some(patterns.len() - 1)
    } else {
        last_bad_glob(patterns.drop_last())
    }
}

pub proof fn lemma_first_missing_dir(dirs_exist: Seq<bool>)
    ensures
        match first_missing_dir(dirs_exist) {
            Some(i) => 0 <= i < dirs_exist.len() && !dirs_exist[i] && forall|j: int|
                0 <= j < i ==> dirs_exist[j],
            None => forall|j: int| 0 <= j < dirs_exist.len() ==> dirs_exist[j],
        },
    decreases dirs_exist.len(),
{
    if dirs_exist.len() > 0 && dirs_exist[0] {
        let rest = dirs_exist.drop_first();
        lemma_first_missing_dir(rest);
        assert(forall|j: int| 0 <= j < rest.len() ==> #[trigger] rest[j] == dirs_exist[j + 1]);
        match first_missing_dir(rest) {
            Some(i) => {
                assert(first_missing_dir(dirs_exist) == Some(i + 1));
                assert(!dirs_exist[i + 1]);
                assert forall|j: int| 0 <= j < i + 1 implies dirs_exist[j] by {
                    if j > 0 {
                        assert(rest[j - 1]);
                    }
                }
            },
            None => {
                assert forall|j: int| 0 <= j < dirs_exist.len() implies dirs_exist[j] by {
                    if j > 0 {
                        assert(rest[j - 1]);
                    }
                }
            },
        }
    }
}

pub proof fn lemma_last_bad_glob(patterns: Seq<SpecPattern>)
    ensures
        match last_bad_glob(patterns) {
            Some(i) => 0 <= i < patterns.len() && !glob_ok(patterns[i].filename_pattern)
                && forall|j: int|
                i < j < patterns.len() ==> glob_ok(#[trigger] patterns[j].filename_pattern),
            None => forall|j: int|
                0 <= j < patterns.len() ==> glob_ok(#[trigger] patterns[j].filename_pattern),
        },
    decreases patterns.len(),
{
    if patterns.len() > 0 && glob_ok(patterns.last().filename_pattern) {
        let front = patterns.drop_last();
        lemma_last_bad_glob(front);
        assert(forall|j: int| 0 <= j < front.len() ==> #[trigger] front[j] == patterns[j]);
        match last_bad_glob(front) {
            Some(i) => {
                assert(last_bad_glob(patterns) == Some(i));
                assert(!glob_ok(patterns[i].filename_pattern));
                assert forall|j: int| i < j < patterns.len() implies glob_ok(
                    #[trigger] patterns[j].filename_pattern,
                ) by {
                    if j < patterns.len() - 1 {
                        assert(glob_ok(front[j].filename_pattern));
                    }
                }
            },
            None => {
                assert forall|j: int| 0 <= j < patterns.len() implies glob_ok(
                    #[trigger] patterns[j].filename_pattern,
                ) by {
                    if j < patterns.len() - 1 {
                        assert(glob_ok(front[j].filename_pattern));
                    }
                }
            },
        }
    }
}

pub open spec fn dir_missing_message(dir: Seq<char>) -> Seq<char> {
    "Backup folder does not exist: "@ + dir
}

pub open spec fn bad_glob_message(pattern: Seq<char>) -> Seq<char> {
    "Invalid file pattern: "@ + pattern
}

pub open spec fn missing_dest_message() -> Seq<char> {
    "Missing destination folder"@
}

pub open spec fn spec_remediation_prompt(dest: Seq<char>) -> Seq<char> {
    "Destination folder does not exist: "@ + dest + "\nCreate it?"@
}

/// The message validation fails with, or `None` when the configuration is
/// confirmed good.  `dirs_exist[i]` reports whether pattern `i`'s source
/// directory exists, `dest_exists` whether the destination directory does,
/// and `choice` what the remediation surface answered (consulted only when a
/// non-empty destination is missing).  An empty message is the silent
/// rejection of a declined remediation.  Directory creation failure after an
/// accepted remediation deliberately does not fail validation.
pub open spec fn spec_validate(
    s: SpecSettings,
    dirs_exist: Seq<bool>,
    dest_exists: bool,
    choice: RemedyChoice,
) -> Option<Seq<char>> {
    if first_missing_dir(dirs_exist) is Some {
        Some(dir_missing_message(s.backup_patterns[first_missing_dir(dirs_exist)->0].source_dir))
    } else if s.backup_patterns.len() > 0 && s.backup_dest_path.len() == 0 {
        Some(missing_dest_message())
    } else if s.backup_dest_path.len() > 0 && !dest_exists && choice is Decline {
        Some(Seq::empty())
    } else if last_bad_glob(s.backup_patterns) is Some {
        Some(bad_glob_message(s.backup_patterns[last_bad_glob(s.backup_patterns)->0].filename_pattern))
    } else {
        None
    }
}

/// Whether validation will consult the remediation surface: every earlier
/// check passes, yet a non-empty destination directory is missing.
pub open spec fn spec_needs_remediation(
    s: SpecSettings,
    dirs_exist: Seq<bool>,
    dest_exists: bool,
) -> bool {
    &&& first_missing_dir(dirs_exist) is None
    &&& !(s.backup_patterns.len() > 0 && s.backup_dest_path.len() == 0)
    &&& s.backup_dest_path.len() > 0
    &&& !dest_exists
}

pub(crate) fn message_with(prefix: &str, detail: &str) -> (r: String)
    ensures
        r@ == prefix@ + detail@,
{
    let mut r = prefix.to_owned();
    r.append(detail);
    r
}

/// Checks a configuration against the live state of the file system and the
/// answer of the remediation surface, both handed in as plain values.
/// Succeeds with the configuration unchanged, or fails with a warning that
/// carries the unmodified input and the first binding problem found.
pub fn validate_settings(
    settings: Settings,
    src_dirs_exist: &Vec<bool>,
    dest_exists: bool,
    choice: RemedyChoice,
) -> (r: Result<Settings, SettingsError>)
    requires
        src_dirs_exist@.len() == settings.backup_patterns@.len(),
    ensures
        match spec_validate(settings@, src_dirs_exist@, dest_exists, choice) {
            None => r matches Ok(s) && s == settings,
            Some(m) => r matches Err(e) && e matches SettingsError::SWarning(s, msg) && s
                == settings && msg@ == m,
        },
{
    proof {
        lemma_first_missing_dir(src_dirs_exist@);
        lemma_last_bad_glob(settings@.backup_patterns);
    }
    let n = settings.backup_patterns.len();
    let mut i: usize = 0;
    while i < n
        invariant
            n == settings.backup_patterns@.len(),
            src_dirs_exist@.len() == n,
            0 <= i <= n,
            forall|j: int| 0 <= j < i ==> src_dirs_exist@[j],
        decreases n - i,
    {
        if !src_dirs_exist[i] {
            proof {
                lemma_first_missing_dir(src_dirs_exist@);
                assert(first_missing_dir(src_dirs_exist@) == Some(i as int));
            }
            let msg = message_with(
                "Backup folder does not exist: ",
                settings.backup_patterns[i].source_dir.as_str(),
            );
            return Err(SettingsError::SWarning(settings, msg));
        }
        i += 1;
    }
    proof {
        lemma_first_missing_dir(src_dirs_exist@);
        assert(first_missing_dir(src_dirs_exist@) is None);
    }
    let mut bad: Option<usize> = None;
    let mut k: usize = 0;
    while k < n
        invariant
            n == settings.backup_patterns@.len(),
            0 <= k <= n,
            match bad {
                Some(b) => b < k && !glob_ok(settings@.backup_patterns[b as int].filename_pattern)
                    && forall|j: int|
                    b < j < k ==> glob_ok(
                        (#[trigger] settings@.backup_patterns[j]).filename_pattern,
                    ),
                None => forall|j: int|
                    0 <= j < k ==> glob_ok((#[trigger] settings@.backup_patterns[j]).filename_pattern),
            },
        decreases n - k,
    {
        if !glob_is_valid(settings.backup_patterns[k].filename_pattern.as_str()) {
            bad = Some(k);
        }
        k += 1;
    }
    proof {
        lemma_last_bad_glob(settings@.backup_patterns);
        match bad {
            Some(b) => {
                assert(last_bad_glob(settings@.backup_patterns) == Some(b as int));
            },
            None => {
                assert(last_bad_glob(settings@.backup_patterns) is None);
            },
        }
    }
    if n > 0 && settings.backup_dest_path.as_str().is_empty() {
        let msg = "Missing destination folder".to_owned();
        return Err(SettingsError::SWarning(settings, msg));
    }
    if !settings.backup_dest_path.as_str().is_empty() && !dest_exists {
        match choice {
            RemedyChoice::Decline => {
                let msg = String::new();
                proof {
                    assert(msg@ =~= Seq::<char>::empty());
                }
                return Err(SettingsError::SWarning(settings, msg));
            },
            RemedyChoice::Accept => {},
        }
    }
    match bad {
        Some(b) => {
            let msg = message_with(
                "Invalid file pattern: ",
                settings.backup_patterns[b].filename_pattern.as_str(),
            );
            Err(SettingsError::SWarning(settings, msg))
        },
        None => Ok(settings),
    }
}

/// Whether validation of this configuration would consult the remediation
/// surface, so that a caller can gather the user's answer first.
pub fn needs_remediation(settings: &Settings, src_dirs_exist: &Vec<bool>, dest_exists: bool) -> (r:
    bool)
    requires
        src_dirs_exist@.len() == settings.backup_patterns@.len(),
    ensures
        r == spec_needs_remediation(settings@, src_dirs_exist@, dest_exists),
{
    proof {
        lemma_first_missing_dir(src_dirs_exist@);
    }
    let n = settings.backup_patterns.len();
    let mut i: usize = 0;
    while i < n
        invariant
            n == settings.backup_patterns@.len(),
            src_dirs_exist@.len() == n,
            0 <= i <= n,
            forall|j: int| 0 <= j < i ==> src_dirs_exist@[j],
        decreases n - i,
    {
        if !src_dirs_exist[i] {
            proof {
                lemma_first_missing_dir(src_dirs_exist@);
            }
            return false;
        }
        i += 1;
    }
    if n > 0 && settings.backup_dest_path.as_str().is_empty() {
        return false;
    }
    !settings.backup_dest_path.as_str().is_empty() && !dest_exists
}

/// The question put to the remediation surface for a missing destination.
pub fn remediation_prompt(settings: &Settings) -> (r: String)
    ensures
        r@ == spec_remediation_prompt(settings@.backup_dest_path),
{
    let mut r = "Destination folder does not exist: ".to_owned();
    r.append(settings.backup_dest_path.as_str());
    r.append("\nCreate it?");
    proof {
        assert(r@ =~= spec_remediation_prompt(settings@.backup_dest_path));
    }
    r
}

/// Law: a missing source directory rejects the configuration, and this check
/// takes priority over every glob-syntax problem in the same pattern set.
/// The reported directory is the first missing one in declaration order.
pub proof fn lemma_missing_dir_takes_priority(
    s: SpecSettings,
    dirs_exist: Seq<bool>,
    dest_exists: bool,
    choice: RemedyChoice,
    i: int,
)
    requires
        dirs_exist.len() == s.backup_patterns.len(),
        0 <= i < dirs_exist.len(),
        !dirs_exist[i],
    ensures
        exists|i0: int|
            0 <= i0 < dirs_exist.len() && !dirs_exist[i0] && (forall|j: int|
                0 <= j < i0 ==> dirs_exist[j]) && spec_validate(s, dirs_exist, dest_exists, choice)
                == Some(dir_missing_message(s.backup_patterns[i0].source_dir)),
{
    lemma_first_missing_dir(dirs_exist);
    let i0 = first_missing_dir(dirs_exist)->0;
    assert(0 <= i0 < dirs_exist.len() && !dirs_exist[i0] && (forall|j: int|
        0 <= j < i0 ==> dirs_exist[j]) && spec_validate(s, dirs_exist, dest_exists, choice)
        == Some(dir_missing_message(s.backup_patterns[i0].source_dir)));
}

/// Law: a non-empty pattern list paired with the empty destination sentinel
/// is rejected with the missing-destination message, whatever the file
/// system or the remediation surface would have answered.
pub proof fn lemma_empty_dest_rejected(
    s: SpecSettings,
    dirs_exist: Seq<bool>,
    dest_exists: bool,
    choice: RemedyChoice,
)
    requires
        dirs_exist.len() == s.backup_patterns.len(),
        forall|j: int| 0 <= j < dirs_exist.len() ==> dirs_exist[j],
        s.backup_patterns.len() > 0,
        s.backup_dest_path.len() == 0,
    ensures
        spec_validate(s, dirs_exist, dest_exists, choice) == Some(missing_dest_message()),
{
    lemma_first_missing_dir(dirs_exist);
}

/// Law: a glob-syntax failure is deferred past the destination checks.  With
/// every source directory present, a non-empty destination that exists (or a
/// missing one whose remediation the user accepts), and some pattern whose
/// glob does not compile, validation fails with the invalid-pattern message
/// of the last such pattern.
pub proof fn lemma_bad_glob_deferred(
    s: SpecSettings,
    dirs_exist: Seq<bool>,
    dest_exists: bool,
    choice: RemedyChoice,
    j: int,
)
    requires
        dirs_exist.len() == s.backup_patterns.len(),
        forall|k: int| 0 <= k < dirs_exist.len() ==> dirs_exist[k],
        s.backup_dest_path.len() > 0,
        dest_exists || choice is Accept,
        0 <= j < s.backup_patterns.len(),
        !glob_ok(s.backup_patterns[j].filename_pattern),
    ensures
        exists|j0: int|
            0 <= j0 < s.backup_patterns.len() && !glob_ok(s.backup_patterns[j0].filename_pattern)
                && (forall|k: int|
                j0 < k < s.backup_patterns.len() ==> glob_ok(
                    #[trigger] s.backup_patterns[k].filename_pattern,
                )) && spec_validate(s, dirs_exist, dest_exists, choice) == Some(
                bad_glob_message(s.backup_patterns[j0].filename_pattern),
            ),
{
    lemma_first_missing_dir(dirs_exist);
    lemma_last_bad_glob(s.backup_patterns);
    let j0 = last_bad_glob(s.backup_patterns)->0;
    assert(0 <= j0 < s.backup_patterns.len() && !glob_ok(s.backup_patterns[j0].filename_pattern)
        && (forall|k: int|
        j0 < k < s.backup_patterns.len() ==> glob_ok(
            #[trigger] s.backup_patterns[k].filename_pattern,
        )) && spec_validate(s, dirs_exist, dest_exists, choice) == Some(
        bad_glob_message(s.backup_patterns[j0].filename_pattern),
    ));
}

/// Law: an empty pattern list is accepted whatever the destination path,
/// except that a declined remediation of a missing non-empty destination
/// still rejects silently.
pub proof fn lemma_empty_patterns_accepted(
    s: SpecSettings,
    dirs_exist: Seq<bool>,
    dest_exists: bool,
    choice: RemedyChoice,
)
    requires
        dirs_exist.len() == s.backup_patterns.len(),
        s.backup_patterns.len() == 0,
        s.backup_dest_path.len() == 0 || dest_exists || choice is Accept,
    ensures
        spec_validate(s, dirs_exist, dest_exists, choice) is None,
{
    lemma_first_missing_dir(dirs_exist);
    lemma_last_bad_glob(s.backup_patterns);
}

} // verus!

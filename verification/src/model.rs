use vstd::prelude::*;
use vstd::string::StrSliceExecFns;
use vstd::string::StringExecFns;

verus! {

/// Version tag written into every persisted configuration.
pub const SETTINGS_VERSION: &'static str = "1";

/// One source rule: a directory to watch and a glob over file names in it.
#[derive(Debug, Clone)]
pub struct BackupFilePattern {
    pub source_dir: String,
    pub filename_pattern: String,
}

/// Mathematical image of a `BackupFilePattern`.
#[verifier::ext_equal]
pub ghost struct SpecPattern {
    pub source_dir: Seq<char>,
    pub filename_pattern: Seq<char>,
}

impl View for BackupFilePattern {
    type V = SpecPattern;

    open spec fn view(&self) -> SpecPattern {
        SpecPattern { source_dir: self.source_dir@, filename_pattern: self.filename_pattern@ }
    }
}

/// The full configuration.
#[derive(Debug, Clone)]
pub struct Settings {
    pub settings_version: String,
    pub backup_patterns: Vec<BackupFilePattern>,
    pub backup_dest_path: String,
    pub backup_count: u8,
    pub backup_delay_sec: u8,
}

/// Mathematical image of a `Settings`.
#[verifier::ext_equal]
pub ghost struct SpecSettings {
    pub settings_version: Seq<char>,
    pub backup_patterns: Seq<SpecPattern>,
    pub backup_dest_path: Seq<char>,
    pub backup_count: u8,
    pub backup_delay_sec: u8,
}

/// The mathematical image of a pattern list.
pub open spec fn patterns_view(v: Seq<BackupFilePattern>) -> Seq<SpecPattern> {
    Seq::new(v.len(), |i: int| v[i]@)
}

impl View for Settings {
    type V = SpecSettings;

    open spec fn view(&self) -> SpecSettings {
        SpecSettings {
            settings_version: self.settings_version@,
            backup_patterns: patterns_view(self.backup_patterns@),
            backup_dest_path: self.backup_dest_path@,
            backup_count: self.backup_count,
            backup_delay_sec: self.backup_delay_sec,
        }
    }
}

/// Joining a path and a relative component inserts a separator unless the base
/// is empty or already ends with one; an absolute component replaces the base.
pub open spec fn spec_join(a: Seq<char>, b: Seq<char>) -> Seq<char> {
    if b.len() > 0 && b[0] == '/' {
        b
    } else if a.len() == 0 {
        b
    } else if a[a.len() - 1] == '/' {
        a + b
    } else {
        a + seq!['/'] + b
    }
}

/// Path join on native path strings.
pub fn join_path(a: &str, b: &str) -> (r: String)
    ensures
        r@ == spec_join(a@, b@),
{
    proof {
        reveal_strlit("/");
    }
    if !b.is_empty() && b.get_char(0) == '/' {
        return b.to_owned();
    }
    if a.is_empty() {
        return b.to_owned();
    }
    let n = a.unicode_len();
    let mut r = a.to_owned();
    if a.get_char(n - 1) != '/' {
        r.append("/");
        proof {
            assert(r@ =~= a@ + seq!['/']);
        }
    }
    r.append(b);
    proof {
        if a@[a@.len() - 1] != '/' {
            assert(r@ =~= a@ + seq!['/'] + b@);
        }
    }
    r
}

impl BackupFilePattern {
    /// The joined path, used for display and diagnostics only.
    pub fn to_path(&self) -> (r: String)
        ensures
            r@ == spec_join(self.source_dir@, self.filename_pattern@),
    {
        join_path(self.source_dir.as_str(), self.filename_pattern.as_str())
    }

    /// Structural equality of two source rules.
    pub fn eq_value(&self, other: &BackupFilePattern) -> (r: bool)
        ensures
            r == (self@ == other@),
    {
        let r = self.source_dir == other.source_dir && self.filename_pattern
            == other.filename_pattern;
        proof {
            if r {
                assert(self@ =~= other@);
            }
        }
        r
    }
}

impl Settings {
    /// Structural equality of two configurations.
    pub fn eq_value(&self, other: &Settings) -> (r: bool)
        ensures
            r == (self@ == other@),
    {
        if self.settings_version != other.settings_version {
            proof {
                assert(self@ != other@);
            }
            return false;
        }
        if self.backup_dest_path != other.backup_dest_path {
            proof {
                assert(self@ != other@);
            }
            return false;
        }
        if self.backup_count != other.backup_count || self.backup_delay_sec
            != other.backup_delay_sec {
            return false;
        }
        if self.backup_patterns.len() != other.backup_patterns.len() {
            proof {
                assert(self@.backup_patterns.len() != other@.backup_patterns.len());
            }
            return false;
        }
        let n = self.backup_patterns.len();
        let mut i: usize = 0;
        while i < n
            invariant
                n == self.backup_patterns@.len(),
                n == other.backup_patterns@.len(),
                0 <= i <= n,
                forall|j: int|
                    0 <= j < i ==> #[trigger] self@.backup_patterns[j] == other@.backup_patterns[j],
            decreases n - i,
        {
            if !self.backup_patterns[i].eq_value(&other.backup_patterns[i]) {
                assert(self@.backup_patterns[i as int] != other@.backup_patterns[i as int]);
                return false;
            }
            i += 1;
        }
        proof {
            assert(self@.backup_patterns =~= other@.backup_patterns);
            assert(self@ =~= other@);
        }
        true
    }
}

} // verus!

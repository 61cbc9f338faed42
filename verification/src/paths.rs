//! Where the application keeps its files: a configuration directory and a
//! data directory, with the logs, settings, history and secrets under them.

use vstd::prelude::*;
use crate::text::ends_with;

verus! {

broadcast use vstd::string::group_string_axioms;

/// `part` names one entry inside a directory: it is not empty, is not `.` or
/// `..`, and holds no separator or drive mark.
pub open spec fn plain_name(part: Seq<char>) -> bool {
    &&& part.len() > 0
    &&& part != "."@
    &&& part != ".."@
    &&& forall|i: int| 0 <= i < part.len() ==> #[trigger] part[i] != '/' && part[i] != '\\' && part[i] != ':'
}

/// Whether `base` may begin with a Windows verbatim prefix (`\\?\`): two
/// separators and a question mark.
pub open spec fn may_be_verbatim(base: Seq<char>) -> bool {
    base.len() >= 3 && (base[0] == '/' || base[0] == '\\') && (base[1] == '/' || base[1] == '\\') && base[2] == '?'
}

/// `r` is `base` followed by `part`, with at most one separator (a slash or a
/// backslash) between them.
pub open spec fn joined(base: Seq<char>, part: Seq<char>, r: Seq<char>) -> bool {
    ||| r == base + part
    ||| r == base + seq!['/'] + part
    ||| r == base + seq!['\\'] + part
}

/// `std::path::Path::join` of a plain name onto `base`, as text. The result
/// ends with `part`. Where `base` cannot carry a verbatim prefix, `part` is a
/// relative name and is added after at most one separator, so the result is
/// `base`, perhaps a separator, and `part`; which separator (and whether one
/// is needed) is the platform's and is not stated. Onto a verbatim base, std
/// normalises the joined path (removing `.` and `..`), so how the base is
/// written back is not stated.
#[verifier::external_body]
fn join_path(base: &str, part: &str) -> (r: String)
    requires
        plain_name(part@),
    ensures
        ends_with(r@, part@),
        !may_be_verbatim(base@) ==> joined(base@, part@, r@),
{
    std::path::Path::new(base).join(part).to_string_lossy().into_owned()
}

/// The application's configuration and data directories.
#[derive(Debug, Clone)]
pub struct Paths {
    config_dir: String,
    data_dir: String,
}

impl Paths {
    pub closed spec fn spec_config_dir(&self) -> Seq<char> {
        self.config_dir@
    }

    pub closed spec fn spec_data_dir(&self) -> Seq<char> {
        self.data_dir@
    }

    /// The directories the platform's conventions give (found by the caller).
    pub fn from_dirs(config_dir: String, data_dir: String) -> (r: Self)
        ensures
            r.spec_config_dir() == config_dir@,
            r.spec_data_dir() == data_dir@,
    {
        Paths { config_dir, data_dir }
    }

    /// Both directories under one root: `root/config` and `root/data`.
    pub fn rooted_at(root: &str) -> (r: Self)
        ensures
            ends_with(r.spec_config_dir(), "config"@) && ends_with(r.spec_data_dir(), "data"@),
            !may_be_verbatim(root@) ==> joined(root@, "config"@, r.spec_config_dir()) && joined(
                root@,
                "data"@,
                r.spec_data_dir(),
            ),
    {
        proof {
            reveal_strlit(".");
            reveal_strlit("..");
            reveal_strlit("config");
            reveal_strlit("data");
        }
        Paths { config_dir: join_path(root, "config"), data_dir: join_path(root, "data") }
    }

    /// The configuration directory.
    pub fn config_dir(&self) -> (r: &str)
        ensures
            r@ == self.spec_config_dir(),
    {
        self.config_dir.as_str()
    }

    /// The data directory.
    pub fn data_dir(&self) -> (r: &str)
        ensures
            r@ == self.spec_data_dir(),
    {
        self.data_dir.as_str()
    }

    /// The log directory: `logs` in the data directory.
    pub fn logs_dir(&self) -> (r: String)
        ensures
            ends_with(r@, "logs"@),
            !may_be_verbatim(self.spec_data_dir()) ==> joined(self.spec_data_dir(), "logs"@, r@),
    {
        proof {
            reveal_strlit(".");
            reveal_strlit("..");
            reveal_strlit("logs");
        }
        join_path(self.data_dir.as_str(), "logs")
    }

    /// The settings file: `settings.json` in the configuration directory.
    pub fn settings_file(&self) -> (r: String)
        ensures
            ends_with(r@, "settings.json"@),
            !may_be_verbatim(self.spec_config_dir()) ==> joined(self.spec_config_dir(), "settings.json"@, r@),
    {
        proof {
            reveal_strlit(".");
            reveal_strlit("..");
            reveal_strlit("settings.json");
        }
        join_path(self.config_dir.as_str(), "settings.json")
    }

    /// The history database: `history.db` in the data directory.
    pub fn history_db(&self) -> (r: String)
        ensures
            ends_with(r@, "history.db"@),
            !may_be_verbatim(self.spec_data_dir()) ==> joined(self.spec_data_dir(), "history.db"@, r@),
    {
        proof {
            reveal_strlit(".");
            reveal_strlit("..");
            reveal_strlit("history.db");
        }
        join_path(self.data_dir.as_str(), "history.db")
    }

    /// The key of the fallback secret store: `secrets.key` in the data directory.
    pub fn fallback_key_file(&self) -> (r: String)
        ensures
            ends_with(r@, "secrets.key"@),
            !may_be_verbatim(self.spec_data_dir()) ==> joined(self.spec_data_dir(), "secrets.key"@, r@),
    {
        proof {
            reveal_strlit(".");
            reveal_strlit("..");
            reveal_strlit("secrets.key");
        }
        join_path(self.data_dir.as_str(), "secrets.key")
    }

    /// The fallback secret store: `secrets.enc` in the data directory.
    pub fn fallback_secrets_file(&self) -> (r: String)
        ensures
            ends_with(r@, "secrets.enc"@),
            !may_be_verbatim(self.spec_data_dir()) ==> joined(self.spec_data_dir(), "secrets.enc"@, r@),
    {
        proof {
            reveal_strlit(".");
            reveal_strlit("..");
            reveal_strlit("secrets.enc");
        }
        join_path(self.data_dir.as_str(), "secrets.enc")
    }
}

/// Two texts that end in different characters are different.
proof fn lemma_different_endings(a: Seq<char>, b: Seq<char>, x: Seq<char>, y: Seq<char>)
    requires
        ends_with(a, x),
        ends_with(b, y),
        x.len() > 0,
        y.len() > 0,
        x.last() != y.last(),
    ensures
        a != b,
{
    assert(a.last() == a.skip(a.len() - x.len()).last());
    assert(b.last() == b.skip(b.len() - y.len()).last());
}

/// The files of the application never coincide: settings, history and the
/// two secret files have different names, and the log directory is not the
/// data directory.
pub proof fn lemma_file_paths_are_distinct(settings: Seq<char>, history: Seq<char>, key: Seq<char>, secrets: Seq<char>)
    requires
        ends_with(settings, "settings.json"@),
        ends_with(history, "history.db"@),
        ends_with(key, "secrets.key"@),
        ends_with(secrets, "secrets.enc"@),
    ensures
        settings != history,
        settings != key,
        settings != secrets,
        history != key,
        history != secrets,
        key != secrets,
{
    reveal_strlit("settings.json");
    reveal_strlit("history.db");
    reveal_strlit("secrets.key");
    reveal_strlit("secrets.enc");
    lemma_different_endings(history, settings, "history.db"@, "settings.json"@);
    lemma_different_endings(key, settings, "secrets.key"@, "settings.json"@);
    lemma_different_endings(secrets, settings, "secrets.enc"@, "settings.json"@);
    lemma_different_endings(history, key, "history.db"@, "secrets.key"@);
    lemma_different_endings(history, secrets, "history.db"@, "secrets.enc"@);
    lemma_different_endings(key, secrets, "secrets.key"@, "secrets.enc"@);
}

} // verus!

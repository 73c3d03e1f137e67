//! The user's configuration: the Enable Banking applications and the bank
//! aliases, and where files are kept.

use vstd::prelude::*;
use crate::text::{concat2, join_spec, join_texts, lemma_index_of_first_at, lemma_index_of_first_none, str_eq};

verus! {

/// A bank alias: the ASPSP name and its country code.
pub struct BankConfig {
    pub name: String,
    pub country: String,
}

/// The credentials of one Enable Banking application.
pub struct ApplicationConfig {
    pub id: String,
    pub key_file: String,
}

/// The configuration file's content. Applications and banks are kept under
/// their keys, in the order of the file; as in the file's tables, no two of
/// them share a key (`keys_unique`, which `has_unique_keys` tests).
pub struct Config {
    pub db_path: Option<String>,
    pub application: Vec<(String, ApplicationConfig)>,
    pub bank: Vec<(String, BankConfig)>,
    pub api_base_url: String,
    pub redirect_url: Option<String>,
}

/// Why the configuration cannot serve a request.
#[derive(Debug)]
pub enum ConfigError {
    /// The file names no application.
    NoApplications,
    /// `--app` names no configured application.
    ApplicationNotFound { name: String, available: String },
    /// No `--app` was given and there is not exactly one application.
    MultipleApplications,
    /// `--bank` names no configured bank.
    BankNotFound { name: String, available: String },
    /// No `--bank` was given and no bank is configured.
    NoBanks,
    /// No `--bank` was given and several banks are configured.
    MultipleBanks,
}

/// The text of an error, as characters.
pub open spec fn config_error_message(e: ConfigError) -> Seq<char> {
    match e {
        ConfigError::NoApplications =>
            "no applications configured \u{2013} add at least one [application.<name>] section to your config"@,
        ConfigError::ApplicationNotFound { name, available } =>
            "application \""@ + name@ + "\" not found in config \u{2013} available: "@ + available@,
        ConfigError::MultipleApplications =>
            "multiple applications configured \u{2013} use --app <name> to select one"@,
        ConfigError::BankNotFound { name, available } =>
            "bank \""@ + name@ + "\" not found in config \u{2013} available: "@ + available@,
        ConfigError::NoBanks => "no banks configured \u{2013} add at least one [bank.<name>] section to your config"@,
        ConfigError::MultipleBanks => "multiple banks configured \u{2013} use --bank <name> to select one"@,
    }
}

impl ConfigError {
    /// The error's text.
    pub fn message(&self) -> (res: String)
        ensures
            res@ == config_error_message(*self),
    {
        match self {
            ConfigError::NoApplications => {
                "no applications configured \u{2013} add at least one [application.<name>] section to your config".to_owned()
            },
            ConfigError::ApplicationNotFound { name, available } => {
                let a = concat2("application \"", name.as_str());
                let b = concat2(a.as_str(), "\" not found in config \u{2013} available: ");
                concat2(b.as_str(), available.as_str())
            },
            ConfigError::MultipleApplications => {
                "multiple applications configured \u{2013} use --app <name> to select one".to_owned()
            },
            ConfigError::BankNotFound { name, available } => {
                let a = concat2("bank \"", name.as_str());
                let b = concat2(a.as_str(), "\" not found in config \u{2013} available: ");
                concat2(b.as_str(), available.as_str())
            },
            ConfigError::NoBanks => {
                "no banks configured \u{2013} add at least one [bank.<name>] section to your config".to_owned()
            },
            ConfigError::MultipleBanks => "multiple banks configured \u{2013} use --bank <name> to select one".to_owned(),
        }
    }
}

/// The keys of the configured applications, in order.
pub open spec fn app_keys(c: Config) -> Seq<Seq<char>> {
    c.application@.map_values(|e: (String, ApplicationConfig)| e.0@)
}

/// The keys of the configured banks, in order.
pub open spec fn bank_keys(c: Config) -> Seq<Seq<char>> {
    c.bank@.map_values(|e: (String, BankConfig)| e.0@)
}

/// What `resolve_app` selects: the application under the key `name` (the
/// first one), or the only application when no key is given.
pub open spec fn resolved_app_index(c: Config, name: Option<Seq<char>>) -> Option<int> {
    match name {
        Some(n) => app_keys(c).index_of_first(n),
        None => if c.application@.len() == 1 {
            Some(0)
        } else {
            None
        },
    }
}

/// What `resolve_bank` selects: the bank under the key `name` (the first
/// one), or the only bank when no key is given.
pub open spec fn resolved_bank_index(c: Config, name: Option<Seq<char>>) -> Option<int> {
    match name {
        Some(n) => bank_keys(c).index_of_first(n),
        None => if c.bank@.len() == 1 {
            Some(0)
        } else {
            None
        },
    }
}

/// The view of an optional text.
pub open spec fn opt_text(o: Option<&str>) -> Option<Seq<char>> {
    match o {
        Some(s) => Some(s@),
        None => None,
    }
}

/// The keys of `entries` joined by `, `.
fn app_key_list(entries: &Vec<(String, ApplicationConfig)>) -> (res: String)
    ensures
        res@ == join_spec(entries@.map_values(|e: (String, ApplicationConfig)| e.0@), ", "@),
{
    let n = entries.len();
    let mut keys: Vec<&str> = Vec::new();
    let mut i: usize = 0;
    while i < n
        invariant
            n == entries@.len(),
            i <= n,
            keys@.len() == i,
            forall|j: int| 0 <= j < i ==> (#[trigger] keys@[j])@ == entries@[j].0@,
        decreases n - i,
    {
        keys.push(entries[i].0.as_str());
        i = i + 1;
    }
    let res = join_texts(&keys, ", ");
    assert(keys@.map_values(|k: &str| k@) =~= entries@.map_values(|e: (String, ApplicationConfig)| e.0@));
    res
}

fn bank_key_list(entries: &Vec<(String, BankConfig)>) -> (res: String)
    ensures
        res@ == join_spec(entries@.map_values(|e: (String, BankConfig)| e.0@), ", "@),
{
    let n = entries.len();
    let mut keys: Vec<&str> = Vec::new();
    let mut i: usize = 0;
    while i < n
        invariant
            n == entries@.len(),
            i <= n,
            keys@.len() == i,
            forall|j: int| 0 <= j < i ==> (#[trigger] keys@[j])@ == entries@[j].0@,
        decreases n - i,
    {
        keys.push(entries[i].0.as_str());
        i = i + 1;
    }
    let res = join_texts(&keys, ", ");
    assert(keys@.map_values(|k: &str| k@) =~= entries@.map_values(|e: (String, BankConfig)| e.0@));
    res
}

/// No two applications and no two banks share a key, as the tables of the
/// configuration file guarantee.
pub open spec fn keys_unique(c: Config) -> bool {
    app_keys(c).no_duplicates() && bank_keys(c).no_duplicates()
}

/// The keys of `entries`, in order.
pub open spec fn entry_keys<T>(entries: Seq<(String, T)>) -> Seq<Seq<char>> {
    entries.map_values(|e: (String, T)| e.0@)
}

/// Whether no two of `entries` share a key.
fn keys_distinct<T>(entries: &Vec<(String, T)>) -> (res: bool)
    ensures
        res == entry_keys(entries@).no_duplicates(),
{
    let n = entries.len();
    let ghost keys = entry_keys(entries@);
    let mut i: usize = 0;
    while i < n
        invariant
            n == entries@.len(),
            keys == entry_keys(entries@),
            i <= n,
            forall|a: int, b: int| 0 <= a < i && 0 <= b < n && a != b ==> keys[a] != keys[b],
        decreases n - i,
    {
        let mut j: usize = 0;
        while j < n
            invariant
                n == entries@.len(),
                keys == entry_keys(entries@),
                i < n,
                j <= n,
                forall|b: int| 0 <= b < j && b != i ==> keys[i as int] != keys[b],
            decreases n - j,
        {
            if j != i && str_eq(entries[i].0.as_str(), entries[j].0.as_str()) {
                assert(keys[i as int] == keys[j as int]);
                return false;
            }
            j = j + 1;
        }
        proof {
            assert forall|a: int, b: int| 0 <= a < i + 1 && 0 <= b < n && a != b implies keys[a] != keys[b] by {
                if a == i {
                } else if b == i {
                    assert(keys[b] != keys[a]);
                }
            }
        }
        i = i + 1;
    }
    true
}

/// With keys that no two entries share, a key resolves to the application
/// that carries it.
pub proof fn lemma_unique_app_key_resolves(c: Config, i: int)
    requires
        keys_unique(c),
        0 <= i < c.application@.len(),
    ensures
        resolved_app_index(c, Some(app_keys(c)[i])) == Some(i),
{
    let keys = app_keys(c);
    assert forall|j: int| 0 <= j < i implies keys[j] != keys[i] by {}
    lemma_index_of_first_at(keys, i, keys[i]);
}

/// With keys that no two entries share, a key resolves to the bank that
/// carries it.
pub proof fn lemma_unique_bank_key_resolves(c: Config, i: int)
    requires
        keys_unique(c),
        0 <= i < c.bank@.len(),
    ensures
        resolved_bank_index(c, Some(bank_keys(c)[i])) == Some(i),
{
    let keys = bank_keys(c);
    assert forall|j: int| 0 <= j < i implies keys[j] != keys[i] by {}
    lemma_index_of_first_at(keys, i, keys[i]);
}

impl Config {
    /// Accepts a loaded configuration only if it names an application.
    pub fn validate(&self) -> (res: Result<(), ConfigError>)
        ensures
            res is Err <==> self.application@.len() == 0,
            res matches Err(e) ==> e is NoApplications,
    {
        if self.application.len() == 0 {
            Err(ConfigError::NoApplications)
        } else {
            Ok(())
        }
    }

    /// Whether no two applications and no two banks share a key.
    pub fn has_unique_keys(&self) -> (res: bool)
        ensures
            res == keys_unique(*self),
    {
        let a = keys_distinct(&self.application);
        let b = keys_distinct(&self.bank);
        assert(entry_keys(self.application@) == app_keys(*self));
        assert(entry_keys(self.bank@) == bank_keys(*self));
        a && b
    }

    /// The application to use: the one under the key `name`, or, without a
    /// key, the only one.
    pub fn resolve_app(&self, name: Option<&str>) -> (res: Result<(&String, &ApplicationConfig), ConfigError>)
        ensures
            match resolved_app_index(*self, opt_text(name)) {
                Some(i) => res matches Ok(r) && r.0 == self.application@[i].0 && r.1 == self.application@[i].1,
                None => match name {
                    Some(n) => res matches Err(ConfigError::ApplicationNotFound { name: m, available: a })
                        && m@ == n@ && a@ == join_spec(app_keys(*self), ", "@),
                    None => res matches Err(e) && e is MultipleApplications,
                },
            },
    {
        match name {
            Some(n) => {
                let len = self.application.len();
                let mut i: usize = 0;
                while i < len
                    invariant
                        len == self.application@.len(),
                        i <= len,
                        name == Some(n),
                        forall|j: int| 0 <= j < i ==> app_keys(*self)[j] != n@,
                    decreases len - i,
                {
                    if crate::text::str_eq(self.application[i].0.as_str(), n) {
                        proof {
                            assert(app_keys(*self)[i as int] == n@);
                            lemma_index_of_first_at(app_keys(*self), i as int, n@);
                        }
                        return Ok((&self.application[i].0, &self.application[i].1));
                    }
                    assert(app_keys(*self)[i as int] != n@);
                    i = i + 1;
                }
                proof {
                    lemma_index_of_first_none(app_keys(*self), n@);
                }
                Err(ConfigError::ApplicationNotFound {
                    name: n.to_owned(),
                    available: app_key_list(&self.application),
                })
            },
            None => {
                if self.application.len() == 1 {
                    Ok((&self.application[0].0, &self.application[0].1))
                } else {
                    Err(ConfigError::MultipleApplications)
                }
            },
        }
    }

    /// The first application whose id is `id`.
    pub fn find_app_by_id(&self, id: &str) -> (res: Option<(&String, &ApplicationConfig)>)
        ensures
            match res {
                Some(r) => exists|i: int|
                    0 <= i < self.application@.len() && self.application@[i].1.id@ == id@ && (forall|j: int|
                        0 <= j < i ==> self.application@[j].1.id@ != id@) && r.0 == self.application@[i].0 && r.1
                        == self.application@[i].1,
                None => forall|i: int| 0 <= i < self.application@.len() ==> self.application@[i].1.id@ != id@,
            },
    {
        let len = self.application.len();
        let mut i: usize = 0;
        while i < len
            invariant
                len == self.application@.len(),
                i <= len,
                forall|j: int| 0 <= j < i ==> self.application@[j].1.id@ != id@,
            decreases len - i,
        {
            if crate::text::str_eq(self.application[i].1.id.as_str(), id) {
                return Some((&self.application[i].0, &self.application[i].1));
            }
            i = i + 1;
        }
        None
    }

    /// The bank to use: the one under the key `name`, or, without a key, the
    /// only one.
    pub fn resolve_bank(&self, name: Option<&str>) -> (res: Result<(&String, &BankConfig), ConfigError>)
        ensures
            match resolved_bank_index(*self, opt_text(name)) {
                Some(i) => res matches Ok(r) && r.0 == self.bank@[i].0 && r.1 == self.bank@[i].1,
                None => match name {
                    Some(n) => res matches Err(ConfigError::BankNotFound { name: m, available: a }) && m@ == n@
                        && a@ == join_spec(bank_keys(*self), ", "@),
                    None => if self.bank@.len() == 0 {
                        res matches Err(e) && e is NoBanks
                    } else {
                        res matches Err(e) && e is MultipleBanks
                    },
                },
            },
    {
        match name {
            Some(n) => {
                let len = self.bank.len();
                let mut i: usize = 0;
                while i < len
                    invariant
                        len == self.bank@.len(),
                        i <= len,
                        name == Some(n),
                        forall|j: int| 0 <= j < i ==> bank_keys(*self)[j] != n@,
                    decreases len - i,
                {
                    if crate::text::str_eq(self.bank[i].0.as_str(), n) {
                        proof {
                            assert(bank_keys(*self)[i as int] == n@);
                            lemma_index_of_first_at(bank_keys(*self), i as int, n@);
                        }
                        return Ok((&self.bank[i].0, &self.bank[i].1));
                    }
                    assert(bank_keys(*self)[i as int] != n@);
                    i = i + 1;
                }
                proof {
                    lemma_index_of_first_none(bank_keys(*self), n@);
                }
                Err(ConfigError::BankNotFound { name: n.to_owned(), available: bank_key_list(&self.bank) })
            },
            None => {
                if self.bank.len() == 1 {
                    Ok((&self.bank[0].0, &self.bank[0].1))
                } else if self.bank.len() == 0 {
                    Err(ConfigError::NoBanks)
                } else {
                    Err(ConfigError::MultipleBanks)
                }
            },
        }
    }
}

/// The API base URL used when the configuration names none.
pub open spec fn default_api_base_url_spec() -> Seq<char> {
    "https://api.enablebanking.com"@
}

/// The API base URL used when the configuration names none.
pub fn default_api_base_url() -> (res: String)
    ensures
        res@ == default_api_base_url_spec(),
{
    "https://api.enablebanking.com".to_owned()
}

/// What `Path::join` gives for `base` and `name`.
pub uninterp spec fn path_joined(base: Seq<char>, name: Seq<char>) -> Seq<char>;

/// Calls `std::path::Path::join` on `base` and `name` (and `to_string_lossy`,
/// which changes nothing in a path made of two strings); the contract claims
/// that the result is the named path.
#[verifier::external_body]
pub(crate) fn join_path(base: &str, name: &str) -> (res: String)
    ensures
        res@ == path_joined(base@, name@),
{
    std::path::Path::new(base).join(name).to_string_lossy().into_owned()
}

/// Calls `dirs::config_dir`: the user's configuration directory, which the
/// environment decides; nothing is claimed of it.
#[verifier::external_body]
fn user_config_dir() -> (res: Option<String>) {
    dirs::config_dir().map(|p| p.to_string_lossy().into_owned())
}

/// Calls `dirs::data_local_dir`: the user's local data directory, which the
/// environment decides; nothing is claimed of it.
#[verifier::external_body]
fn user_data_dir() -> (res: Option<String>) {
    dirs::data_local_dir().map(|p| p.to_string_lossy().into_owned())
}

/// Calls `dirs::home_dir`: the user's home directory, which the environment
/// decides; nothing is claimed of it.
#[verifier::external_body]
pub(crate) fn user_home_dir() -> (res: Option<String>) {
    dirs::home_dir().map(|p| p.to_string_lossy().into_owned())
}

/// A directory of the platform, or the current directory when it has none.
pub open spec fn dir_or_current(dir: Option<String>) -> Seq<char> {
    match dir {
        Some(d) => d@,
        None => "."@,
    }
}

/// The program's directory under the platform directory `dir`.
pub open spec fn banker_dir(dir: Option<String>) -> Seq<char> {
    path_joined(dir_or_current(dir), "banker"@)
}

/// The program's directory under the platform directory `dir`.
pub fn banker_dir_in(dir: Option<String>) -> (res: String)
    ensures
        res@ == banker_dir(dir),
{
    match dir {
        Some(d) => join_path(d.as_str(), "banker"),
        None => join_path(".", "banker"),
    }
}

/// The directory of the configuration and session files: `banker` under the
/// user's configuration directory.
pub fn default_config_dir() -> (res: String)
    ensures
        exists|dir: Option<String>| res@ == banker_dir(dir),
{
    banker_dir_in(user_config_dir())
}

/// The default configuration file: `config.toml` in `default_config_dir`.
pub fn default_config_path() -> (res: String)
    ensures
        exists|dir: Option<String>| res@ == path_joined(banker_dir(dir), "config.toml"@),
{
    let dir = user_config_dir();
    let base = banker_dir_in(dir);
    join_path(base.as_str(), "config.toml")
}

/// The directory of the database by default: `banker` under the user's local
/// data directory.
pub fn default_data_dir() -> (res: String)
    ensures
        exists|dir: Option<String>| res@ == banker_dir(dir),
{
    banker_dir_in(user_data_dir())
}

/// Where the sessions are kept: `session.json` in `default_config_dir`.
pub fn session_path() -> (res: String)
    ensures
        exists|dir: Option<String>| res@ == path_joined(banker_dir(dir), "session.json"@),
{
    let dir = user_config_dir();
    let base = banker_dir_in(dir);
    join_path(base.as_str(), "session.json")
}

impl Config {
    /// The database file: the configured one, else `data.db` under the data
    /// directory `data_dir`.
    pub fn db_path_in(&self, data_dir: Option<String>) -> (res: String)
        ensures
            res@ == match self.db_path {
                Some(p) => p@,
                None => path_joined(banker_dir(data_dir), "data.db"@),
            },
    {
        match &self.db_path {
            Some(p) => p.clone(),
            None => {
                let base = banker_dir_in(data_dir);
                join_path(base.as_str(), "data.db")
            },
        }
    }

    /// The database file: the configured one, else `data.db` in
    /// `default_data_dir`.
    pub fn db_path(&self) -> (res: String)
        ensures
            match self.db_path {
                Some(p) => res@ == p@,
                None => exists|dir: Option<String>| res@ == path_joined(banker_dir(dir), "data.db"@),
            },
    {
        self.db_path_in(user_data_dir())
    }
}

} // verus!

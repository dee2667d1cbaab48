//! The server's settings and their defaults. Reading the environment belongs
//! to the application, which hands the values it found to `from_settings`.

use vstd::prelude::*;

use crate::text::{
    chars_of, dec, eq_ignore_ascii_case, has_prefix, lemma_u16_round_trip, lower_seq, or_text,
    parse_u16, string_of, text_or, to_string, u16_from_str,
};

verus! {

/// The port the server listens on when none is set.
pub const DEFAULT_PORT: u16 = 9119;

/// The server's settings.
#[derive(Debug, Clone, PartialEq)]
pub struct Config {
    pub database_url: String,
    pub jwt_secret: String,
    pub port: u16,
    pub enable_crawler: bool,
    pub log_dir: String,
    pub rust_log: String,
}

/// The settings found in the environment, each `None` where it is not set.
#[derive(Debug, Clone, PartialEq, Default)]
pub struct EnvSettings {
    pub database_url: Option<String>,
    pub jwt_secret: Option<String>,
    pub port: Option<String>,
    pub enable_crawler: Option<String>,
    pub log_dir: Option<String>,
    pub rust_log: Option<String>,
}

/// The port a setting gives: its value where it reads as a `u16`, else the
/// default.
pub open spec fn port_of(s: Option<String>) -> u16 {
    match s {
        Some(v) => match u16_from_str(v@) {
            Some(p) => p,
            None => DEFAULT_PORT,
        },
        None => DEFAULT_PORT,
    }
}

/// The crawler runs where the setting is `true`, in any ASCII case.
pub open spec fn crawler_enabled(s: Option<String>) -> bool {
    s matches Some(v) && lower_seq(v@) == lower_seq("true"@)
}

/// The configuration the environment's settings give, with the defaults for
/// the ones that are not set.
pub open spec fn config_of(env: EnvSettings, c: Config) -> bool {
    &&& c.database_url@ == or_text(env.database_url, "sqlite:./data/rustrsssrv.db"@)
    &&& c.jwt_secret@ == or_text(env.jwt_secret, "dev-secret-do-not-use-in-production"@)
    &&& c.port == port_of(env.port)
    &&& c.enable_crawler == crawler_enabled(env.enable_crawler)
    &&& c.log_dir@ == or_text(env.log_dir, "./logs"@)
    &&& c.rust_log@ == or_text(env.rust_log, "warn"@)
}

impl Config {
    /// The configuration from the settings found in the environment (see
    /// `config_of`).
    pub fn from_settings(env: &EnvSettings) -> (c: Config)
        ensures
            config_of(*env, c),
    {
        let port = match &env.port {
            Some(v) => match parse_u16(v.as_str()) {
                Some(p) => p,
                None => DEFAULT_PORT,
            },
            None => DEFAULT_PORT,
        };
        let enable_crawler = match &env.enable_crawler {
            Some(v) => eq_ignore_ascii_case(v.as_str(), "true"),
            None => false,
        };
        Config {
            database_url: text_or(&env.database_url, "sqlite:./data/rustrsssrv.db"),
            jwt_secret: text_or(&env.jwt_secret, "dev-secret-do-not-use-in-production"),
            port,
            enable_crawler,
            log_dir: text_or(&env.log_dir, "./logs"),
            rust_log: text_or(&env.rust_log, "warn"),
        }
    }

    /// The configuration of a test server on the database at `db_url`: a
    /// fixed secret, no port, no crawler, and only errors logged.
    pub fn for_test(db_url: &str) -> (c: Config)
        ensures
            c.database_url@ == db_url@,
            c.jwt_secret@ == "test-secret"@,
            c.port == 0,
            !c.enable_crawler,
            c.log_dir@ == "./logs"@,
            c.rust_log@ == "error"@,
    {
        Config {
            database_url: to_string(db_url),
            jwt_secret: to_string("test-secret"),
            port: 0,
            enable_crawler: false,
            log_dir: to_string("./logs"),
            rust_log: to_string("error"),
        }
    }
}

/// A port setting written as a decimal number is that port.
pub proof fn lemma_port_setting_read_back(setting: String, n: u16)
    requires
        setting@ == dec(n as nat),
    ensures
        port_of(Some(setting)) == n,
{
    lemma_u16_round_trip(n);
}

/// `s` with every leading copy of `p` removed, as `str::trim_start_matches`
/// does.
pub open spec fn strip_all(s: Seq<char>, p: Seq<char>) -> Seq<char>
    decreases s.len(),
{
    if p.len() > 0 && has_prefix(s, p) {
        strip_all(s.skip(p.len() as int), p)
    } else {
        s
    }
}

fn strip_all_exec(s: Vec<char>, p: &Vec<char>) -> (r: Vec<char>)
    ensures
        r@ == strip_all(s@, p@),
    decreases s@.len(),
{
    if p.len() > 0 && crate::text::starts_with(&s, p) {
        let mut rest: Vec<char> = Vec::new();
        let mut i: usize = p.len();
        while i < s.len()
            invariant
                p@.len() <= i <= s@.len(),
                rest@ == s@.subrange(p@.len() as int, i as int),
            decreases s@.len() - i,
        {
            rest.push(s[i]);
            i = i + 1;
            assert(rest@ =~= s@.subrange(p@.len() as int, i as int));
        }
        assert(rest@ =~= s@.skip(p@.len() as int));
        strip_all_exec(rest, p)
    } else {
        s
    }
}

/// The file path of a SQLite database URL: the URL without its leading
/// `sqlite:` and then without its leading `//`, each removed as often as it
/// repeats.
pub open spec fn database_path_of(url: Seq<char>) -> Seq<char> {
    strip_all(strip_all(url, "sqlite:"@), "//"@)
}

/// The file path of a SQLite database URL (see `database_path_of`).
pub fn database_path(url: &str) -> (r: String)
    ensures
        r@ == database_path_of(url@),
{
    let a = strip_all_exec(chars_of(url), &chars_of("sqlite:"));
    let b = strip_all_exec(a, &chars_of("//"));
    string_of(&b)
}

} // verus!

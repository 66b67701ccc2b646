//! The settings of the service, as its environment gives them.

use vstd::prelude::*;
use vstd::string::*;

use crate::errors::AppError;
use crate::text::{chars_of, same_text, trim, trim_range};

verus! {

/// What the environment holds under a name.
#[derive(Debug, Clone, PartialEq, Eq)]
pub enum EnvLookup {
    /// The value under the name.
    Present(String),
    /// Nothing is set under the name.
    NotPresent,
    /// What is set under the name is no valid Unicode.
    NotUnicode,
}

/// The settings of the service.
#[derive(Debug, Clone, PartialEq, Eq)]
pub struct Config {
    pub database_url: String,
    pub run_migrations: bool,
    pub lnd_endpoint: String,
    pub lnd_cert_path: String,
    pub lnd_macaroon_path: String,
    pub lnd_send_endpoint: String,
    pub lnd_send_cert_path: String,
    pub lnd_send_macaroon_path: String,
}

/// What the environment holds under the names of the settings, in the order
/// in which they are read.
#[derive(Debug, Clone, PartialEq, Eq)]
pub struct Environment {
    pub database_url: EnvLookup,
    pub run_migrations: EnvLookup,
    pub lnd_endpoint: EnvLookup,
    pub lnd_cert_path: EnvLookup,
    pub lnd_macaroon_path: EnvLookup,
    pub lnd_send_endpoint: EnvLookup,
    pub lnd_send_cert_path: EnvLookup,
    pub lnd_send_macaroon_path: EnvLookup,
}

/// The names under which the environment holds the settings.
pub const DATABASE_URL: &'static str = "DATABASE_URL";

pub const RUN_MIGRATIONS: &'static str = "RUN_MIGRATIONS";

pub const LND_ENDPOINT: &'static str = "LND_ENDPOINT";

pub const LND_CERT_PATH: &'static str = "LND_CERT_PATH";

pub const LND_MACAROON_PATH: &'static str = "LND_MACAROON_PATH";

pub const LND_SEND_ENDPOINT: &'static str = "LND_SEND_ENDPOINT";

pub const LND_SEND_CERT_PATH: &'static str = "LND_SEND_CERT_PATH";

pub const LND_SEND_MACAROON_PATH: &'static str = "LND_SEND_MACAROON_PATH";

/// Why a required setting cannot be used, if it cannot.
pub enum Unusable {
    Missing,
    Empty,
    Invalid,
}

/// The value of a required setting: what the environment holds, without
/// surrounding whitespace, provided that something is left of it.
pub open spec fn setting(lookup: EnvLookup) -> Result<Seq<char>, Unusable> {
    match lookup {
        EnvLookup::Present(value) => if trim(value@).len() == 0 {
            Err(Unusable::Empty)
        } else {
            Ok(trim(value@))
        },
        EnvLookup::NotPresent => Err(Unusable::Missing),
        EnvLookup::NotUnicode => Err(Unusable::Invalid),
    }
}

/// Whether the environment asks for the migrations to be run: only the very
/// word `true` does.
pub open spec fn wants_migrations(lookup: EnvLookup) -> bool {
    lookup matches EnvLookup::Present(value) && value@ == "true"@
}

/// The setting that an error names as unusable, and why, if the error is
/// about a setting.
pub open spec fn problem_of(e: AppError) -> Option<(Seq<char>, Unusable)> {
    match e {
        AppError::MissingConfig(name) => Some((name@, Unusable::Missing)),
        AppError::EmptyEnv(name) => Some((name@, Unusable::Empty)),
        AppError::InvalidEnv(name) => Some((name@, Unusable::Invalid)),
        _ => None,
    }
}

/// The trouble with a required setting, if there is one.
pub open spec fn trouble(name: Seq<char>, lookup: EnvLookup) -> Option<(Seq<char>, Unusable)> {
    match setting(lookup) {
        Ok(_) => None,
        Err(why) => Some((name, why)),
    }
}

impl Environment {
    /// The first of the required settings that cannot be used, in the order
    /// in which they are read, and why.
    pub open spec fn first_trouble(self) -> Option<(Seq<char>, Unusable)> {
        if trouble(DATABASE_URL@, self.database_url) is Some {
            trouble(DATABASE_URL@, self.database_url)
        } else if trouble(LND_ENDPOINT@, self.lnd_endpoint) is Some {
            trouble(LND_ENDPOINT@, self.lnd_endpoint)
        } else if trouble(LND_CERT_PATH@, self.lnd_cert_path) is Some {
            trouble(LND_CERT_PATH@, self.lnd_cert_path)
        } else if trouble(LND_MACAROON_PATH@, self.lnd_macaroon_path) is Some {
            trouble(LND_MACAROON_PATH@, self.lnd_macaroon_path)
        } else if trouble(LND_SEND_ENDPOINT@, self.lnd_send_endpoint) is Some {
            trouble(LND_SEND_ENDPOINT@, self.lnd_send_endpoint)
        } else if trouble(LND_SEND_CERT_PATH@, self.lnd_send_cert_path) is Some {
            trouble(LND_SEND_CERT_PATH@, self.lnd_send_cert_path)
        } else {
            trouble(LND_SEND_MACAROON_PATH@, self.lnd_send_macaroon_path)
        }
    }
}

/// Reads a required setting from what the environment holds under its name.
pub fn read_env(name: &str, lookup: EnvLookup) -> (res: Result<String, AppError>)
    ensures
        match res {
            Ok(value) => setting(lookup) == Ok::<Seq<char>, Unusable>(value@),
            Err(e) => problem_of(e) is Some && problem_of(e) == trouble(name@, lookup),
        },
{
    match lookup {
        EnvLookup::Present(value) => {
            let chars = chars_of(value.as_str());
            let (from, to) = trim_range(&chars, 0, chars.len());
            proof {
                assert(chars@.subrange(0, chars.len() as int) =~= value@);
            }
            if from == to {
                Err(AppError::EmptyEnv(String::from_str(name)))
            } else {
                Ok(value.as_str().substring_char(from, to).to_owned())
            }
        },
        EnvLookup::NotPresent => Err(AppError::MissingConfig(String::from_str(name))),
        EnvLookup::NotUnicode => Err(AppError::InvalidEnv(String::from_str(name))),
    }
}

/// Tells whether the environment asks for the migrations to be run.
pub fn migrations_wanted(lookup: &EnvLookup) -> (wanted: bool)
    ensures
        wanted == wants_migrations(*lookup),
{
    match lookup {
        EnvLookup::Present(value) => same_text(value.as_str(), "true"),
        _ => false,
    }
}

impl Config {
    /// The settings that an environment gives, or the first of the required
    /// settings that cannot be used.
    pub fn from_env(env: Environment) -> (res: Result<Config, AppError>)
        ensures
            match res {
                Ok(config) => {
                    &&& setting(env.database_url) == Ok::<Seq<char>, Unusable>(
                        config.database_url@,
                    )
                    &&& config.run_migrations == wants_migrations(env.run_migrations)
                    &&& setting(env.lnd_endpoint) == Ok::<Seq<char>, Unusable>(
                        config.lnd_endpoint@,
                    )
                    &&& setting(env.lnd_cert_path) == Ok::<Seq<char>, Unusable>(
                        config.lnd_cert_path@,
                    )
                    &&& setting(env.lnd_macaroon_path) == Ok::<Seq<char>, Unusable>(
                        config.lnd_macaroon_path@,
                    )
                    &&& setting(env.lnd_send_endpoint) == Ok::<Seq<char>, Unusable>(
                        config.lnd_send_endpoint@,
                    )
                    &&& setting(env.lnd_send_cert_path) == Ok::<Seq<char>, Unusable>(
                        config.lnd_send_cert_path@,
                    )
                    &&& setting(env.lnd_send_macaroon_path) == Ok::<Seq<char>, Unusable>(
                        config.lnd_send_macaroon_path@,
                    )
                },
                Err(e) => problem_of(e) is Some && problem_of(e) == env.first_trouble(),
            },
    {
        let run_migrations = migrations_wanted(&env.run_migrations);
        let database_url = match read_env(DATABASE_URL, env.database_url) {
            Ok(value) => value,
            Err(e) => {
                return Err(e);
            },
        };
        let lnd_endpoint = match read_env(LND_ENDPOINT, env.lnd_endpoint) {
            Ok(value) => value,
            Err(e) => {
                return Err(e);
            },
        };
        let lnd_cert_path = match read_env(LND_CERT_PATH, env.lnd_cert_path) {
            Ok(value) => value,
            Err(e) => {
                return Err(e);
            },
        };
        let lnd_macaroon_path = match read_env(LND_MACAROON_PATH, env.lnd_macaroon_path) {
            Ok(value) => value,
            Err(e) => {
                return Err(e);
            },
        };
        let lnd_send_endpoint = match read_env(LND_SEND_ENDPOINT, env.lnd_send_endpoint) {
            Ok(value) => value,
            Err(e) => {
                return Err(e);
            },
        };
        let lnd_send_cert_path = match read_env(LND_SEND_CERT_PATH, env.lnd_send_cert_path) {
            Ok(value) => value,
            Err(e) => {
                return Err(e);
            },
        };
        let lnd_send_macaroon_path = match read_env(
            LND_SEND_MACAROON_PATH,
            env.lnd_send_macaroon_path,
        ) {
            Ok(value) => value,
            Err(e) => {
                return Err(e);
            },
        };
        Ok(
            Config {
                database_url,
                run_migrations,
                lnd_endpoint,
                lnd_cert_path,
                lnd_macaroon_path,
                lnd_send_endpoint,
                lnd_send_cert_path,
                lnd_send_macaroon_path,
            },
        )
    }
}

} // verus!

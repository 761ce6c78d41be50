use vstd::prelude::*;
use vstd::string::*;
use crate::utils::text::same_text;

verus! {

pub struct Settings {
    pub app: AppSettings,
    pub database: DbSettings,
    pub twitter: TwitterSettings,
}

pub struct AppSettings {
    pub port: u16,
    pub host: String,
    /// Minutes between two refreshes.
    pub refresh_freq: u64,
    /// Most followed accounts pulled in one round.
    pub max_users: usize,
    /// Tweets asked for per timeline.
    pub refresh_tweets_per_user: u32,
    /// The account whose followed accounts are harvested.
    pub followers_for_account: String,
    /// Whether a repair takes the most popular candidates first.
    pub backfill_most_popular_first: bool,
}

pub struct DbSettings {
    pub username: String,
    pub password: String,
    pub port: u16,
    pub host: String,
    pub db_name: String,
    pub require_ssl: bool,
}

pub struct TwitterSettings {
    pub consumer_key: String,
    pub consumer_secret: String,
    pub access_token: String,
    pub access_token_secret: String,
    pub bearer_token: String,
}

/// Where the process runs.
#[derive(Clone, Copy, Debug, PartialEq, Eq, Structural)]
pub enum Environment {
    Dev,
    Prod,
}

/// The environment that a name denotes.
pub open spec fn environment_named(name: Seq<char>) -> Option<Environment> {
    if name == "dev"@ {
        Some(Environment::Dev)
    } else if name == "prod"@ {
        Some(Environment::Prod)
    } else {
        None
    }
}

impl Environment {
    /// Name of the settings file of this environment.
    pub fn to_str(&self) -> (r: String)
        ensures
            r@ == match self {
                Environment::Dev => "dev_config"@,
                Environment::Prod => "prod_config"@,
            },
    {
        match self {
            Environment::Dev => "dev_config".to_owned(),
            Environment::Prod => "prod_config".to_owned(),
        }
    }

    /// Reads an environment's name: `dev` or `prod`. Any other name is
    /// handed back in a message.
    pub fn try_from(value: String) -> (r: Result<Environment, String>)
        ensures
            match environment_named(value@) {
                Some(e) => r == Ok::<Environment, String>(e),
                None => r is Err && r->Err_0@ == value@
                    + " is an unsupported Environment. Use either 'dev' or 'prod'."@,
            },
    {
        if same_text(value.as_str(), "dev") {
            Ok(Environment::Dev)
        } else if same_text(value.as_str(), "prod") {
            Ok(Environment::Prod)
        } else {
            Err(value.concat(" is an unsupported Environment. Use either 'dev' or 'prod'."))
        }
    }
}

} // verus!

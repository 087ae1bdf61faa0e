use vstd::prelude::*;

use crate::errors::AppError;
use crate::name_generator::NameGenerator;

verus! {

/// What every request handler shares: the configuration and the name generator.
pub struct AppState {
    pub app_config: AppConfig,
    pub name_generator: NameGenerator,
}

impl AppState {
    pub fn new(app_config: AppConfig, name_generator: NameGenerator) -> (r: AppState)
        ensures
            r.app_config == app_config,
            r.name_generator == name_generator,
    {
        AppState { app_config, name_generator }
    }
}

/// Where the database is and how to log in to it.
#[derive(Debug, PartialEq, Eq)]
pub struct DBConfig {
    pub postgres_user: String,
    pub postgres_password: String,
    pub postgres_database_name: String,
    pub postgres_host: String,
    pub postgres_port: String,
}

/// The application's settings.
pub struct AppConfig {
    pub base_url: String,
    pub app_port: String,
    pub db_config: DBConfig,
}

/// `s` ends with the path separator.
pub open spec fn ends_with_slash(s: Seq<char>) -> bool {
    s.len() > 0 && s.last() == '/'
}

impl AppConfig {
    /// The settings for local development.
    pub fn new() -> (r: AppConfig)
        ensures
            r.base_url@ == "http://localhost:8000/"@,
            r.app_port@ == "8000"@,
            r.db_config.postgres_user@ == "postgres"@,
            r.db_config.postgres_password@ == "postgres"@,
            r.db_config.postgres_database_name@ == "postgres"@,
            r.db_config.postgres_host@ == "localhost"@,
            r.db_config.postgres_port@ == "5432"@,
    {
        AppConfig {
            base_url: String::from_str("http://localhost:8000/"),
            app_port: String::from_str("8000"),
            db_config: DBConfig::new(),
        }
    }

    /// Settings made of the given values; the base URL must end with `/`, since aliases
    /// are appended to it.
    pub fn from_parts(base_url: String, app_port: String, db_config: DBConfig) -> (r: Result<
        AppConfig,
        AppError,
    >)
        ensures
            r is Ok <==> ends_with_slash(base_url@),
            match r {
                Ok(c) => c.base_url == base_url && c.app_port == app_port && c.db_config
                    == db_config,
                Err(e) => e is InfraError,
            },
    {
        let n = base_url.as_str().unicode_len();
        if n == 0 || base_url.as_str().get_char(n - 1) != '/' {
            return Err(
                AppError::InfraError(
                    String::from_str(
                        "The base URL must end with a slash '/' for the application to work correctly.",
                    ),
                ),
            );
        }
        Ok(AppConfig { base_url, app_port, db_config })
    }
}

impl Default for AppConfig {
    /// The settings for local development.
    fn default() -> (r: AppConfig)
        ensures
            r.base_url@ == "http://localhost:8000/"@,
            r.app_port@ == "8000"@,
            r.db_config.postgres_user@ == "postgres"@,
            r.db_config.postgres_password@ == "postgres"@,
            r.db_config.postgres_database_name@ == "postgres"@,
            r.db_config.postgres_host@ == "localhost"@,
            r.db_config.postgres_port@ == "5432"@,
    {
        AppConfig::new()
    }
}

impl DBConfig {
    /// The database of local development.
    pub fn new() -> (r: DBConfig)
        ensures
            r.postgres_user@ == "postgres"@,
            r.postgres_password@ == "postgres"@,
            r.postgres_database_name@ == "postgres"@,
            r.postgres_host@ == "localhost"@,
            r.postgres_port@ == "5432"@,
    {
        DBConfig {
            postgres_user: String::from_str("postgres"),
            postgres_password: String::from_str("postgres"),
            postgres_database_name: String::from_str("postgres"),
            postgres_host: String::from_str("localhost"),
            postgres_port: String::from_str("5432"),
        }
    }

    /// The URL to connect to this database with.
    pub fn to_connection_string(&self) -> (r: String)
        ensures
            r@ == "postgres://"@ + self.postgres_user@ + ":"@ + self.postgres_password@ + "@"@
                + self.postgres_host@ + ":"@ + self.postgres_port@ + "/"@
                + self.postgres_database_name@,
    {
        String::from_str("postgres://").concat(self.postgres_user.as_str()).concat(":").concat(
            self.postgres_password.as_str(),
        ).concat("@").concat(self.postgres_host.as_str()).concat(":").concat(
            self.postgres_port.as_str(),
        ).concat("/").concat(self.postgres_database_name.as_str())
    }
}

impl Default for DBConfig {
    /// The database of local development.
    fn default() -> (r: DBConfig)
        ensures
            r.postgres_user@ == "postgres"@,
            r.postgres_password@ == "postgres"@,
            r.postgres_database_name@ == "postgres"@,
            r.postgres_host@ == "localhost"@,
            r.postgres_port@ == "5432"@,
    {
        DBConfig::new()
    }
}

/// The message for a configuration value `key` that the environment lacks.
pub fn key_error_message(key: &str) -> (r: String)
    ensures
        r@ == ".env file was read but is missing environment variable "@ + key@
            + ". Cannot proceed with startup."@,
{
    String::from_str(".env file was read but is missing environment variable ").concat(key).concat(
        ". Cannot proceed with startup.",
    )
}

} // verus!

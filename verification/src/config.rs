//! The settings of the service.
use vstd::prelude::*;

verus! {

/// The greatest number of connections that the service keeps to the database.
pub const DB_MAX_CONNECTIONS: u32 = 8;

/// What is said of a database that cannot be reached.
pub const DB_CONNECT_FAILURE: &'static str = "failed to connect to postgres";

/// The environment variables that the service reads, each `None` where it is not set.
pub struct Variables {
    pub database_url: Option<String>,
    pub redis_url: Option<String>,
    pub grpc_addr: Option<String>,
    pub http_addr: Option<String>,
    pub jwt_secret: Option<String>,
}

/// The settings of the service.
pub struct Settings {
    pub database_url: String,
    pub redis_url: String,
    pub grpc_addr: String,
    pub http_addr: String,
    pub jwt_secret: String,
}

/// What is wrong with the settings.
#[derive(Clone, Copy, Debug, PartialEq, Eq, Structural)]
pub enum SettingsError {
    NoDatabaseUrl,
    InvalidGrpcAddr,
    InvalidHttpAddr,
}

/// What is said of wrong settings.
pub open spec fn error_text(error: SettingsError) -> Seq<char> {
    match error {
        SettingsError::NoDatabaseUrl => "DATABASE_URL must be set"@,
        SettingsError::InvalidGrpcAddr => "invalid GRPC_ADDR"@,
        SettingsError::InvalidHttpAddr => "invalid HTTP_ADDR"@,
    }
}

impl SettingsError {
    /// What is said of wrong settings.
    pub fn message(self) -> (res: &'static str)
        ensures
            res@ == error_text(self),
            self == SettingsError::NoDatabaseUrl ==> res@ == "DATABASE_URL must be set"@,
            self == SettingsError::InvalidGrpcAddr ==> res@ == "invalid GRPC_ADDR"@,
            self == SettingsError::InvalidHttpAddr ==> res@ == "invalid HTTP_ADDR"@,
    {
        match self {
            SettingsError::NoDatabaseUrl => "DATABASE_URL must be set",
            SettingsError::InvalidGrpcAddr => "invalid GRPC_ADDR",
            SettingsError::InvalidHttpAddr => "invalid HTTP_ADDR",
        }
    }
}

/// The text of a variable, or of its default where it is not set.
pub open spec fn text_or(variable: Option<String>, default: Seq<char>) -> Seq<char> {
    match variable {
        Some(text) => text@,
        None => default,
    }
}

/// Returns the text of a variable, or its default where it is not set.
fn value_or(variable: Option<String>, default: &str) -> (res: String)
    ensures
        res@ == text_or(variable, default@),
        variable matches Some(text) ==> res@ == text@,
        variable is None ==> res@ == default@,
{
    match variable {
        Some(text) => text,
        None => default.to_owned(),
    }
}

/// Makes the settings out of the environment variables. The URL of the database has to be set;
/// the others have defaults.
pub fn settings(variables: Variables) -> (res: Result<Settings, SettingsError>)
    ensures
        match variables.database_url {
            Some(url) => res matches Ok(settings) && {
                &&& settings.database_url@ == url@
                &&& settings.redis_url@ == text_or(
                    variables.redis_url,
                    "redis://127.0.0.1:6379"@,
                )
                &&& settings.grpc_addr@ == text_or(variables.grpc_addr, "127.0.0.1:50051"@)
                &&& settings.http_addr@ == text_or(variables.http_addr, "127.0.0.1:8080"@)
                &&& settings.jwt_secret@ == text_or(
                    variables.jwt_secret,
                    "change-me-in-production"@,
                )
            },
            None => res == Err::<Settings, SettingsError>(SettingsError::NoDatabaseUrl),
        },
        res is Ok <==> variables.database_url is Some,
        res matches Ok(settings) ==> {
            &&& variables.redis_url matches Some(text) ==> settings.redis_url@ == text@
            &&& variables.redis_url is None ==> settings.redis_url@ == "redis://127.0.0.1:6379"@
            &&& variables.grpc_addr matches Some(text) ==> settings.grpc_addr@ == text@
            &&& variables.grpc_addr is None ==> settings.grpc_addr@ == "127.0.0.1:50051"@
            &&& variables.http_addr matches Some(text) ==> settings.http_addr@ == text@
            &&& variables.http_addr is None ==> settings.http_addr@ == "127.0.0.1:8080"@
            &&& variables.jwt_secret matches Some(text) ==> settings.jwt_secret@ == text@
            &&& variables.jwt_secret is None ==> settings.jwt_secret@ == "change-me-in-production"@
        },
{
    let database_url = match variables.database_url {
        Some(url) => url,
        None => {
            return Err(SettingsError::NoDatabaseUrl);
        },
    };
    Ok(
        Settings {
            database_url,
            redis_url: value_or(variables.redis_url, "redis://127.0.0.1:6379"),
            grpc_addr: value_or(variables.grpc_addr, "127.0.0.1:50051"),
            http_addr: value_or(variables.http_addr, "127.0.0.1:8080"),
            jwt_secret: value_or(variables.jwt_secret, "change-me-in-production"),
        },
    )
}

/// Takes the two addresses, given with the cause of the failure where their texts are no
/// addresses. The gRPC address is looked at first; the cause is handed on.
pub fn addresses<A, E>(grpc: Result<A, E>, http: Result<A, E>) -> (res: Result<
    (A, A),
    (SettingsError, E),
>)
    ensures
        res == match (grpc, http) {
            (Ok(g), Ok(h)) => Ok::<(A, A), (SettingsError, E)>((g, h)),
            (Err(cause), _) => Err((SettingsError::InvalidGrpcAddr, cause)),
            (Ok(_), Err(cause)) => Err((SettingsError::InvalidHttpAddr, cause)),
        },
{
    match (grpc, http) {
        (Ok(g), Ok(h)) => Ok((g, h)),
        (Err(cause), _) => Err((SettingsError::InvalidGrpcAddr, cause)),
        (Ok(_), Err(cause)) => Err((SettingsError::InvalidHttpAddr, cause)),
    }
}

/// A variable that is set gives its own text, whatever the default is.
pub proof fn set_variable_gives_its_text(text: String, default: Seq<char>)
    ensures
        text_or(Some(text), default) == text@,
{
}

/// A variable that is not set gives its default, whatever that is.
pub proof fn unset_variable_gives_its_default(default: Seq<char>)
    ensures
        text_or(None, default) == default,
{
}

/// The message names the variable that is wrong, and says whether it is missing or invalid.
pub proof fn message_names_the_variable(error: SettingsError)
    ensures
        error_text(error) == match error {
            SettingsError::NoDatabaseUrl => "DATABASE_URL"@ + " must be set"@,
            SettingsError::InvalidGrpcAddr => "invalid "@ + "GRPC_ADDR"@,
            SettingsError::InvalidHttpAddr => "invalid "@ + "HTTP_ADDR"@,
        },
{
    reveal_strlit("DATABASE_URL must be set");
    reveal_strlit("DATABASE_URL");
    reveal_strlit(" must be set");
    reveal_strlit("invalid GRPC_ADDR");
    reveal_strlit("invalid HTTP_ADDR");
    reveal_strlit("invalid ");
    reveal_strlit("GRPC_ADDR");
    reveal_strlit("HTTP_ADDR");
}

} // verus!

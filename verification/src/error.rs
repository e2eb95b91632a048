//! Error values handed back to the user interface, and the mapping of Discord
//! API error codes to semantic errors.
use vstd::prelude::*;
use crate::json::{JsonValue, field, u64_of, field_u64, field_str_or, str_or};
use crate::text::{append_decimal, decimal};

verus! {

/// Exhaustive mapping of Discord API Error Codes for high-fidelity handling.
#[derive(Debug, Clone, Copy, PartialEq, Eq, Structural)]
pub enum DiscordError {
    General,
    UnknownAccount,
    UnknownApplication,
    UnknownChannel,
    UnknownGuild,
    UnknownIntegration,
    Unauthorized,
    MissingAccess,
    InvalidToken,
    SlowmodeLimit,
    RateLimited,
}

/// The semantic error for a Discord API error code.
pub open spec fn discord_error_of(code: u32) -> DiscordError {
    if code == 10001 {
        DiscordError::UnknownAccount
    } else if code == 10002 {
        DiscordError::UnknownApplication
    } else if code == 10003 {
        DiscordError::UnknownChannel
    } else if code == 10004 {
        DiscordError::UnknownGuild
    } else if code == 10005 {
        DiscordError::UnknownIntegration
    } else if code == 40001 {
        DiscordError::Unauthorized
    } else if code == 50001 {
        DiscordError::MissingAccess
    } else if code == 50014 {
        DiscordError::InvalidToken
    } else if code == 20016 {
        DiscordError::SlowmodeLimit
    } else if code == 429 {
        DiscordError::RateLimited
    } else {
        DiscordError::General
    }
}

impl DiscordError {
    /// Maps a Discord API error code to its semantic error.
    pub fn from_code(code: u32) -> (r: DiscordError)
        ensures
            r == discord_error_of(code),
    {
        match code {
            10001 => DiscordError::UnknownAccount,
            10002 => DiscordError::UnknownApplication,
            10003 => DiscordError::UnknownChannel,
            10004 => DiscordError::UnknownGuild,
            10005 => DiscordError::UnknownIntegration,
            40001 => DiscordError::Unauthorized,
            50001 => DiscordError::MissingAccess,
            50014 => DiscordError::InvalidToken,
            20016 => DiscordError::SlowmodeLimit,
            429 => DiscordError::RateLimited,
            _ => DiscordError::General,
        }
    }
}

/// An error as the user interface receives it.
#[derive(Debug)]
pub struct AppError {
    pub user_message: String,
    pub error_code: String,
    pub discord_code: Option<u32>,
    pub semantic_error: Option<DiscordError>,
    pub technical_details: Option<String>,
}

impl AppError {
    /// An error with a message and a code, and nothing else.
    pub fn new(user_message: &str, error_code: &str) -> (r: AppError)
        ensures
            r.user_message@ == user_message@,
            r.error_code@ == error_code@,
            r.discord_code is None,
            r.semantic_error is None,
            r.technical_details is None,
    {
        AppError {
            user_message: String::from_str(user_message),
            error_code: String::from_str(error_code),
            discord_code: None,
            semantic_error: None,
            technical_details: None,
        }
    }

    /// An error with a message only; its code is empty.
    pub fn message(user_message: &str) -> (r: AppError)
        ensures
            r.user_message@ == user_message@,
            r.error_code@ == Seq::<char>::empty(),
            r.discord_code is None,
            r.semantic_error is None,
            r.technical_details is None,
    {
        AppError {
            user_message: String::from_str(user_message),
            error_code: String::new(),
            discord_code: None,
            semantic_error: None,
            technical_details: None,
        }
    }

    /// The error for a failed Discord API call, from the JSON body of the
    /// response. `rendered` is that body's text.
    pub fn from_discord_json(json: &JsonValue, rendered: &str) -> (r: AppError)
        ensures
            r.discord_code == Some(discord_code_of(*json)),
            r.semantic_error == Some(discord_error_of(discord_code_of(*json))),
            r.error_code@ == "discord_api_"@ + decimal(discord_code_of(*json) as nat),
            r.user_message@ == discord_user_message(
                discord_error_of(discord_code_of(*json)),
                str_or(*json, "message"@, "Unknown Discord API error"@),
            ),
            r.technical_details is Some,
            r.technical_details.unwrap()@ == rendered@,
    {
        let code: u32 = match field_u64(json, "code") {
            Some(c) => c as u32,
            None => 0,
        };
        let message = field_str_or(json, "message", "Unknown Discord API error");
        let semantic = DiscordError::from_code(code);
        let user_message = match semantic {
            DiscordError::MissingAccess => String::from_str(
                "Insufficient Permissions: Access denied to this node.",
            ),
            DiscordError::UnknownChannel => String::from_str(
                "Unknown Channel: Target node is unreachable.",
            ),
            DiscordError::Unauthorized => String::from_str(
                "Authentication Expired: Please log in again.",
            ),
            DiscordError::RateLimited => String::from_str("Rate Limited: Engine is cooling down."),
            _ => {
                let mut s = String::from_str("Discord Error: ");
                crate::text::append_chars(&mut s, message.as_slice());
                s
            },
        };
        let mut error_code = String::from_str("discord_api_");
        append_decimal(&mut error_code, code as u64);
        AppError {
            user_message,
            error_code,
            discord_code: Some(code),
            semantic_error: Some(semantic),
            technical_details: Some(String::from_str(rendered)),
        }
    }

    /// The error for a failure of the given kind, with its description.
    pub fn from_failure(source: FailureSource, details: Option<String>) -> (r: AppError)
        ensures
            r.user_message@ == failure_message(source),
            r.error_code@ == failure_code(source),
            r.discord_code is None,
            r.semantic_error is None,
            r.technical_details == details,
    {
        let (m, c) = match source {
            FailureSource::Network => ("Network request failed.", "network_error"),
            FailureSource::Parse => ("Data parsing failed.", "parse_error"),
            FailureSource::Io => ("System I/O failure.", "io_error"),
            FailureSource::OAuth => ("Failed to exchange authorization code.", "oauth_error"),
            FailureSource::Opener => ("Failed to open external resource.", "opener_error"),
            FailureSource::WebSocket => ("WebSocket communication error.", "ws_error"),
            FailureSource::Timeout => ("Operation timed out.", "timeout_error"),
            FailureSource::Decode => ("Data decoding failed.", "decode_error"),
            FailureSource::Utf8 => ("Text encoding failed.", "utf8_error"),
            FailureSource::Keyring => ("Secure storage access failed.", "keyring_error"),
            FailureSource::Database => ("Forensic cache failure.", "database_error"),
            FailureSource::Argon2 => ("Vault security engine failure.", "argon2_error"),
            FailureSource::PasswordHash => (
                "Master password protocol failure.",
                "password_hash_error",
            ),
            FailureSource::Zip => ("Archive processing failed.", "zip_error"),
        };
        AppError {
            user_message: String::from_str(m),
            error_code: String::from_str(c),
            discord_code: None,
            semantic_error: None,
            technical_details: details,
        }
    }

    /// An internal error whose message is the given text.
    pub fn internal(message: String) -> (r: AppError)
        ensures
            r.user_message == message,
            r.error_code@ == "internal_error"@,
            r.discord_code is None,
            r.semantic_error is None,
            r.technical_details is None,
    {
        AppError {
            user_message: message,
            error_code: String::from_str("internal_error"),
            discord_code: None,
            semantic_error: None,
            technical_details: None,
        }
    }
}

/// `json["code"].as_u64().unwrap_or(0) as u32`.
pub open spec fn discord_code_of(json: JsonValue) -> u32 {
    match u64_of(field(json, "code"@)) {
        Some(c) => c as u32,
        None => 0,
    }
}

/// The message shown to the user for a Discord API error.
pub open spec fn discord_user_message(e: DiscordError, message: Seq<char>) -> Seq<char> {
    match e {
        DiscordError::MissingAccess => "Insufficient Permissions: Access denied to this node."@,
        DiscordError::UnknownChannel => "Unknown Channel: Target node is unreachable."@,
        DiscordError::Unauthorized => "Authentication Expired: Please log in again."@,
        DiscordError::RateLimited => "Rate Limited: Engine is cooling down."@,
        _ => "Discord Error: "@ + message,
    }
}

/// The kinds of failure that outside components report.
#[derive(Debug, Clone, Copy, PartialEq, Eq, Structural)]
pub enum FailureSource {
    Network,
    Parse,
    Io,
    OAuth,
    Opener,
    WebSocket,
    Timeout,
    Decode,
    Utf8,
    Keyring,
    Database,
    Argon2,
    PasswordHash,
    Zip,
}

/// The user message for a kind of failure.
pub open spec fn failure_message(s: FailureSource) -> Seq<char> {
    match s {
        FailureSource::Network => "Network request failed."@,
        FailureSource::Parse => "Data parsing failed."@,
        FailureSource::Io => "System I/O failure."@,
        FailureSource::OAuth => "Failed to exchange authorization code."@,
        FailureSource::Opener => "Failed to open external resource."@,
        FailureSource::WebSocket => "WebSocket communication error."@,
        FailureSource::Timeout => "Operation timed out."@,
        FailureSource::Decode => "Data decoding failed."@,
        FailureSource::Utf8 => "Text encoding failed."@,
        FailureSource::Keyring => "Secure storage access failed."@,
        FailureSource::Database => "Forensic cache failure."@,
        FailureSource::Argon2 => "Vault security engine failure."@,
        FailureSource::PasswordHash => "Master password protocol failure."@,
        FailureSource::Zip => "Archive processing failed."@,
    }
}

/// The error code for a kind of failure.
pub open spec fn failure_code(s: FailureSource) -> Seq<char> {
    match s {
        FailureSource::Network => "network_error"@,
        FailureSource::Parse => "parse_error"@,
        FailureSource::Io => "io_error"@,
        FailureSource::OAuth => "oauth_error"@,
        FailureSource::Opener => "opener_error"@,
        FailureSource::WebSocket => "ws_error"@,
        FailureSource::Timeout => "timeout_error"@,
        FailureSource::Decode => "decode_error"@,
        FailureSource::Utf8 => "utf8_error"@,
        FailureSource::Keyring => "keyring_error"@,
        FailureSource::Database => "database_error"@,
        FailureSource::Argon2 => "argon2_error"@,
        FailureSource::PasswordHash => "password_hash_error"@,
        FailureSource::Zip => "zip_error"@,
    }
}

} // verus!

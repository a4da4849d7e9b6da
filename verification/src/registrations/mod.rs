//! The catalogue of upstreams that agents reach through the proxy.
use vstd::prelude::*;

use crate::text::{cat, cat3};

pub mod api;
pub mod auth_spec;
pub mod catalog;
pub mod kind;
pub mod repo;
pub mod seed_loader;
pub mod table;
pub mod validators;

pub use auth_spec::AuthSpec;
pub use catalog::Catalog;
pub use kind::Kind;
pub use repo::Registration;
pub use validators::{validate_name, MAX_NAME_LEN};

verus! {

/// Why a registration was refused.
#[derive(Debug)]
pub enum RegistrationError {
    /// The name is registered under another kind.
    NameInUse { existing_kind: Kind },
    /// The name stands for one of the proxy's own endpoints.
    ReservedName,
    /// A tool or a model was registered without saying how it is authenticated.
    AuthRequired,
    /// A model was registered as needing no authentication.
    ModelAuthRequired,
    /// The name is too long, empty or holds a character that is not allowed.
    InvalidName(&'static str),
    /// The metadata is not what the kind asks for.
    InvalidMetadata(String),
    /// The name is registered under another kind than the one asked for.
    WrongKind { existing_kind: Kind, requested_kind: Kind },
    /// The store failed. The text is for the log; it is never shown.
    Backend(String),
}

/// The message that a caller sees.
pub open spec fn registration_message(e: RegistrationError) -> Seq<char> {
    match e {
        RegistrationError::NameInUse { existing_kind } => "name in use (existing kind: "@
            + kind::kind_name(existing_kind) + ")"@,
        RegistrationError::ReservedName => "name is reserved"@,
        RegistrationError::AuthRequired => "kind=tool requires explicit `auth:` (use `auth: none` for authless)"@,
        RegistrationError::ModelAuthRequired => "kind=model requires non-none auth"@,
        RegistrationError::InvalidName(why) => "invalid name: "@ + why@,
        RegistrationError::InvalidMetadata(why) => "invalid metadata: "@ + why@,
        RegistrationError::WrongKind { existing_kind, requested_kind } => "wrong kind (registered as "@
            + kind::kind_name(existing_kind) + (", requested "@ + kind::kind_name(requested_kind)
            + ")"@),
        RegistrationError::Backend(_) => "internal error"@,
    }
}

impl RegistrationError {
    /// The message that a caller sees. A failure of the store says no more than
    /// that it is one.
    pub fn message(&self) -> (r: String)
        ensures
            r@ == registration_message(*self),
    {
        match self {
            RegistrationError::NameInUse { existing_kind } => cat3(
                "name in use (existing kind: ",
                existing_kind.as_str(),
                ")",
            ),
            RegistrationError::ReservedName => "name is reserved".to_owned(),
            RegistrationError::AuthRequired => "kind=tool requires explicit `auth:` (use `auth: none` for authless)".to_owned(),
            RegistrationError::ModelAuthRequired => "kind=model requires non-none auth".to_owned(),
            RegistrationError::InvalidName(why) => cat("invalid name: ", why),
            RegistrationError::InvalidMetadata(why) => cat("invalid metadata: ", why.as_str()),
            RegistrationError::WrongKind { existing_kind, requested_kind } => cat3(
                "wrong kind (registered as ",
                existing_kind.as_str(),
                cat3(", requested ", requested_kind.as_str(), ")").as_str(),
            ),
            RegistrationError::Backend(_) => "internal error".to_owned(),
        }
    }
}

/// Two store failures look the same from outside, whatever went wrong.
pub proof fn law_backend_message_is_generic(a: String, b: String)
    ensures
        registration_message(RegistrationError::Backend(a)) == registration_message(
            RegistrationError::Backend(b),
        ),
{
}

/// What is told of an error names what is in the way: the kind that has the name, what is
/// wrong with it, or both kinds where they differ.
pub proof fn law_messages_name_what_is_wrong(a: Kind, b: Kind, why: String)
    ensures
        registration_message(RegistrationError::NameInUse { existing_kind: a })
            == "name in use (existing kind: "@ + kind::kind_name(a) + ")"@,
        registration_message(
            RegistrationError::WrongKind { existing_kind: a, requested_kind: b },
        ) == "wrong kind (registered as "@ + kind::kind_name(a) + ", requested "@
            + kind::kind_name(b) + ")"@,
        registration_message(RegistrationError::InvalidMetadata(why)) == "invalid metadata: "@
            + why@,
{
    assert(registration_message(
        RegistrationError::WrongKind { existing_kind: a, requested_kind: b },
    ) =~= "wrong kind (registered as "@ + kind::kind_name(a) + ", requested "@ + kind::kind_name(b)
        + ")"@);
}

} // verus!

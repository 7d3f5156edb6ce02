//! The request payloads the registration and login endpoints accept.  The
//! transport layer deserializes into its own mirrors of these and converts.

use vstd::prelude::*;

verus! {

/// Payload of a registration (and code-resend) request.
pub struct RegisterRequestSchema {
    pub email: String,
    pub language: String,
}

/// Payload of a login request.
pub struct LoginRequestSchema {
    pub email: String,
}

/// Payload of a code-confirmation request.
pub struct ConfirmCodeRequestSchema {
    pub email: String,
    pub code: String,
}

} // verus!

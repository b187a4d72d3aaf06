//! The failures that an operation on the log can report.

use vstd::prelude::*;
use vstd::string::{to_string_from_display_ensures, StringExecFns};

verus! {

/// Error of the `argon2` crate. Opaque here: it is carried, never read.
#[verifier::external_type_specification]
#[verifier::external_body]
pub struct ExArgon2Error(argon2::Error);

/// Error of the `aes_gcm` crate: a unit value that says only that sealing
/// or opening failed.
#[verifier::external_type_specification]
#[verifier::external_body]
pub struct ExAesGcmError(aes_gcm::Error);

/// Error of `String::from_utf8`.
#[verifier::external_type_specification]
#[verifier::external_body]
pub struct ExFromUtf8Error(std::string::FromUtf8Error);

/// Text of the error for a blob that is shorter than a nonce.
pub const ENCRYPTED_DATA_TOO_SHORT: &'static str = "Encrypted data is too short";

/// Text of the error for a password change without any salt.
pub const SALT_FILE_NOT_FOUND: &'static str = "Salt file not found";

/// Text of the error for a salt file of the wrong length.
pub const INVALID_SALT_SIZE: &'static str = "Invalid salt size";

/// Text of the error for a current password that is not the held key's.
pub const INCORRECT_PASSWORD: &'static str = "Incorrect password";

/// Why an operation fails. Contracts name the cause; `TasksError::reports`
/// says which error value stands for it.
pub enum Failure {
    /// A blob is shorter than a nonce.
    BlobTooShort,
    /// The cipher did not accept a blob under the key.
    CipherRejected,
    /// The cipher accepted a blob, and its plaintext is not UTF-8.
    PlaintextNotText,
    /// A plaintext is too long to seal.
    PlaintextTooLong,
    /// A password is too long to derive a key from.
    PasswordTooLong,
    /// No replica holds a salt.
    SaltMissing,
    /// The salt that was found has the wrong length.
    SaltSizeInvalid,
    /// A replica exists and could not be read; the text says why.
    ReplicaUnreadable(Seq<char>),
    /// The current password is not the one of the held key.
    PasswordIncorrect,
}

/// Every failure of this crate. No operation returns a partial result.
#[derive(Debug)]
pub enum TasksError {
    /// A replica holds something that cannot be what it should be.
    UnknownError(String),
    /// An encrypted blob is malformed, or an artifact that must exist is
    /// missing.
    CryptoError(String),
    /// The password given as the current one is not the one of the held key.
    AuthenticationError(String),
    /// A replica exists and could not be read.
    IoError(String),
    /// Key derivation refused its input.
    Argon2Error(argon2::Error),
    /// Sealing refused its input, or opening found the blob was not sealed
    /// under this key.
    AesGcmError(aes_gcm::Error),
    /// An opened blob is not text.
    Utf8Error(std::string::FromUtf8Error),
}

impl TasksError {
    /// The failures that say a blob could not be opened. Which of them came
    /// tells nothing about whether the key or the blob was wrong.
    pub open spec fn is_integrity(self) -> bool {
        self is CryptoError || self is AesGcmError || self is Utf8Error
    }

    /// There is a refusal, and this error is the one that stands for it.
    pub open spec fn reports_refusal(self, refusal: Option<Failure>) -> bool {
        refusal matches Some(failure) && self.reports(failure)
    }

    /// This error is the one that stands for `failure`.
    pub open spec fn reports(self, failure: Failure) -> bool {
        match failure {
            Failure::BlobTooShort => self matches TasksError::CryptoError(text) && text@
                == ENCRYPTED_DATA_TOO_SHORT@,
            Failure::CipherRejected => self is AesGcmError,
            Failure::PlaintextNotText => self is Utf8Error,
            Failure::PlaintextTooLong => self is AesGcmError,
            Failure::PasswordTooLong => self is Argon2Error,
            Failure::SaltMissing => self matches TasksError::CryptoError(text) && text@
                == SALT_FILE_NOT_FOUND@,
            Failure::SaltSizeInvalid => self matches TasksError::UnknownError(text) && text@
                == INVALID_SALT_SIZE@,
            Failure::ReplicaUnreadable(why) => self matches TasksError::IoError(text) && text@
                == why,
            Failure::PasswordIncorrect => self matches TasksError::AuthenticationError(text)
                && text@ == INCORRECT_PASSWORD@,
        }
    }

    /// How the text of this error begins: the kind of failure.
    pub open spec fn heading(self) -> Seq<char> {
        match self {
            TasksError::UnknownError(_) => "Error: "@,
            TasksError::CryptoError(_) => "Crypto error: "@,
            TasksError::AuthenticationError(_) => "Authentication error: "@,
            TasksError::IoError(_) => "IO error: "@,
            TasksError::Argon2Error(_) => "Argon2 error: "@,
            TasksError::AesGcmError(_) => "AES-GCM error: "@,
            TasksError::Utf8Error(_) => "UTF8 error: "@,
        }
    }

    /// `detail` is how the text of this error goes on: the text that the
    /// error carries, or what the carried error displays as.
    pub open spec fn has_detail(self, detail: String) -> bool {
        match self {
            TasksError::UnknownError(text) => detail@ == text@,
            TasksError::CryptoError(text) => detail@ == text@,
            TasksError::AuthenticationError(text) => detail@ == text@,
            TasksError::IoError(text) => detail@ == text@,
            TasksError::Argon2Error(e) => to_string_from_display_ensures(&e, detail),
            TasksError::AesGcmError(e) => to_string_from_display_ensures(&e, detail),
            TasksError::Utf8Error(e) => to_string_from_display_ensures(&e, detail),
        }
    }

    /// The text of this error: its heading, then its detail.
    pub fn message(&self) -> (text: String)
        ensures
            exists|detail: String| #[trigger]
                self.has_detail(detail) && text@ == self.heading() + detail@,
    {
        match self {
            TasksError::UnknownError(e) => {
                let detail = e.clone();
                assert(self.has_detail(detail));
                "Error: ".to_owned().concat(detail.as_str())
            },
            TasksError::CryptoError(e) => {
                let detail = e.clone();
                assert(self.has_detail(detail));
                "Crypto error: ".to_owned().concat(detail.as_str())
            },
            TasksError::AuthenticationError(e) => {
                let detail = e.clone();
                assert(self.has_detail(detail));
                "Authentication error: ".to_owned().concat(detail.as_str())
            },
            TasksError::IoError(e) => {
                let detail = e.clone();
                assert(self.has_detail(detail));
                "IO error: ".to_owned().concat(detail.as_str())
            },
            TasksError::Argon2Error(e) => {
                let detail = e.to_string();
                assert(self.has_detail(detail));
                "Argon2 error: ".to_owned().concat(detail.as_str())
            },
            TasksError::AesGcmError(e) => {
                let detail = e.to_string();
                assert(self.has_detail(detail));
                "AES-GCM error: ".to_owned().concat(detail.as_str())
            },
            TasksError::Utf8Error(e) => {
                let detail = e.to_string();
                assert(self.has_detail(detail));
                "UTF8 error: ".to_owned().concat(detail.as_str())
            },
        }
    }
}

impl From<String> for TasksError {
    fn from(err: String) -> (error: Self) {
        TasksError::UnknownError(err)
    }
}

impl vstd::std_specs::convert::FromSpecImpl<String> for TasksError {
    open spec fn obeys_from_spec() -> bool {
        true
    }

    open spec fn from_spec(err: String) -> Self {
        TasksError::UnknownError(err)
    }
}

impl From<argon2::Error> for TasksError {
    fn from(err: argon2::Error) -> (error: Self) {
        TasksError::Argon2Error(err)
    }
}

impl vstd::std_specs::convert::FromSpecImpl<argon2::Error> for TasksError {
    open spec fn obeys_from_spec() -> bool {
        true
    }

    open spec fn from_spec(err: argon2::Error) -> Self {
        TasksError::Argon2Error(err)
    }
}

impl From<aes_gcm::Error> for TasksError {
    fn from(err: aes_gcm::Error) -> (error: Self) {
        TasksError::AesGcmError(err)
    }
}

impl vstd::std_specs::convert::FromSpecImpl<aes_gcm::Error> for TasksError {
    open spec fn obeys_from_spec() -> bool {
        true
    }

    open spec fn from_spec(err: aes_gcm::Error) -> Self {
        TasksError::AesGcmError(err)
    }
}

impl From<std::string::FromUtf8Error> for TasksError {
    fn from(err: std::string::FromUtf8Error) -> (error: Self) {
        TasksError::Utf8Error(err)
    }
}

impl vstd::std_specs::convert::FromSpecImpl<std::string::FromUtf8Error> for TasksError {
    open spec fn obeys_from_spec() -> bool {
        true
    }

    open spec fn from_spec(err: std::string::FromUtf8Error) -> Self {
        TasksError::Utf8Error(err)
    }
}

} // verus!

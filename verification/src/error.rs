//! The errors of the vault library and the user-facing message of each.
use vstd::prelude::*;

verus! {

/// Everything that can refuse a vault operation.
#[derive(Clone, Copy, PartialEq, Eq, Structural, Debug)]
pub enum VaultError {
    // Record model
    TooManyRecords,
    InvalidIdentifier,
    DuplicateIdentifier,
    InvalidLabel,
    TooManyFields,
    InvalidFieldName,
    FieldValueTooLong,
    RandomnessUnavailable,
    InvalidPasswordLength,
    // Envelope and session
    EmptyMaster,
    KeyDerivationFailed,
    AuthenticationFailed,
    InvalidPayload,
    PayloadTooLarge,
    VaultTooLarge,
    EncryptionFailed,
    Truncated,
    FileTooLarge,
    NotAVault,
    UnsupportedVersion,
    UnsupportedAlgorithms,
    UnsupportedProfile,
    UnsupportedFlags,
    InvalidCiphertextLength,
    LengthMismatch,
}

/// The message of each error, as a character sequence.
pub open spec fn message_of(e: VaultError) -> Seq<char> {
    match e {
        VaultError::TooManyRecords => "Too many records."@,
        VaultError::InvalidIdentifier => "Invalid record identifier."@,
        VaultError::DuplicateIdentifier => "Duplicate record identifier."@,
        VaultError::InvalidLabel => "Record label must be nonempty and at most 256 bytes."@,
        VaultError::TooManyFields => "Too many fields in a record."@,
        VaultError::InvalidFieldName => "Field name must be nonempty and at most 128 bytes."@,
        VaultError::FieldValueTooLong => "Field value is too long."@,
        VaultError::RandomnessUnavailable => "Operating-system randomness is unavailable."@,
        VaultError::InvalidPasswordLength => "Generated password length must be 12–1024."@,
        VaultError::EmptyMaster => "Master password must not be empty."@,
        VaultError::KeyDerivationFailed => "Could not derive encryption key."@,
        VaultError::AuthenticationFailed => "Wrong password or damaged vault."@,
        VaultError::InvalidPayload => "Authenticated vault payload is invalid."@,
        VaultError::PayloadTooLarge => "Vault cannot be serialized within the size limit."@,
        VaultError::VaultTooLarge => "Vault is too large."@,
        VaultError::EncryptionFailed => "Could not encrypt vault."@,
        VaultError::Truncated => "Vault is truncated or invalid."@,
        VaultError::FileTooLarge => "Vault exceeds the file size limit."@,
        VaultError::NotAVault => "Not a SimpleCrypt vault."@,
        VaultError::UnsupportedVersion => "Unsupported vault version."@,
        VaultError::UnsupportedAlgorithms => "Unsupported vault algorithms."@,
        VaultError::UnsupportedProfile => "Unsupported vault key-derivation profile."@,
        VaultError::UnsupportedFlags => "Unsupported vault header flags."@,
        VaultError::InvalidCiphertextLength => "Invalid vault ciphertext length."@,
        VaultError::LengthMismatch => "Vault is truncated or contains trailing data."@,
    }
}

impl VaultError {
    /// The message shown to the user; it never quotes vault contents.
    pub fn message(&self) -> (m: &'static str)
        ensures
            m@ == message_of(*self),
    {
        match self {
            VaultError::TooManyRecords => "Too many records.",
            VaultError::InvalidIdentifier => "Invalid record identifier.",
            VaultError::DuplicateIdentifier => "Duplicate record identifier.",
            VaultError::InvalidLabel => "Record label must be nonempty and at most 256 bytes.",
            VaultError::TooManyFields => "Too many fields in a record.",
            VaultError::InvalidFieldName => "Field name must be nonempty and at most 128 bytes.",
            VaultError::FieldValueTooLong => "Field value is too long.",
            VaultError::RandomnessUnavailable => "Operating-system randomness is unavailable.",
            VaultError::InvalidPasswordLength => "Generated password length must be 12–1024.",
            VaultError::EmptyMaster => "Master password must not be empty.",
            VaultError::KeyDerivationFailed => "Could not derive encryption key.",
            VaultError::AuthenticationFailed => "Wrong password or damaged vault.",
            VaultError::InvalidPayload => "Authenticated vault payload is invalid.",
            VaultError::PayloadTooLarge => "Vault cannot be serialized within the size limit.",
            VaultError::VaultTooLarge => "Vault is too large.",
            VaultError::EncryptionFailed => "Could not encrypt vault.",
            VaultError::Truncated => "Vault is truncated or invalid.",
            VaultError::FileTooLarge => "Vault exceeds the file size limit.",
            VaultError::NotAVault => "Not a SimpleCrypt vault.",
            VaultError::UnsupportedVersion => "Unsupported vault version.",
            VaultError::UnsupportedAlgorithms => "Unsupported vault algorithms.",
            VaultError::UnsupportedProfile => "Unsupported vault key-derivation profile.",
            VaultError::UnsupportedFlags => "Unsupported vault header flags.",
            VaultError::InvalidCiphertextLength => "Invalid vault ciphertext length.",
            VaultError::LengthMismatch => "Vault is truncated or contains trailing data.",
        }
    }
}

} // verus!

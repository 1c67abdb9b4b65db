//! The errors of the library.

use vstd::prelude::*;

verus! {

/// The broad class an error belongs to.
#[derive(Clone, Copy, Debug, PartialEq, Eq, Structural)]
pub enum ErrorKind {
    /// A manifest or a configuration value has the wrong shape.
    Config,
    /// Signing in or deriving the keys failed.
    Auth,
    /// A cryptographic operation failed.
    Crypto,
    /// A cipher, collection or folder could not be found.
    Resolution,
    /// A request to the vault did not succeed.
    Transport,
    /// An external tool ended with a failure.
    Subprocess,
    /// A file or directory could not be read or written.
    Io,
    /// The rotation marker could not be read.
    Policy,
}

/// What went wrong.
#[derive(Clone, Copy, Debug, PartialEq, Eq, Structural)]
pub enum Error {
    /// The key is shorter than the operation needs.
    KeyTooShort,
    /// The cipher string holds no `|`.
    MissingSeparator,
    /// The cipher string does not have the three parts IV, ciphertext, MAC.
    InvalidCipherString,
    /// A part of the cipher string is not base64.
    InvalidBase64,
    /// The MAC is not the one the key gives for the IV and the ciphertext.
    MacMismatch,
    /// The key or the IV does not have the length the cipher needs.
    InvalidLength,
    /// The ciphertext is not a whole number of blocks, or its padding is
    /// malformed.
    BadPadding,
    /// The ciphertext is too short to hold an IV.
    CiphertextTooShort,
    /// The plaintext is longer than the library encrypts.
    PlaintextTooLong,
    /// The private key could not be read.
    InvalidPrivateKey,
    /// No padding scheme that the library knows decrypted the RSA
    /// ciphertext.
    RsaDecryptionFailed,
    /// The decrypted bytes are not UTF-8.
    InvalidUtf8,
    /// The server named a key derivation function the library does not know.
    UnknownKdf,
    /// The parameters of the key derivation function are out of range.
    KdfParams,
    /// The key derivation function refused its input.
    KdfFailed,
    /// The session key is not base64.
    InvalidSessionKey,
    /// No candidate key decrypted the user's symmetric key.
    UserKeyNotDecrypted,
    /// No organization matched, or none of the matching keys decrypted.
    OrgKeyNotFound,
    /// A key of type `static` has no value.
    StaticWithoutValue,
    /// A key of type `file` has no source.
    FileWithoutSource,
    /// The key path leads nowhere in the file.
    KeyPathNotFound,
    /// The key path leads to something that is no string, number or bool.
    NotAScalar,
    /// The cluster secret has no `data`.
    SecretWithoutData,
    /// The cluster secret holds no such key.
    SecretKeyNotFound,
    /// No cipher in the vault has the wanted name.
    CipherNotFound,
    /// The item fetched from the vault has no id.
    ItemWithoutId,
    /// The vault answered that the caller is not signed in.
    Unauthorized,
    /// The vault answered that there is no such thing.
    NotFound,
    /// The vault kept asking to slow down.
    RateLimited,
    /// The vault failed to answer the request.
    RequestFailed,
    /// An external tool ended with a failure.
    ToolFailed,
    /// A file or directory could not be read or written.
    FileFailed,
    /// The manifests held no secret.
    NoManifests,
    /// Some rotations failed.
    RotationsFailed,
    /// An answer came that the state of the flow does not await.
    OutOfTurn,
}

impl Error {
    /// The class of the error.
    pub open spec fn kind_spec(self) -> ErrorKind {
        match self {
            Error::KeyTooShort
            | Error::MissingSeparator
            | Error::InvalidCipherString
            | Error::InvalidBase64
            | Error::MacMismatch
            | Error::InvalidLength
            | Error::BadPadding
            | Error::CiphertextTooShort
            | Error::PlaintextTooLong
            | Error::InvalidPrivateKey
            | Error::RsaDecryptionFailed
            | Error::InvalidUtf8 => ErrorKind::Crypto,
            Error::UnknownKdf
            | Error::KdfParams
            | Error::KdfFailed
            | Error::InvalidSessionKey
            | Error::UserKeyNotDecrypted
            | Error::OrgKeyNotFound
            | Error::Unauthorized => ErrorKind::Auth,
            Error::StaticWithoutValue
            | Error::FileWithoutSource
            | Error::KeyPathNotFound
            | Error::NotAScalar
            | Error::SecretWithoutData
            | Error::SecretKeyNotFound
            | Error::ItemWithoutId
            | Error::OutOfTurn
            | Error::NoManifests => ErrorKind::Config,
            Error::CipherNotFound | Error::NotFound => ErrorKind::Resolution,
            Error::RateLimited | Error::RequestFailed | Error::RotationsFailed => ErrorKind::Transport,
            Error::ToolFailed => ErrorKind::Subprocess,
            Error::FileFailed => ErrorKind::Io,
        }
    }

    /// The class of the error.
    pub fn kind(&self) -> (k: ErrorKind)
        ensures
            k == self.kind_spec(),
    {
        match self {
            Error::KeyTooShort
            | Error::MissingSeparator
            | Error::InvalidCipherString
            | Error::InvalidBase64
            | Error::MacMismatch
            | Error::InvalidLength
            | Error::BadPadding
            | Error::CiphertextTooShort
            | Error::PlaintextTooLong
            | Error::InvalidPrivateKey
            | Error::RsaDecryptionFailed
            | Error::InvalidUtf8 => ErrorKind::Crypto,
            Error::UnknownKdf
            | Error::KdfParams
            | Error::KdfFailed
            | Error::InvalidSessionKey
            | Error::UserKeyNotDecrypted
            | Error::OrgKeyNotFound
            | Error::Unauthorized => ErrorKind::Auth,
            Error::StaticWithoutValue
            | Error::FileWithoutSource
            | Error::KeyPathNotFound
            | Error::NotAScalar
            | Error::SecretWithoutData
            | Error::SecretKeyNotFound
            | Error::ItemWithoutId
            | Error::OutOfTurn
            | Error::NoManifests => ErrorKind::Config,
            Error::CipherNotFound | Error::NotFound => ErrorKind::Resolution,
            Error::RateLimited | Error::RequestFailed | Error::RotationsFailed => ErrorKind::Transport,
            Error::ToolFailed => ErrorKind::Subprocess,
            Error::FileFailed => ErrorKind::Io,
        }
    }
}

/// A result over bytes, with the bytes as a sequence.
pub open spec fn bytes_result(r: Result<Vec<u8>, Error>) -> Result<Seq<u8>, Error> {
    match r {
        Ok(v) => Ok(v@),
        Err(e) => Err(e),
    }
}

/// A result over text, with the text as a sequence of characters.
pub open spec fn text_result(r: Result<String, Error>) -> Result<Seq<char>, Error> {
    match r {
        Ok(s) => Ok(s@),
        Err(e) => Err(e),
    }
}

} // verus!

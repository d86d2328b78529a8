use vstd::prelude::*;

verus! {

/// Failures of the cipher layer once it runs.
#[derive(Clone, Debug, PartialEq, Eq)]
pub enum EncryptionError {
    InitError(EncryptionSecretError),
    /// The cipher named here failed: no key, no randomness, or data that
    /// does not authenticate.
    CipherFailed(String),
}

/// The cipher layer could not be set up.
#[derive(Clone, Debug, PartialEq, Eq)]
pub enum EncryptorInitError {
    /// The cipher named here cannot be built.
    AlgorithmError(String),
    EncryptionSecretError(EncryptionSecretError),
}

/// The secret does not fit the chosen cipher.
#[derive(Clone, Debug, PartialEq, Eq)]
pub enum EncryptionSecretError {
    Password(PasswordError),
    Key(EncryptionKeyError),
}

#[derive(Clone, Debug, PartialEq, Eq)]
pub enum EncryptionKeyError {
    KeyfileNotProvided,
    FailedToFindKeyfile(String),
    /// Key files are not supported; the path that was given.
    KeyfileNotSupported(String),
}

#[derive(Clone, Debug, PartialEq, Eq)]
pub enum PasswordError {
    PasswordsDoNotMatch,
    PasswordEmpty,
    HashingError(HashingError),
    InputError(InputError),
}

#[derive(Clone, Debug, PartialEq, Eq)]
pub enum HashingError {
    UnrecognisedAlgorithm(String),
    UnrecognisedAlgorithmLength(usize),
}

#[derive(Clone, Debug, PartialEq, Eq)]
pub enum InputError {
    UserInputFailed(String),
}

/// A path could not be rewritten.
#[derive(Clone, Debug, PartialEq, Eq)]
pub enum PathRewriteError {
    TypeConversionError(String),
    /// The path has no final component; the path.
    FileNameError(String),
}

/// One file of a directory operation that could not be processed.
#[derive(Clone, Debug, PartialEq, Eq)]
pub struct JobFailure {
    pub input: String,
    pub reason: String,
}

/// Failures of a directory-wide compression.
#[derive(Clone, Debug, PartialEq, Eq)]
pub enum CompressionError {
    FailedToBuildThreadPool(String),
    FailedToWalkDirectory(String),
    IOError(String),
    PathRewriteError(PathRewriteError),
    /// Every file that failed, with why; the others were processed.
    JobsFailed(Vec<JobFailure>),
}

/// Failures of a directory-wide decompression.
#[derive(Clone, Debug, PartialEq, Eq)]
pub enum DecompressionError {
    FailedToBuildThreadPool(String),
    FailedToWalkDirectory(String),
    IOError(String),
    PathRewriteError(PathRewriteError),
    /// Every file that failed, with why; the others were processed.
    JobsFailed(Vec<JobFailure>),
}

/// The compression layer could not be set up.
#[derive(Clone, Debug, PartialEq, Eq)]
pub enum CompressorInitError {
    /// The codec named here cannot be built.
    AlgorithmError(String),
}

/// The signing layer could not be set up.
#[derive(Clone, Debug, PartialEq, Eq)]
pub enum SignerInitError {
    /// The scheme named here cannot be built.
    AlgorithmError(String),
}

/// A pipeline could not be assembled.
#[derive(Clone, Debug, PartialEq, Eq)]
pub enum PipelineBuildError {
    CompressInit(CompressorInitError),
    SignerInit(SignerInitError),
    EncryptorInit(EncryptorInitError),
    /// A required stage was never supplied; its name.
    MissingStage(String),
}

/// Failures of one file's compression pass.
#[derive(Clone, Debug, PartialEq, Eq)]
pub enum PipelineCompressionError {
    Generic(String),
    HashingError(HashingError),
    PasswordError(PasswordError),
    /// An algorithm failed on the data; which one.
    IOError(String),
    CompressionError(CompressionError),
    EncryptionError(EncryptionError),
    EncryptionSecretError(EncryptionSecretError),
    EncryptorInitError(EncryptorInitError),
    CompressorInitError(CompressorInitError),
}

/// Failures of one file's decompression pass.
#[derive(Clone, Debug, PartialEq, Eq)]
pub enum PipelineDecompressionError {
    Generic(String),
    HashingError(HashingError),
    PasswordError(PasswordError),
    /// The data could not be decoded; by which algorithm.
    IOError(String),
    DecompressionError(DecompressionError),
    EncryptionError(EncryptionError),
    EncryptionSecretError(EncryptionSecretError),
    DecryptorInitError(EncryptorInitError),
    CompressionInitError(CompressorInitError),
}

/// Failures reported to the user of the command line.
#[derive(Clone, Debug, PartialEq, Eq)]
pub enum RuntimeError {
    /// The operation named here is not supported.
    NotYetImplemented(String),
    FileNotFound(String),
}

/// Any failure of the library, as one type.
#[derive(Clone, Debug, PartialEq, Eq)]
pub enum ZapError {
    NotImplemented(String),
    Generic(String),
    HashingError(HashingError),
    PasswordError(PasswordError),
    IOError(String),
    CompressionError(CompressionError),
    DecompressionError(DecompressionError),
    EncryptionError(EncryptionError),
    EncryptionSecretError(EncryptionSecretError),
    FailedToInitialiseLogger(String),
}

} // verus!

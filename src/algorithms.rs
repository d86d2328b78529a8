use vstd::prelude::*;

verus! {

/// Cipher applied to every file of one operation.
#[derive(Clone, Copy, Debug, PartialEq, Eq, Structural)]
pub enum EncryptionType {
    Passthrough,
    XChaCha,
    ChaCha,
    AesGcm,
}

/// Codec applied to every file of one operation.
#[derive(Clone, Copy, Debug, PartialEq, Eq, Structural)]
pub enum CompressionType {
    Passthrough,
    Lz4,
    Gzip,
    Snappy,
}

/// Integrity layer; only the identity scheme exists so far.
#[derive(Clone, Copy, Debug, PartialEq, Eq, Structural)]
pub enum SigningType {
    Passthrough,
}

impl Default for SigningType {
    fn default() -> (r: SigningType)
        ensures
            r == SigningType::Passthrough,
    {
        SigningType::Passthrough
    }
}

/// Gzip effort. A numeric level above the best one counts as the best one.
#[derive(Clone, Copy, Debug, PartialEq, Eq, Structural)]
pub enum CompressionLevel {
    Fastest,
    Default,
    Best,
    Numeric(u32),
}

/// The highest gzip level.
pub const BEST_LEVEL: u32 = 9;

pub open spec fn level_value(l: CompressionLevel) -> u32 {
    match l {
        CompressionLevel::Fastest => 1,
        CompressionLevel::Default => 6,
        CompressionLevel::Best => BEST_LEVEL,
        CompressionLevel::Numeric(n) => if n > BEST_LEVEL {
            BEST_LEVEL
        } else {
            n
        },
    }
}

impl CompressionLevel {
    /// The numeric gzip level, between 0 and 9.
    pub fn level(&self) -> (r: u32)
        ensures
            r == level_value(*self),
            r <= BEST_LEVEL,
    {
        match self {
            CompressionLevel::Fastest => 1,
            CompressionLevel::Default => 6,
            CompressionLevel::Best => BEST_LEVEL,
            CompressionLevel::Numeric(n) => if *n > BEST_LEVEL {
                BEST_LEVEL
            } else {
                *n
            },
        }
    }
}

/// Key material for the cipher, shared read-only by every file of one operation.
#[derive(Clone, Debug, PartialEq, Eq)]
pub enum EncryptionSecret {
    Absent,
    Password(Vec<u8>),
    Key(String),
}

} // verus!

use vstd::prelude::*;
use vstd::slice::{slice_subrange, slice_to_vec};
use crate::algorithms::{
    level_value, CompressionLevel, CompressionType, EncryptionSecret, EncryptionType, SigningType,
};
use crate::ciphers::{
    aes_gcm_open, aes_gcm_opened, aes_gcm_seal, aes_gcm_sealed, argon2_key, chacha_open,
    chacha_opened, chacha_seal, chacha_sealed, derive_key, random_bytes, xchacha_open,
    xchacha_opened, xchacha_seal, xchacha_sealed,
};
use crate::codecs::{
    gzip_decode, gzip_decoded, gzip_encode, gzip_encoded, lz4_decode, lz4_decoded, lz4_encode,
    lz4_encoded, snappy_decode, snappy_decoded, snappy_encode, snappy_encoded,
};
use crate::error::{
    EncryptionError, EncryptionKeyError, EncryptionSecretError, EncryptorInitError, PasswordError,
    PipelineBuildError, PipelineCompressionError, PipelineDecompressionError,
};

verus! {

/// Length of the random salt from which the key is derived; it leads every
/// encrypted file.
pub const SALT_LEN: usize = 16;

/// Length of the nonce that follows the salt in an encrypted file.
pub open spec fn nonce_len(e: EncryptionType) -> nat {
    match e {
        EncryptionType::Passthrough => 0,
        EncryptionType::XChaCha => 24,
        EncryptionType::ChaCha => 12,
        EncryptionType::AesGcm => 12,
    }
}

pub fn nonce_size(e: &EncryptionType) -> (r: usize)
    ensures
        r == nonce_len(*e),
{
    match e {
        EncryptionType::Passthrough => 0,
        EncryptionType::XChaCha => 24,
        EncryptionType::ChaCha => 12,
        EncryptionType::AesGcm => 12,
    }
}

/// The name under which a cipher is reported.
pub open spec fn cipher_name(e: EncryptionType) -> Seq<char> {
    match e {
        EncryptionType::Passthrough => "passthrough"@,
        EncryptionType::XChaCha => "xchacha20poly1305"@,
        EncryptionType::ChaCha => "chacha20poly1305"@,
        EncryptionType::AesGcm => "aes256gcm"@,
    }
}

fn cipher_label(e: &EncryptionType) -> (r: String)
    ensures
        r@ == cipher_name(*e),
{
    match e {
        EncryptionType::XChaCha => String::from_str("xchacha20poly1305"),
        EncryptionType::ChaCha => String::from_str("chacha20poly1305"),
        EncryptionType::AesGcm => String::from_str("aes256gcm"),
        EncryptionType::Passthrough => String::from_str("passthrough"),
    }
}

/// The password a secret supplies; empty when it supplies none.
pub open spec fn secret_password(s: EncryptionSecret) -> Seq<u8> {
    match s {
        EncryptionSecret::Password(pw) => pw@,
        _ => Seq::empty(),
    }
}

/// Whether the cipher layer can be set up: the identity always, a real
/// cipher from a non-empty password.
pub open spec fn encryptor_ready(e: EncryptionType, s: EncryptionSecret) -> bool {
    e == EncryptionType::Passthrough || (s is Password && secret_password(s).len() > 0)
}

/// The error with which a real cipher refuses a secret: a key file is not
/// supported, and a missing or empty password is refused.
pub open spec fn is_encryptor_init_error(
    e: EncryptionType,
    s: EncryptionSecret,
    err: EncryptorInitError,
) -> bool {
    e != EncryptionType::Passthrough && match s {
        EncryptionSecret::Key(path) => err matches EncryptorInitError::EncryptionSecretError(
            EncryptionSecretError::Key(EncryptionKeyError::KeyfileNotSupported(p)),
        ) && p@ == path@,
        _ => err == EncryptorInitError::EncryptionSecretError(
            EncryptionSecretError::Password(PasswordError::PasswordEmpty),
        ),
    }
}

/// Sets up the cipher layer for a secret.
pub fn encryptor_init(e: &EncryptionType, s: &EncryptionSecret) -> (r: Result<
    (),
    EncryptorInitError,
>)
    ensures
        r is Ok <==> encryptor_ready(*e, *s),
        r matches Err(err) ==> is_encryptor_init_error(*e, *s, err),
{
    match e {
        EncryptionType::Passthrough => Ok(()),
        _ => match s {
            EncryptionSecret::Key(path) => Err(
                EncryptorInitError::EncryptionSecretError(
                    EncryptionSecretError::Key(
                        EncryptionKeyError::KeyfileNotSupported(path.clone()),
                    ),
                ),
            ),
            EncryptionSecret::Password(pw) if pw.len() > 0 => Ok(()),
            _ => Err(
                EncryptorInitError::EncryptionSecretError(
                    EncryptionSecretError::Password(PasswordError::PasswordEmpty),
                ),
            ),
        },
    }
}

/// What the chosen cipher seals under a key and nonce.
pub open spec fn sealed_with(e: EncryptionType, key: Seq<u8>, nonce: Seq<u8>, plain: Seq<u8>) -> Option<
    Seq<u8>,
> {
    match e {
        EncryptionType::Passthrough => Some(plain),
        EncryptionType::XChaCha => xchacha_sealed(key, nonce, plain),
        EncryptionType::ChaCha => chacha_sealed(key, nonce, plain),
        EncryptionType::AesGcm => aes_gcm_sealed(key, nonce, plain),
    }
}

/// What the chosen cipher opens under a key and nonce.
pub open spec fn opened_with(e: EncryptionType, key: Seq<u8>, nonce: Seq<u8>, sealed: Seq<u8>) -> Option<
    Seq<u8>,
> {
    match e {
        EncryptionType::Passthrough => Some(sealed),
        EncryptionType::XChaCha => xchacha_opened(key, nonce, sealed),
        EncryptionType::ChaCha => chacha_opened(key, nonce, sealed),
        EncryptionType::AesGcm => aes_gcm_opened(key, nonce, sealed),
    }
}

/// An encrypted file: the salt, the nonce, then the sealed bytes under the
/// key derived from the password and salt. The identity passes bytes through.
pub open spec fn encrypted(
    e: EncryptionType,
    password: Seq<u8>,
    salt: Seq<u8>,
    nonce: Seq<u8>,
    plain: Seq<u8>,
) -> Option<Seq<u8>> {
    if e == EncryptionType::Passthrough {
        Some(plain)
    } else {
        match argon2_key(password, salt) {
            Some(key) => match sealed_with(e, key, nonce, plain) {
                Some(c) => Some(salt + nonce + c),
                None => None,
            },
            None => None,
        }
    }
}

/// The plaintext of an encrypted file, `None` where it is too short or does
/// not authenticate under the password.
pub open spec fn decrypted(e: EncryptionType, password: Seq<u8>, d: Seq<u8>) -> Option<Seq<u8>> {
    if e == EncryptionType::Passthrough {
        Some(d)
    } else if d.len() < SALT_LEN + nonce_len(e) {
        None
    } else {
        let n = SALT_LEN + nonce_len(e);
        match argon2_key(password, d.subrange(0, SALT_LEN as int)) {
            Some(key) => opened_with(
                e,
                key,
                d.subrange(SALT_LEN as int, n as int),
                d.subrange(n as int, d.len() as int),
            ),
            None => None,
        }
    }
}

/// What the compression layer makes of the bytes, `None` where it fails.
pub open spec fn compressed(c: CompressionType, level: u32, d: Seq<u8>) -> Option<Seq<u8>> {
    match c {
        CompressionType::Passthrough => Some(d),
        CompressionType::Lz4 => lz4_encoded(d),
        CompressionType::Gzip => gzip_encoded(d, level),
        CompressionType::Snappy => snappy_encoded(d),
    }
}

/// What the decompression layer makes of the bytes, `None` where it cannot decode them.
pub open spec fn decompressed(c: CompressionType, d: Seq<u8>) -> Option<Seq<u8>> {
    match c {
        CompressionType::Passthrough => Some(d),
        CompressionType::Lz4 => lz4_decoded(d),
        CompressionType::Gzip => gzip_decoded(d),
        CompressionType::Snappy => snappy_decoded(d),
    }
}

/// What the signing layer passes on: the identity scheme passes every byte
/// through and adds no trailing block.
pub open spec fn signed(s: SigningType, d: Seq<u8>) -> Seq<u8> {
    match s {
        SigningType::Passthrough => d,
    }
}

/// What the verifying layer passes on; the identity scheme accepts every input.
pub open spec fn verified(s: SigningType, d: Seq<u8>) -> Seq<u8> {
    match s {
        SigningType::Passthrough => d,
    }
}

/// The bytes written for a file: signer first, then compressor, then
/// cipher (with the given salt and nonce); `None` where a layer fails.
pub open spec fn pipeline_compressed(
    e: EncryptionType,
    password: Seq<u8>,
    c: CompressionType,
    level: CompressionLevel,
    s: SigningType,
    salt: Seq<u8>,
    nonce: Seq<u8>,
    d: Seq<u8>,
) -> Option<Seq<u8>> {
    match compressed(c, level_value(level), signed(s, d)) {
        Some(z) => encrypted(e, password, salt, nonce, z),
        None => None,
    }
}

/// The bytes restored from an archived file: the exact mirror, decipher,
/// then decompress, then verify; `None` where a layer rejects the data.
pub open spec fn pipeline_decompressed(
    e: EncryptionType,
    password: Seq<u8>,
    c: CompressionType,
    s: SigningType,
    d: Seq<u8>,
) -> Option<Seq<u8>> {
    match decrypted(e, password, d) {
        Some(z) => match decompressed(c, z) {
            Some(plain) => Some(verified(s, plain)),
            None => None,
        },
        None => None,
    }
}

/// The spelling of a codec in error reports.
pub open spec fn codec_name(c: CompressionType) -> Seq<char> {
    match c {
        CompressionType::Passthrough => "passthrough"@,
        CompressionType::Lz4 => "lz4"@,
        CompressionType::Gzip => "gzip"@,
        CompressionType::Snappy => "snappy"@,
    }
}

fn codec_label(c: &CompressionType) -> (r: String)
    ensures
        r@ == codec_name(*c),
{
    match c {
        CompressionType::Passthrough => String::from_str("passthrough"),
        CompressionType::Lz4 => String::from_str("lz4"),
        CompressionType::Gzip => String::from_str("gzip"),
        CompressionType::Snappy => String::from_str("snappy"),
    }
}

fn seal(e: &EncryptionType, key: &[u8], nonce: &[u8], plain: &[u8]) -> (r: Option<Vec<u8>>)
    requires
        nonce@.len() == nonce_len(*e),
    ensures
        match r {
            Some(v) => sealed_with(*e, key@, nonce@, plain@) == Some(v@) && opened_with(
                *e,
                key@,
                nonce@,
                v@,
            ) == Some(plain@),
            None => sealed_with(*e, key@, nonce@, plain@) is None,
        },
{
    match e {
        EncryptionType::Passthrough => Some(slice_to_vec(plain)),
        EncryptionType::XChaCha => xchacha_seal(key, nonce, plain),
        EncryptionType::ChaCha => chacha_seal(key, nonce, plain),
        EncryptionType::AesGcm => aes_gcm_seal(key, nonce, plain),
    }
}

fn open(e: &EncryptionType, key: &[u8], nonce: &[u8], sealed: &[u8]) -> (r: Option<Vec<u8>>)
    requires
        nonce@.len() == nonce_len(*e),
    ensures
        match r {
            Some(v) => opened_with(*e, key@, nonce@, sealed@) == Some(v@),
            None => opened_with(*e, key@, nonce@, sealed@) is None,
        },
{
    match e {
        EncryptionType::Passthrough => Some(slice_to_vec(sealed)),
        EncryptionType::XChaCha => xchacha_open(key, nonce, sealed),
        EncryptionType::ChaCha => chacha_open(key, nonce, sealed),
        EncryptionType::AesGcm => aes_gcm_open(key, nonce, sealed),
    }
}

/// `salt`, then `nonce`, then `body`, in one vector.
fn frame(salt: &[u8], nonce: &[u8], body: Vec<u8>) -> (r: Vec<u8>)
    ensures
        r@ == salt@ + nonce@ + body@,
{
    let mut out = slice_to_vec(salt);
    let mut n = slice_to_vec(nonce);
    let mut b = body;
    out.append(&mut n);
    out.append(&mut b);
    out
}

/// Encrypts `plain` for a ready cipher layer with the given salt and nonce.
fn encrypt_with(
    e: &EncryptionType,
    password: &[u8],
    salt: &[u8],
    nonce: &[u8],
    plain: Vec<u8>,
) -> (r: Option<Vec<u8>>)
    requires
        *e != EncryptionType::Passthrough ==> salt@.len() == SALT_LEN && nonce@.len() == nonce_len(
            *e,
        ),
    ensures
        match r {
            Some(v) => encrypted(*e, password@, salt@, nonce@, plain@) == Some(v@),
            None => encrypted(*e, password@, salt@, nonce@, plain@) is None,
        },
        r matches Some(v) ==> decrypted(*e, password@, v@) == Some(plain@),
{
    if let EncryptionType::Passthrough = e {
        return Some(plain);
    }
    let key = derive_key(password, salt)?;
    let body = seal(e, key.as_slice(), nonce, plain.as_slice())?;
    let out = frame(salt, nonce, body);
    proof {
        let n = SALT_LEN + nonce_len(*e);
        assert(out@.subrange(0, SALT_LEN as int) =~= salt@);
        assert(out@.subrange(SALT_LEN as int, n as int) =~= nonce@);
        assert(out@.subrange(n as int, out@.len() as int) =~= body@);
    }
    Some(out)
}

/// Decrypts an encrypted file for a ready cipher layer.
fn decrypt_with(e: &EncryptionType, password: &[u8], data: Vec<u8>) -> (r: Option<Vec<u8>>)
    ensures
        match decrypted(*e, password@, data@) {
            Some(p) => r matches Some(v) && v@ == p,
            None => r is None,
        },
{
    if let EncryptionType::Passthrough = e {
        return Some(data);
    }
    let n = nonce_size(e);
    let len = data.len();
    if len < SALT_LEN + n {
        return None;
    }
    let all = data.as_slice();
    let salt = slice_subrange(all, 0, SALT_LEN);
    let nonce = slice_subrange(all, SALT_LEN, SALT_LEN + n);
    let body = slice_subrange(all, SALT_LEN + n, len);
    let key = derive_key(password, salt)?;
    open(e, key.as_slice(), nonce, body)
}

/// The password bytes a secret supplies.
fn password_bytes(s: &EncryptionSecret) -> (r: Vec<u8>)
    ensures
        r@ == secret_password(*s),
{
    match s {
        EncryptionSecret::Password(p) => slice_to_vec(p.as_slice()),
        _ => Vec::new(),
    }
}

/// One file's transform chain: the algorithm choices, the secret, and the
/// source and destination paths.
pub struct ProcessingPipeline {
    pub encryption: EncryptionType,
    pub encryption_secret: EncryptionSecret,
    pub compression: CompressionType,
    pub compression_level: CompressionLevel,
    pub signing: SigningType,
    pub source: String,
    pub destination: String,
}

impl ProcessingPipeline {
    pub open spec fn password(&self) -> Seq<u8> {
        secret_password(self.encryption_secret)
    }

    /// Whether the cipher layer can be set up for this pipeline's secret.
    pub open spec fn ready(&self) -> bool {
        encryptor_ready(self.encryption, self.encryption_secret)
    }

    /// The bytes written for `d` with the given salt and nonce.
    pub open spec fn written(&self, salt: Seq<u8>, nonce: Seq<u8>, d: Seq<u8>) -> Option<Seq<u8>> {
        pipeline_compressed(
            self.encryption,
            self.password(),
            self.compression,
            self.compression_level,
            self.signing,
            salt,
            nonce,
            d,
        )
    }

    /// The bytes restored from `d`.
    pub open spec fn restored(&self, d: Seq<u8>) -> Option<Seq<u8>> {
        pipeline_decompressed(self.encryption, self.password(), self.compression, self.signing, d)
    }

    /// Whether `e` is the error a write pass reports when a layer fails on
    /// data: the codec, or the cipher (no key, no randomness).
    pub open spec fn is_layer_failure(&self, e: PipelineCompressionError) -> bool {
        (e matches PipelineCompressionError::IOError(n) && n@ == codec_name(self.compression))
            || (e matches PipelineCompressionError::EncryptionError(
            EncryptionError::CipherFailed(n),
        ) && n@ == cipher_name(self.encryption))
    }

    /// A builder with no stage supplied yet.
    pub fn builder() -> (r: ProcessingPipelineBuilder)
        ensures
            r.is_empty(),
    {
        ProcessingPipelineBuilder::new()
    }

    /// Assembles a pipeline, setting up each layer in turn so that a secret
    /// the cipher cannot use is refused before any data is touched.
    pub fn new(
        encryption: EncryptionType,
        encryption_secret: EncryptionSecret,
        compression: CompressionType,
        compression_level: CompressionLevel,
        signing: SigningType,
        source: String,
        destination: String,
    ) -> (r: Result<ProcessingPipeline, PipelineBuildError>)
        ensures
            r is Ok <==> encryptor_ready(encryption, encryption_secret),
            r matches Ok(p) ==> (p.encryption == encryption && p.encryption_secret
                == encryption_secret && p.compression == compression && p.compression_level
                == compression_level && p.signing == signing && p.source == source
                && p.destination == destination),
            r matches Err(e) ==> (e matches PipelineBuildError::EncryptorInit(ie)
                && is_encryptor_init_error(encryption, encryption_secret, ie)),
    {
        match encryptor_init(&encryption, &encryption_secret) {
            Err(e) => Err(PipelineBuildError::EncryptorInit(e)),
            Ok(()) => Ok(
                ProcessingPipeline {
                    encryption,
                    encryption_secret,
                    compression,
                    compression_level,
                    signing,
                    source,
                    destination,
                },
            ),
        }
    }

    /// The signing stage of the write path: the payload it passes on and the
    /// trailing block it asks to append.
    pub fn build_signer(&self, data: Vec<u8>) -> (r: (Vec<u8>, Option<Vec<u8>>))
        ensures
            r.0@ == signed(self.signing, data@),
            r.1 is None,
    {
        match self.signing {
            SigningType::Passthrough => (data, None),
        }
    }

    /// The compression stage of the write path.
    pub fn build_compressor(&self, data: Vec<u8>) -> (r: Result<Vec<u8>, PipelineCompressionError>)
        ensures
            match compressed(self.compression, level_value(self.compression_level), data@) {
                Some(v) => r matches Ok(o) && o@ == v,
                None => r matches Err(PipelineCompressionError::IOError(n)) && n@ == codec_name(
                    self.compression,
                ),
            },
            r matches Ok(o) ==> decompressed(self.compression, o@) == Some(data@),
    {
        let out = match self.compression {
            CompressionType::Passthrough => {
                return Ok(data);
            },
            CompressionType::Lz4 => lz4_encode(data.as_slice()),
            CompressionType::Gzip => gzip_encode(data.as_slice(), self.compression_level.level()),
            CompressionType::Snappy => snappy_encode(data.as_slice()),
        };
        match out {
            Some(v) => Ok(v),
            None => Err(PipelineCompressionError::IOError(codec_label(&self.compression))),
        }
    }

    /// The cipher stage of the write path, with the salt and nonce it uses:
    /// the key is derived from the password and salt, and the file carries
    /// salt, nonce and sealed bytes. The identity hands the bytes through.
    pub fn build_encryptor(&self, data: Vec<u8>, salt: &[u8], nonce: &[u8]) -> (r: Result<
        Vec<u8>,
        PipelineCompressionError,
    >)
        requires
            self.encryption != EncryptionType::Passthrough ==> salt@.len() == SALT_LEN
                && nonce@.len() == nonce_len(self.encryption),
        ensures
            !self.ready() ==> (r matches Err(e) && e matches PipelineCompressionError::EncryptorInitError(ie)
                && is_encryptor_init_error(self.encryption, self.encryption_secret, ie)),
            self.ready() ==> match encrypted(
                self.encryption,
                self.password(),
                salt@,
                nonce@,
                data@,
            ) {
                Some(v) => r matches Ok(o) && o@ == v,
                None => r matches Err(
                    PipelineCompressionError::EncryptionError(EncryptionError::CipherFailed(n)),
                ) && n@ == cipher_name(self.encryption),
            },
            r matches Ok(o) ==> decrypted(self.encryption, self.password(), o@) == Some(data@),
    {
        if let Err(e) = encryptor_init(&self.encryption, &self.encryption_secret) {
            return Err(PipelineCompressionError::EncryptorInitError(e));
        }
        if let EncryptionType::Passthrough = self.encryption {
            return Ok(data);
        }
        let pw = password_bytes(&self.encryption_secret);
        match encrypt_with(&self.encryption, pw.as_slice(), salt, nonce, data) {
            Some(v) => Ok(v),
            None => Err(
                PipelineCompressionError::EncryptionError(
                    EncryptionError::CipherFailed(cipher_label(&self.encryption)),
                ),
            ),
        }
    }

    /// The write path for one file's bytes with a given salt and nonce:
    /// signer, compressor, cipher, in that order. Gives the bytes to store
    /// and the signer's trailing block.
    pub fn compress_data_with(&self, data: Vec<u8>, salt: &[u8], nonce: &[u8]) -> (r: Result<
        (Vec<u8>, Option<Vec<u8>>),
        PipelineCompressionError,
    >)
        requires
            self.encryption != EncryptionType::Passthrough ==> salt@.len() == SALT_LEN
                && nonce@.len() == nonce_len(self.encryption),
        ensures
            !self.ready() ==> (r matches Err(e) && e matches PipelineCompressionError::EncryptorInitError(ie)
                && is_encryptor_init_error(self.encryption, self.encryption_secret, ie)),
            self.ready() ==> match self.written(salt@, nonce@, data@) {
                Some(v) => r matches Ok(o) && o.0@ == v && o.1 is None,
                None => r matches Err(e) && self.is_layer_failure(e),
            },
            self.ready() && compressed(
                self.compression,
                level_value(self.compression_level),
                signed(self.signing, data@),
            ) is None ==> (r matches Err(PipelineCompressionError::IOError(n)) && n@ == codec_name(
                self.compression,
            )),
            r matches Ok(o) ==> self.restored(o.0@) == Some(data@),
    {
        if let Err(e) = encryptor_init(&self.encryption, &self.encryption_secret) {
            return Err(PipelineCompressionError::EncryptorInitError(e));
        }
        let (payload, trailer) = self.build_signer(data);
        let packed = self.build_compressor(payload)?;
        let sealed = self.build_encryptor(packed, salt, nonce)?;
        Ok((sealed, trailer))
    }

    /// The write path for one file's bytes, with a fresh random salt and
    /// nonce for a real cipher. Whatever the draw, what it stores restores
    /// to the input.
    pub fn compress_data(&self, data: Vec<u8>) -> (r: Result<
        (Vec<u8>, Option<Vec<u8>>),
        PipelineCompressionError,
    >)
        ensures
            !self.ready() ==> (r matches Err(e) && e matches PipelineCompressionError::EncryptorInitError(ie)
                && is_encryptor_init_error(self.encryption, self.encryption_secret, ie)),
            self.encryption == EncryptionType::Passthrough ==> match self.written(
                Seq::empty(),
                Seq::empty(),
                data@,
            ) {
                Some(v) => r matches Ok(o) && o.0@ == v && o.1 is None,
                None => r matches Err(e) && self.is_layer_failure(e),
            },
            self.encryption == EncryptionType::Passthrough && self.compression
                == CompressionType::Passthrough ==> (r matches Ok(o) && o.0@ == data@),
            r matches Ok(o) ==> self.restored(o.0@) == Some(data@) && o.1 is None && exists|
                salt: Seq<u8>,
                nonce: Seq<u8>,
            |
                #![trigger self.written(salt, nonce, data@)]
                self.written(salt, nonce, data@) == Some(o.0@),
            self.ready() ==> (r matches Err(e) ==> self.is_layer_failure(e)),
    {
        if let Err(e) = encryptor_init(&self.encryption, &self.encryption_secret) {
            return Err(PipelineCompressionError::EncryptorInitError(e));
        }
        let none: Vec<u8> = Vec::new();
        if let EncryptionType::Passthrough = self.encryption {
            return self.compress_data_with(data, none.as_slice(), none.as_slice());
        }
        let salt = match random_bytes(SALT_LEN) {
            Some(s) => s,
            None => {
                return Err(
                    PipelineCompressionError::EncryptionError(
                        EncryptionError::CipherFailed(cipher_label(&self.encryption)),
                    ),
                );
            },
        };
        let nonce = match random_bytes(nonce_size(&self.encryption)) {
            Some(n) => n,
            None => {
                return Err(
                    PipelineCompressionError::EncryptionError(
                        EncryptionError::CipherFailed(cipher_label(&self.encryption)),
                    ),
                );
            },
        };
        self.compress_data_with(data, salt.as_slice(), nonce.as_slice())
    }

    /// The cipher stage of the read path.
    pub fn build_dencryptor(&self, data: Vec<u8>) -> (r: Result<
        Vec<u8>,
        PipelineDecompressionError,
    >)
        ensures
            !self.ready() ==> (r matches Err(e) && e matches PipelineDecompressionError::DecryptorInitError(ie)
                && is_encryptor_init_error(self.encryption, self.encryption_secret, ie)),
            self.ready() ==> match decrypted(self.encryption, self.password(), data@) {
                Some(p) => r matches Ok(o) && o@ == p,
                None => r matches Err(
                    PipelineDecompressionError::EncryptionError(EncryptionError::CipherFailed(n)),
                ) && n@ == cipher_name(self.encryption),
            },
    {
        if let Err(e) = encryptor_init(&self.encryption, &self.encryption_secret) {
            return Err(PipelineDecompressionError::DecryptorInitError(e));
        }
        let pw = password_bytes(&self.encryption_secret);
        match decrypt_with(&self.encryption, pw.as_slice(), data) {
            Some(v) => Ok(v),
            None => Err(
                PipelineDecompressionError::EncryptionError(
                    EncryptionError::CipherFailed(cipher_label(&self.encryption)),
                ),
            ),
        }
    }

    /// The decompression stage of the read path.
    pub fn build_decompressor(&self, data: Vec<u8>) -> (r: Result<
        Vec<u8>,
        PipelineDecompressionError,
    >)
        ensures
            match decompressed(self.compression, data@) {
                Some(plain) => r matches Ok(v) && v@ == plain,
                None => r matches Err(PipelineDecompressionError::IOError(n)) && n@ == codec_name(
                    self.compression,
                ),
            },
    {
        let out = match self.compression {
            CompressionType::Passthrough => {
                return Ok(data);
            },
            CompressionType::Lz4 => lz4_decode(data.as_slice()),
            CompressionType::Gzip => gzip_decode(data.as_slice()),
            CompressionType::Snappy => snappy_decode(data.as_slice()),
        };
        match out {
            Some(v) => Ok(v),
            None => Err(PipelineDecompressionError::IOError(codec_label(&self.compression))),
        }
    }

    /// The verifying stage of the read path: the plaintext it passes on and
    /// the value its finalize step returns.
    pub fn build_verifier(&self, data: Vec<u8>) -> (r: Result<
        (Vec<u8>, Option<Vec<u8>>),
        PipelineDecompressionError,
    >)
        ensures
            r matches Ok(out) && out.0@ == verified(self.signing, data@) && out.1 is None,
    {
        match self.signing {
            SigningType::Passthrough => Ok((data, None)),
        }
    }

    /// The read path for one archived file's bytes: cipher, decompressor,
    /// verifier, the mirror of the write path.
    pub fn decompress_data(&self, data: Vec<u8>) -> (r: Result<
        (Vec<u8>, Option<Vec<u8>>),
        PipelineDecompressionError,
    >)
        ensures
            !self.ready() ==> (r matches Err(e) && e matches PipelineDecompressionError::DecryptorInitError(ie)
                && is_encryptor_init_error(self.encryption, self.encryption_secret, ie)),
            self.ready() ==> match decrypted(self.encryption, self.password(), data@) {
                None => r matches Err(
                    PipelineDecompressionError::EncryptionError(EncryptionError::CipherFailed(n)),
                ) && n@ == cipher_name(self.encryption),
                Some(z) => match decompressed(self.compression, z) {
                    None => r matches Err(PipelineDecompressionError::IOError(n)) && n@
                        == codec_name(self.compression),
                    Some(p) => r matches Ok(o) && o.0@ == verified(self.signing, p) && o.1 is None,
                },
            },
    {
        let opened = self.build_dencryptor(data)?;
        let plain = self.build_decompressor(opened)?;
        self.build_verifier(plain)
    }
}

/// Collects the stages of a pipeline one by one; `build` assembles it once
/// every stage has been supplied.
pub struct ProcessingPipelineBuilder {
    pub encryption: Option<EncryptionType>,
    pub encryption_secret: Option<EncryptionSecret>,
    pub compression: Option<CompressionType>,
    pub compression_level: Option<CompressionLevel>,
    pub signing: Option<SigningType>,
    pub source: Option<String>,
    pub destination: Option<String>,
}

impl ProcessingPipelineBuilder {
    pub open spec fn is_empty(&self) -> bool {
        &&& self.encryption is None
        &&& self.encryption_secret is None
        &&& self.compression is None
        &&& self.compression_level is None
        &&& self.signing is None
        &&& self.source is None
        &&& self.destination is None
    }

    /// Whether every stage has been supplied.
    pub open spec fn is_complete(&self) -> bool {
        &&& self.encryption is Some
        &&& self.encryption_secret is Some
        &&& self.compression is Some
        &&& self.compression_level is Some
        &&& self.signing is Some
        &&& self.source is Some
        &&& self.destination is Some
    }

    pub fn new() -> (r: ProcessingPipelineBuilder)
        ensures
            r.is_empty(),
    {
        ProcessingPipelineBuilder {
            encryption: None,
            encryption_secret: None,
            compression: None,
            compression_level: None,
            signing: None,
            source: None,
            destination: None,
        }
    }

    /// Supplies the encryption stage.
    pub fn with_encryption(self, encryption: EncryptionType) -> (r: ProcessingPipelineBuilder)
        ensures
            r == (ProcessingPipelineBuilder { encryption: Some(encryption), ..self }),
    {
        ProcessingPipelineBuilder { encryption: Some(encryption), ..self }
    }

    /// Supplies the encryption secret stage.
    pub fn with_encryption_secret(self, encryption_secret: EncryptionSecret) -> (r: ProcessingPipelineBuilder)
        ensures
            r == (ProcessingPipelineBuilder { encryption_secret: Some(encryption_secret), ..self }),
    {
        ProcessingPipelineBuilder { encryption_secret: Some(encryption_secret), ..self }
    }

    /// Supplies the compression stage.
    pub fn with_compression(self, compression: CompressionType) -> (r: ProcessingPipelineBuilder)
        ensures
            r == (ProcessingPipelineBuilder { compression: Some(compression), ..self }),
    {
        ProcessingPipelineBuilder { compression: Some(compression), ..self }
    }

    /// Supplies the compression level stage.
    pub fn with_compression_level(self, compression_level: CompressionLevel) -> (r: ProcessingPipelineBuilder)
        ensures
            r == (ProcessingPipelineBuilder { compression_level: Some(compression_level), ..self }),
    {
        ProcessingPipelineBuilder { compression_level: Some(compression_level), ..self }
    }

    /// Supplies the signing stage.
    pub fn with_signing(self, signing: SigningType) -> (r: ProcessingPipelineBuilder)
        ensures
            r == (ProcessingPipelineBuilder { signing: Some(signing), ..self }),
    {
        ProcessingPipelineBuilder { signing: Some(signing), ..self }
    }

    /// Supplies the source stage.
    pub fn with_source(self, source: String) -> (r: ProcessingPipelineBuilder)
        ensures
            r == (ProcessingPipelineBuilder { source: Some(source), ..self }),
    {
        ProcessingPipelineBuilder { source: Some(source), ..self }
    }

    /// Supplies the destination stage.
    pub fn with_destination(self, destination: String) -> (r: ProcessingPipelineBuilder)
        ensures
            r == (ProcessingPipelineBuilder { destination: Some(destination), ..self }),
    {
        ProcessingPipelineBuilder { destination: Some(destination), ..self }
    }

    /// Assembles the pipeline; fails naming the first stage that was never
    /// supplied, or with the layer that could not be set up.
    pub fn build(self) -> (r: Result<ProcessingPipeline, PipelineBuildError>)
        ensures
            !self.is_complete() ==> (r matches Err(PipelineBuildError::MissingStage(_))),
            self.is_complete() ==> (r is Ok <==> encryptor_ready(
                self.encryption.unwrap(),
                self.encryption_secret.unwrap(),
            )),
            r matches Ok(p) ==> (Some(p.encryption) == self.encryption && Some(
                p.encryption_secret,
            ) == self.encryption_secret && Some(p.compression) == self.compression && Some(
                p.compression_level,
            ) == self.compression_level && Some(p.signing) == self.signing && Some(p.source) == self.source
                && Some(p.destination) == self.destination),
            self.is_complete() ==> (r matches Err(e) ==> e matches PipelineBuildError::EncryptorInit(ie)
                && is_encryptor_init_error(
                self.encryption.unwrap(),
                self.encryption_secret.unwrap(),
                ie,
            )),
    {
        let encryption = match self.encryption {
            Some(v) => v,
            None => {
                return Err(PipelineBuildError::MissingStage(String::from_str("encryption")));
            },
        };
        let encryption_secret = match self.encryption_secret {
            Some(v) => v,
            None => {
                return Err(PipelineBuildError::MissingStage(String::from_str("encryption secret")));
            },
        };
        let compression = match self.compression {
            Some(v) => v,
            None => {
                return Err(PipelineBuildError::MissingStage(String::from_str("compression")));
            },
        };
        let compression_level = match self.compression_level {
            Some(v) => v,
            None => {
                return Err(PipelineBuildError::MissingStage(String::from_str("compression level")));
            },
        };
        let signing = match self.signing {
            Some(v) => v,
            None => {
                return Err(PipelineBuildError::MissingStage(String::from_str("signing")));
            },
        };
        let source = match self.source {
            Some(v) => v,
            None => {
                return Err(PipelineBuildError::MissingStage(String::from_str("source")));
            },
        };
        let destination = match self.destination {
            Some(v) => v,
            None => {
                return Err(PipelineBuildError::MissingStage(String::from_str("destination")));
            },
        };
        ProcessingPipeline::new(
            encryption,
            encryption_secret,
            compression,
            compression_level,
            signing,
            source,
            destination,
        )
    }
}

/// With every layer the identity, both directions hand the bytes through
/// unchanged, whatever password, salt and nonce are given.
pub proof fn lemma_identity_is_noop(
    level: CompressionLevel,
    password: Seq<u8>,
    salt: Seq<u8>,
    nonce: Seq<u8>,
    d: Seq<u8>,
)
    ensures
        pipeline_compressed(
            EncryptionType::Passthrough,
            password,
            CompressionType::Passthrough,
            level,
            SigningType::Passthrough,
            salt,
            nonce,
            d,
        ) == Some(d),
        pipeline_decompressed(
            EncryptionType::Passthrough,
            password,
            CompressionType::Passthrough,
            SigningType::Passthrough,
            d,
        ) == Some(d),
{
}

/// A pipeline stage, or a whole pipeline, bound to the stream it runs over.
pub struct PipelineTask<T> {
    pub inner: T,
}

impl PipelineTask<()> {
    /// A task builder with nothing chosen yet.
    pub fn builder() -> (r: TaskPipelineBuilder<(), (), (), ()>)
        ensures
            r == (TaskPipelineBuilder { io: (), encryption: (), compression: (), signing: () }),
    {
        TaskPipelineBuilder::new()
    }

    /// A task that writes into `io`.
    pub fn from_writer<U>(io: U) -> (r: PipelineTask<U>)
        ensures
            r.inner == io,
    {
        PipelineTask { inner: io }
    }

    /// A task that reads from `io`.
    pub fn from_reader<U>(io: U) -> (r: PipelineTask<U>)
        ensures
            r.inner == io,
    {
        PipelineTask { inner: io }
    }
}

impl PipelineTask<ProcessingPipeline> {
    /// Runs the write path of the bound pipeline over `input`.
    pub fn compress(self, input: Vec<u8>) -> (r: Result<
        (Vec<u8>, Option<Vec<u8>>),
        PipelineCompressionError,
    >)
        ensures
            !self.inner.ready() ==> r is Err,
            self.inner.encryption == EncryptionType::Passthrough ==> match self.inner.written(
                Seq::empty(),
                Seq::empty(),
                input@,
            ) {
                Some(v) => r matches Ok(o) && o.0@ == v && o.1 is None,
                None => r matches Err(e) && self.inner.is_layer_failure(e),
            },
            r matches Ok(o) ==> self.inner.restored(o.0@) == Some(input@) && o.1 is None,
            self.inner.ready() ==> (r matches Err(e) ==> self.inner.is_layer_failure(e)),
    {
        self.inner.compress_data(input)
    }

    /// Runs the read path of the bound pipeline over `input`.
    pub fn decompress(self, input: Vec<u8>) -> (r: Result<
        (Vec<u8>, Option<Vec<u8>>),
        PipelineDecompressionError,
    >)
        ensures
            !self.inner.ready() ==> r is Err,
            self.inner.ready() ==> match self.inner.restored(input@) {
                Some(plain) => r matches Ok(out) && out.0@ == plain && out.1 is None,
                None => r is Err,
            },
    {
        self.inner.decompress_data(input)
    }
}

/// Chooses the layers of a task and the stream it runs over, in any order.
pub struct TaskPipelineBuilder<T, E, C, S> {
    pub io: T,
    pub encryption: E,
    pub compression: C,
    pub signing: S,
}

impl TaskPipelineBuilder<(), (), (), ()> {
    pub fn new() -> (r: Self)
        ensures
            r == (TaskPipelineBuilder { io: (), encryption: (), compression: (), signing: () }),
    {
        TaskPipelineBuilder { io: (), encryption: (), compression: (), signing: () }
    }
}

impl<T, E, C, S> TaskPipelineBuilder<T, E, C, S> {
    pub fn with_encryption<E2>(self, with: E2) -> (r: TaskPipelineBuilder<T, E2, C, S>)
        ensures
            r.io == self.io && r.encryption == with && r.compression == self.compression
                && r.signing == self.signing,
    {
        TaskPipelineBuilder {
            io: self.io,
            encryption: with,
            compression: self.compression,
            signing: self.signing,
        }
    }

    pub fn with_compress_algorithm<C2>(self, with: C2) -> (r: TaskPipelineBuilder<T, E, C2, S>)
        ensures
            r.io == self.io && r.encryption == self.encryption && r.compression == with
                && r.signing == self.signing,
    {
        TaskPipelineBuilder {
            io: self.io,
            encryption: self.encryption,
            compression: with,
            signing: self.signing,
        }
    }

    pub fn with_signing<S2>(self, with: S2) -> (r: TaskPipelineBuilder<T, E, C, S2>)
        ensures
            r.io == self.io && r.encryption == self.encryption && r.compression
                == self.compression && r.signing == with,
    {
        TaskPipelineBuilder {
            io: self.io,
            encryption: self.encryption,
            compression: self.compression,
            signing: with,
        }
    }

    pub fn with_io<U>(self, io: U) -> (r: TaskPipelineBuilder<U, E, C, S>)
        ensures
            r.io == io && r.encryption == self.encryption && r.compression == self.compression
                && r.signing == self.signing,
    {
        TaskPipelineBuilder {
            io,
            encryption: self.encryption,
            compression: self.compression,
            signing: self.signing,
        }
    }
}

/// The stream of a task: the source path and the destination path.
pub type TaskPaths = (String, String);

impl TaskPipelineBuilder<
    TaskPaths,
    (EncryptionType, EncryptionSecret),
    (CompressionType, CompressionLevel),
    SigningType,
> {
    /// Sets up the write path over the chosen layers.
    pub fn compression_pipeline(self) -> (r: Result<
        PipelineTask<ProcessingPipeline>,
        PipelineBuildError,
    >)
        ensures
            r is Ok <==> encryptor_ready(self.encryption.0, self.encryption.1),
            r matches Err(e) ==> (e matches PipelineBuildError::EncryptorInit(ie)
                && is_encryptor_init_error(self.encryption.0, self.encryption.1, ie)),
            r matches Ok(t) ==> t.inner.encryption == self.encryption.0 && t.inner.compression
                == self.compression.0 && t.inner.compression_level == self.compression.1
                && t.inner.signing == self.signing,
    {
        let p = ProcessingPipeline::new(
            self.encryption.0,
            self.encryption.1,
            self.compression.0,
            self.compression.1,
            self.signing,
            self.io.0,
            self.io.1,
        )?;
        Ok(PipelineTask { inner: p })
    }

    /// Sets up the read path over the chosen layers.
    pub fn decompression_pipeline(self) -> (r: Result<
        PipelineTask<ProcessingPipeline>,
        PipelineBuildError,
    >)
        ensures
            r is Ok <==> encryptor_ready(self.encryption.0, self.encryption.1),
            r matches Err(e) ==> (e matches PipelineBuildError::EncryptorInit(ie)
                && is_encryptor_init_error(self.encryption.0, self.encryption.1, ie)),
            r matches Ok(t) ==> t.inner.encryption == self.encryption.0 && t.inner.compression
                == self.compression.0 && t.inner.signing == self.signing,
    {
        self.compression_pipeline()
    }
}

} // verus!

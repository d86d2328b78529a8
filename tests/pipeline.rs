use zap::algorithms::{
    CompressionLevel, CompressionType, EncryptionSecret, EncryptionType, SigningType,
};
use zap::error::{
    EncryptionError, EncryptionKeyError, EncryptionSecretError, EncryptorInitError, PasswordError,
    PipelineBuildError, PipelineCompressionError, PipelineDecompressionError,
};
use zap::pipeline::{PipelineTask, ProcessingPipeline};

fn pipeline(
    e: EncryptionType,
    s: EncryptionSecret,
    c: CompressionType,
    l: CompressionLevel,
) -> Result<ProcessingPipeline, PipelineBuildError> {
    ProcessingPipeline::builder()
        .with_source("in/a.txt".to_string())
        .with_destination("out/a.txt".to_string())
        .with_encryption(e)
        .with_encryption_secret(s)
        .with_compression(c)
        .with_compression_level(l)
        .with_signing(SigningType::Passthrough)
        .build()
}

fn sample() -> Vec<u8> {
    let mut v = Vec::new();
    for i in 0..4000u32 {
        v.push((i % 7) as u8 + b'a');
    }
    v
}

#[test]
fn identity_pipeline_is_a_no_op() {
    let p = pipeline(
        EncryptionType::Passthrough,
        EncryptionSecret::Absent,
        CompressionType::Passthrough,
        CompressionLevel::Default,
    )
    .unwrap();
    let data = b"sixteen bytes!!!".to_vec();
    let (out, trailer) = p.compress_data(data.clone()).unwrap();
    assert_eq!(out, data);
    assert_eq!(trailer, None);
    let (back, verdict) = p.decompress_data(out).unwrap();
    assert_eq!(back, data);
    assert_eq!(verdict, None);
}

#[test]
fn round_trip_through_every_codec() {
    let levels = [
        CompressionLevel::Fastest,
        CompressionLevel::Default,
        CompressionLevel::Best,
        CompressionLevel::Numeric(0),
        CompressionLevel::Numeric(42),
    ];
    for c in [
        CompressionType::Passthrough,
        CompressionType::Lz4,
        CompressionType::Gzip,
        CompressionType::Snappy,
    ] {
        for l in levels {
            for data in [Vec::new(), b"x".to_vec(), sample()] {
                let p = pipeline(EncryptionType::Passthrough, EncryptionSecret::Absent, c, l)
                    .unwrap();
                let (packed, _) = p.compress_data(data.clone()).unwrap();
                let (back, _) = p.decompress_data(packed).unwrap();
                assert_eq!(back, data);
            }
        }
    }
}

#[test]
fn codecs_change_the_bytes() {
    let data = sample();
    for c in [CompressionType::Lz4, CompressionType::Gzip, CompressionType::Snappy] {
        let p = pipeline(EncryptionType::Passthrough, EncryptionSecret::Absent, c, CompressionLevel::Best)
            .unwrap();
        let (packed, _) = p.compress_data(data.clone()).unwrap();
        assert_ne!(packed, data);
        assert!(packed.len() < data.len());
    }
}

#[test]
fn corrupt_input_is_reported_by_codec() {
    let garbage = b"definitely not compressed".to_vec();
    for (c, name) in [
        (CompressionType::Lz4, "lz4"),
        (CompressionType::Gzip, "gzip"),
        (CompressionType::Snappy, "snappy"),
    ] {
        let p = pipeline(EncryptionType::Passthrough, EncryptionSecret::Absent, c, CompressionLevel::Default)
            .unwrap();
        assert_eq!(
            p.decompress_data(garbage.clone()),
            Err(PipelineDecompressionError::IOError(name.to_string()))
        );
    }
}

#[test]
fn key_file_secret_is_refused_at_construction() {
    let r = pipeline(
        EncryptionType::XChaCha,
        EncryptionSecret::Key("/keys/k.pem".to_string()),
        CompressionType::Lz4,
        CompressionLevel::Default,
    );
    assert_eq!(
        r.err(),
        Some(PipelineBuildError::EncryptorInit(EncryptorInitError::EncryptionSecretError(
            EncryptionSecretError::Key(EncryptionKeyError::KeyfileNotSupported(
                "/keys/k.pem".to_string()
            ))
        )))
    );
}

#[test]
fn missing_or_empty_password_is_refused() {
    let empty = Some(PipelineBuildError::EncryptorInit(EncryptorInitError::EncryptionSecretError(
        EncryptionSecretError::Password(PasswordError::PasswordEmpty),
    )));
    let r = pipeline(
        EncryptionType::AesGcm,
        EncryptionSecret::Absent,
        CompressionType::Passthrough,
        CompressionLevel::Default,
    );
    assert_eq!(r.err(), empty);
    let r = pipeline(
        EncryptionType::ChaCha,
        EncryptionSecret::Password(Vec::new()),
        CompressionType::Passthrough,
        CompressionLevel::Default,
    );
    assert_eq!(r.err(), empty);
}

fn password() -> EncryptionSecret {
    EncryptionSecret::Password(b"hunter22".to_vec())
}

const CIPHERS: [EncryptionType; 3] =
    [EncryptionType::XChaCha, EncryptionType::ChaCha, EncryptionType::AesGcm];

fn cipher_round_trip(e: EncryptionType) {
    let codecs = [
        (CompressionType::Passthrough, Vec::new()),
        (CompressionType::Lz4, sample()),
        (CompressionType::Gzip, b"sixteen bytes!!!".to_vec()),
        (CompressionType::Snappy, sample()),
    ];
    for (c, data) in codecs {
        let p = pipeline(e, password(), c, CompressionLevel::Default).unwrap();
        let (sealed, trailer) = p.compress_data(data.clone()).unwrap();
        assert_eq!(trailer, None);
        assert_ne!(sealed, data);
        let (back, _) = p.decompress_data(sealed).unwrap();
        assert_eq!(back, data);
    }
}

#[test]
fn round_trip_xchacha() {
    cipher_round_trip(EncryptionType::XChaCha);
}

#[test]
fn round_trip_chacha() {
    cipher_round_trip(EncryptionType::ChaCha);
}

#[test]
fn round_trip_aes_gcm() {
    cipher_round_trip(EncryptionType::AesGcm);
}

#[test]
fn encrypted_file_carries_salt_and_nonce() {
    let salt = [7u8; 16];
    for (e, n) in [(EncryptionType::XChaCha, 24usize), (EncryptionType::ChaCha, 12), (EncryptionType::AesGcm, 12)] {
        let nonce = vec![3u8; n];
        let p = pipeline(e, password(), CompressionType::Passthrough, CompressionLevel::Default)
            .unwrap();
        let (one, _) = p.compress_data_with(b"abc".to_vec(), &salt, &nonce).unwrap();
        let (two, _) = p.compress_data_with(b"abc".to_vec(), &salt, &nonce).unwrap();
        assert_eq!(one, two);
        assert_eq!(&one[..16], &salt[..]);
        assert_eq!(&one[16..16 + n], &nonce[..]);
        // Three bytes of ciphertext and a 16-byte tag.
        assert_eq!(one.len(), 16 + n + 3 + 16);
        assert_eq!(p.decompress_data(one).unwrap().0, b"abc".to_vec());
    }
}

#[test]
fn fresh_salt_and_nonce_per_file() {
    let p = pipeline(EncryptionType::XChaCha, password(), CompressionType::Lz4, CompressionLevel::Default)
        .unwrap();
    let one = p.compress_data(sample()).unwrap().0;
    let two = p.compress_data(sample()).unwrap().0;
    assert_ne!(one, two);
}

#[test]
fn wrong_password_or_tampering_is_refused() {
    for e in CIPHERS {
        let p = pipeline(e, password(), CompressionType::Gzip, CompressionLevel::Best).unwrap();
        let sealed = p.compress_data(sample()).unwrap().0;
        let other = pipeline(
            e,
            EncryptionSecret::Password(b"hunter23".to_vec()),
            CompressionType::Gzip,
            CompressionLevel::Best,
        )
        .unwrap();
        let name = match e {
            EncryptionType::XChaCha => "xchacha20poly1305",
            EncryptionType::ChaCha => "chacha20poly1305",
            _ => "aes256gcm",
        };
        let refused = Err(PipelineDecompressionError::EncryptionError(
            EncryptionError::CipherFailed(name.to_string()),
        ));
        assert_eq!(other.decompress_data(sealed.clone()), refused);
        let mut tampered = sealed.clone();
        let last = tampered.len() - 1;
        tampered[last] ^= 1;
        assert_eq!(p.decompress_data(tampered), refused);
        assert_eq!(p.decompress_data(sealed[..10].to_vec()), refused);
    }
}

#[test]
fn identity_cipher_accepts_any_secret() {
    let p = pipeline(
        EncryptionType::Passthrough,
        EncryptionSecret::Key("k".to_string()),
        CompressionType::Passthrough,
        CompressionLevel::Default,
    )
    .unwrap();
    assert_eq!(p.compress_data(b"abc".to_vec()).unwrap().0, b"abc".to_vec());
}

#[test]
fn stage_errors_when_cipher_unusable() {
    let p = ProcessingPipeline {
        encryption: EncryptionType::AesGcm,
        encryption_secret: EncryptionSecret::Key("k".to_string()),
        compression: CompressionType::Lz4,
        compression_level: CompressionLevel::Default,
        signing: SigningType::Passthrough,
        source: String::new(),
        destination: String::new(),
    };
    let key_err = EncryptorInitError::EncryptionSecretError(EncryptionSecretError::Key(
        EncryptionKeyError::KeyfileNotSupported("k".to_string()),
    ));
    assert_eq!(
        p.compress_data(b"abc".to_vec()),
        Err(PipelineCompressionError::EncryptorInitError(key_err.clone()))
    );
    assert_eq!(
        p.decompress_data(b"abc".to_vec()),
        Err(PipelineDecompressionError::DecryptorInitError(key_err))
    );
}

#[test]
fn builder_reports_first_missing_stage() {
    let r = ProcessingPipeline::builder()
        .with_compression(CompressionType::Lz4)
        .build();
    assert_eq!(r.err(), Some(PipelineBuildError::MissingStage("encryption".to_string())));
    let r = ProcessingPipeline::builder()
        .with_encryption(EncryptionType::Passthrough)
        .with_encryption_secret(EncryptionSecret::Absent)
        .with_compression(CompressionType::Lz4)
        .with_compression_level(CompressionLevel::Fastest)
        .with_signing(SigningType::Passthrough)
        .with_source("a".to_string())
        .build();
    assert_eq!(r.err(), Some(PipelineBuildError::MissingStage("destination".to_string())));
}

#[test]
fn compression_levels() {
    assert_eq!(CompressionLevel::Fastest.level(), 1);
    assert_eq!(CompressionLevel::Default.level(), 6);
    assert_eq!(CompressionLevel::Best.level(), 9);
    assert_eq!(CompressionLevel::Numeric(3).level(), 3);
    assert_eq!(CompressionLevel::Numeric(12).level(), 9);
}

#[test]
fn task_builder_assembles_the_same_pipeline() {
    let task = PipelineTask::builder()
        .with_io(("in/a".to_string(), "out/a".to_string()))
        .with_encryption((EncryptionType::Passthrough, EncryptionSecret::Absent))
        .with_compress_algorithm((CompressionType::Snappy, CompressionLevel::Default))
        .with_signing(SigningType::Passthrough)
        .compression_pipeline()
        .unwrap();
    assert_eq!(task.inner.source, "in/a");
    let data = sample();
    let (packed, _) = task.compress(data.clone()).unwrap();
    let reader = PipelineTask::builder()
        .with_io(("out/a".to_string(), "in/a".to_string()))
        .with_encryption((EncryptionType::Passthrough, EncryptionSecret::Absent))
        .with_compress_algorithm((CompressionType::Snappy, CompressionLevel::Default))
        .with_signing(SigningType::Passthrough)
        .decompression_pipeline()
        .unwrap();
    assert_eq!(reader.decompress(packed).unwrap().0, data);
    let refused = PipelineTask::builder()
        .with_io(("a".to_string(), "b".to_string()))
        .with_encryption((EncryptionType::XChaCha, EncryptionSecret::Absent))
        .with_compress_algorithm((CompressionType::Lz4, CompressionLevel::Default))
        .with_signing(SigningType::Passthrough)
        .compression_pipeline();
    assert!(refused.is_err());
    let sealed = PipelineTask::builder()
        .with_io(("a".to_string(), "b".to_string()))
        .with_encryption((EncryptionType::AesGcm, password()))
        .with_compress_algorithm((CompressionType::Lz4, CompressionLevel::Default))
        .with_signing(SigningType::Passthrough)
        .compression_pipeline()
        .unwrap()
        .compress(data.clone())
        .unwrap()
        .0;
    let opened = PipelineTask::builder()
        .with_io(("b".to_string(), "a".to_string()))
        .with_encryption((EncryptionType::AesGcm, password()))
        .with_compress_algorithm((CompressionType::Lz4, CompressionLevel::Default))
        .with_signing(SigningType::Passthrough)
        .decompression_pipeline()
        .unwrap()
        .decompress(sealed)
        .unwrap()
        .0;
    assert_eq!(opened, data);
}

#[test]
fn tasks_wrap_their_stream() {
    assert_eq!(PipelineTask::from_writer(vec![1u8, 2]).inner, vec![1u8, 2]);
    assert_eq!(PipelineTask::from_reader(7u32).inner, 7u32);
}

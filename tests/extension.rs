use zap::algorithms::{CompressionType, EncryptionType, SigningType};
use zap::error::{CompressionError, PathRewriteError};
use zap::extension::{
    build_common_extension, clear_ext, get_types_from_extensions, parse_extensions, rewrite_ext,
};

#[test]
fn common_extension_lists_encryption_then_compression() {
    assert_eq!(build_common_extension(&EncryptionType::XChaCha, &CompressionType::Lz4), ".xcha.lz4");
    assert_eq!(build_common_extension(&EncryptionType::AesGcm, &CompressionType::Gzip), ".aes.gz");
    assert_eq!(build_common_extension(&EncryptionType::ChaCha, &CompressionType::Snappy), ".cha.sz");
    assert_eq!(build_common_extension(&EncryptionType::Passthrough, &CompressionType::Lz4), ".lz4");
    assert_eq!(build_common_extension(&EncryptionType::XChaCha, &CompressionType::Passthrough), ".xcha");
    assert_eq!(
        build_common_extension(&EncryptionType::Passthrough, &CompressionType::Passthrough),
        ""
    );
}

#[test]
fn rewrite_extends_the_final_extension() {
    assert_eq!(rewrite_ext("data.json", ".xcha.lz4").unwrap(), "data.json.xcha.lz4");
    assert_eq!(rewrite_ext("sub/b.bin", ".lz4").unwrap(), "sub/b.bin.lz4");
    assert_eq!(rewrite_ext("someBinary", ".gz").unwrap(), "someBinary.gz");
    assert_eq!(rewrite_ext("plain", "").unwrap(), "plain");
}

#[test]
fn rewrite_rejects_a_path_without_file_name() {
    assert_eq!(
        rewrite_ext("dir/", ".lz4"),
        Err(PathRewriteError::FileNameError("dir/".to_string()))
    );
    assert_eq!(rewrite_ext("", ".lz4"), Err(PathRewriteError::FileNameError(String::new())));
}

#[test]
fn encode_decode_round_trip() {
    let encs = [
        EncryptionType::Passthrough,
        EncryptionType::XChaCha,
        EncryptionType::ChaCha,
        EncryptionType::AesGcm,
    ];
    let comps = [
        CompressionType::Passthrough,
        CompressionType::Lz4,
        CompressionType::Gzip,
        CompressionType::Snappy,
    ];
    for path in ["data.json", "dir/sub/a.tar", "noext", ".hidden", "x/y.z.w"] {
        for e in encs {
            for c in comps {
                let encoded = rewrite_ext(path, &build_common_extension(&e, &c)).unwrap();
                assert_eq!(clear_ext(&encoded).unwrap(), path);
                assert_eq!(get_types_from_extensions(&encoded).unwrap(), (e, c));
            }
        }
    }
}

#[test]
fn extensionless_file_keeps_its_name() {
    // A file without extension gets the tag as its extension and loses it
    // again on the way back, with no separator left behind.
    let encoded = rewrite_ext("bin/someBinary", ".lz4").unwrap();
    assert_eq!(encoded, "bin/someBinary.lz4");
    assert_eq!(clear_ext(&encoded).unwrap(), "bin/someBinary");
}

#[test]
fn name_ending_in_a_tag_is_not_restored() {
    // The one case where decoding does not invert encoding: the original
    // name already ends in a recognized tag.
    let encoded = rewrite_ext("archive.gz", ".lz4").unwrap();
    assert_eq!(clear_ext(&encoded).unwrap(), "archive");
    assert_eq!(
        get_types_from_extensions(&encoded).unwrap(),
        (EncryptionType::Passthrough, CompressionType::Gzip)
    );
}

#[test]
fn suffix_classification_example() {
    let p = "a.tar.lz4.xcha";
    assert_eq!(
        get_types_from_extensions(p).unwrap(),
        (EncryptionType::XChaCha, CompressionType::Lz4)
    );
    assert_eq!(clear_ext(p).unwrap(), "a.tar");
    assert_eq!(
        get_types_from_extensions("a.tar.xcha.lz4").unwrap(),
        (EncryptionType::XChaCha, CompressionType::Lz4)
    );
    assert_eq!(clear_ext("a.tar.xcha.lz4").unwrap(), "a.tar");
}

#[test]
fn scan_stops_at_first_unrecognized_token() {
    assert_eq!(clear_ext("a.gz.tar.sz").unwrap(), "a.gz.tar");
    assert_eq!(
        get_types_from_extensions("a.gz.tar.sz").unwrap(),
        (EncryptionType::Passthrough, CompressionType::Snappy)
    );
    assert_eq!(clear_ext("dir/x.aes.txt").unwrap(), "dir/x.aes.txt");
}

#[test]
fn leading_dot_does_not_start_a_tag() {
    assert_eq!(clear_ext(".gz").unwrap(), ".gz");
    assert_eq!(clear_ext("d/.gz.lz4").unwrap(), "d/.gz");
    assert_eq!(
        get_types_from_extensions(".gz").unwrap(),
        (EncryptionType::Passthrough, CompressionType::Passthrough)
    );
}

#[test]
fn decode_rejects_a_path_without_file_name() {
    assert_eq!(clear_ext("a/b/"), Err(PathRewriteError::FileNameError("a/b/".to_string())));
    assert_eq!(
        get_types_from_extensions(""),
        Err(CompressionError::PathRewriteError(PathRewriteError::FileNameError(String::new())))
    );
}

#[test]
fn default_algorithms_are_identity() {
    assert_eq!(
        parse_extensions(),
        (EncryptionType::Passthrough, CompressionType::Passthrough, SigningType::Passthrough)
    );
    assert_eq!(SigningType::default(), SigningType::Passthrough);
}

#[test]
fn tag_nearer_the_start_wins() {
    assert_eq!(
        get_types_from_extensions("a.gz.lz4").unwrap(),
        (EncryptionType::Passthrough, CompressionType::Gzip)
    );
    assert_eq!(
        get_types_from_extensions("a.aes.xcha.sz").unwrap(),
        (EncryptionType::AesGcm, CompressionType::Snappy)
    );
    assert_eq!(clear_ext("a.aes.xcha.sz").unwrap(), "a");
}

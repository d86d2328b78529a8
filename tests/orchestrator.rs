use zap::algorithms::{
    CompressionLevel, CompressionType, EncryptionSecret, EncryptionType, SigningType,
};
use zap::error::{CompressionError, DecompressionError, PathRewriteError};
use zap::extension::get_types_from_extensions;
use zap::orchestrator::{
    archive_name, extraction_target, join_path, output_parents, parent_dir, plan_compress_jobs,
    plan_decompress_jobs, resolve_types, Job,
};
use zap::orchestrator::{archive_algorithms, secret_source, SecretSource};
use zap::pipeline::ProcessingPipeline;

fn strings(v: &[&str]) -> Vec<String> {
    v.iter().map(|s| s.to_string()).collect()
}

fn pairs(jobs: &[Job]) -> Vec<(String, String)> {
    jobs.iter().map(|j| (j.input.clone(), j.output.clone())).collect()
}

#[test]
fn join_inserts_one_separator() {
    assert_eq!(join_path("out", "a.txt"), "out/a.txt");
    assert_eq!(join_path("out/", "a.txt"), "out/a.txt");
    assert_eq!(join_path("", "a.txt"), "a.txt");
    assert_eq!(parent_dir("out/sub/b.bin"), "out/sub/");
    assert_eq!(parent_dir("b.bin"), "");
}

#[test]
fn two_file_tree_round_trip_with_lz4() {
    let files = strings(&["a.txt", "sub/b.bin"]);
    let jobs =
        plan_compress_jobs("in", "out", &files, &EncryptionType::Passthrough, &CompressionType::Lz4)
            .unwrap();
    assert_eq!(
        pairs(&jobs),
        vec![
            ("in/a.txt".to_string(), "out/a.txt.lz4".to_string()),
            ("in/sub/b.bin".to_string(), "out/sub/b.bin.lz4".to_string()),
        ]
    );
    let contents = [b"0123456789abcdef".to_vec(), Vec::new()];
    assert_eq!(contents[0].len(), 16);
    let mut archived = Vec::new();
    for (job, data) in jobs.iter().zip(contents.iter()) {
        let p = ProcessingPipeline::new(
            EncryptionType::Passthrough,
            EncryptionSecret::Absent,
            CompressionType::Lz4,
            CompressionLevel::Default,
            SigningType::Passthrough,
            job.input.clone(),
            job.output.clone(),
        )
        .unwrap();
        archived.push(p.compress_data(data.clone()).unwrap().0);
    }

    // Extraction with no explicit choice: the suffix tells the algorithms.
    let staged = strings(&["a.txt.lz4", "sub/b.bin.lz4"]);
    let detected = get_types_from_extensions(&staged[0]).unwrap();
    let (e, c) = resolve_types(detected, None, None);
    assert_eq!((e, c), (EncryptionType::Passthrough, CompressionType::Lz4));
    let back = plan_decompress_jobs("out", "restored", &staged).unwrap();
    assert_eq!(
        pairs(&back),
        vec![
            ("out/a.txt.lz4".to_string(), "restored/a.txt".to_string()),
            ("out/sub/b.bin.lz4".to_string(), "restored/sub/b.bin".to_string()),
        ]
    );
    for ((job, packed), original) in back.iter().zip(archived).zip(contents.iter()) {
        let p = ProcessingPipeline::new(
            e,
            EncryptionSecret::Absent,
            c,
            CompressionLevel::Default,
            SigningType::Passthrough,
            job.input.clone(),
            job.output.clone(),
        )
        .unwrap();
        assert_eq!(&p.decompress_data(packed).unwrap().0, original);
    }
}

#[test]
fn job_plan_does_not_depend_on_file_order() {
    let forward = strings(&["a.txt", "sub/b.bin", "sub/deep/c"]);
    let backward = strings(&["sub/deep/c", "sub/b.bin", "a.txt"]);
    let e = EncryptionType::Passthrough;
    let c = CompressionType::Gzip;
    let mut one = pairs(&plan_compress_jobs("in", "out", &forward, &e, &c).unwrap());
    let mut two = pairs(&plan_compress_jobs("in", "out", &backward, &e, &c).unwrap());
    one.sort();
    two.sort();
    assert_eq!(one, two);
    let mut outs: Vec<String> = one.iter().map(|p| p.1.clone()).collect();
    outs.dedup();
    assert_eq!(outs.len(), 3);
}

#[test]
fn parents_are_listed_once() {
    let files = strings(&["a.txt", "sub/b.bin", "sub/c", "x/y/z"]);
    let jobs = plan_compress_jobs(
        "in",
        "out",
        &files,
        &EncryptionType::Passthrough,
        &CompressionType::Snappy,
    )
    .unwrap();
    assert_eq!(output_parents(&jobs), strings(&["out/", "out/sub/", "out/x/y/"]));
    assert_eq!(output_parents(&Vec::new()), Vec::<String>::new());
}

#[test]
fn planning_rejects_a_path_without_file_name() {
    let files = strings(&["a.txt", "dir/"]);
    assert_eq!(
        plan_compress_jobs("in", "out", &files, &EncryptionType::Passthrough, &CompressionType::Lz4)
            .err(),
        Some(CompressionError::PathRewriteError(PathRewriteError::FileNameError(
            "dir/".to_string()
        )))
    );
    assert_eq!(
        plan_decompress_jobs("in", "out", &files).err(),
        Some(DecompressionError::PathRewriteError(PathRewriteError::FileNameError(
            "dir/".to_string()
        )))
    );
}

#[test]
fn archive_is_named_after_the_directory() {
    assert_eq!(
        archive_name("photos", &EncryptionType::XChaCha, &CompressionType::Lz4),
        "photos.xcha.lz4.zap"
    );
    assert_eq!(
        archive_name("photos..", &EncryptionType::Passthrough, &CompressionType::Passthrough),
        "photos.zap"
    );
}

#[test]
fn extraction_target_reads_the_archive_name() {
    let t = extraction_target("backups/photos.xcha.lz4.zap").unwrap();
    assert_eq!(t.output, "backups/photos");
    assert_eq!(t.encryption, EncryptionType::XChaCha);
    assert_eq!(t.compression, CompressionType::Lz4);
    let t = extraction_target("photos.zap").unwrap();
    assert_eq!(t.output, "photos");
    assert_eq!(t.compression, CompressionType::Passthrough);
    let t = extraction_target("someBinary.gz").unwrap();
    assert_eq!(t.output, "someBinary");
    assert_eq!(t.compression, CompressionType::Gzip);
    assert_eq!(
        extraction_target("dir/").err(),
        Some(PathRewriteError::FileNameError("dir/".to_string()))
    );
}

#[test]
fn explicit_choice_overrides_the_suffix() {
    let detected = (EncryptionType::XChaCha, CompressionType::Lz4);
    assert_eq!(
        resolve_types(detected, Some(EncryptionType::AesGcm), None),
        (EncryptionType::AesGcm, CompressionType::Lz4)
    );
    assert_eq!(
        resolve_types(detected, None, Some(CompressionType::Gzip)),
        (EncryptionType::XChaCha, CompressionType::Gzip)
    );
}

#[test]
fn secret_comes_from_key_file_or_prompt() {
    assert_eq!(secret_source(&EncryptionType::Passthrough, Some("k".to_string())), SecretSource::NotNeeded);
    assert_eq!(
        secret_source(&EncryptionType::XChaCha, Some("k".to_string())),
        SecretSource::KeyFile("k".to_string())
    );
    assert_eq!(secret_source(&EncryptionType::AesGcm, None), SecretSource::Prompt);
}

#[test]
fn archive_switches_pick_defaults() {
    assert_eq!(
        archive_algorithms(None, true, None, true),
        (EncryptionType::XChaCha, CompressionType::Lz4)
    );
    assert_eq!(
        archive_algorithms(None, false, None, false),
        (EncryptionType::Passthrough, CompressionType::Passthrough)
    );
    assert_eq!(
        archive_algorithms(Some(EncryptionType::ChaCha), true, Some(CompressionType::Gzip), true),
        (EncryptionType::ChaCha, CompressionType::Gzip)
    );
}

#[test]
fn encrypted_two_file_tree_round_trip() {
    let files = strings(&["a.txt", "sub/b.bin"]);
    let jobs =
        plan_compress_jobs("in", "out", &files, &EncryptionType::XChaCha, &CompressionType::Gzip)
            .unwrap();
    assert_eq!(jobs[1].output, "out/sub/b.bin.xcha.gz");
    let secret = EncryptionSecret::Password(b"pw".to_vec());
    let p = ProcessingPipeline::new(
        EncryptionType::XChaCha,
        secret.clone(),
        CompressionType::Gzip,
        CompressionLevel::Best,
        SigningType::Passthrough,
        jobs[0].input.clone(),
        jobs[0].output.clone(),
    )
    .unwrap();
    let packed = p.compress_data(b"0123456789abcdef".to_vec()).unwrap().0;
    let detected = get_types_from_extensions("a.txt.xcha.gz").unwrap();
    assert_eq!(detected, (EncryptionType::XChaCha, CompressionType::Gzip));
    let q = ProcessingPipeline::new(
        detected.0,
        secret,
        detected.1,
        CompressionLevel::Default,
        SigningType::Passthrough,
        String::new(),
        String::new(),
    )
    .unwrap();
    assert_eq!(q.decompress_data(packed).unwrap().0, b"0123456789abcdef".to_vec());
}

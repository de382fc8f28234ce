use sha2::Digest;
use tuskar::filename::{finalized_path, part_file_name, s3_key, s3_upload_id, sanitize_filename, staging_relative};
use tuskar::status::TusError;
use tuskar::storage::{join_path, ChecksumHasher, FilesystemStorage};

// ── sanitize_filename ────────────────────────────────────────────────────

#[test]
fn sanitize_filename_allows_safe_names() {
    assert_eq!(sanitize_filename("report.pdf"), "report.pdf");
    assert_eq!(sanitize_filename("my file 2024.tar.gz"), "my file 2024.tar.gz");
    assert_eq!(sanitize_filename("file_v1-final.txt"), "file_v1-final.txt");
}

#[test]
fn sanitize_filename_strips_dangerous_chars() {
    assert_eq!(sanitize_filename("../../etc/passwd"), "....etcpasswd");
    assert_eq!(sanitize_filename("file\0name"), "filename");
    assert_eq!(sanitize_filename("a/b/c"), "abc");
    assert_eq!(sanitize_filename("a\\b"), "ab");
}

#[test]
fn sanitize_filename_rejects_dot_only_names() {
    assert_eq!(sanitize_filename("."), "");
    assert_eq!(sanitize_filename(".."), "");
    assert_eq!(sanitize_filename("..."), "");
}

#[test]
fn sanitize_filename_trims_whitespace() {
    assert_eq!(sanitize_filename("  file.txt  "), "file.txt");
    assert_eq!(sanitize_filename("   "), "");
}

#[test]
fn sanitize_filename_is_idempotent_and_keeps_order() {
    for name in ["  ../a b/c?.txt ", "..", " x\ty ", "日本語 file.pdf", "a..b", "\t"] {
        let once = sanitize_filename(name);
        assert_eq!(sanitize_filename(&once), once);
        assert_eq!(once.trim(), once);
        let mut rest = name.chars();
        assert!(once.chars().all(|c| rest.any(|d| d == c)));
    }
    assert_eq!(sanitize_filename("  ../a b/c?.txt "), "..a bc.txt");
}

#[test]
fn sanitize_filename_keeps_unicode_letters() {
    assert_eq!(sanitize_filename("résumé.pdf"), "résumé.pdf");
    assert_eq!(sanitize_filename("a:b*c?.txt"), "abc.txt");
}

// ── stored paths ─────────────────────────────────────────────────────────

#[test]
fn finalized_path_with_and_without_filename() {
    assert_eq!(finalized_path("abc.part", Some("report.pdf")), "abc/report.pdf");
    assert_eq!(finalized_path("abc.part", None), "abc");
    assert_eq!(finalized_path("abc.part", Some("..")), "abc");
    assert_eq!(finalized_path("abc.part.part", None), "abc");
}

#[test]
fn s3_names() {
    assert_eq!(s3_key("uploads/", "id1", Some("a b.txt")), "uploads/id1/a b.txt");
    assert_eq!(s3_key("uploads/", "id1", None), "uploads/id1");
    assert_eq!(s3_upload_id("staging/id9.part"), "id9");
    assert_eq!(staging_relative("staging/id9.part"), "id9.part");
    assert_eq!(staging_relative("other/id9.part"), "other/id9.part");
    assert_eq!(part_file_name("u1"), "u1.part");
}

#[test]
fn join_follows_path_join() {
    assert_eq!(join_path("uploads", "a/b"), "uploads/a/b");
    assert_eq!(join_path("uploads/", "a"), "uploads/a");
    assert_eq!(join_path("", "a"), "a");
    assert_eq!(join_path("uploads", "/etc/x"), "/etc/x");
    let s = FilesystemStorage::new("/data".to_string());
    assert_eq!(s.full_path("u.part"), "/data/u.part");
    assert_eq!(s.base_dir(), "/data");
}

// ── checksums ────────────────────────────────────────────────────────────

#[test]
fn correct_sha256_checksum_is_accepted() {
    let data = b"hello world";
    let expected = sha2::Sha256::digest(data).to_vec();
    let mut h = ChecksumHasher::from_algorithm("sha256").unwrap();
    h.update(b"hello ");
    h.update(b"world");
    assert!(h.verify(&expected).is_ok());
}

#[test]
fn checksum_mismatch_is_refused() {
    let mut h = ChecksumHasher::from_algorithm("sha256").unwrap();
    h.update(b"world");
    assert!(matches!(h.verify(&[0xffu8; 32]), Err(TusError::ChecksumMismatch)));
}

#[test]
fn sha1_checksum_digest() {
    let mut h = ChecksumHasher::from_algorithm("sha1").unwrap();
    h.update(b"abc");
    assert_eq!(hex::encode(h.finalize()), "a9993e364706816aba3e25717850c26c9cd0d89d");
}

#[test]
fn unsupported_algorithm_returns_error() {
    match ChecksumHasher::from_algorithm("md5") {
        Err(TusError::UnsupportedChecksumAlgorithm(a)) => assert_eq!(a, "md5"),
        _ => panic!("md5 must be refused"),
    }
}

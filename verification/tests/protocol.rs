use tuskar::context_admin::{
    is_unique_violation, new_api_key, plan_new_context, row_to_config, to_response,
    CreateContextBody, ContextRow,
};
use tuskar::context::{
    check_context_key, global_auth_allows, hash_api_key, verify_api_key, ContextAuthError, ContextCache,
    ContextConfig,
};
use tuskar::dashboard::{default_event_limit, default_upload_limit, health_status, page_limit, UploadResponse};
use tuskar::lifecycle::{
    apply_chunk, check_active_quota, check_chunk_start, check_partial, check_storage_quota, storage_quota_applies,
    check_declared_length, chunk_event_message,
    chunk_written, next_status, plan_concat_final, transition_event_name, Transition,
};
use tuskar::maintenance::{audit_pruning_enabled, days_window, minutes_window, starts_processing};
use tuskar::metadata::{parse, upload_metadata};
use tuskar::protocol::{
    content_disposition, content_range, download_content_type, head_fields, plan_create, plan_download,
    require_tus_resumable, upload_location, CreatePlan, DownloadPlan,
};
use tuskar::s3::{
    concat_strategy, copy_source, is_staging_path, parts_copyable, read_range, require_bucket,
    staging_dir, staging_free_bytes, staging_part_path, staging_path, total_size,
    upload_strategy, ConcatStrategy, UploadStrategy,
};
use tuskar::status::{TusError, UploadStatus};
use tuskar::upload::Upload;
use tuskar::web::{
    actor_name, actor_source, build_csp, extract_upload_id, gauge_updates, rate_limit_quota,
    security_headers, tus_options_headers, ActorSource,
};

fn upload(status: UploadStatus, offset: i64, length: i64, deferred: bool) -> Upload {
    Upload {
        id: "u1".into(),
        filename: Some("a.txt".into()),
        upload_length: length,
        upload_offset: offset,
        metadata_json: None,
        status,
        storage_path: "u1.part".into(),
        created_at: "2024-01-01T00:00:00Z".into(),
        updated_at: "2024-01-01T00:00:00Z".into(),
        completed_at: None,
        error_message: None,
        length_is_deferred: deferred,
        concat_type: None,
        concat_uploads: None,
        context_id: None,
    }
}

// ── requests ─────────────────────────────────────────────────────────────

#[test]
fn tus_version_is_required() {
    assert_eq!(require_tus_resumable(Some("1.0.0")), Ok(()));
    assert_eq!(require_tus_resumable(None), Err(TusError::MissingHeader("Tus-Resumable".into())));
    assert_eq!(require_tus_resumable(Some("0.2")), Err(TusError::UnsupportedVersion("0.2".into())));
}

#[test]
fn creation_requests() {
    match plan_create(true, Some("100"), None, None, 1000) {
        Ok(CreatePlan::Single { upload_length, length_is_deferred, partial }) => {
            assert_eq!((upload_length, length_is_deferred, partial), (100, false, false));
        }
        _ => panic!("single upload expected"),
    }
    assert!(matches!(plan_create(true, Some("5000"), None, None, 1000), Err(TusError::ExceedsUploadLength)));
    assert!(plan_create(true, Some("10"), Some("1"), None, 1000).is_err());
    assert!(plan_create(false, None, None, None, 1000).is_err());
    match plan_create(false, None, None, Some("final;/files/a /files/b"), 1000) {
        Ok(CreatePlan::Final { partial_ids }) => assert_eq!(partial_ids, vec!["a", "b"]),
        _ => panic!("final upload expected"),
    }
}

#[test]
fn downloads() {
    let done = upload(UploadStatus::Finalized, 100, 100, false);
    assert!(matches!(plan_download(&done, None), Ok(DownloadPlan::Body { offset: 0, length: 100, partial: false })));
    assert!(matches!(plan_download(&done, Some("bytes=10-19")), Ok(DownloadPlan::Body { offset: 10, length: 10, partial: true })));
    assert!(matches!(plan_download(&done, Some("bytes=200-")), Ok(DownloadPlan::Unsatisfiable { total: 100 })));
    let busy = upload(UploadStatus::Uploading, 10, 100, false);
    assert!(matches!(plan_download(&busy, None), Err(TusError::NotFound)));
    assert_eq!(content_range(10, 10, 100), "bytes 10-19/100");
    assert_eq!(content_range(10, 1, 100), "bytes 10-10/100");
    assert_eq!(content_disposition("a\"b.txt"), "attachment; filename=\"a\\\"b.txt\"");
    assert_eq!(download_content_type(Some(r#"{"filetype":"image/png"}"#)), "image/png");
    assert_eq!(download_content_type(None), "application/octet-stream");
    assert_eq!(upload_location("http://h", Some("team"), "id"), "http://h/team/files/id");
    assert_eq!(upload_location("http://h", None, "id"), "http://h/files/id");
}

#[test]
fn metadata_of_new_uploads() {
    let (name, json) = upload_metadata(Some("filename d29ybGQ=,type dGV4dA==")).unwrap();
    assert_eq!(name.as_deref(), Some("world"));
    assert_eq!(json.as_deref(), Some(r#"{"filename":"world","type":"text"}"#));
    assert_eq!(upload_metadata(None).unwrap(), (None, None));
    assert!(matches!(upload_metadata(Some("a !!!")), Err(TusError::InvalidHeader(_))));
    assert!(parse("a YQ==,a Yg==").is_err());
    assert_eq!(download_content_type(json.as_deref()), "text");
    let (_, typed) = upload_metadata(Some("type dGV4dA==,filetype aW1hZ2UvcG5n")).unwrap();
    assert_eq!(download_content_type(typed.as_deref()), "image/png");
    let (_, plain) = upload_metadata(Some("filename d29ybGQ=")).unwrap();
    assert_eq!(download_content_type(plain.as_deref()), "application/octet-stream");
}

// ── the upload service's decisions ───────────────────────────────────────

#[test]
fn chunks_advance_the_offset() {
    let u = upload(UploadStatus::Created, 0, 10, false);
    assert_eq!(check_chunk_start(&u, 0, Some(4)), Ok(()));
    assert_eq!(check_chunk_start(&u, 3, Some(4)), Err(TusError::OffsetMismatch { expected: 0, actual: 3 }));
    assert_eq!(check_chunk_start(&u, 0, Some(11)), Err(TusError::ExceedsUploadLength));
    let o = chunk_written(&u, 4).unwrap();
    assert_eq!((o.new_offset, o.completed), (4, false));
    let u = apply_chunk(u, &o);
    assert_eq!(u.status, UploadStatus::Uploading);
    let h = head_fields(&u, None, false).unwrap();
    assert_eq!((h.upload_offset, h.upload_length), (4, Some(10)));
    let o = chunk_written(&u, 6).unwrap();
    assert!(o.completed);
    assert_eq!(apply_chunk(u.clone(), &o).status, UploadStatus::Completed);
    assert!(chunk_written(&u, 7).is_err());
    assert_eq!(chunk_event_message(4, 10), "4/10");
}

#[test]
fn deferred_lengths() {
    let u = upload(UploadStatus::Uploading, 5, 0, true);
    assert_eq!(check_declared_length(&u, false, Some(8)), Ok(Some(8)));
    assert!(check_declared_length(&u, false, Some(4)).is_err());
    assert_eq!(check_declared_length(&u, true, None), Err(TusError::Expired));
    let gone = upload(UploadStatus::Abandoned, 0, 10, false);
    assert_eq!(check_declared_length(&gone, false, None), Err(TusError::NotFound));
}

#[test]
fn status_transitions() {
    assert_eq!(next_status(Transition::BeginProcessing, UploadStatus::Completed), Ok(UploadStatus::Processing));
    assert_eq!(next_status(Transition::BeginProcessing, UploadStatus::Uploading), Err(TusError::InvalidState));
    assert_eq!(next_status(Transition::RetryProcessing, UploadStatus::FailedProcessing), Ok(UploadStatus::Completed));
    assert_eq!(transition_event_name(Transition::Abandon), Some("abandoned"));
    assert_eq!(transition_event_name(Transition::ConsumeByConcat), None);
    assert!(check_active_quota(5, 5).is_err());
    assert!(check_active_quota(4, 5).is_ok());
    assert!(check_active_quota(1_000, 0).is_ok());
    assert!(storage_quota_applies(100, false, 10));
    assert!(!storage_quota_applies(0, false, 10));
    assert!(!storage_quota_applies(100, true, 10));
    assert!(check_storage_quota(90, 10, 100).is_ok());
    assert_eq!(
        check_storage_quota(90, 11, 100),
        Err(TusError::QuotaExceeded("storage quota would be exceeded (90 + 11 > 100)".into()))
    );
    assert_eq!(
        check_active_quota(5, 5),
        Err(TusError::QuotaExceeded("active upload limit reached (5/5)".into()))
    );
}

// ── contexts ─────────────────────────────────────────────────────────────

#[test]
fn new_contexts() {
    let body = |slug: &str, prefix: Option<&str>| CreateContextBody {
        slug: slug.into(),
        display_name: "  Team  ".into(),
        storage_prefix: prefix.map(|s| s.to_string()),
        max_upload_bytes: Some(10),
    };
    let p = plan_new_context(&body("  Marketing ", None)).unwrap();
    assert_eq!((p.slug.as_str(), p.display_name.as_str(), p.storage_prefix.as_str()), ("marketing", "Team", "marketing"));
    assert_eq!(plan_new_context(&body("x", Some("pre"))).unwrap().storage_prefix, "pre");
    assert!(plan_new_context(&body("a/b", None)).is_none());
    assert!(plan_new_context(&body("API-things", None)).is_none());
    assert!(plan_new_context(&body("   ", None)).is_none());
    let (key, hash) = new_api_key("aaa", "bbb");
    assert_eq!(key, "aaa-bbb");
    assert_eq!(hash, hash_api_key("aaa-bbb"));
    assert!(verify_api_key("aaa-bbb", &hash));
    assert!(!verify_api_key("aaa-bbc", &hash));
    assert!(is_unique_violation("UNIQUE constraint failed: contexts.slug"));
    assert!(!is_unique_violation("disk I/O error"));
}

#[test]
fn context_rows() {
    let row = ContextRow {
        id: "c1".into(),
        slug: "team".into(),
        display_name: "Team".into(),
        api_key_hash: "h".into(),
        storage_prefix: "team".into(),
        max_upload_bytes: None,
        created_at: "c".into(),
        updated_at: "u".into(),
    };
    assert_eq!(to_response(&row).slug, "team");
    assert_eq!(row_to_config(&row).api_key_hash, "h");
}

// ── dashboard and HTTP layer ─────────────────────────────────────────────

#[test]
fn pages_and_health() {
    assert_eq!(default_upload_limit(), 50);
    assert_eq!(default_event_limit(), 200);
    assert_eq!(page_limit(1000), 200);
    assert_eq!(page_limit(20), 20);
    assert_eq!(health_status(true, true), (200, "ok".to_string()));
    assert_eq!(health_status(true, false), (503, "degraded".to_string()));
    let r = UploadResponse::from(upload(UploadStatus::FailedProcessing, 1, 2, false));
    assert_eq!(r.status, "FailedProcessing");
}

#[test]
fn security_headers_and_csp() {
    let csp = build_csp(Some("https://grafana.example"));
    assert!(csp.contains("frame-src 'self' https://grafana.example; frame-ancestors 'none'"));
    assert_eq!(
        build_csp(None),
        "default-src 'self'; script-src 'self' 'unsafe-inline'; style-src 'self' 'unsafe-inline'; img-src 'self' data: blob:; connect-src 'self'; font-src 'self'; frame-ancestors 'none'; object-src 'none'; base-uri 'self'"
    );
    assert_eq!(security_headers(None, false).len(), 4);
    assert_eq!(security_headers(None, true)[4].0, "strict-transport-security");
}

#[test]
fn audit_fields() {
    assert_eq!(extract_upload_id("/files/abc/extra"), Some("abc".to_string()));
    assert_eq!(extract_upload_id("/api/uploads/xyz"), Some("xyz".to_string()));
    assert_eq!(extract_upload_id("/files/"), None);
    assert_eq!(extract_upload_id("/team/files/abc"), None);
    assert!(matches!(actor_source(true, Some("tuskar_session=t")), ActorSource::ApiKey));
    match actor_source(false, Some("a=1; tuskar_session=tok")) {
        ActorSource::Session(t) => assert_eq!(t, "tok"),
        _ => panic!("session expected"),
    }
    assert!(matches!(actor_source(false, None), ActorSource::Anonymous));
    assert_eq!(actor_name(&ActorSource::Session("t".into()), Some("alice".into())), "alice");
    assert_eq!(actor_name(&ActorSource::Session("t".into()), None), "anonymous");
    assert_eq!(actor_name(&ActorSource::ApiKey, None), "api_key");
}

#[test]
fn rate_limits_options_and_gauges() {
    assert_eq!(rate_limit_quota(0, 5), None);
    assert_eq!(rate_limit_quota(10, 0), Some((10, 10)));
    assert_eq!(rate_limit_quota(10, 20), Some((10, 20)));
    let h = tus_options_headers(1000);
    assert_eq!(h[3], ("Tus-Max-Size".to_string(), "1000".to_string()));
    assert_eq!(h[2].1, "creation,creation-defer-length,termination,concatenation,checksum,expiration");
    let g = gauge_updates(&vec!["team".to_string()], vec![("global".to_string(), 3)]);
    assert_eq!(g, vec![("team".to_string(), 0), ("global".to_string(), 0), ("global".to_string(), 3)]);
}

#[test]
fn background_work() {
    assert!(starts_processing("completed"));
    assert!(!starts_processing("created"));
    assert!(audit_pruning_enabled(90));
    assert!(!audit_pruning_enabled(0));
    assert_eq!(days_window(30), "-30 days");
    assert_eq!(minutes_window(15), "-15 minutes");
}

// ── S3 backend ───────────────────────────────────────────────────────────

#[test]
fn s3_decisions() {
    assert_eq!(require_bucket(None), Err("S3_BUCKET is required when STORAGE_BACKEND=s3".to_string()));
    assert_eq!(staging_dir(None, "uploads"), "uploads/staging");
    assert_eq!(staging_dir(Some("/tmp/st".into()), "uploads"), "/tmp/st");
    assert_eq!(staging_path("/tmp/st", "staging/u1.part"), "/tmp/st/u1.part");
    assert_eq!(staging_part_path("u1"), "staging/u1.part");
    assert!(is_staging_path("staging/u1.part"));
    assert!(!is_staging_path("uploads/u1"));
    assert_eq!(upload_strategy(8, 8), UploadStrategy::PutObject);
    assert_eq!(upload_strategy(9, 8), UploadStrategy::Multipart);
    assert_eq!(concat_strategy(&vec!["uploads/a".into(), "uploads/b".into()]), ConcatStrategy::ServerSide);
    assert_eq!(concat_strategy(&vec!["uploads/a".into(), "staging/b.part".into()]), ConcatStrategy::Download);
    assert_eq!(concat_strategy(&Vec::new()), ConcatStrategy::Download);
    let mib = 1024 * 1024;
    assert!(parts_copyable(&vec![5 * mib, 1]));
    assert!(!parts_copyable(&vec![5 * mib - 1, 1]));
    assert!(parts_copyable(&vec![1]));
    assert_eq!(total_size(&vec![1, 2, 3]), Some(6));
    assert_eq!(total_size(&vec![u64::MAX, 1]), None);
    assert_eq!(copy_source("bucket", "k/1"), "bucket/k/1");
    assert_eq!(read_range(0, 10), "bytes=0-9");
    assert_eq!(read_range(7, 0), "bytes=7-6");
    assert_eq!(staging_free_bytes(Some((10, 4096))), 40960);
    assert_eq!(staging_free_bytes(Some((u64::MAX, 2))), u64::MAX);
    assert_eq!(staging_free_bytes(None), u64::MAX);
}

#[test]
fn context_routes_need_the_context_key() {
    let (key, hash) = new_api_key("k1", "k2");
    let cfg = ContextConfig {
        id: "c1".into(),
        slug: "team".into(),
        display_name: "Team".into(),
        api_key_hash: hash,
        storage_prefix: "team".into(),
        max_upload_bytes: None,
    };
    let header = format!("Bearer {key}");
    assert!(check_context_key(cfg.clone(), Some(header.as_str())).is_ok());
    assert_eq!(check_context_key(cfg.clone(), Some("Bearer nope")).err(), Some(ContextAuthError::InvalidKey));
    assert_eq!(check_context_key(cfg.clone(), None).err(), Some(ContextAuthError::MissingKey));
    assert_eq!(check_context_key(cfg, Some("Basic abc")).err(), Some(ContextAuthError::MissingKey));
    assert_eq!(ContextAuthError::NotFound.status_code(), 404);
    assert_eq!(ContextAuthError::InvalidKey.message(), "invalid API key");
    assert!(global_auth_allows(None, "/files/x", None));
    assert!(global_auth_allows(Some("k"), "/api/uploads", None));
    assert!(global_auth_allows(Some("k"), "/api/health", Some("Bearer wrong")));
    assert!(global_auth_allows(Some("k"), "/team/files/x", None));
    assert!(!global_auth_allows(Some("k"), "/files/x", None));
    assert!(!global_auth_allows(Some("k"), "/metrics", Some("Bearer wrong")));
    assert!(global_auth_allows(Some("k"), "/metrics", Some("Bearer k")));
}

#[test]
fn concat_final_plans() {
    let a = upload(UploadStatus::Completed, 3, 3, false);
    let b = upload(UploadStatus::Completed, 4, 4, false);
    let ids = vec!["a".to_string(), "b".to_string()];
    let plan = plan_concat_final(&ids, &vec![a.clone(), b.clone()], Some("filename aGVsbG8=")).unwrap();
    assert_eq!(plan.upload_length, 7);
    assert_eq!(plan.filename.as_deref(), Some("hello"));
    assert_eq!(plan.metadata_json.as_deref(), Some("{\"filename\":\"hello\"}"));
    assert_eq!(plan.concat_uploads, "[\"a\",\"b\"]");
    let bare = plan_concat_final(&ids, &vec![a.clone(), b.clone()], None).unwrap();
    assert_eq!((bare.filename, bare.metadata_json), (None, None));
    assert!(matches!(plan_concat_final(&ids, &vec![a, b], Some("a !!!")), Err(TusError::InvalidHeader(_))));
}

fn context(id: &str, slug: &str, name: &str) -> ContextConfig {
    ContextConfig {
        id: id.into(),
        slug: slug.into(),
        display_name: name.into(),
        api_key_hash: "h".into(),
        storage_prefix: slug.into(),
        max_upload_bytes: Some(10),
    }
}

#[test]
fn context_cache_reads_back_what_was_written() {
    let mut cache = ContextCache::new();
    assert!(cache.get("team").is_none());
    cache.insert(context("c1", "Team", "First"));
    assert_eq!(cache.get("team").map(|c| c.id), Some("c1".to_string()));
    assert_eq!(cache.get("TEAM").map(|c| c.display_name), Some("First".to_string()));
    cache.insert(context("c2", "other", "Other"));
    cache.insert(context("c1", "team", "Renamed"));
    assert_eq!(cache.get("Team").map(|c| c.display_name), Some("Renamed".to_string()));
    assert_eq!(cache.all().len(), 2);
    assert_eq!(cache.slug_for_id("c2"), Some("other".to_string()));
    assert_eq!(cache.slug_for_id("nope"), None);
    cache.remove("TEAM");
    assert!(cache.get("team").is_none());
    assert_eq!(cache.get("other").map(|c| c.id), Some("c2".to_string()));
    cache.load(vec![context("c3", "fresh", "Fresh"), context("c4", "FRESH", "Later"), context("c5", "x", "X")]);
    assert!(cache.get("other").is_none());
    assert_eq!(cache.get("fresh").map(|c| c.id), Some("c4".to_string()));
    assert_eq!(cache.all().len(), 2);
}

#[test]
fn status_names_round_trip() {
    let all = [
        UploadStatus::Created,
        UploadStatus::Uploading,
        UploadStatus::Completed,
        UploadStatus::Processing,
        UploadStatus::Finalized,
        UploadStatus::FailedUpload,
        UploadStatus::FailedProcessing,
        UploadStatus::FailedFinalization,
        UploadStatus::Abandoned,
        UploadStatus::ConsumedByConcat,
    ];
    for s in all {
        assert_eq!(UploadStatus::try_from_str(s.as_str()), Ok(s));
    }
    assert_eq!(UploadStatus::ConsumedByConcat.to_string(), "ConsumedByConcat");
    assert_eq!(UploadStatus::try_from_str("Done"), Err("unknown status: Done".to_string()));
}

#[test]
fn errors_map_to_status_codes() {
    assert_eq!(TusError::NotFound.status_code(), 404);
    assert_eq!(TusError::OffsetMismatch { expected: 1, actual: 2 }.status_code(), 409);
    assert_eq!(TusError::UnsupportedVersion("0.1".into()).status_code(), 412);
    assert_eq!(TusError::ChecksumMismatch.status_code(), 460);
    assert_eq!(TusError::QuotaExceeded("x".into()).status_code(), 507);
    assert_eq!(TusError::Expired.status_code(), 410);
    assert_eq!(TusError::Internal("x".into()).status_code(), 500);
    assert_eq!(
        TusError::OffsetMismatch { expected: 5, actual: 3 }.message(),
        "offset mismatch: expected 5, got 3"
    );
    assert_eq!(TusError::MissingHeader("Upload-Offset".into()).message(), "missing required header: Upload-Offset");
}

#[test]
fn contexts_do_not_see_each_other() {
    let mut u = upload(UploadStatus::Completed, 4, 4, false);
    u.context_id = Some("ctx-a".into());
    assert_eq!(head_fields(&u, Some("ctx-b"), false).err(), Some(TusError::NotFound));
    assert!(head_fields(&u, Some("ctx-a"), false).is_ok());
    assert!(head_fields(&u, None, false).is_ok());
    u.concat_type = Some("partial".into());
    assert_eq!(check_partial(&u, "u1", Some("ctx-b")), Err(TusError::NotFound));
    assert_eq!(check_partial(&u, "u1", None), Err(TusError::NotFound));
    assert_eq!(check_partial(&u, "u1", Some("ctx-a")), Ok(()));
}

use tuskar::config::{lookup, parse_network_list, parse_u64_list, Config};
use tuskar::processing::{
    clamav_verdict, extension, http_scan_size_check, http_scan_verdict, parse_csv_lower,
    scan_timeout_message, AvScanProcessor, ExecProcessor, MimeFilterProcessor, ProcessorContext,
    pipeline_next, pipeline_start, PipelineStep, ProcessorKind, ProcessorPipeline, ScanMode,
};
use tuskar::settings::{all_defs, build_setting_entry, find_def, resolve_setting};
use tuskar::status::UploadStatus;
use tuskar::upload::Upload;

fn vars(pairs: &[(&str, &str)]) -> Vec<(String, String)> {
    pairs.iter().map(|(k, v)| (k.to_string(), v.to_string())).collect()
}

// ── configuration ────────────────────────────────────────────────────────

#[test]
fn defaults_apply_without_variables() {
    let c = Config::from_vars(&Vec::new());
    assert_eq!(c.db_url, "tus.db");
    assert_eq!(c.storage_dir, "uploads");
    assert_eq!(c.base_url, "http://localhost:3000");
    assert_eq!(c.max_upload_bytes, 107_374_182_400);
    assert_eq!(c.webhook_max_attempts, 3);
    assert_eq!(c.webhook_retry_delays_secs, vec![1, 4]);
    assert_eq!(c.s3_part_size, 8 * 1024 * 1024);
    assert_eq!(c.login_max_attempts, 10);
    assert_eq!(c.login_lockout_secs, 900);
    assert!(!c.cookie_secure);
    assert!(c.api_key.is_none());
    assert!(c.trusted_proxies.is_empty());
    assert_eq!(c.oidc_default_role, "viewer");
}

#[test]
fn variables_override_defaults() {
    let c = Config::from_vars(&vars(&[
        ("BASE_URL", "https://files.example.com"),
        ("MAX_UPLOAD_BYTES", "1000"),
        ("UPLOAD_EXPIRY_HOURS", "not a number"),
        ("API_KEY", ""),
        ("WEBHOOK_RETRY_DELAYS", " 2, x ,10"),
        ("S3_FORCE_PATH_STYLE", "YES"),
        ("TRUSTED_PROXIES", "10.0.0.0/8, bogus ,192.168.0.0/16"),
        ("RATE_LIMIT_RPS", "-1"),
    ]));
    assert_eq!(c.base_url, "https://files.example.com");
    assert_eq!(c.max_upload_bytes, 1000);
    assert_eq!(c.upload_expiry_hours, 24);
    assert!(c.api_key.is_none());
    assert_eq!(c.webhook_retry_delays_secs, vec![2, 10]);
    assert!(c.s3_force_path_style);
    assert!(c.cookie_secure);
    assert_eq!(c.trusted_proxies.len(), 2);
    assert_eq!(c.rate_limit_rps, 0);
    let explicit = Config::from_vars(&vars(&[("BASE_URL", "https://x"), ("COOKIE_SECURE", "false")]));
    assert!(!explicit.cookie_secure);
    let empty_delays = Config::from_vars(&vars(&[("WEBHOOK_RETRY_DELAYS", "a,b")]));
    assert_eq!(empty_delays.webhook_retry_delays_secs, vec![1, 4]);
}

#[test]
fn list_parsing() {
    assert_eq!(parse_u64_list("1,2,,3"), vec![1, 2, 3]);
    assert_eq!(parse_u64_list("+5"), vec![5]);
    assert_eq!(parse_network_list("").len(), 0);
    assert_eq!(lookup(&vars(&[("A", "1"), ("A", "2")]), "A"), Some("1".to_string()));
}

// ── processing ───────────────────────────────────────────────────────────

#[test]
fn csv_lists_are_trimmed_and_lower_cased() {
    assert_eq!(parse_csv_lower(Some(" Image/PNG, ,application/pdf ")), vec!["image/png", "application/pdf"]);
    assert!(parse_csv_lower(None).is_empty());
}

#[test]
fn extensions_follow_path_rules() {
    assert_eq!(extension("photo.JPG"), "jpg");
    assert_eq!(extension("archive.tar.gz"), "gz");
    assert_eq!(extension(".bashrc"), "");
    assert_eq!(extension("noext"), "");
    assert_eq!(extension("dir/file.Txt"), "txt");
    assert_eq!(extension("a."), "");
    assert_eq!(extension(".."), "");
}

#[test]
fn mime_filter_checks_extensions() {
    let f = MimeFilterProcessor::from_env(&vars(&[("EXT_ALLOW", "jpg,png"), ("EXT_DENY", "exe")]));
    assert_eq!(f.check_extension(Some("a.PNG")), Ok(()));
    assert_eq!(f.check_extension(Some("a.gif")), Err("file extension '.gif' is not permitted".to_string()));
    assert_eq!(
        f.check_extension(None),
        Err("upload has no filename; extension allow-list requires a filename".to_string())
    );
    let deny = MimeFilterProcessor::from_env(&vars(&[("EXT_DENY", "exe")]));
    assert_eq!(deny.check_extension(Some("x.exe")), Err("file extension '.exe' is not allowed".to_string()));
    assert_eq!(deny.check_extension(None), Ok(()));
}

#[test]
fn mime_filter_checks_contents() {
    let png: &[u8] = &[0x89, 0x50, 0x4E, 0x47, 0x0D, 0x0A, 0x1A, 0x0A, 0, 0];
    let allow = MimeFilterProcessor::from_env(&vars(&[("MIME_ALLOW", "image/png")]));
    assert!(allow.checks_content());
    assert_eq!(allow.check_content(png), Ok(()));
    assert_eq!(
        allow.check_content(b"plain text"),
        Err("file type could not be determined; only specific MIME types are permitted".to_string())
    );
    let deny = MimeFilterProcessor::from_env(&vars(&[("MIME_DENY", "image/png")]));
    assert_eq!(deny.check_content(png), Err("MIME type 'image/png' is not allowed".to_string()));
    assert_eq!(deny.check_content(b"plain text"), Ok(()));
    let none = MimeFilterProcessor::from_env(&Vec::new());
    assert!(!none.checks_content());
}

#[test]
fn scanner_configuration() {
    let c = AvScanProcessor::from_env(&Vec::new()).unwrap();
    assert_eq!(c.timeout_secs, 120);
    assert!(matches!(c.mode, ScanMode::ClamAv { ref bin } if bin == "clamscan"));
    let h = AvScanProcessor::from_env(&vars(&[
        ("AV_SCANNER", "HTTP"),
        ("AV_HTTP_URL", "http://scanner/scan"),
        ("AV_HTTP_HEADER", "X-Key : abc:def"),
    ]))
    .unwrap();
    match h.mode {
        ScanMode::Http { url, header, max_bytes } => {
            assert_eq!(url, "http://scanner/scan");
            assert_eq!(header, Some(("X-Key".to_string(), "abc:def".to_string())));
            assert_eq!(max_bytes, 104_857_600);
        }
        _ => panic!("http scanner expected"),
    }
    assert_eq!(
        AvScanProcessor::from_env(&vars(&[("AV_SCANNER", "http")])).unwrap_err(),
        "AV_HTTP_URL required when AV_SCANNER=http"
    );
    assert_eq!(
        AvScanProcessor::from_env(&vars(&[("AV_SCANNER", "Sophos")])).unwrap_err(),
        "unknown AV_SCANNER 'sophos'; expected 'clamav' or 'http'"
    );
}

#[test]
fn scanner_verdicts() {
    assert_eq!(clamav_verdict(Some(0), b"", "exit status: 0", b""), Ok(()));
    assert_eq!(
        clamav_verdict(Some(1), b"/tmp/x: OK\n/tmp/y: Eicar-Test FOUND\n", "exit status: 1", b""),
        Err("malware detected: /tmp/y: Eicar-Test FOUND".to_string())
    );
    assert_eq!(
        clamav_verdict(Some(1), b"nothing", "exit status: 1", b""),
        Err("malware detected: unknown threat".to_string())
    );
    assert_eq!(
        clamav_verdict(Some(2), b"", "exit status: 2", b" boom \n"),
        Err("AV scan error (exit exit status: 2): boom".to_string())
    );
    assert_eq!(http_scan_size_check(10, 10), Ok(()));
    assert_eq!(
        http_scan_size_check(11, 10),
        Err("file (11 bytes) exceeds AV_HTTP_MAX_BYTES limit (10); use AV_SCANNER=clamav for large files".to_string())
    );
    assert_eq!(http_scan_verdict(200, "200 OK", "x"), Ok(()));
    assert_eq!(
        http_scan_verdict(403, "403 Forbidden", " infected \n"),
        Err("AV scan rejected file (HTTP 403 Forbidden): infected".to_string())
    );
    assert_eq!(scan_timeout_message(true, 5), "AV HTTP scan timed out after 5s");
    assert_eq!(scan_timeout_message(false, 5), "AV scan timed out after 5s");
}

#[test]
fn pipeline_configuration() {
    let p = ProcessorPipeline::from_env(&Vec::new()).unwrap();
    assert_eq!(p.processors.len(), 1);
    assert!(matches!(p.processors[0], ProcessorKind::Nop(_)));
    let p = ProcessorPipeline::from_env(&vars(&[
        ("PROCESSORS", "mime, exec ,,av"),
        ("PROCESSOR_EXEC_COMMAND", "true"),
    ]))
    .unwrap();
    assert_eq!(p.processors.len(), 3);
    match &p.processors[1] {
        ProcessorKind::Exec(e) => {
            assert_eq!(e.command, "true");
            assert_eq!(e.timeout_secs, 300);
        }
        _ => panic!("exec expected"),
    }
    assert_eq!(
        ProcessorPipeline::from_env(&vars(&[("PROCESSORS", "exec")])).unwrap_err(),
        "PROCESSOR_EXEC_COMMAND required when 'exec' processor is configured"
    );
    assert_eq!(
        ProcessorPipeline::from_env(&vars(&[("PROCESSORS", "nop,zip")])).unwrap_err(),
        "unknown processor: zip"
    );
}

#[test]
fn exec_processor_environment() {
    let upload = Upload {
        id: "u1".into(),
        filename: None,
        upload_length: 42,
        upload_offset: 42,
        metadata_json: None,
        status: UploadStatus::Processing,
        storage_path: "u1".into(),
        created_at: "c".into(),
        updated_at: "u".into(),
        completed_at: None,
        error_message: None,
        length_is_deferred: false,
        concat_type: None,
        concat_uploads: None,
        context_id: None,
    };
    let ctx = ProcessorContext { upload_id: "u1".into(), file_path: "/data/u1".into(), upload };
    let env = ExecProcessor::command_env(&ctx);
    assert_eq!(env[2], ("FILENAME".to_string(), "".to_string()));
    assert_eq!(env[3], ("UPLOAD_SIZE".to_string(), "42".to_string()));
    assert_eq!(env[4], ("METADATA_JSON".to_string(), "{}".to_string()));
    assert_eq!(
        ExecProcessor::failure_message("exit status: 3", b" bad input\n"),
        "exec processor exited with exit status: 3: bad input"
    );
    let e = ExecProcessor { command: "x".into(), timeout_secs: 7 };
    assert_eq!(e.timeout_message(), "exec processor timed out after 7s");
}

// ── settings ─────────────────────────────────────────────────────────────

#[test]
fn settings_sources_and_masking() {
    let defs = all_defs();
    assert_eq!(defs.len(), 37);
    let b = &defs[find_def(&defs, "STORAGE_BACKEND").unwrap()];
    assert_eq!(b.label, "Storage backend");
    assert_eq!(b.options, Some(vec!["filesystem".to_string(), "s3".to_string()]));
    let shown = build_setting_entry(b, &Vec::new(), &Vec::new());
    assert_eq!(shown.options, b.options);
    assert_eq!((shown.value.as_str(), shown.category.as_str()), ("filesystem", "Storage"));
    let i = find_def(&defs, "API_KEY").unwrap();
    let d = &defs[i];
    let none: Vec<(String, String)> = Vec::new();
    let e = build_setting_entry(d, &none, &none);
    assert_eq!((e.value.as_str(), e.source.as_str()), ("", "default"));
    let e = build_setting_entry(d, &vars(&[("API_KEY", "secret")]), &none);
    assert_eq!((e.value.as_str(), e.source.as_str()), ("••••••••", "db"));
    let e = build_setting_entry(d, &none, &vars(&[("API_KEY", "secret")]));
    assert_eq!((e.value.as_str(), e.source.as_str()), ("••••••••", "env"));
    assert_eq!(
        resolve_setting("RUST_LOG", &none, &vars(&[("RUST_LOG", "")]), "info"),
        ("info".to_string(), "default".to_string())
    );
    assert!(find_def(&defs, "NOPE").is_none());
    let s = &defs[find_def(&defs, "STORAGE_BACKEND").unwrap()];
    assert_eq!(s.options, Some(vec!["filesystem".to_string(), "s3".to_string()]));
}

#[test]
fn pipeline_runs_in_order_and_stops_at_the_first_failure() {
    assert_eq!(pipeline_start(0), PipelineStep::Done);
    assert_eq!(pipeline_start(3), PipelineStep::Run(0));
    assert_eq!(pipeline_next(0, 3, Ok(())), PipelineStep::Run(1));
    assert_eq!(pipeline_next(2, 3, Ok(())), PipelineStep::Done);
    assert_eq!(pipeline_next(1, 3, Err("not a PDF".to_string())), PipelineStep::Failed("not a PDF".to_string()));
}

use tuskar::status::UploadStatus;
use tuskar::upload::{
    expired_at, row_to_upload, upload_expires_at, upload_expires_at_checked, Upload, UploadRow, CHRONO_MAX_SECS,
    CHRONO_MIN_SECS,
};

fn upload_with_created_at(created_at: &str) -> Upload {
    Upload {
        id: "test".into(),
        filename: None,
        upload_length: 100,
        upload_offset: 0,
        metadata_json: None,
        status: UploadStatus::Created,
        storage_path: "test.part".into(),
        created_at: created_at.into(),
        updated_at: created_at.into(),
        completed_at: None,
        error_message: None,
        length_is_deferred: false,
        concat_type: None,
        concat_uploads: None,
        context_id: None,
    }
}

#[test]
fn is_expired_true_for_past_date() {
    let u = upload_with_created_at("2000-01-01T00:00:00+00:00");
    assert!(u.is_expired(24));
    assert!(u.is_expired(0));
}

#[test]
fn is_expired_false_for_far_future() {
    let u = upload_with_created_at("9999-12-31T23:59:59+00:00");
    assert!(!u.is_expired(24));
}

#[test]
fn is_expired_false_for_unparseable_date() {
    let u = upload_with_created_at("not-a-date");
    assert!(!u.is_expired(24));
}

#[test]
fn expiry_is_strictly_after_the_deadline() {
    let created = Some((1_704_067_200i64, 0u32));
    assert!(!expired_at(created, 1, (1_704_070_800, 0)));
    assert!(expired_at(created, 1, (1_704_070_800, 1)));
    assert!(!expired_at(None, 1, (i64::MAX, 0)));
}

#[test]
fn expires_header_is_an_http_date() {
    assert_eq!(
        upload_expires_at("2024-01-01T00:00:00Z", 24, (0, 0)),
        "Tue, 02 Jan 2024 00:00:00 GMT"
    );
    assert_eq!(upload_expires_at("garbage", 1, (0, 0)), "Thu, 01 Jan 1970 01:00:00 GMT");
}

#[test]
fn expires_header_stays_inside_the_calendar() {
    let last = upload_expires_at_checked("garbage", 0, (CHRONO_MAX_SECS, 0)).unwrap();
    assert!(last.ends_with("23:59:59 GMT") && last.contains("Dec"));
    let first = upload_expires_at_checked("garbage", 0, (CHRONO_MIN_SECS, 0)).unwrap();
    assert!(first.ends_with("00:00:00 GMT") && first.contains("Jan"));
    assert_eq!(upload_expires_at_checked("garbage", 0, (CHRONO_MAX_SECS + 1, 0)), None);
    assert_eq!(upload_expires_at_checked("garbage", 0, (CHRONO_MIN_SECS - 1, 0)), None);
    assert_eq!(upload_expires_at_checked("2024-01-01T00:00:00Z", i64::MAX, (0, 0)), None);
    assert_eq!(
        upload_expires_at_checked("2024-01-01T00:00:00Z", 24, (0, 0)).as_deref(),
        Some("Tue, 02 Jan 2024 00:00:00 GMT")
    );
    // Far beyond the old fixed bound on hours, still inside the calendar.
    assert!(upload_expires_at_checked("garbage", 2_200_000_000, (0, 0)).is_some());
}

#[test]
fn stored_rows_read_back() {
    let row = UploadRow {
        id: "a".into(),
        filename: Some("f.txt".into()),
        upload_length: 10,
        upload_offset: 4,
        metadata_json: None,
        status: "Uploading".into(),
        storage_path: "a.part".into(),
        created_at: "c".into(),
        updated_at: "u".into(),
        completed_at: None,
        error_message: None,
        length_is_deferred: 1,
        concat_type: None,
        concat_uploads: None,
        context_id: Some("ctx".into()),
    };
    let u = row_to_upload(row.clone()).unwrap();
    assert_eq!(u.status, UploadStatus::Uploading);
    assert!(u.length_is_deferred);
    assert_eq!(u.context_id.as_deref(), Some("ctx"));
    let mut bad = row;
    bad.status = "Bogus".into();
    match row_to_upload(bad) {
        Err(e) => assert_eq!(e.message(), "internal error: unknown status: Bogus"),
        Ok(_) => panic!("unknown status must be refused"),
    }
}

#[test]
fn any_expiry_is_accepted() {
    assert!(!expired_at(Some((0, 0)), i64::MAX, (i64::MAX, 999_999_999)));
    assert!(expired_at(Some((0, 0)), i64::MIN, (i64::MIN, 0)));
    let u = upload_with_created_at("2000-01-01T00:00:00+00:00");
    assert!(!u.is_expired(i64::MAX));
    assert!(u.is_expired(i64::MIN));
}

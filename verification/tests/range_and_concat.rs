use tuskar::concat::parse_concat_final_ids;
use tuskar::range::parse_range;

// ── parse_range ──────────────────────────────────────────────────────────

#[test]
fn range_none_returns_full() {
    assert_eq!(parse_range(None, 1000), Ok(None));
}

#[test]
fn range_open_end() {
    assert_eq!(parse_range(Some("bytes=500-"), 1000), Ok(Some((500, 500))));
}

#[test]
fn range_explicit_end() {
    assert_eq!(parse_range(Some("bytes=0-499"), 1000), Ok(Some((0, 500))));
}

#[test]
fn range_suffix() {
    assert_eq!(parse_range(Some("bytes=-200"), 1000), Ok(Some((800, 200))));
}

#[test]
fn range_clamps_end_to_file_size() {
    // end (999) is within bounds; (1500) would be clamped to 999
    assert_eq!(parse_range(Some("bytes=0-1500"), 1000), Ok(Some((0, 1000))));
}

#[test]
fn range_start_beyond_eof_is_416() {
    assert_eq!(parse_range(Some("bytes=1000-1999"), 1000), Err(()));
}

#[test]
fn range_inverted_bounds_is_416() {
    assert_eq!(parse_range(Some("bytes=500-100"), 1000), Err(()));
}

#[test]
fn range_unknown_unit_ignored() {
    assert_eq!(parse_range(Some("chunks=0-100"), 1000), Ok(None));
}

#[test]
fn range_suffix_longer_than_file_serves_all() {
    assert_eq!(parse_range(Some("bytes=-5000"), 1000), Ok(Some((0, 1000))));
}

#[test]
fn range_multi_range_uses_first() {
    assert_eq!(parse_range(Some("bytes=0-9, 20-29"), 1000), Ok(Some((0, 10))));
}

#[test]
fn range_without_dash_is_ignored() {
    assert_eq!(parse_range(Some("bytes=100"), 1000), Ok(None));
}

#[test]
fn range_non_numeric_is_416() {
    assert_eq!(parse_range(Some("bytes=abc-10"), 1000), Err(()));
    assert_eq!(parse_range(Some("bytes=-x"), 1000), Err(()));
}

#[test]
fn range_whitespace_around_numbers() {
    assert_eq!(parse_range(Some("bytes= 10 - 19 "), 1000), Ok(Some((10, 10))));
}

// ── parse_concat_final_ids ───────────────────────────────────────────────

#[test]
fn concat_final_ids_standard_form() {
    let ids = parse_concat_final_ids("final ;/files/abc /files/def").unwrap();
    assert_eq!(ids, vec!["abc", "def"]);
}

#[test]
fn concat_final_ids_no_space_before_semicolon() {
    let ids = parse_concat_final_ids("final;/files/abc /files/def").unwrap();
    assert_eq!(ids, vec!["abc", "def"]);
}

#[test]
fn concat_final_ids_extra_whitespace() {
    let ids = parse_concat_final_ids("final  ;  /files/abc  /files/def").unwrap();
    assert_eq!(ids, vec!["abc", "def"]);
}

#[test]
fn concat_final_ids_full_urls() {
    let ids = parse_concat_final_ids(
        "final ;http://localhost:3000/files/id1 http://localhost:3000/files/id2",
    )
    .unwrap();
    assert_eq!(ids, vec!["id1", "id2"]);
}

#[test]
fn concat_final_ids_single_partial() {
    let ids = parse_concat_final_ids("final ;/files/only").unwrap();
    assert_eq!(ids, vec!["only"]);
}

#[test]
fn concat_final_ids_returns_none_for_partial() {
    assert!(parse_concat_final_ids("partial").is_none());
}

#[test]
fn concat_final_ids_returns_none_for_unrelated() {
    assert!(parse_concat_final_ids("random value").is_none());
}

#[test]
fn concat_final_ids_trailing_slash_is_dropped() {
    let ids = parse_concat_final_ids("final;/files/ /files/x").unwrap();
    assert_eq!(ids, vec!["x"]);
}

#[test]
fn concat_final_ids_without_urls_is_empty() {
    let ids = parse_concat_final_ids("  final ; ").unwrap();
    assert!(ids.is_empty());
}

#[test]
fn empty_files_have_no_satisfiable_range() {
    assert_eq!(parse_range(None, 0), Ok(None));
    assert_eq!(parse_range(Some("items=0-1"), 0), Ok(None));
    assert_eq!(parse_range(Some("bytes=0-5"), 0), Err(()));
    assert_eq!(parse_range(Some("bytes=x-"), 0), Err(()));
}

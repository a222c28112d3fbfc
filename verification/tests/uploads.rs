use geoconsole_v3::error::ErrorKind;
use geoconsole_v3::upload::{
    accept_upload, check_chunk, check_sql_dataset_request, check_sql_query, chunk_file_name,
    parse_chunk_index, parse_total_chunks, upload_complete,
};

fn s(x: &str) -> Option<String> {
    Some(x.to_string())
}

#[test]
fn chunk_fields_must_be_present() {
    let e = check_chunk(None, Some(0), Some(1), s("f"), Some(vec![1])).unwrap_err();
    assert_eq!(e.message(), "Missing session_id");
    let e = check_chunk(s("a"), None, Some(1), s("f"), Some(vec![1])).unwrap_err();
    assert_eq!(e.message(), "Missing chunk_index");
    let e = check_chunk(s("a"), Some(0), None, s("f"), Some(vec![1])).unwrap_err();
    assert_eq!(e.message(), "Missing total_chunks");
    let e = check_chunk(s("a"), Some(0), Some(1), None, Some(vec![1])).unwrap_err();
    assert_eq!(e.message(), "Missing filename");
    let e = check_chunk(s("a"), Some(0), Some(1), s("f"), None).unwrap_err();
    assert_eq!(e.message(), "Missing data");
}

#[test]
fn chunk_index_must_be_in_range() {
    let e = check_chunk(s("a"), Some(3), Some(3), s("f"), Some(vec![])).unwrap_err();
    assert_eq!(e.kind(), ErrorKind::BadRequest);
    assert_eq!(e.message(), "Invalid chunk_index 3 for total_chunks 3");
    let e = check_chunk(s("a"), Some(0), Some(0), s("f"), Some(vec![])).unwrap_err();
    assert_eq!(e.message(), "Invalid chunk_index 0 for total_chunks 0");
}

#[test]
fn session_ids_are_checked() {
    assert!(check_chunk(s("abc-DEF_123"), Some(0), Some(2), s("f"), Some(vec![9])).is_ok());
    let e = check_chunk(s("../etc"), Some(0), Some(2), s("f"), Some(vec![9])).unwrap_err();
    assert_eq!(e.message(), "Invalid session_id");
    let long = "a".repeat(65);
    assert!(check_chunk(Some(long), Some(0), Some(2), s("f"), Some(vec![9])).is_err());
    assert!(check_chunk(Some("a".repeat(64)), Some(0), Some(2), s("f"), Some(vec![9])).is_ok());
    let c = check_chunk(s("x"), Some(1), Some(2), s("big.gpkg"), Some(vec![4, 5])).unwrap();
    assert_eq!(c.file_name, "big.gpkg");
    assert_eq!(c.data, vec![4, 5]);
}

#[test]
fn chunk_numbers() {
    assert_eq!(parse_chunk_index("7").unwrap(), 7);
    assert_eq!(parse_chunk_index("x").unwrap_err().message(), "Invalid chunk_index");
    assert_eq!(parse_total_chunks("-1").unwrap_err().message(), "Invalid total_chunks");
    assert_eq!(chunk_file_name(12), "00000012");
    assert_eq!(chunk_file_name(0), "00000000");
    assert_eq!(chunk_file_name(4_000_000_000), "4000000000");
    assert!(!upload_complete(1, 3));
    assert!(upload_complete(3, 3));
}

#[test]
fn single_file_uploads() {
    assert_eq!(accept_upload(None).unwrap_err().message(), "No file provided");
    let (n, d) = accept_upload(Some((None, vec![1]))).unwrap();
    assert_eq!(n, "uploaded.geojson");
    assert_eq!(d, vec![1]);
    let (n, _) = accept_upload(Some((s("a.kml"), vec![]))).unwrap();
    assert_eq!(n, "a.kml");
}

#[test]
fn sql_requests() {
    assert_eq!(check_sql_query("  \n").unwrap_err().message(), "SQL query is required");
    assert!(check_sql_query("SELECT 1").is_ok());
    assert_eq!(check_sql_dataset_request("SELECT 1", "  my set ").unwrap(), "my set");
    assert_eq!(
        check_sql_dataset_request("SELECT 1", "   ").unwrap_err().message(),
        "Dataset name is required"
    );
    assert_eq!(check_sql_dataset_request("", "x").unwrap_err().message(), "SQL query is required");
}

#[test]
fn chunk_numbers_follow_the_decimal_grammar() {
    assert_eq!(parse_chunk_index("+5").unwrap(), 5);
    assert_eq!(parse_chunk_index("007").unwrap(), 7);
    assert_eq!(parse_total_chunks("4294967295").unwrap(), u32::MAX);
    for bad in ["", "+", "-0", " 1", "1 ", "4294967296", "1.0", "٣"] {
        assert_eq!(parse_chunk_index(bad).unwrap_err().kind(), ErrorKind::BadRequest, "{:?}", bad);
    }
}

#[test]
fn blank_means_unicode_white_space() {
    assert!(check_sql_query("\u{3000}\t\u{2028}\u{85}").is_err());
    assert!(check_sql_query("\u{200b}").is_ok());
    assert_eq!(check_sql_dataset_request("x", "\u{a0}name\u{2003}").unwrap(), "name");
}

#[test]
fn chunk_names_are_distinct_and_ordered() {
    let names: Vec<String> = [0u32, 1, 9, 10, 99, 12_345_678, 99_999_999].iter().map(|&i| chunk_file_name(i)).collect();
    for w in names.windows(2) {
        assert!(w[0] < w[1], "{} < {}", w[0], w[1]);
    }
    assert_ne!(chunk_file_name(100_000_000), chunk_file_name(10_000_000));
}

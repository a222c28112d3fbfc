use geoconsole_v3::error::{lock_err, ErrorKind};
use geoconsole_v3::ident::{dataset_table_name, quote_ident, sql_escape, validate_identifier};
use geoconsole_v3::catalog::restored_map_id;
use geoconsole_v3::models::GeometryType;
use geoconsole_v3::text::{i64_text, u64_text};
use std::sync::PoisonError;

#[test]
fn empty_identifier_is_refused() {
    let e = validate_identifier("").unwrap_err();
    assert_eq!(e.kind(), ErrorKind::BadRequest);
    assert_eq!(e.message(), "Empty identifier");
}

#[test]
fn long_identifier_is_refused() {
    let name = "a".repeat(129);
    assert_eq!(validate_identifier(&name).unwrap_err().message(), "Identifier too long");
    assert!(validate_identifier(&"a".repeat(128)).is_ok());
    // 65 two-byte characters are 130 bytes: too long before the character check.
    let wide = "é".repeat(65);
    assert_eq!(validate_identifier(&wide).unwrap_err().message(), "Identifier too long");
}

#[test]
fn identifier_with_bad_character_is_refused() {
    let e = validate_identifier("a-b").unwrap_err();
    assert_eq!(
        e.message(),
        "Invalid identifier 'a-b': only alphanumeric, underscore, and dot allowed"
    );
    assert!(validate_identifier("x\"; DROP TABLE t; --").is_err());
    assert!(validate_identifier("schema.table_1").is_ok());
}

#[test]
fn quoting_wraps_valid_names() {
    assert_eq!(quote_ident("geom").unwrap(), "\"geom\"");
    assert!(quote_ident("ge om").is_err());
}

#[test]
fn sql_literal_quotes_are_doubled() {
    assert_eq!(sql_escape("it's a 'test'"), "it''s a ''test''");
    assert_eq!(sql_escape("plain"), "plain");
}

#[test]
fn dataset_table_names_are_valid() {
    let t = dataset_table_name(0x67e55044_10b1_426f_9247_bb680e5fe0c8u128);
    assert_eq!(t, "dataset_67e55044_10b1_426f_9247_bb680e5fe0c8");
    assert!(validate_identifier(&t).is_ok());
    assert_eq!(dataset_table_name(u128::MAX), "dataset_ffffffff_ffff_ffff_ffff_ffffffffffff");
}

#[test]
fn id_text_round_trip() {
    let id = 0xa1a2a3a4_b1b2_c1c2_d1d2_d3d4d5d6d7d8u128;
    assert_eq!(dataset_table_name(id), "dataset_a1a2a3a4_b1b2_c1c2_d1d2_d3d4d5d6d7d8");
    assert_eq!(restored_map_id("a1a2a3a4-b1b2-c1c2-d1d2-d3d4d5d6d7d8", 7), id);
    assert_eq!(restored_map_id("nonsense", 7), 7);
}

#[test]
fn lock_error_is_internal() {
    let e = lock_err(PoisonError::new(()));
    assert_eq!(e.kind(), ErrorKind::Internal);
    assert!(!e.message().is_empty());
}

#[test]
fn geometry_type_from_names() {
    assert_eq!(GeometryType::from("point"), GeometryType::Point);
    assert_eq!(GeometryType::from("MultiPolygon"), GeometryType::MultiPolygon);
    assert_eq!(GeometryType::from("GEOMETRYCOLLECTION"), GeometryType::GeometryCollection);
    assert_eq!(GeometryType::from("circle"), GeometryType::Unknown);
    assert_eq!(GeometryType::from(""), GeometryType::Unknown);
}

#[test]
fn geometry_labels_round_trip() {
    for g in [
        GeometryType::Point,
        GeometryType::LineString,
        GeometryType::Polygon,
        GeometryType::MultiPoint,
        GeometryType::MultiLineString,
        GeometryType::MultiPolygon,
        GeometryType::GeometryCollection,
        GeometryType::Unknown,
    ] {
        assert_eq!(GeometryType::from(g.label()), g);
        assert_eq!(g.label(), format!("{:?}", g));
    }
}

#[test]
fn decimal_text() {
    assert_eq!(u64_text(0), "0");
    assert_eq!(u64_text(1234567890), "1234567890");
    assert_eq!(u64_text(u64::MAX), "18446744073709551615");
    assert_eq!(i64_text(-42), "-42");
    assert_eq!(i64_text(i64::MIN), "-9223372036854775808");
    assert_eq!(i64_text(i64::MAX), "9223372036854775807");
}

use geoconsole_v3::detect::{
    begin_geometry_search, column_info, continue_geometry_search, geojson_type, geometry_type_sql,
    needs_geojson_probe, normalize_geometry_type, reported_srid, resolve_geometry_type, srid_or_default,
    srid_sql, SearchStep,
};
use geoconsole_v3::load::{
    after_failed_extension_load, bbox_columns_sql, bbox_update_sql, bounds_sql, count_sql,
    home_directory_sql, reprojection_sql,
};
use geoconsole_v3::models::GeometryType;

fn row(n: &str, t: &str, y: &str) -> (String, String, String) {
    (n.to_string(), t.to_string(), y.to_string())
}

fn names(v: &[&str]) -> Vec<String> {
    v.iter().map(|s| s.to_string()).collect()
}

#[test]
fn test_bbox_columns_excluded_from_metadata() {
    let rows = vec![
        row("name", "VARCHAR", "YES"),
        row("pop", "BIGINT", "NO"),
        row("geom", "GEOMETRY", "YES"),
        row("_bbox_xmin", "DOUBLE", "YES"),
        row("_bbox_ymin", "DOUBLE", "YES"),
        row("_bbox_xmax", "DOUBLE", "YES"),
        row("_bbox_ymax", "DOUBLE", "YES"),
    ];
    let cols = column_info(rows);
    let col_names: Vec<&str> = cols.iter().map(|c| c.name.as_str()).collect();
    assert!(!col_names.contains(&"_bbox_xmin"), "Internal bbox columns should be hidden");
    assert!(!col_names.contains(&"_bbox_ymin"), "Internal bbox columns should be hidden");
    assert!(!col_names.contains(&"_bbox_xmax"), "Internal bbox columns should be hidden");
    assert!(!col_names.contains(&"_bbox_ymax"), "Internal bbox columns should be hidden");
    assert_eq!(col_names, vec!["name", "pop", "geom"]);
    assert!(cols[0].nullable);
    assert!(!cols[1].nullable);
    assert_eq!(cols[1].data_type, "BIGINT");
}

#[test]
fn geometry_column_by_name() {
    match begin_geometry_search(&names(&["name", "SHAPE", "Geom"]), "t") {
        SearchStep::Found(i) => assert_eq!(i, 2),
        _ => panic!("expected a column found by name"),
    }
    match begin_geometry_search(&names(&["the_geom", "wkb_geometry"]), "t") {
        SearchStep::Found(i) => assert_eq!(i, 1),
        _ => panic!("expected a column found by name"),
    }
}

#[test]
fn geometry_column_by_probing() {
    let cols = names(&["id", "location"]);
    match begin_geometry_search(&cols, "t") {
        SearchStep::Probe { index, sql } => {
            assert_eq!(index, 0);
            assert_eq!(sql, "SELECT ST_GeometryType(\"id\") FROM t LIMIT 1");
        }
        _ => panic!("expected a probe"),
    }
    match continue_geometry_search(&cols, "t", 0, false) {
        SearchStep::Probe { index, .. } => assert_eq!(index, 1),
        _ => panic!("expected a probe"),
    }
    match continue_geometry_search(&cols, "t", 1, true) {
        SearchStep::Found(i) => assert_eq!(i, 1),
        _ => panic!("expected the probed column"),
    }
    match continue_geometry_search(&cols, "t", 1, false) {
        SearchStep::Fail(e) => assert_eq!(e.message(), "No geometry column found"),
        _ => panic!("expected failure"),
    }
    match begin_geometry_search(&names(&["bad col"]), "t") {
        SearchStep::Fail(e) => assert!(e.message().starts_with("Invalid identifier 'bad col'")),
        _ => panic!("expected failure"),
    }
    match begin_geometry_search(&cols, "") {
        SearchStep::Fail(e) => assert_eq!(e.message(), "Empty identifier"),
        _ => panic!("expected failure"),
    }
}

#[test]
fn test_detect_geometry_type() {
    let (a, b) = geometry_type_sql("t", "geom").unwrap();
    assert_eq!(a, "SELECT ST_GeometryType(\"geom\") FROM t WHERE \"geom\" IS NOT NULL LIMIT 1");
    assert_eq!(b, "SELECT ST_AsGeoJSON(\"geom\") FROM t WHERE \"geom\" IS NOT NULL LIMIT 1");
    let n = normalize_geometry_type(Some("POINT".to_string()));
    assert!(!needs_geojson_probe(&n));
    let gt = format!("{:?}", resolve_geometry_type(&n, None)).to_uppercase();
    assert!(gt.contains("POINT"), "Expected Point, got {:?}", gt);
}

#[test]
fn geometry_type_normalization_and_fallback() {
    assert_eq!(normalize_geometry_type(Some("multi polygon".to_string())), "MULTIPOLYGON");
    assert_eq!(normalize_geometry_type(None), "UNKNOWN");
    assert!(needs_geojson_probe("UNKNOWN"));
    assert!(needs_geojson_probe(""));
    let gj = "{\"type\":\"LineString\",\"coordinates\":[[0,0],[1,1]]}";
    assert_eq!(geojson_type(gj).as_deref(), Some("LineString"));
    assert_eq!(geojson_type("{}"), None);
    assert_eq!(resolve_geometry_type("UNKNOWN", Some(gj)), GeometryType::LineString);
    assert_eq!(resolve_geometry_type("UNKNOWN", Some("{}")), GeometryType::Unknown);
    assert_eq!(resolve_geometry_type("POLYGON", Some(gj)), GeometryType::Polygon);
}

#[test]
fn srid_decisions() {
    assert_eq!(reported_srid(Some(3857)), Some(3857));
    assert_eq!(reported_srid(Some(0)), None);
    assert_eq!(reported_srid(None), None);
    assert_eq!(srid_or_default(Some(3857)), 3857);
    assert_eq!(srid_or_default(Some(0)), 4326);
    assert_eq!(srid_or_default(None), 4326);
    let (a, b) = srid_sql("t", "g").unwrap();
    assert_eq!(a, "SELECT ST_SRID(\"g\") FROM t WHERE \"g\" IS NOT NULL LIMIT 1");
    assert_eq!(
        b,
        "SELECT ST_XMin(ST_Extent(\"g\")), ST_XMax(ST_Extent(\"g\")), ST_YMin(ST_Extent(\"g\")), ST_YMax(ST_Extent(\"g\")) FROM t"
    );
    assert!(srid_sql("t", "g g").is_none());
}

#[test]
fn finishing_statements() {
    assert_eq!(count_sql("t"), "SELECT COUNT(*) FROM t");
    assert!(reprojection_sql("t", "\"g\"", 4326).is_none());
    let (a, b) = reprojection_sql("t", "\"g\"", 3857).unwrap();
    assert_eq!(a, "UPDATE t SET \"g\" = ST_Transform(\"g\", 'EPSG:3857', 'EPSG:4326')");
    assert_eq!(b, "UPDATE t SET \"g\" = ST_Transform(\"g\", 'EPSG:4326')");
    assert_eq!(
        bbox_columns_sql("t"),
        "ALTER TABLE t ADD COLUMN IF NOT EXISTS _bbox_xmin DOUBLE; ALTER TABLE t ADD COLUMN IF NOT EXISTS _bbox_ymin DOUBLE; ALTER TABLE t ADD COLUMN IF NOT EXISTS _bbox_xmax DOUBLE; ALTER TABLE t ADD COLUMN IF NOT EXISTS _bbox_ymax DOUBLE;"
    );
    assert_eq!(
        bbox_update_sql("t", "\"g\""),
        "UPDATE t SET _bbox_xmin = ST_XMin(ST_Envelope(\"g\")), _bbox_ymin = ST_YMin(ST_Envelope(\"g\")), _bbox_xmax = ST_XMax(ST_Envelope(\"g\")), _bbox_ymax = ST_YMax(ST_Envelope(\"g\"))"
    );
    assert!(bounds_sql("t", "g").unwrap().ends_with("FROM t WHERE \"g\" IS NOT NULL"));
    assert!(bounds_sql("t;", "g").is_err());
    assert_eq!(home_directory_sql("/srv/it's"), "SET home_directory='/srv/it''s'");
    assert!(after_failed_extension_load(true).is_ok());
    assert_eq!(
        after_failed_extension_load(false).unwrap_err().message(),
        "Failed to load DuckDB extensions"
    );
}

#[test]
fn test_detect_geometry_column() {
    // The columns that reading the test GeoJSON of cities gives.
    let cols = names(&["name", "pop", "geom"]);
    match begin_geometry_search(&cols, "test_cities") {
        SearchStep::Found(i) => {
            assert!(!cols[i].is_empty());
            assert_eq!(cols[i], "geom");
        }
        _ => panic!("expected the geometry column to be found by name"),
    }
}

#[test]
fn test_geometry_type_detection() {
    let n = normalize_geometry_type(Some("POINT".to_string()));
    let gt = format!("{:?}", resolve_geometry_type(&n, None)).to_uppercase();
    assert!(gt.contains("POINT"), "Expected Point type, got: {}", gt);
}

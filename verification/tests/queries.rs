use geoconsole_v3::error::ErrorKind;
use geoconsole_v3::ids::Timestamp;
use geoconsole_v3::models::{ColumnInfo, Dataset, FeatureQuery, GeometryType};
use geoconsole_v3::query::{
    arrow_chunk_sql, arrow_select_columns, bbox_filter_sql, bbox_parts, cap_limit, geojson_sql,
    plan_features, ChunkCursor, CHUNK_SIZE, MAX_FEATURE_LIMIT,
};

fn column(name: &str) -> ColumnInfo {
    ColumnInfo { name: name.to_string(), data_type: "VARCHAR".to_string(), nullable: true }
}

fn dataset(columns: Vec<ColumnInfo>) -> Dataset<()> {
    let t = Timestamp { secs: 0, nanos: 0 };
    Dataset {
        id: 1,
        name: "cities".to_string(),
        table_name: "dataset_x".to_string(),
        geometry_column: "geom".to_string(),
        geometry_type: GeometryType::Point,
        srid: 4326,
        feature_count: 5,
        bounds: None,
        columns,
        created_at: t,
        updated_at: t,
    }
}

#[test]
fn limits_are_capped() {
    assert_eq!(cap_limit(None, 10), (10, false));
    assert_eq!(cap_limit(Some(600_000), 10), (MAX_FEATURE_LIMIT, true));
    assert_eq!(cap_limit(None, 600_000), (500_000, true));
    assert_eq!(cap_limit(Some(5), 600_000), (5, false));
    assert_eq!(cap_limit(Some(500_000), 0), (500_000, false));
}

#[test]
fn bbox_needs_four_parts() {
    assert_eq!(bbox_parts("150,-34.5,152,-33").unwrap(), vec!["150", "-34.5", "152", "-33"]);
    assert_eq!(bbox_parts(" 1, 2,3 ,4").unwrap(), vec![" 1", " 2", "3 ", "4"]);
    assert_eq!(bbox_parts(",,,").unwrap(), vec!["", "", "", ""]);
    let e = bbox_parts("1,2,3").unwrap_err();
    assert_eq!(e.kind(), ErrorKind::BadRequest);
    assert_eq!(e.message(), "bbox must have 4 comma-separated values: minx,miny,maxx,maxy");
    assert!(bbox_parts("1,2,3,4,5").is_err());
    assert!(bbox_parts("").is_err());
}

#[test]
fn chunked_export_walks_the_rows() {
    let mut c = ChunkCursor::start(None, None, 12_000);
    assert_eq!(c.next_limit(), Some(CHUNK_SIZE));
    assert!(c.advance(5000));
    assert_eq!(c.offset, 5000);
    assert_eq!(c.next_limit(), Some(5000));
    assert!(c.advance(5000));
    assert_eq!(c.next_limit(), Some(2000));
    assert!(!c.advance(2000));
    assert_eq!(c.rows, 12_000);
    assert_eq!(c.remaining, 0);
    assert_eq!(c.next_limit(), None);
}

#[test]
fn chunked_export_stops_on_empty_chunk() {
    let mut c = ChunkCursor::start(Some(3), Some(10), 100);
    assert_eq!(c.offset, 10);
    assert_eq!(c.next_limit(), Some(3));
    let before = c;
    assert!(!c.advance(0));
    assert_eq!(c, before);
    assert_eq!(ChunkCursor::start(Some(0), None, 9).next_limit(), None);
}

#[test]
fn feature_queries() {
    let d = dataset(vec![column("name"), column("geom"), column("pop")]);
    let plan = plan_features(&d).unwrap();
    assert_eq!(plan.properties, vec!["name", "pop"]);
    assert_eq!(plan.quoted_properties, vec!["\"name\"", "\"pop\""]);
    let cols = arrow_select_columns(&plan);
    assert_eq!(cols, "\"name\", \"pop\", ");
    assert_eq!(
        arrow_chunk_sql(&plan, &cols, "", 5000, 0),
        "SELECT \"name\", \"pop\", ST_AsWKB(\"geom\") as geometry FROM dataset_x LIMIT 5000 OFFSET 0"
    );
    assert_eq!(
        geojson_sql(&plan, "", Some(3), None),
        "SELECT ST_AsGeoJSON(\"geom\"), \"name\", \"pop\" FROM dataset_x LIMIT 3"
    );
    assert_eq!(
        geojson_sql(&plan, "", None, Some(-2)),
        "SELECT ST_AsGeoJSON(\"geom\"), \"name\", \"pop\" FROM dataset_x OFFSET -2"
    );
    let f = bbox_filter_sql(&plan, "150", "-34.5", "152", "-33");
    assert_eq!(
        f,
        " WHERE _bbox_xmax >= 150 AND _bbox_xmin <= 152 AND _bbox_ymax >= -34.5 AND _bbox_ymin <= -33 AND ST_Intersects(\"geom\", ST_MakeEnvelope(150, -34.5, 152, -33))"
    );
}

#[test]
fn feature_query_without_properties() {
    let d = dataset(vec![column("geom")]);
    let plan = plan_features(&d).unwrap();
    assert_eq!(arrow_select_columns(&plan), "");
    assert_eq!(
        arrow_chunk_sql(&plan, "", " WHERE x", 10, 20),
        "SELECT ST_AsWKB(\"geom\") as geometry FROM dataset_x WHERE x LIMIT 10 OFFSET 20"
    );
    assert_eq!(geojson_sql(&plan, "", None, None), "SELECT ST_AsGeoJSON(\"geom\") FROM dataset_x");
}

#[test]
fn feature_query_with_bad_column() {
    let d = dataset(vec![column("ok"), column("bad name"), column("x y")]);
    let e = plan_features(&d).unwrap_err();
    assert_eq!(
        e.message(),
        "Invalid identifier 'bad name': only alphanumeric, underscore, and dot allowed"
    );
    let mut d2 = dataset(vec![]);
    d2.table_name = "no table".to_string();
    assert!(plan_features(&d2).unwrap_err().message().starts_with("Invalid identifier 'no table'"));
}

#[test]
fn feature_query_parameters() {
    let q = FeatureQuery { limit: Some(10), offset: None, bbox: Some("1,2,3,4".to_string()) };
    let (limit, truncated) = cap_limit(q.limit, 1_000_000);
    assert_eq!((limit, truncated), (10, false));
    assert_eq!(bbox_parts(q.bbox.as_deref().unwrap()).unwrap().len(), 4);
}

#[test]
fn chunk_queries_cover_the_window() {
    let mut c = ChunkCursor::start(Some(12_000), Some(7), 50_000);
    let mut ranges = Vec::new();
    while let Some(l) = c.next_limit() {
        ranges.push((c.offset, c.offset + l));
        assert_eq!(c.offset + c.remaining, 12_007);
        if !c.advance(l as u64) {
            break;
        }
    }
    assert_eq!(ranges, vec![(7, 5007), (5007, 10_007), (10_007, 12_007)]);
}

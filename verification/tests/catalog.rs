use geoconsole_v3::catalog::{
    delete_dataset, delete_map, get_dataset, get_dataset_bounds, get_map, list_datasets, list_maps,
    new_map, new_map_at, restore_check_sql, restored_dataset, restored_map_id, update_map,
    update_map_at,
};
use geoconsole_v3::error::ErrorKind;
use geoconsole_v3::ids::Timestamp;
use geoconsole_v3::load::{finalized_dataset, finalized_dataset_at};
use geoconsole_v3::models::{ColumnInfo, Dataset, GeometryType, MapConfig};
use geoconsole_v3::store::Store;

#[derive(Debug, Clone, PartialEq)]
struct Bounds {
    min_x: f64,
    min_y: f64,
    max_x: f64,
    max_y: f64,
}

fn cities(id: u128, name: &str) -> Dataset<Bounds> {
    finalized_dataset(
        id,
        name,
        format!("dataset_{}", uuid::Uuid::from_u128(id).to_string().replace('-', "_")),
        "geom".to_string(),
        GeometryType::Point,
        3,
        Bounds { min_x: 144.9, min_y: -37.8, max_x: 153.0, max_y: -27.5 },
        vec![ColumnInfo { name: "name".to_string(), data_type: "VARCHAR".to_string(), nullable: true }],
    )
}

#[test]
fn db_test_dataset_crud() {
    let mut store: Store<Dataset<Bounds>> = Store::new();
    let id = 0x1234_5678_9abc_def0_1234_5678_9abc_def0u128;
    let ds = cities(id, "test_cities");
    store.insert(ds.id, ds);

    let list = list_datasets(&store);
    assert_eq!(list.len(), 1);

    let got = get_dataset(&store, id).unwrap();
    assert_eq!(got.name, "test_cities");

    delete_dataset(&mut store, id).unwrap();
    let list2 = list_datasets(&store);
    assert_eq!(list2.len(), 0);

    assert!(get_dataset(&store, id).is_err());
}

#[test]
fn integration_tests_test_dataset_crud() {
    let mut store: Store<Dataset<Bounds>> = Store::new();
    let id = 42u128;
    let ds = cities(id, "crud_test");
    store.insert(ds.id, ds);

    let list = list_datasets(&store);
    assert!(list.iter().any(|d| d.id == id));

    let got = get_dataset(&store, id).unwrap();
    assert_eq!(got.name, "crud_test");

    delete_dataset(&mut store, id).unwrap();

    assert!(get_dataset(&store, id).is_err());
    let list2 = list_datasets(&store);
    assert!(!list2.iter().any(|d| d.id == id));
}

#[test]
fn unknown_dataset_is_not_found() {
    let store: Store<Dataset<Bounds>> = Store::new();
    let id = 0xa1a2a3a4_b1b2_c1c2_d1d2_d3d4d5d6d7d8u128;
    let e = get_dataset(&store, id).unwrap_err();
    assert_eq!(e.kind(), ErrorKind::NotFound);
    assert_eq!(e.message(), "Dataset a1a2a3a4-b1b2-c1c2-d1d2-d3d4d5d6d7d8 not found");
}

#[test]
fn delete_reports_drop_statement() {
    let mut store: Store<Dataset<Bounds>> = Store::new();
    let id = 7u128;
    let ds = cities(id, "x");
    store.insert(id, ds);
    let plan = delete_dataset(&mut store, id).unwrap();
    assert_eq!(plan.drop_sql, "DROP TABLE IF EXISTS dataset_00000000_0000_0000_0000_000000000007");
    assert_eq!(plan.id_text, "00000000-0000-0000-0000-000000000007");
    let again = delete_dataset(&mut store, id).unwrap_err();
    assert_eq!(again.kind(), ErrorKind::NotFound);
}

#[test]
fn delete_with_invalid_table_still_removes() {
    let mut store: Store<Dataset<Bounds>> = Store::new();
    let mut ds = cities(9, "bad");
    ds.table_name = "bad table".to_string();
    store.insert(9, ds);
    let e = delete_dataset(&mut store, 9).unwrap_err();
    assert_eq!(e.kind(), ErrorKind::BadRequest);
    assert_eq!(store.len(), 0);
}

#[test]
fn bounds_of_dataset() {
    let mut store: Store<Dataset<Bounds>> = Store::new();
    let ds = cities(1, "b");
    store.insert(1, ds);
    let b = get_dataset_bounds(&store, 1).unwrap();
    assert!(b.min_x < 145.0);
    let mut no_bounds = cities(2, "n");
    no_bounds.bounds = None;
    store.insert(2, no_bounds);
    let e = get_dataset_bounds(&store, 2).unwrap_err();
    assert_eq!(e.kind(), ErrorKind::Internal);
    assert_eq!(e.message(), "Bounds not available");
    assert_eq!(get_dataset_bounds(&store, 3).unwrap_err().kind(), ErrorKind::NotFound);
}

#[test]
fn finalized_dataset_is_wgs84_with_equal_timestamps() {
    let ds = cities(5, "n");
    assert_eq!(ds.srid, 4326);
    assert_eq!(ds.created_at, ds.updated_at);
    assert_eq!(ds.feature_count, 3);
}

#[test]
fn map_lifecycle() {
    let mut store: Store<MapConfig<(i32, i32), String>> = Store::new();
    let m: MapConfig<(i32, i32), String> = new_map("My map".to_string(), None, None, (0, 0));
    assert_eq!(m.basemap, "osm");
    assert!(m.layers.is_empty());
    assert_eq!(m.created_at, m.updated_at);
    let id = m.id;
    let created = m.created_at;
    store.insert(id, m);
    assert_eq!(list_maps(&store).len(), 1);

    update_map(
        &mut store,
        id,
        Some("Renamed".to_string()),
        Some("desc".to_string()),
        None,
        None,
        Some(vec!["layer".to_string()]),
    )
    .unwrap();
    let got = get_map(&store, id).unwrap();
    assert_eq!(got.name, "Renamed");
    assert_eq!(got.description.as_deref(), Some("desc"));
    assert_eq!(got.basemap, "osm");
    assert_eq!(got.layers, vec!["layer".to_string()]);
    assert_eq!(got.created_at, created);
    assert_eq!(got.id, id);

    update_map(&mut store, id, None, None, None, None, None).unwrap();
    let again = get_map(&store, id).unwrap();
    assert_eq!(again.description.as_deref(), Some("desc"));
    assert_eq!(again.name, "Renamed");

    let t = delete_map(&mut store, id).unwrap();
    assert_eq!(t, uuid::Uuid::from_u128(id).to_string());
    assert_eq!(get_map(&store, id).unwrap_err().kind(), ErrorKind::NotFound);
    assert_eq!(update_map(&mut store, id, None, None, None, None, None).unwrap_err().kind(), ErrorKind::NotFound);
}

#[test]
fn new_map_keeps_given_basemap() {
    let m: MapConfig<u8, u8> = new_map("n".to_string(), Some("d".to_string()), Some("satellite".to_string()), 3);
    assert_eq!(m.basemap, "satellite");
    assert_eq!(m.view, 3);
    assert_eq!(m.description.as_deref(), Some("d"));
}

#[test]
fn map_not_found_message() {
    let store: Store<MapConfig<u8, u8>> = Store::new();
    let e = get_map(&store, 0xffu128).unwrap_err();
    assert_eq!(e.message(), "Map 00000000-0000-0000-0000-0000000000ff not found");
}

#[test]
fn restore_rules() {
    assert_eq!(
        restore_check_sql("dataset_ab").as_deref(),
        Some("SELECT 1 FROM dataset_ab LIMIT 0")
    );
    assert!(restore_check_sql("drop table x;").is_none());

    let d: Dataset<u8> = restored_dataset(
        "a1a2a3a4-b1b2-c1c2-d1d2-d3d4d5d6d7d8",
        "n".to_string(),
        "t".to_string(),
        "geom".to_string(),
        "Polygon",
        4326,
        10,
        Some(1),
        vec![],
        "2024-01-02T03:04:05Z",
        "not a date",
    );
    assert_eq!(d.id, 0xa1a2a3a4_b1b2_c1c2_d1d2_d3d4d5d6d7d8u128);
    assert_eq!(d.geometry_type, GeometryType::Polygon);
    assert_eq!(d.created_at, Timestamp { secs: 1704164645, nanos: 0 });
    assert!(d.updated_at.secs > 1704164645);

    assert_eq!(restored_map_id("not-a-uuid", 77), 77);
    assert_eq!(restored_map_id("00000000-0000-0000-0000-000000000005", 77), 5);
}

#[test]
fn timestamps_are_the_given_instant() {
    let t0 = Timestamp { secs: 1_700_000_000, nanos: 5 };
    let t1 = Timestamp { secs: 1_700_000_100, nanos: 0 };
    let m: MapConfig<u8, String> = new_map_at(42, t0, "M".to_string(), None, None, 0);
    assert_eq!(m.id, 42);
    assert_eq!((m.created_at, m.updated_at), (t0, t0));
    assert_eq!(m.basemap, "osm");
    let mut store: Store<MapConfig<u8, String>> = Store::new();
    store.insert(42, m);
    update_map_at(&mut store, 42, Some("N".to_string()), None, None, None, None, t1).unwrap();
    let got = get_map(&store, 42).unwrap();
    assert_eq!((got.created_at, got.updated_at), (t0, t1));
    assert_eq!(got.name, "N");
    assert_eq!(
        update_map_at(&mut store, 7, None, None, None, None, None, t1).unwrap_err().kind(),
        ErrorKind::NotFound
    );
    let d = finalized_dataset_at(9, "x", "dataset_x".to_string(), "geom".to_string(), GeometryType::Point, 1, 0u8, vec![], t1);
    assert_eq!((d.created_at, d.updated_at, d.srid), (t1, t1, 4326));
}

#[test]
fn persisted_record_is_restored() {
    let id = 0x67e55044_10b1_426f_9247_bb680e5fe0c8u128;
    for g in [
        GeometryType::Point,
        GeometryType::LineString,
        GeometryType::Polygon,
        GeometryType::MultiPoint,
        GeometryType::MultiLineString,
        GeometryType::MultiPolygon,
        GeometryType::GeometryCollection,
        GeometryType::Unknown,
    ] {
        let d: Dataset<u8> = restored_dataset(
            &uuid::Uuid::from_u128(id).to_string(),
            "n".to_string(),
            "t".to_string(),
            "geom".to_string(),
            g.label(),
            3857,
            4,
            None,
            vec![],
            "2024-01-02T03:04:05Z",
            "2024-01-02T03:04:05Z",
        );
        assert_eq!(d.id, id);
        assert_eq!(d.geometry_type, g);
        assert_eq!(d.srid, 3857);
    }
}

#[test]
fn id_texts_in_every_form() {
    let id = 0x67e55044_10b1_426f_9247_bb680e5fe0c8u128;
    assert_eq!(restored_map_id("67e5504410b1426f9247bb680e5fe0c8", 1), id);
    assert_eq!(restored_map_id("67E55044-10B1-426F-9247-BB680E5FE0C8", 1), id);
    assert_eq!(restored_map_id("{67e55044-10b1-426f-9247-bb680e5fe0c8}", 1), id);
    assert_eq!(restored_map_id("URN:uuid:67e55044-10b1-426f-9247-bb680e5fe0c8", 1), id);
    assert_eq!(restored_map_id("67e55044-10b1-426f-9247-bb680e5fe0c", 1), 1);
    assert_eq!(restored_map_id("67e55044_10b1_426f_9247_bb680e5fe0c8", 1), 1);
    assert_eq!(restored_map_id("67e55044-10b1-426f-9247-bb680e5fe0cé", 1), 1);
}

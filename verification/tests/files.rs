use geoconsole_v3::error::ErrorKind;
use geoconsole_v3::files::{
    choose_reader, get_format_name, remove_spatial_extension, try_remove_spatial_extension,
    validate_file_path, SpatialReader,
};
use geoconsole_v3::load::plan_spatial_load;

#[test]
fn extensions_are_removed_case_insensitively() {
    assert_eq!(remove_spatial_extension("Cities.GeoJSON"), "Cities");
    assert_eq!(remove_spatial_extension("roads.shp"), "roads");
    assert_eq!(remove_spatial_extension("parcels.geoparquet"), "parcels");
    assert_eq!(remove_spatial_extension("places.json"), "places");
    assert_eq!(remove_spatial_extension("notes.csv"), "notes.csv");
    assert_eq!(remove_spatial_extension(".kml"), "");
}

#[test]
fn extension_cut_inside_a_character_is_refused() {
    // The Kelvin sign lower-cases to `k`, so the lower-cased name ends with `.kml`,
    // but cutting four bytes off the original name would split the sign.
    assert_eq!(try_remove_spatial_extension("x.\u{212A}ml"), None);
    assert_eq!(try_remove_spatial_extension("x.kml").as_deref(), Some("x"));
}

#[test]
fn format_names() {
    assert_eq!(get_format_name("a.parquet"), "GeoParquet");
    assert_eq!(get_format_name("a.GEOPARQUET"), "GeoParquet");
    assert_eq!(get_format_name("a.gpkg"), "GeoPackage");
    assert_eq!(get_format_name("A.SHP"), "Shapefile");
    assert_eq!(get_format_name("a.geojson"), "GeoJSON");
    assert_eq!(get_format_name("a.json"), "GeoJSON");
    assert_eq!(get_format_name("a.kml"), "KML");
    assert_eq!(get_format_name("a.txt"), "Unknown");
}

#[test]
fn readers_follow_the_format() {
    assert_eq!(choose_reader("x.parquet").unwrap(), SpatialReader::Parquet);
    assert_eq!(choose_reader("x.KML").unwrap(), SpatialReader::Gdal);
    assert_eq!(SpatialReader::Parquet.function_name(), "read_parquet");
    assert_eq!(SpatialReader::Gdal.function_name(), "ST_Read");
    let e = choose_reader("x.csv").unwrap_err();
    assert_eq!(e.kind(), ErrorKind::BadRequest);
    assert_eq!(
        e.message(),
        "Unsupported file format. Supported: .parquet, .geoparquet, .gpkg, .shp, .geojson, .json, .kml"
    );
}

#[test]
fn file_path_errors() {
    let e = validate_file_path("a.shp", Err("No such file".to_string()), Ok("/data".to_string()))
        .unwrap_err();
    assert_eq!(e.kind(), ErrorKind::BadRequest);
    assert_eq!(e.message(), "Invalid file path 'a.shp': No such file");

    let e = validate_file_path("a.shp", Ok("/data/a.shp".to_string()), Err("denied".to_string()))
        .unwrap_err();
    assert_eq!(e.kind(), ErrorKind::Internal);
    assert_eq!(e.message(), "Cannot resolve data directory: denied");

    let e = validate_file_path("../x.shp", Ok("/x.shp".to_string()), Ok("/data".to_string()))
        .unwrap_err();
    assert_eq!(e.message(), "File path '../x.shp' is outside the allowed data directory");

    // The prefix test goes by whole path components.
    assert!(validate_file_path("x", Ok("/data2/x.shp".to_string()), Ok("/data".to_string())).is_err());
}

#[test]
fn file_path_is_made_sql_ready() {
    let p = validate_file_path("a", Ok("/data/it's.shp".to_string()), Ok("/data".to_string())).unwrap();
    assert_eq!(p, "/data/it''s.shp");
    let p = validate_file_path("a", Ok("\\\\?\\tmp/a\\b.shp".to_string()), Ok("\\\\?\\tmp".to_string()))
        .unwrap();
    assert_eq!(p, "tmp/a/b.shp");
}

#[test]
fn load_plan() {
    let plan = plan_spatial_load("data/cities.geojson", Ok("/srv/data/cities.geojson".to_string()), Ok("/srv/data".to_string()))
        .unwrap();
    assert!(plan.table_name.starts_with("dataset_"));
    assert_eq!(plan.table_name.len(), 44);
    assert_eq!(
        plan.create_sql,
        format!("CREATE TABLE {} AS SELECT * FROM ST_Read('/srv/data/cities.geojson')", plan.table_name)
    );
    let plan = plan_spatial_load("p.parquet", Ok("/d/p.parquet".to_string()), Ok("/d".to_string())).unwrap();
    assert!(plan.create_sql.ends_with("read_parquet('/d/p.parquet')"));
    let e = plan_spatial_load("p.csv", Ok("/d/p.csv".to_string()), Ok("/d".to_string())).unwrap_err();
    assert!(e.message().starts_with("Unsupported file format"));
}

use geoconsole_v3::geojson::{
    escape_json, feature_json, geojson_document, plain_json_number, properties_json, property_value, GeoRow,
    PropertyValue, RawValue,
};

fn names() -> Vec<String> {
    vec!["name".to_string(), "pop".to_string()]
}

fn city(geometry: &str, name: &str, pop: &str) -> Option<GeoRow> {
    Some(GeoRow {
        geometry: geometry.to_string(),
        values: vec![PropertyValue::Text(name.to_string()), PropertyValue::Number(pop.to_string())],
    })
}

#[test]
fn test_geojson_includes_properties() {
    let rows = vec![
        city("{\"type\":\"Point\",\"coordinates\":[151.2,-33.8]}", "Sydney", "5000000"),
        city("{\"type\":\"Point\",\"coordinates\":[144.9,-37.8]}", "Melbourne", "4900000"),
    ];
    let geojson = geojson_document(&names(), &rows);
    assert!(geojson.contains("\"name\""), "GeoJSON should include property columns");
    assert!(geojson.contains("Sydney"), "GeoJSON should include property values");
    assert!(geojson.contains("5000000"), "GeoJSON should include numeric properties");
}

#[test]
fn test_geojson_endpoint_still_works() {
    let rows = vec![city("{\"type\":\"Point\",\"coordinates\":[153.0,-27.5]}", "Brisbane", "2500000")];
    let geojson = geojson_document(&names(), &rows);
    assert!(geojson.contains("FeatureCollection"));
    assert!(geojson.contains("Feature"));
    assert!(geojson.contains("coordinates") || geojson.contains("Point"));
}

#[test]
fn exact_document() {
    let rows = vec![
        city("G0", "A", "1"),
        None,
        Some(GeoRow { geometry: "G2".to_string(), values: vec![PropertyValue::Null, PropertyValue::Text("q\"\\".to_string())] }),
    ];
    assert_eq!(
        geojson_document(&names(), &rows),
        "{\"type\":\"FeatureCollection\",\"features\":[{\"type\":\"Feature\",\"id\":0,\"geometry\":G0,\"properties\":{\"name\":\"A\",\"pop\":1}},{\"type\":\"Feature\",\"id\":2,\"geometry\":G2,\"properties\":{\"name\":null,\"pop\":\"q\\\"\\\\\"}}]}"
    );
    assert_eq!(geojson_document(&names(), &vec![]), "{\"type\":\"FeatureCollection\",\"features\":[]}");
}

#[test]
fn properties_objects() {
    assert_eq!(properties_json(&vec![], &vec![PropertyValue::Null]), "{}");
    assert_eq!(properties_json(&names(), &vec![]), "{}");
    assert_eq!(properties_json(&names(), &vec![PropertyValue::Number("2".to_string())]), "{\"name\":2}");
    assert_eq!(feature_json(7, "null", "{}"), "{\"type\":\"Feature\",\"id\":7,\"geometry\":null,\"properties\":{}}");
}

#[test]
fn escaping() {
    assert_eq!(escape_json("a\"b\\c"), "a\\\"b\\\\c");
    assert_eq!(escape_json("plain"), "plain");
}

#[test]
fn control_characters_are_escaped() {
    assert_eq!(escape_json("\n"), "\\n");
    assert_eq!(escape_json("a\tb\r\nc"), "a\\tb\\r\\nc");
    assert_eq!(escape_json("\u{8}\u{c}"), "\\b\\f");
    assert_eq!(escape_json("\u{0}\u{1f}\u{1b}"), "\\u0000\\u001f\\u001b");
    assert_eq!(escape_json("\u{7f} é"), "\u{7f} é");
    let row = vec![Some(GeoRow {
        geometry: "null".to_string(),
        values: vec![PropertyValue::Text("line one\nline two".to_string()), PropertyValue::Null],
    })];
    let doc = geojson_document(&names(), &row);
    assert!(!doc.contains('\n'));
    assert_eq!(
        doc,
        "{\"type\":\"FeatureCollection\",\"features\":[{\"type\":\"Feature\",\"id\":0,\"geometry\":null,\"properties\":{\"name\":\"line one\\nline two\",\"pop\":null}}]}"
    );
}

#[test]
fn values_keep_their_column_types() {
    for n in ["0", "5000000", "-3", "1.5", "-0.25", "10.0"] {
        assert!(plain_json_number(n), "{}", n);
    }
    for t in ["", "-", "007", "+5", ".5", "5.", "1e5", "1.2.3", "NaN", "inf", "--1", "0x10", " 1"] {
        assert!(!plain_json_number(t), "{}", t);
    }
    assert!(matches!(property_value(RawValue::Null), PropertyValue::Null));
    assert!(matches!(property_value(RawValue::Numeric("42".to_string())), PropertyValue::Number(ref x) if x == "42"));
    assert!(matches!(property_value(RawValue::Numeric("NaN".to_string())), PropertyValue::Text(ref x) if x == "NaN"));
    assert!(matches!(property_value(RawValue::Text("123".to_string())), PropertyValue::Text(ref x) if x == "123"));
    assert!(matches!(property_value(RawValue::Boolean(true)), PropertyValue::Boolean(true)));
    let names = vec!["code".to_string(), "ok".to_string(), "pop".to_string()];
    let vals: Vec<PropertyValue> = vec![
        RawValue::Text("123".to_string()),
        RawValue::Boolean(false),
        RawValue::Numeric("4900000".to_string()),
    ]
    .into_iter()
    .map(property_value)
    .collect();
    assert_eq!(properties_json(&names, &vals), "{\"code\":\"123\",\"ok\":false,\"pop\":4900000}");
}

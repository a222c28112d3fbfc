# GeoConsole V3

A backend for authoring web maps over spatial datasets held in DuckDB. Files
(GeoParquet, GeoPackage, Shapefile, GeoJSON, KML) are uploaded, whole or in chunks,
loaded into tables, reprojected to EPSG:4326 and served as Arrow IPC or GeoJSON;
maps are saved as configurations of layers over those datasets.

## Layout

- `src/` — the library, verified with Verus. It decides everything the server does
  between its I/O: which identifiers and file paths are accepted, the SQL text of
  every query, the dataset and map catalog, the limits and chunking of feature
  exports, the GeoJSON document, geometry column and type detection, the SRID
  decision from what the database reports, and the checks on uploads.
  `src/laws.rs` states the properties that relate several operations.
- `app/` — the HTTP server (axum, tokio), the DuckDB connection, file I/O, the
  Valhalla routing proxy, the serde forms of the library's types, and what needs
  floating point: bbox validation and whether coordinates lie outside the
  longitude/latitude range. It hands the library plain values and performs what
  the library decides.
- `tests/` — tests of the library on concrete values.

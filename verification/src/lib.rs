//! Verified core of a geospatial map-authoring backend: identifier and path
//! validation, the dataset and map catalog, query planning and GeoJSON assembly.

pub mod catalog;
pub mod detect;
pub mod error;
pub mod files;
pub mod geojson;
pub mod ident;
pub mod ids;
pub mod laws;
pub mod load;
pub mod models;
pub mod query;
pub mod store;
pub mod text;
pub mod unicode;
pub mod upload;

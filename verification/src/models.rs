//! The library's data: datasets, map configurations and their parts.
//!
//! Parts that hold floating-point data (a dataset's bounds, a map's view and its
//! layers) are type parameters here: the library stores and returns them without
//! reading them.

use vstd::prelude::*;
use crate::ids::Timestamp;
use crate::unicode::{uppercase, to_uppercase};

verus! {

/// One column of a dataset's table.
#[derive(Debug, Clone)]
pub struct ColumnInfo {
    pub name: String,
    pub data_type: String,
    pub nullable: bool,
}

/// The kind of geometry a dataset holds.
#[derive(Debug, Clone, Copy, PartialEq, Eq, Structural)]
pub enum GeometryType {
    Point,
    LineString,
    Polygon,
    MultiPoint,
    MultiLineString,
    MultiPolygon,
    GeometryCollection,
    Unknown,
}

/// The geometry type an upper-case type name denotes.
pub open spec fn geometry_type_of(upper: Seq<char>) -> GeometryType {
    if upper == "POINT"@ {
        GeometryType::Point
    } else if upper == "LINESTRING"@ {
        GeometryType::LineString
    } else if upper == "POLYGON"@ {
        GeometryType::Polygon
    } else if upper == "MULTIPOINT"@ {
        GeometryType::MultiPoint
    } else if upper == "MULTILINESTRING"@ {
        GeometryType::MultiLineString
    } else if upper == "MULTIPOLYGON"@ {
        GeometryType::MultiPolygon
    } else if upper == "GEOMETRYCOLLECTION"@ {
        GeometryType::GeometryCollection
    } else {
        GeometryType::Unknown
    }
}

/// The name under which a geometry type is stored.
pub open spec fn geometry_label(g: GeometryType) -> Seq<char> {
    match g {
        GeometryType::Point => "Point"@,
        GeometryType::LineString => "LineString"@,
        GeometryType::Polygon => "Polygon"@,
        GeometryType::MultiPoint => "MultiPoint"@,
        GeometryType::MultiLineString => "MultiLineString"@,
        GeometryType::MultiPolygon => "MultiPolygon"@,
        GeometryType::GeometryCollection => "GeometryCollection"@,
        GeometryType::Unknown => "Unknown"@,
    }
}

fn str_eq(a: &str, b: &str) -> (r: bool)
    ensures
        r == (a@ == b@),
{
    let x = crate::text::chars_of(a);
    let y = crate::text::chars_of(b);
    if x.len() != y.len() {
        return false;
    }
    let mut i: usize = 0;
    while i < x.len()
        invariant
            i <= x.len(),
            x.len() == y.len(),
            x@ == a@,
            y@ == b@,
            forall|j: int| 0 <= j < i ==> x@[j] == y@[j],
        decreases x.len() - i,
    {
        if x[i] != y[i] {
            return false;
        }
        i = i + 1;
    }
    assert(x@ =~= y@);
    true
}

/// Whether two strings hold the same characters.
pub fn string_eq(a: &String, b: &String) -> (r: bool)
    ensures
        r == (a@ == b@),
{
    str_eq(a.as_str(), b.as_str())
}

impl GeometryType {
    /// The geometry type that an already upper-cased type name denotes.
    pub fn from_upper(upper: &str) -> (g: GeometryType)
        ensures
            g == geometry_type_of(upper@),
    {
        if str_eq(upper, "POINT") {
            GeometryType::Point
        } else if str_eq(upper, "LINESTRING") {
            GeometryType::LineString
        } else if str_eq(upper, "POLYGON") {
            GeometryType::Polygon
        } else if str_eq(upper, "MULTIPOINT") {
            GeometryType::MultiPoint
        } else if str_eq(upper, "MULTILINESTRING") {
            GeometryType::MultiLineString
        } else if str_eq(upper, "MULTIPOLYGON") {
            GeometryType::MultiPolygon
        } else if str_eq(upper, "GEOMETRYCOLLECTION") {
            GeometryType::GeometryCollection
        } else {
            GeometryType::Unknown
        }
    }

    /// The name under which the geometry type is stored.
    pub fn label(&self) -> (s: &'static str)
        ensures
            s@ == geometry_label(*self),
    {
        match self {
            GeometryType::Point => "Point",
            GeometryType::LineString => "LineString",
            GeometryType::Polygon => "Polygon",
            GeometryType::MultiPoint => "MultiPoint",
            GeometryType::MultiLineString => "MultiLineString",
            GeometryType::MultiPolygon => "MultiPolygon",
            GeometryType::GeometryCollection => "GeometryCollection",
            GeometryType::Unknown => "Unknown",
        }
    }
}

impl<'a> From<&'a str> for GeometryType {
    /// The geometry type a type name denotes, compared case-insensitively after
    /// Unicode upper-casing; any other name is `Unknown`.
    fn from(s: &'a str) -> (g: GeometryType) {
        let upper = to_uppercase(s);
        GeometryType::from_upper(upper.as_str())
    }
}

impl<'a> vstd::std_specs::convert::FromSpecImpl<&'a str> for GeometryType {
    open spec fn obeys_from_spec() -> bool {
        true
    }

    open spec fn from_spec(s: &'a str) -> GeometryType {
        geometry_type_of(uppercase(s@))
    }
}

/// How a map layer is drawn.
#[derive(Debug, Clone, Copy, PartialEq, Eq, Structural)]
pub enum LayerType {
    Vector,
    Raster,
    GeoJson,
    DeckGl,
}

/// How a layer's features are styled.
#[derive(Debug, Clone, Copy, PartialEq, Eq, Structural)]
pub enum StyleType {
    Simple,
    Categorized,
    Graduated,
    Heatmap,
}

/// The query parameters of a feature request.
#[derive(Debug, Clone)]
pub struct FeatureQuery {
    pub limit: Option<i64>,
    pub offset: Option<i64>,
    pub bbox: Option<String>,
}

/// A loaded dataset: the table that holds its features and what is known of them.
/// `B` is the dataset's bounding box, which the library carries without reading.
#[derive(Debug, Clone)]
pub struct Dataset<B> {
    pub id: u128,
    pub name: String,
    pub table_name: String,
    pub geometry_column: String,
    pub geometry_type: GeometryType,
    pub srid: i32,
    pub feature_count: i64,
    pub bounds: Option<B>,
    pub columns: Vec<ColumnInfo>,
    pub created_at: Timestamp,
    pub updated_at: Timestamp,
}

/// A saved map. `V` is its camera view and `L` the type of its layers, which the
/// library carries without reading.
#[derive(Debug, Clone)]
pub struct MapConfig<V, L> {
    pub id: u128,
    pub name: String,
    pub description: Option<String>,
    pub basemap: String,
    pub view: V,
    pub layers: Vec<L>,
    pub created_at: Timestamp,
    pub updated_at: Timestamp,
}

} // verus!

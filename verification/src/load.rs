//! Loading a spatial file: the plan that names its table and reads it, the statements
//! that complete a freshly loaded table, and the dataset record that results.

use vstd::prelude::*;
use crate::error::{AppError, AppResult, ErrorKind, fault_of};
use crate::files::{choose_reader, file_path_fault, reader_function, reader_of, sql_ready_path,
    text_result, unsupported_format_message, validate_file_path, SpatialReader};
use crate::ident::{dataset_table, dataset_table_name, identifier_fault, is_identifier, quoted,
    quote_ident, sql_escape, sql_escaped, validate_identifier};
use crate::ids::{fresh_id, now, Timestamp};
use crate::models::{ColumnInfo, Dataset, GeometryType};
use crate::text::i64_text;
use crate::text::signed_decimal;
use crate::unicode::lowercase;

verus! {

/// What loading a file into a new table takes: the dataset's id, its table and the
/// statement that creates the table from the file.
#[derive(Debug, Clone)]
pub struct LoadPlan {
    pub id: u128,
    pub table_name: String,
    pub create_sql: String,
}

/// The statement that creates a dataset's table from a file.
pub open spec fn create_table_query(table: Seq<char>, reader: SpatialReader, path: Seq<char>) -> Seq<char> {
    "CREATE TABLE "@ + table + " AS SELECT * FROM "@ + reader_function(reader) + "('"@ + path
        + "')"@
}

/// The error, if any, of planning to load a file: first the path check, then the format.
pub open spec fn load_fault(
    file_path: Seq<char>,
    canonical: Result<Seq<char>, Seq<char>>,
    data_dir: Result<Seq<char>, Seq<char>>,
) -> Option<(ErrorKind, Seq<char>)> {
    match file_path_fault(file_path, canonical, data_dir) {
        Some(f) => Some(f),
        None => if reader_of(lowercase(file_path)) is None {
            Some((ErrorKind::BadRequest, unsupported_format_message()))
        } else {
            None
        },
    }
}

/// Plans loading the file at `file_path`, given the outcomes of canonicalizing it and
/// the data directory: the file must lie in the data directory and have a supported
/// format; the dataset gets a fresh id and the table named after it.
pub fn plan_spatial_load(
    file_path: &str,
    canonical: Result<String, String>,
    data_dir: Result<String, String>,
) -> (r: AppResult<LoadPlan>)
    ensures
        fault_of(r) == load_fault(file_path@, text_result(canonical), text_result(data_dir)),
        r matches Ok(p) ==> canonical matches Ok(c) && reader_of(lowercase(file_path@)) matches Some(
            rd,
        ) && p.table_name@ == dataset_table(p.id) && is_identifier(p.table_name@)
            && p.create_sql@ == create_table_query(p.table_name@, rd, sql_ready_path(c@)),
{
    let safe = validate_file_path(file_path, canonical, data_dir)?;
    let reader = choose_reader(file_path)?;
    let id = fresh_id();
    let table_name = dataset_table_name(id);
    let mut sql = String::from_str("CREATE TABLE ");
    sql.append(table_name.as_str());
    sql.append(" AS SELECT * FROM ");
    sql.append(reader.function_name());
    sql.append("('");
    sql.append(safe.as_str());
    sql.append("')");
    Ok(LoadPlan { id, table_name, create_sql: sql })
}

/// The statement that counts a table's rows.
pub fn count_sql(table: &str) -> (s: String)
    ensures
        s@ == "SELECT COUNT(*) FROM "@ + table@,
{
    let mut s = String::from_str("SELECT COUNT(*) FROM ");
    s.append(table);
    s
}

/// The statements that reproject a geometry column to EPSG:4326 from `srid` (the
/// second one lets the database guess the source system), or `None` when the column
/// already is in EPSG:4326.
pub fn reprojection_sql(table: &str, geometry: &str, srid: i32) -> (r: Option<(String, String)>)
    ensures
        r is None <==> srid == 4326,
        r matches Some((a, b)) ==> a@ == "UPDATE "@ + table@ + " SET "@ + geometry@
            + " = ST_Transform("@ + geometry@ + ", 'EPSG:"@ + signed_decimal(srid as int)
            + "', 'EPSG:4326')"@ && b@ == "UPDATE "@ + table@ + " SET "@ + geometry@
            + " = ST_Transform("@ + geometry@ + ", 'EPSG:4326')"@,
{
    if srid == 4326 {
        return None;
    }
    let mut a = String::from_str("UPDATE ");
    a.append(table);
    a.append(" SET ");
    a.append(geometry);
    a.append(" = ST_Transform(");
    a.append(geometry);
    a.append(", 'EPSG:");
    let t = i64_text(srid as i64);
    a.append(t.as_str());
    a.append("', 'EPSG:4326')");
    let mut b = String::from_str("UPDATE ");
    b.append(table);
    b.append(" SET ");
    b.append(geometry);
    b.append(" = ST_Transform(");
    b.append(geometry);
    b.append(", 'EPSG:4326')");
    Some((a, b))
}

/// The statements that add the per-row bbox columns to a table.
pub open spec fn bbox_columns_query(t: Seq<char>) -> Seq<char> {
    "ALTER TABLE "@ + t + " ADD COLUMN IF NOT EXISTS _bbox_xmin DOUBLE; ALTER TABLE "@ + t
        + " ADD COLUMN IF NOT EXISTS _bbox_ymin DOUBLE; ALTER TABLE "@ + t
        + " ADD COLUMN IF NOT EXISTS _bbox_xmax DOUBLE; ALTER TABLE "@ + t
        + " ADD COLUMN IF NOT EXISTS _bbox_ymax DOUBLE;"@
}

/// The statements that add the per-row bbox columns to a table.
pub fn bbox_columns_sql(table: &str) -> (s: String)
    ensures
        s@ == bbox_columns_query(table@),
{
    let mut s = String::from_str("ALTER TABLE ");
    s.append(table);
    s.append(" ADD COLUMN IF NOT EXISTS _bbox_xmin DOUBLE; ALTER TABLE ");
    s.append(table);
    s.append(" ADD COLUMN IF NOT EXISTS _bbox_ymin DOUBLE; ALTER TABLE ");
    s.append(table);
    s.append(" ADD COLUMN IF NOT EXISTS _bbox_xmax DOUBLE; ALTER TABLE ");
    s.append(table);
    s.append(" ADD COLUMN IF NOT EXISTS _bbox_ymax DOUBLE;");
    s
}

/// The statement that fills the per-row bbox columns from each geometry's envelope.
pub open spec fn bbox_update_query(t: Seq<char>, g: Seq<char>) -> Seq<char> {
    "UPDATE "@ + t + " SET _bbox_xmin = ST_XMin(ST_Envelope("@ + g
        + ")), _bbox_ymin = ST_YMin(ST_Envelope("@ + g + ")), _bbox_xmax = ST_XMax(ST_Envelope("@
        + g + ")), _bbox_ymax = ST_YMax(ST_Envelope("@ + g + "))"@
}

/// The statement that fills the per-row bbox columns.
pub fn bbox_update_sql(table: &str, geometry: &str) -> (s: String)
    ensures
        s@ == bbox_update_query(table@, geometry@),
{
    let mut s = String::from_str("UPDATE ");
    s.append(table);
    s.append(" SET _bbox_xmin = ST_XMin(ST_Envelope(");
    s.append(geometry);
    s.append(")), _bbox_ymin = ST_YMin(ST_Envelope(");
    s.append(geometry);
    s.append(")), _bbox_xmax = ST_XMax(ST_Envelope(");
    s.append(geometry);
    s.append(")), _bbox_ymax = ST_YMax(ST_Envelope(");
    s.append(geometry);
    s.append("))");
    s
}

/// The statement that computes a table's bounds from the envelopes of its geometries.
pub open spec fn bounds_query(t: Seq<char>, g: Seq<char>) -> Seq<char> {
    "SELECT MIN(ST_XMin(ST_Envelope("@ + g + "))) as min_x, MIN(ST_YMin(ST_Envelope("@ + g
        + "))) as min_y, MAX(ST_XMax(ST_Envelope("@ + g + "))) as max_x, MAX(ST_YMax(ST_Envelope("@
        + g + "))) as max_y FROM "@ + t + " WHERE "@ + g + " IS NOT NULL"@
}

/// The bounds statement for a table and geometry column, both validated first.
pub fn bounds_sql(table: &str, geometry_column: &str) -> (r: AppResult<String>)
    ensures
        match r {
            Ok(s) => identifier_fault(table@) is None && identifier_fault(geometry_column@) is None
                && s@ == bounds_query(table@, quoted(geometry_column@)),
            Err(e) => (match identifier_fault(table@) {
                Some(f) => Some(f),
                None => identifier_fault(geometry_column@),
            }) == Some(e@),
        },
{
    validate_identifier(table)?;
    let g = quote_ident(geometry_column)?;
    let mut s = String::from_str("SELECT MIN(ST_XMin(ST_Envelope(");
    s.append(g.as_str());
    s.append("))) as min_x, MIN(ST_YMin(ST_Envelope(");
    s.append(g.as_str());
    s.append("))) as min_y, MAX(ST_XMax(ST_Envelope(");
    s.append(g.as_str());
    s.append("))) as max_x, MAX(ST_YMax(ST_Envelope(");
    s.append(g.as_str());
    s.append("))) as max_y FROM ");
    s.append(table);
    s.append(" WHERE ");
    s.append(g.as_str());
    s.append(" IS NOT NULL");
    Ok(s)
}

/// The record of a freshly loaded dataset at the instant `at`: its geometry
/// reprojected to EPSG:4326, its bounds known, and both timestamps set to `at`.
pub fn finalized_dataset_at<B>(
    id: u128,
    name: &str,
    table_name: String,
    geometry_column: String,
    geometry_type: GeometryType,
    feature_count: i64,
    bounds: B,
    columns: Vec<ColumnInfo>,
    at: Timestamp,
) -> (d: Dataset<B>)
    ensures
        d.id == id,
        d.name@ == name@,
        d.table_name == table_name,
        d.geometry_column == geometry_column,
        d.geometry_type == geometry_type,
        d.srid == 4326,
        d.feature_count == feature_count,
        d.bounds == Some(bounds),
        d.columns == columns,
        d.created_at == at,
        d.updated_at == at,
{
    Dataset {
        id,
        name: String::from_str(name),
        table_name,
        geometry_column,
        geometry_type,
        srid: 4326,
        feature_count,
        bounds: Some(bounds),
        columns,
        created_at: at,
        updated_at: at,
    }
}

/// The record of a freshly loaded dataset, made at the current instant as
/// `finalized_dataset_at` makes it.
pub fn finalized_dataset<B>(
    id: u128,
    name: &str,
    table_name: String,
    geometry_column: String,
    geometry_type: GeometryType,
    feature_count: i64,
    bounds: B,
    columns: Vec<ColumnInfo>,
) -> (d: Dataset<B>)
    ensures
        d.id == id,
        d.name@ == name@,
        d.table_name == table_name,
        d.geometry_column == geometry_column,
        d.geometry_type == geometry_type,
        d.srid == 4326,
        d.feature_count == feature_count,
        d.bounds == Some(bounds),
        d.columns == columns,
        d.created_at == d.updated_at,
{
    finalized_dataset_at(id, name, table_name, geometry_column, geometry_type, feature_count, bounds, columns, now())
}

/// The statement that points the database's home directory at the data directory.
pub fn home_directory_sql(dir: &str) -> (s: String)
    ensures
        s@ == "SET home_directory='"@ + sql_escaped(dir@) + "'"@,
{
    let mut s = String::from_str("SET home_directory='");
    let e = sql_escape(dir);
    s.append(e.as_str());
    s.append("'");
    s
}

/// What to do when loading the database extensions failed: install them when that is
/// allowed, else report the failure.
pub fn after_failed_extension_load(install_extensions: bool) -> (r: AppResult<()>)
    ensures
        install_extensions <==> r is Ok,
        r matches Err(e) ==> e@ == (ErrorKind::Internal, "Failed to load DuckDB extensions"@),
{
    if install_extensions {
        Ok(())
    } else {
        Err(AppError::Internal(String::from_str("Failed to load DuckDB extensions")))
    }
}

} // verus!

//! What is learned about a freshly loaded table: its visible columns, which column
//! holds the geometry, the geometry type and the spatial reference id. The database
//! queries are run by the caller; the decisions between them are made here.

use vstd::prelude::*;
use crate::error::{AppError, AppResult, ErrorKind};
use crate::ident::{identifier_fault, is_identifier, quoted, quote_ident, validate_identifier};
use crate::models::{ColumnInfo, GeometryType, geometry_type_of, string_eq};
use crate::text::{chars_of, views, string_from_chars};
use crate::unicode::{lowercase, uppercase, to_lowercase, to_uppercase};

verus! {

/// The per-row bbox columns that the library adds to every dataset table.
pub open spec fn is_internal_column(name: Seq<char>) -> bool {
    name == "_bbox_xmin"@ || name == "_bbox_ymin"@ || name == "_bbox_xmax"@ || name
        == "_bbox_ymax"@
}

/// A column as its name, its type and whether it is nullable.
pub open spec fn column_view(c: ColumnInfo) -> (Seq<char>, Seq<char>, bool) {
    (c.name@, c.data_type@, c.nullable)
}

/// The views of a sequence of columns.
pub open spec fn column_views(cs: Seq<ColumnInfo>) -> Seq<(Seq<char>, Seq<char>, bool)> {
    cs.map_values(|c: ColumnInfo| column_view(c))
}

/// The columns described by schema rows (name, type, `is_nullable`), without the
/// internal bbox columns; a column is nullable when its `is_nullable` is `YES`.
pub open spec fn visible_columns(rows: Seq<(Seq<char>, Seq<char>, Seq<char>)>) -> Seq<
    (Seq<char>, Seq<char>, bool),
>
    decreases rows.len(),
{
    if rows.len() == 0 {
        seq![]
    } else {
        let rest = visible_columns(rows.drop_last());
        let (n, t, y) = rows.last();
        if is_internal_column(n) {
            rest
        } else {
            rest.push((n, t, y == "YES"@))
        }
    }
}

/// The views of schema rows.
pub open spec fn schema_views(rows: Seq<(String, String, String)>) -> Seq<(Seq<char>, Seq<char>, Seq<char>)> {
    rows.map_values(|r: (String, String, String)| (r.0@, r.1@, r.2@))
}

fn str_is(a: &String, b: &str) -> (r: bool)
    ensures
        r == (a@ == b@),
{
    let t = String::from_str(b);
    string_eq(a, &t)
}

/// The dataset's columns from the rows of its schema query, hiding the internal bbox columns.
pub fn column_info(rows: Vec<(String, String, String)>) -> (r: Vec<ColumnInfo>)
    ensures
        column_views(r@) == visible_columns(schema_views(rows@)),
{
    let mut r: Vec<ColumnInfo> = Vec::new();
    let mut i: usize = 0;
    while i < rows.len()
        invariant
            i <= rows.len(),
            column_views(r@) == visible_columns(schema_views(rows@.take(i as int))),
        decreases rows.len() - i,
    {
        let (n, t, y) = &rows[i];
        assert(schema_views(rows@.take(i + 1)).drop_last() =~= schema_views(rows@.take(i as int)));
        assert(schema_views(rows@.take(i + 1)).last() == (n@, t@, y@));
        let internal = str_is(n, "_bbox_xmin") || str_is(n, "_bbox_ymin") || str_is(n, "_bbox_xmax")
            || str_is(n, "_bbox_ymax");
        if !internal {
            let c = ColumnInfo { name: n.clone(), data_type: t.clone(), nullable: str_is(y, "YES") };
            let ghost before = column_views(r@);
            r.push(c);
            assert(column_views(r@) =~= before.push(column_view(c)));
        }
        i = i + 1;
    }
    assert(rows@.take(rows.len() as int) =~= rows@);
    r
}

/// The names tried first for the geometry column, in order.
pub open spec fn geometry_candidates() -> Seq<Seq<char>> {
    seq!["geometry"@, "geom"@, "wkb_geometry"@, "the_geom"@, "shape"@]
}

/// The position of the first of `names` whose lower-cased form is `candidate`,
/// searching from position `i`.
pub open spec fn first_named(names: Seq<Seq<char>>, candidate: Seq<char>, i: int) -> Option<int>
    decreases names.len() - i,
{
    if i < 0 || i >= names.len() {
        None
    } else if lowercase(names[i]) == candidate {
        Some(i)
    } else {
        first_named(names, candidate, i + 1)
    }
}

/// The position of the column chosen by name: for the first candidate that some
/// column's lower-cased name equals, the first such column; searching candidates from `k`.
pub open spec fn named_geometry_column(names: Seq<Seq<char>>, k: int) -> Option<int>
    decreases 5 - k,
{
    if k < 0 || k >= 5 {
        None
    } else {
        match first_named(names, geometry_candidates()[k], 0) {
            Some(i) => Some(i),
            None => named_geometry_column(names, k + 1),
        }
    }
}

/// A step of the search for the geometry column.
#[derive(Debug, Clone)]
pub enum SearchStep {
    /// The column at this position holds the geometry.
    Found(usize),
    /// Run this statement; it succeeds when the column at `index` holds geometries.
    Probe { index: usize, sql: String },
    /// The search failed with this error.
    Fail(AppError),
}

/// The statement that probes whether a column holds geometries.
pub open spec fn probe_query(quoted_column: Seq<char>, table: Seq<char>) -> Seq<char> {
    "SELECT ST_GeometryType("@ + quoted_column + ") FROM "@ + table + " LIMIT 1"@
}

/// `step` is the probe of the column at position `j`, or the end of the search: an
/// error for an invalid column name, or "no geometry column" past the last column.
pub open spec fn is_probe_step(step: SearchStep, names: Seq<Seq<char>>, table: Seq<char>, j: int) -> bool {
    if j >= names.len() {
        step matches SearchStep::Fail(e) && e@ == (ErrorKind::BadRequest, "No geometry column found"@)
    } else {
        match identifier_fault(names[j]) {
            Some(f) => step matches SearchStep::Fail(e) && e@ == f,
            None => step matches SearchStep::Probe { index, sql } && index == j && sql@
                == probe_query(quoted(names[j]), table),
        }
    }
}

fn probe_step(names: &Vec<String>, table: &str, j: usize) -> (s: SearchStep)
    ensures
        is_probe_step(s, views(names@), table@, j as int),
{
    if j >= names.len() {
        return SearchStep::Fail(AppError::BadRequest(String::from_str("No geometry column found")));
    }
    match quote_ident(names[j].as_str()) {
        Err(e) => SearchStep::Fail(e),
        Ok(q) => {
            let mut sql = String::from_str("SELECT ST_GeometryType(");
            sql.append(q.as_str());
            sql.append(") FROM ");
            sql.append(table);
            sql.append(" LIMIT 1");
            SearchStep::Probe { index: j, sql }
        },
    }
}

fn first_named_exec(lower: &Vec<String>, candidate: &str, Ghost(names): Ghost<Seq<Seq<char>>>) -> (r:
    Option<usize>)
    requires
        lower@.len() == names.len(),
        forall|i: int| 0 <= i < names.len() ==> #[trigger] lower@[i]@ == lowercase(names[i]),
    ensures
        r matches Some(i) ==> i < names.len(),
        match r {
            Some(i) => first_named(names, candidate@, 0) == Some(i as int),
            None => first_named(names, candidate@, 0) is None,
        },
{
    let mut i = lower.len();
    let mut found: Option<usize> = None;
    // Scanned from the back, so that the earliest match is the one kept.
    while i > 0
        invariant
            i <= lower.len(),
            lower@.len() == names.len(),
            forall|k: int| 0 <= k < names.len() ==> #[trigger] lower@[k]@ == lowercase(names[k]),
            match found {
                Some(f) => i <= f < names.len() && first_named(names, candidate@, i as int) == Some(
                    f as int,
                ),
                None => first_named(names, candidate@, i as int) is None,
            },
        decreases i,
    {
        i = i - 1;
        if str_is(&lower[i], candidate) {
            found = Some(i);
        }
    }
    found
}

/// The first step of the search for the geometry column of `table`, whose columns are
/// `names`: refused when the table name is invalid, the column chosen by name when a
/// candidate name matches, else the probe of the first column.
pub fn begin_geometry_search(names: &Vec<String>, table: &str) -> (s: SearchStep)
    ensures
        match identifier_fault(table@) {
            Some(f) => s matches SearchStep::Fail(e) && e@ == f,
            None => match named_geometry_column(views(names@), 0) {
                Some(i) => s matches SearchStep::Found(j) && j == i,
                None => is_probe_step(s, views(names@), table@, 0),
            },
        },
{
    if let Err(e) = validate_identifier(table) {
        return SearchStep::Fail(e);
    }
    let ghost nv = views(names@);
    let mut lower: Vec<String> = Vec::new();
    let mut i: usize = 0;
    while i < names.len()
        invariant
            i <= names.len(),
            nv == views(names@),
            lower@.len() == i,
            forall|k: int| 0 <= k < i ==> #[trigger] lower@[k]@ == lowercase(nv[k]),
        decreases names.len() - i,
    {
        lower.push(to_lowercase(names[i].as_str()));
        i = i + 1;
    }
    reveal_with_fuel(named_geometry_column, 6);
    proof {
        reveal_strlit("geometry");
    }
    if let Some(j) = first_named_exec(&lower, "geometry", Ghost(nv)) {
        return SearchStep::Found(j);
    }
    if let Some(j) = first_named_exec(&lower, "geom", Ghost(nv)) {
        return SearchStep::Found(j);
    }
    if let Some(j) = first_named_exec(&lower, "wkb_geometry", Ghost(nv)) {
        return SearchStep::Found(j);
    }
    if let Some(j) = first_named_exec(&lower, "the_geom", Ghost(nv)) {
        return SearchStep::Found(j);
    }
    if let Some(j) = first_named_exec(&lower, "shape", Ghost(nv)) {
        return SearchStep::Found(j);
    }
    probe_step(names, table, 0)
}

/// The step after probing the column at `index`: that column when the probe
/// succeeded, else the probe of the next column.
pub fn continue_geometry_search(names: &Vec<String>, table: &str, index: usize, succeeded: bool) -> (s:
    SearchStep)
    requires
        index < names.len(),
    ensures
        succeeded ==> (s matches SearchStep::Found(j) && j == index),
        !succeeded ==> is_probe_step(s, views(names@), table@, index + 1),
{
    if succeeded {
        SearchStep::Found(index)
    } else {
        probe_step(names, table, index + 1)
    }
}

/// The error, if any, of checking a table name and then a column name.
pub open spec fn table_column_fault(table: Seq<char>, column: Seq<char>) -> Option<(ErrorKind, Seq<char>)> {
    match identifier_fault(table) {
        Some(f) => Some(f),
        None => identifier_fault(column),
    }
}

/// The statement that asks for the geometry type of the first non-null geometry.
pub open spec fn geometry_type_query(g: Seq<char>, table: Seq<char>) -> Seq<char> {
    "SELECT ST_GeometryType("@ + g + ") FROM "@ + table + " WHERE "@ + g + " IS NOT NULL LIMIT 1"@
}

/// The statement that asks for the GeoJSON text of the first non-null geometry.
pub open spec fn geometry_geojson_query(g: Seq<char>, table: Seq<char>) -> Seq<char> {
    "SELECT ST_AsGeoJSON("@ + g + ") FROM "@ + table + " WHERE "@ + g + " IS NOT NULL LIMIT 1"@
}

/// The two statements of geometry type detection: the reported type and, as a
/// fallback, the GeoJSON text of a geometry.
pub fn geometry_type_sql(table: &str, geometry_column: &str) -> (r: AppResult<(String, String)>)
    ensures
        match r {
            Ok((a, b)) => table_column_fault(table@, geometry_column@) is None && a@
                == geometry_type_query(quoted(geometry_column@), table@) && b@
                == geometry_geojson_query(quoted(geometry_column@), table@),
            Err(e) => table_column_fault(table@, geometry_column@) == Some(e@),
        },
{
    validate_identifier(table)?;
    let g = quote_ident(geometry_column)?;
    let mut a = String::from_str("SELECT ST_GeometryType(");
    a.append(g.as_str());
    a.append(") FROM ");
    a.append(table);
    a.append(" WHERE ");
    a.append(g.as_str());
    a.append(" IS NOT NULL LIMIT 1");
    let mut b = String::from_str("SELECT ST_AsGeoJSON(");
    b.append(g.as_str());
    b.append(") FROM ");
    b.append(table);
    b.append(" WHERE ");
    b.append(g.as_str());
    b.append(" IS NOT NULL LIMIT 1");
    Ok((a, b))
}

/// `s` without any space characters.
pub open spec fn without_spaces(s: Seq<char>) -> Seq<char> {
    s.filter(|c: char| c != ' ')
}

/// The reported geometry type made comparable: upper-cased with spaces removed; a
/// type that could not be read counts as `UNKNOWN`.
pub open spec fn normalized_type(reported: Option<Seq<char>>) -> Seq<char> {
    without_spaces(
        uppercase(
            match reported {
                Some(r) => r,
                None => "UNKNOWN"@,
            },
        ),
    )
}

/// Normalizes the geometry type reported by the database.
pub fn normalize_geometry_type(reported: Option<String>) -> (r: String)
    ensures
        r@ == normalized_type(
            match reported {
                Some(x) => Some(x@),
                None => None,
            },
        ),
{
    let raw = match reported {
        Some(x) => x,
        None => String::from_str("UNKNOWN"),
    };
    let upper = to_uppercase(raw.as_str());
    let cs = chars_of(upper.as_str());
    let mut out: Vec<char> = Vec::new();
    let mut i: usize = 0;
    while i < cs.len()
        invariant
            i <= cs.len(),
            out@ == cs@.take(i as int).filter(|c: char| c != ' '),
        decreases cs.len() - i,
    {
        let ghost before = out@;
        if cs[i] != ' ' {
            out.push(cs[i]);
        }
        i = i + 1;
        proof {
            let t = cs@.take(i as int);
            assert(t.drop_last() =~= cs@.take(i - 1));
            reveal_with_fuel(Seq::<char>::filter, 1);
        }
    }
    assert(cs@.take(cs.len() as int) =~= cs@);
    string_from_chars(&out)
}

/// The normalized type says nothing, so the GeoJSON text must be consulted.
pub open spec fn needs_geojson(normalized: Seq<char>) -> bool {
    normalized == "UNKNOWN"@ || normalized.len() == 0
}

/// Whether the GeoJSON fallback of geometry type detection is needed.
pub fn needs_geojson_probe(normalized: &str) -> (b: bool)
    ensures
        b == needs_geojson(normalized@),
{
    let u = String::from_str("UNKNOWN");
    let n = String::from_str(normalized);
    string_eq(&n, &u) || normalized.is_empty()
}

/// The first position at or after `k` where `pat` occurs in `s`.
pub open spec fn find_from(s: Seq<char>, pat: Seq<char>, k: int) -> Option<int>
    decreases s.len() + 1 - k,
{
    if k < 0 || k + pat.len() > s.len() {
        None
    } else if s.subrange(k, k + pat.len()) == pat {
        Some(k)
    } else {
        find_from(s, pat, k + 1)
    }
}

/// The type name in a GeoJSON text: what follows the first `"type":"` up to the next
/// double quote.
pub open spec fn geojson_type_name(geojson: Seq<char>) -> Option<Seq<char>> {
    match find_from(geojson, "\"type\":\""@, 0) {
        None => None,
        Some(start) => {
            let rest = geojson.skip(start + 8);
            match find_from(rest, seq!['"'], 0) {
                None => None,
                Some(end) => Some(rest.take(end)),
            }
        },
    }
}

fn find_exec(s: &Vec<char>, pat: &Vec<char>, from: usize) -> (r: Option<usize>)
    requires
        from <= s.len(),
    ensures
        match r {
            Some(i) => find_from(s@, pat@, from as int) == Some(i as int) && i + pat.len() <= s.len(),
            None => find_from(s@, pat@, from as int) is None,
        },
    decreases s.len() - from,
{
    if pat.len() > s.len() - from {
        return None;
    }
    let mut j: usize = 0;
    let mut same = true;
    while j < pat.len()
        invariant
            j <= pat.len(),
            from + pat.len() <= s.len(),
            same == (forall|t: int| 0 <= t < j ==> s@[from + t] == pat@[t]),
        decreases pat.len() - j,
    {
        if s[from + j] != pat[j] {
            same = false;
        }
        j = j + 1;
    }
    if same {
        assert(s@.subrange(from as int, from + pat.len()) =~= pat@);
        Some(from)
    } else {
        assert(s@.subrange(from as int, from + pat.len()) != pat@) by {
            let t = choose|t: int| 0 <= t < pat.len() && s@[from + t] != pat@[t];
            assert(s@.subrange(from as int, from + pat.len())[t] != pat@[t]);
        }
        if from == s.len() {
            None
        } else {
            find_exec(s, pat, from + 1)
        }
    }
}

/// The type name in a GeoJSON text, if it has one.
pub fn geojson_type(geojson: &str) -> (r: Option<String>)
    ensures
        match r {
            Some(t) => geojson_type_name(geojson@) == Some(t@),
            None => geojson_type_name(geojson@) is None,
        },
{
    let g = chars_of(geojson);
    let pat = chars_of("\"type\":\"");
    proof {
        reveal_strlit("\"type\":\"");
    }
    match find_exec(&g, &pat, 0) {
        None => None,
        Some(start) => {
            let mut rest: Vec<char> = Vec::new();
            let mut i = start + 8;
            while i < g.len()
                invariant
                    start + 8 <= i <= g.len(),
                    rest@ == g@.subrange(start + 8, i as int),
                decreases g.len() - i,
            {
                rest.push(g[i]);
                i = i + 1;
                assert(rest@ =~= g@.subrange(start + 8, i as int));
            }
            assert(rest@ =~= geojson@.skip(start + 8));
            let mut quote: Vec<char> = Vec::new();
            quote.push('"');
            assert(quote@ =~= seq!['"']);
            match find_exec(&rest, &quote, 0) {
                None => None,
                Some(end) => {
                    let mut name: Vec<char> = Vec::new();
                    let mut k: usize = 0;
                    while k < end
                        invariant
                            k <= end,
                            end <= rest.len(),
                            name@ == rest@.take(k as int),
                        decreases end - k,
                    {
                        name.push(rest[k]);
                        k = k + 1;
                        assert(name@ =~= rest@.take(k as int));
                    }
                    Some(string_from_chars(&name))
                },
            }
        },
    }
}

/// The geometry type decided from the normalized reported type and, when that says
/// nothing, the GeoJSON text of a geometry (if it could be read).
pub open spec fn resolved_type(normalized: Seq<char>, geojson: Option<Seq<char>>) -> GeometryType {
    if needs_geojson(normalized) && geojson is Some && geojson_type_name(geojson->0) is Some {
        geometry_type_of(uppercase(uppercase(geojson_type_name(geojson->0)->0)))
    } else {
        geometry_type_of(uppercase(normalized))
    }
}

/// Decides the geometry type of a dataset.
pub fn resolve_geometry_type(normalized: &str, geojson: Option<&str>) -> (g: GeometryType)
    ensures
        g == resolved_type(
            normalized@,
            match geojson {
                Some(x) => Some(x@),
                None => None,
            },
        ),
{
    if needs_geojson_probe(normalized) {
        if let Some(text) = geojson {
            if let Some(name) = geojson_type(text) {
                let upper = to_uppercase(name.as_str());
                return GeometryType::from(upper.as_str());
            }
        }
    }
    GeometryType::from(normalized)
}

/// The statements of SRID detection for a geometry column, or `None` when the column
/// name is invalid and the default SRID 4326 applies: the SRID of a non-null
/// geometry, then the extent of all geometries.
pub fn srid_sql(table: &str, geometry_column: &str) -> (r: Option<(String, String)>)
    ensures
        r is None <==> identifier_fault(geometry_column@) is Some,
        r matches Some((a, b)) ==> {
            let g = quoted(geometry_column@);
            &&& a@ == "SELECT ST_SRID("@ + g + ") FROM "@ + table@ + " WHERE "@ + g
                + " IS NOT NULL LIMIT 1"@
            &&& b@ == "SELECT ST_XMin(ST_Extent("@ + g + ")), ST_XMax(ST_Extent("@ + g
                + ")), ST_YMin(ST_Extent("@ + g + ")), ST_YMax(ST_Extent("@ + g + ")) FROM "@
                + table@
        },
{
    let g = match quote_ident(geometry_column) {
        Err(_) => {
            return None;
        },
        Ok(g) => g,
    };
    let mut a = String::from_str("SELECT ST_SRID(");
    a.append(g.as_str());
    a.append(") FROM ");
    a.append(table);
    a.append(" WHERE ");
    a.append(g.as_str());
    a.append(" IS NOT NULL LIMIT 1");
    let mut b = String::from_str("SELECT ST_XMin(ST_Extent(");
    b.append(g.as_str());
    b.append(")), ST_XMax(ST_Extent(");
    b.append(g.as_str());
    b.append(")), ST_YMin(ST_Extent(");
    b.append(g.as_str());
    b.append(")), ST_YMax(ST_Extent(");
    b.append(g.as_str());
    b.append(")) FROM ");
    b.append(table);
    Some((a, b))
}

/// The SRID the geometries report, when they report a non-zero one; otherwise the
/// extent must be consulted.
pub fn reported_srid(reported: Option<i32>) -> (r: Option<i32>)
    ensures
        r == match reported {
            Some(s) => if s != 0 {
                Some(s)
            } else {
                None
            },
            None => None,
        },
{
    match reported {
        Some(s) => if s != 0 {
            Some(s)
        } else {
            None
        },
        None => None,
    }
}

/// The SRID of a dataset: the one its geometries report when they report a non-zero
/// one, else the default 4326 (also for coordinates outside the longitude/latitude
/// range, which are only warned about).
pub fn srid_or_default(reported: Option<i32>) -> (r: i32)
    ensures
        r == match reported {
            Some(s) => if s != 0 {
                s
            } else {
                4326i32
            },
            None => 4326i32,
        },
{
    match reported_srid(reported) {
        Some(s) => s,
        None => 4326,
    }
}

} // verus!

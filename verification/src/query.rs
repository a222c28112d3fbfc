//! Feature queries: the server-side cap on how many features one request returns,
//! the bbox parameter's shape, the chunked reading of Arrow data, and the SQL text of
//! the feature queries.

use vstd::prelude::*;
use crate::error::{AppError, AppResult, ErrorKind};
use crate::ident::{identifier_fault, is_identifier, quoted, quote_ident, validate_identifier};
use crate::models::{ColumnInfo, Dataset};
use crate::text::{chars_of, join, views, join_strings, i64_text, signed_decimal, push_char};

verus! {

/// The most features one request returns.
pub const MAX_FEATURE_LIMIT: i64 = 500_000;

/// The effective limit of a request and whether the result is truncated: the
/// requested limit, or the dataset's feature count when none is requested, capped at
/// `MAX_FEATURE_LIMIT`; truncated when that limit exceeds the cap.
pub open spec fn capped(requested: Option<i64>, dataset_count: i64) -> (i64, bool) {
    let wanted = match requested {
        Some(r) => r,
        None => dataset_count,
    };
    (if wanted < MAX_FEATURE_LIMIT {
        wanted
    } else {
        MAX_FEATURE_LIMIT
    }, wanted > MAX_FEATURE_LIMIT)
}

/// Applies the server-side cap on the number of features: the effective limit and
/// whether it truncates what was asked for.
pub fn cap_limit(requested: Option<i64>, dataset_count: i64) -> (r: (i64, bool))
    ensures
        r == capped(requested, dataset_count),
        r.0 <= MAX_FEATURE_LIMIT,
{
    let wanted = match requested {
        Some(x) => x,
        None => dataset_count,
    };
    let effective = if wanted < MAX_FEATURE_LIMIT {
        wanted
    } else {
        MAX_FEATURE_LIMIT
    };
    let truncated = match requested {
        None => dataset_count > MAX_FEATURE_LIMIT,
        Some(x) => x > MAX_FEATURE_LIMIT,
    };
    (effective, truncated)
}

/// The pieces of `s` between the separators `sep`, as `str::split` yields them.
pub open spec fn split_on(s: Seq<char>, sep: char) -> Seq<Seq<char>>
    decreases s.len(),
{
    if s.len() == 0 {
        seq![seq![]]
    } else {
        let rest = split_on(s.drop_last(), sep);
        if s.last() == sep {
            rest.push(seq![])
        } else {
            rest.update(rest.len() - 1, rest.last().push(s.last()))
        }
    }
}

/// Splitting always yields at least one piece.
pub proof fn lemma_split_nonempty(s: Seq<char>, sep: char)
    ensures
        split_on(s, sep).len() >= 1,
    decreases s.len(),
{
    if s.len() > 0 {
        lemma_split_nonempty(s.drop_last(), sep);
    }
}

/// The message for a bbox that is not four comma-separated values.
pub open spec fn bbox_shape_message() -> Seq<char> {
    "bbox must have 4 comma-separated values: minx,miny,maxx,maxy"@
}

/// The four comma-separated pieces of a bbox parameter, still to be trimmed and read
/// as numbers; any other number of pieces is refused.
pub fn bbox_parts(s: &str) -> (r: AppResult<Vec<String>>)
    ensures
        match r {
            Ok(parts) => split_on(s@, ',').len() == 4 && views(parts@) == split_on(s@, ','),
            Err(e) => split_on(s@, ',').len() != 4 && e@ == (ErrorKind::BadRequest, bbox_shape_message()),
        },
{
    let cs = chars_of(s);
    let mut pieces: Vec<Vec<char>> = Vec::new();
    pieces.push(Vec::new());
    let mut i: usize = 0;
    while i < cs.len()
        invariant
            i <= cs.len(),
            cs@ == s@,
            pieces@.len() >= 1,
            pieces@.map_values(|p: Vec<char>| p@) == split_on(s@.take(i as int), ','),
        decreases cs.len() - i,
    {
        let c = cs[i];
        let ghost before = pieces@.map_values(|p: Vec<char>| p@);
        assert(s@.take(i + 1).drop_last() =~= s@.take(i as int));
        if c == ',' {
            pieces.push(Vec::new());
            assert(pieces@.map_values(|p: Vec<char>| p@) =~= before.push(seq![]));
        } else {
            let last = pieces.len() - 1;
            let mut p = pieces.remove(last);
            p.push(c);
            pieces.push(p);
            assert(pieces@.map_values(|p: Vec<char>| p@) =~= before.update(
                before.len() - 1,
                before.last().push(c),
            ));
        }
        i = i + 1;
    }
    assert(s@.take(cs.len() as int) =~= s@);
    if pieces.len() != 4 {
        return Err(
            AppError::BadRequest(
                String::from_str("bbox must have 4 comma-separated values: minx,miny,maxx,maxy"),
            ),
        );
    }
    let mut parts: Vec<String> = Vec::new();
    let mut k: usize = 0;
    while k < pieces.len()
        invariant
            k <= pieces.len(),
            views(parts@) == pieces@.take(k as int).map_values(|p: Vec<char>| p@),
        decreases pieces.len() - k,
    {
        let ghost pv = views(parts@);
        let piece = crate::text::string_from_chars(&pieces[k]);
        parts.push(piece);
        assert(views(parts@) =~= pv.push(pieces@[k as int]@));
        k = k + 1;
        assert(views(parts@) =~= pieces@.take(k as int).map_values(|p: Vec<char>| p@));
    }
    assert(pieces@.take(pieces.len() as int) =~= pieces@);
    Ok(parts)
}

/// How many features one query of the chunked Arrow export asks for at most.
pub const CHUNK_SIZE: i64 = 5000;

/// Where the chunked Arrow export stands: the offset of the next query, how many
/// features it may still return, and how many rows it has returned so far.
#[derive(Debug, Clone, Copy, PartialEq, Eq, Structural)]
pub struct ChunkCursor {
    pub offset: i64,
    pub remaining: i64,
    pub rows: u64,
}

/// The limit of the next chunk query, or `None` when the export has nothing left to ask for.
pub open spec fn chunk_limit(c: ChunkCursor) -> Option<i64> {
    if c.remaining > 0 {
        Some(
            if c.remaining < CHUNK_SIZE {
                c.remaining
            } else {
                CHUNK_SIZE
            },
        )
    } else {
        None
    }
}

/// The cursor after a chunk query returned `n` rows (an empty chunk changes nothing).
pub open spec fn chunk_after(c: ChunkCursor, n: u64) -> ChunkCursor {
    if n == 0 {
        c
    } else {
        ChunkCursor {
            offset: (c.offset + n) as i64,
            remaining: (c.remaining - n) as i64,
            rows: (c.rows + n) as u64,
        }
    }
}

impl ChunkCursor {
    /// The cursor of an export that starts at `offset` (0 when absent) and returns at
    /// most `limit` features (the dataset's feature count when absent).
    pub fn start(limit: Option<i64>, offset: Option<i64>, feature_count: i64) -> (c: ChunkCursor)
        ensures
            c.offset == match offset {
                Some(o) => o,
                None => 0,
            },
            c.remaining == match limit {
                Some(l) => l,
                None => feature_count,
            },
            c.rows == 0,
    {
        ChunkCursor {
            offset: match offset {
                Some(o) => o,
                None => 0,
            },
            remaining: match limit {
                Some(l) => l,
                None => feature_count,
            },
            rows: 0,
        }
    }

    /// The limit of the next chunk query, if the export goes on.
    pub fn next_limit(&self) -> (r: Option<i64>)
        ensures
            r == chunk_limit(*self),
            r matches Some(l) ==> 0 < l <= CHUNK_SIZE,
    {
        if self.remaining > 0 {
            Some(
                if self.remaining < CHUNK_SIZE {
                    self.remaining
                } else {
                    CHUNK_SIZE
                },
            )
        } else {
            None
        }
    }

    /// Records that a chunk query returned `chunk_rows` rows; `true` when the export
    /// goes on. An empty chunk ends it and changes nothing; a chunk shorter than
    /// `CHUNK_SIZE` is counted and ends it.
    pub fn advance(&mut self, chunk_rows: u64) -> (more: bool)
        requires
            old(self).offset + chunk_rows <= i64::MAX,
            old(self).remaining - chunk_rows >= i64::MIN,
            old(self).rows + chunk_rows <= u64::MAX,
            chunk_rows <= i64::MAX,
        ensures
            *final(self) == chunk_after(*old(self), chunk_rows),
            more == (chunk_rows >= CHUNK_SIZE),
    {
        if chunk_rows == 0 {
            return false;
        }
        let n = chunk_rows as i64;
        self.rows = self.rows + chunk_rows;
        self.offset = self.offset + n;
        self.remaining = self.remaining - n;
        chunk_rows >= 5000
    }
}

/// The names of the columns other than the geometry column, in order.
pub open spec fn property_names(cols: Seq<ColumnInfo>, geometry: Seq<char>) -> Seq<Seq<char>>
    decreases cols.len(),
{
    if cols.len() == 0 {
        seq![]
    } else {
        let rest = property_names(cols.drop_last(), geometry);
        if cols.last().name@ == geometry {
            rest
        } else {
            rest.push(cols.last().name@)
        }
    }
}

/// The error of the first name in `names` that is no valid identifier, if any.
pub open spec fn first_identifier_fault(names: Seq<Seq<char>>) -> Option<(ErrorKind, Seq<char>)>
    decreases names.len(),
{
    if names.len() == 0 {
        None
    } else {
        match first_identifier_fault(names.drop_last()) {
            Some(f) => Some(f),
            None => identifier_fault(names.last()),
        }
    }
}

/// Every name quoted.
pub open spec fn all_quoted(names: Seq<Seq<char>>) -> Seq<Seq<char>> {
    names.map_values(|n: Seq<char>| quoted(n))
}

/// The validated parts of a dataset's feature queries.
#[derive(Debug, Clone)]
pub struct FeaturePlan {
    /// The dataset's table.
    pub table: String,
    /// The quoted geometry column.
    pub geometry: String,
    /// The names of the other columns, in order.
    pub properties: Vec<String>,
    /// The same names, quoted.
    pub quoted_properties: Vec<String>,
}

/// The error, if any, that preparing a dataset's feature queries reports: an invalid
/// table name, then an invalid geometry column, then the first invalid other column.
pub open spec fn feature_plan_fault(table: Seq<char>, geometry: Seq<char>, cols: Seq<ColumnInfo>) -> Option<
    (ErrorKind, Seq<char>),
> {
    match identifier_fault(table) {
        Some(f) => Some(f),
        None => match identifier_fault(geometry) {
            Some(f) => Some(f),
            None => first_identifier_fault(property_names(cols, geometry)),
        },
    }
}

/// Validates a dataset's table, geometry column and other columns for its feature queries.
pub fn plan_features<B>(d: &Dataset<B>) -> (r: AppResult<FeaturePlan>)
    ensures
        match r {
            Ok(p) => feature_plan_fault(d.table_name@, d.geometry_column@, d.columns@) is None
                && p.table@ == d.table_name@ && p.geometry@ == quoted(d.geometry_column@)
                && views(p.properties@) == property_names(d.columns@, d.geometry_column@)
                && views(p.quoted_properties@) == all_quoted(
                property_names(d.columns@, d.geometry_column@),
            ),
            Err(e) => feature_plan_fault(d.table_name@, d.geometry_column@, d.columns@) == Some(
                e@,
            ),
        },
{
    validate_identifier(d.table_name.as_str())?;
    let geometry = quote_ident(d.geometry_column.as_str())?;
    let ghost g = d.geometry_column@;
    let mut properties: Vec<String> = Vec::new();
    let mut quoted_properties: Vec<String> = Vec::new();
    let mut i: usize = 0;
    while i < d.columns.len()
        invariant
            i <= d.columns.len(),
            g == d.geometry_column@,
            identifier_fault(d.table_name@) is None,
            identifier_fault(g) is None,
            geometry@ == quoted(g),
            views(properties@) == property_names(d.columns@.take(i as int), g),
            views(quoted_properties@) == all_quoted(property_names(d.columns@.take(i as int), g)),
            first_identifier_fault(property_names(d.columns@.take(i as int), g)) is None,
        decreases d.columns.len() - i,
    {
        let c = &d.columns[i];
        assert(d.columns@.take(i + 1).drop_last() =~= d.columns@.take(i as int));
        assert(d.columns@.take(i + 1).last() == d.columns@[i as int]);
        if !crate::models::string_eq(&c.name, &d.geometry_column) {
            let ghost names = property_names(d.columns@.take(i as int), g);
            match quote_ident(c.name.as_str()) {
                Err(e) => {
                    assert(property_names(d.columns@.take(i + 1), g) == names.push(c.name@));
                    assert(names.push(c.name@).drop_last() =~= names);
                    proof {
                        lemma_first_fault_prefix(
                            property_names(d.columns@.take(i + 1), g),
                            property_names(d.columns@, g),
                            d.columns@,
                            g,
                            (i + 1) as int,
                        );
                    }
                    return Err(e);
                },
                Ok(q) => {
                    properties.push(c.name.clone());
                    quoted_properties.push(q);
                    assert(names.push(c.name@).drop_last() =~= names);
                    assert(views(properties@) =~= names.push(c.name@));
                    assert(all_quoted(names.push(c.name@)) =~= all_quoted(names).push(
                        quoted(c.name@),
                    ));
                    assert(views(quoted_properties@) =~= all_quoted(names.push(c.name@)));
                },
            }
        }
        i = i + 1;
    }
    assert(d.columns@.take(d.columns.len() as int) =~= d.columns@);
    Ok(FeaturePlan { table: d.table_name.clone(), geometry, properties, quoted_properties })
}

/// The property names of a prefix of the columns are a prefix of all property names,
/// so a fault found among them is the first fault of all of them.
proof fn lemma_first_fault_prefix(
    pre: Seq<Seq<char>>,
    all: Seq<Seq<char>>,
    cols: Seq<ColumnInfo>,
    g: Seq<char>,
    n: int,
)
    requires
        0 <= n <= cols.len(),
        pre == property_names(cols.take(n), g),
        all == property_names(cols, g),
        first_identifier_fault(pre) is Some,
    ensures
        first_identifier_fault(all) == first_identifier_fault(pre),
    decreases cols.len() - n,
{
    if n < cols.len() {
        let next = property_names(cols.take(n + 1), g);
        assert(cols.take(n + 1).drop_last() =~= cols.take(n));
        assert(cols.take(n + 1).last() == cols[n]);
        if cols[n].name@ != g {
            assert(next.drop_last() =~= pre);
        }
        lemma_first_fault_prefix(next, all, cols, g, n + 1);
    } else {
        assert(cols.take(n) =~= cols);
    }
}

/// The column list that precedes the geometry in an Arrow chunk query: the quoted
/// columns joined by `, ` with a trailing `, `, or nothing when there are none.
pub open spec fn arrow_columns(quoted: Seq<Seq<char>>) -> Seq<char> {
    if quoted.len() == 0 {
        seq![]
    } else {
        join(quoted, ", "@) + ", "@
    }
}

/// One chunk query of the Arrow export.
pub open spec fn arrow_chunk_query(
    columns: Seq<char>,
    geometry: Seq<char>,
    table: Seq<char>,
    filter: Seq<char>,
    limit: i64,
    offset: i64,
) -> Seq<char> {
    "SELECT "@ + columns + "ST_AsWKB("@ + geometry + ") as geometry FROM "@ + table + filter
        + " LIMIT "@ + signed_decimal(limit as int) + " OFFSET "@ + signed_decimal(offset as int)
}

/// The column list prefix of a plan's Arrow chunk queries.
pub fn arrow_select_columns(plan: &FeaturePlan) -> (s: String)
    ensures
        s@ == arrow_columns(views(plan.quoted_properties@)),
{
    if plan.quoted_properties.len() == 0 {
        String::new()
    } else {
        let mut s = join_strings(&plan.quoted_properties, ", ");
        s.append(", ");
        s
    }
}

/// The text of one chunk query of the Arrow export. `filter` is the bbox condition
/// (empty for none), `columns` the plan's column list prefix.
pub fn arrow_chunk_sql(plan: &FeaturePlan, columns: &str, filter: &str, limit: i64, offset: i64) -> (s:
    String)
    ensures
        s@ == arrow_chunk_query(columns@, plan.geometry@, plan.table@, filter@, limit, offset),
{
    let mut s = String::from_str("SELECT ");
    s.append(columns);
    s.append("ST_AsWKB(");
    s.append(plan.geometry.as_str());
    s.append(") as geometry FROM ");
    s.append(plan.table.as_str());
    s.append(filter);
    s.append(" LIMIT ");
    let l = i64_text(limit);
    s.append(l.as_str());
    s.append(" OFFSET ");
    let o = i64_text(offset);
    s.append(o.as_str());
    s
}

/// The property columns that follow the geometry in the GeoJSON query: `, ` and the
/// quoted columns joined by `, `, or nothing when there are none.
pub open spec fn geojson_columns(quoted: Seq<Seq<char>>) -> Seq<char> {
    if quoted.len() == 0 {
        seq![]
    } else {
        ", "@ + join(quoted, ", "@)
    }
}

/// An optional clause: the keyword and the number, or nothing.
pub open spec fn optional_clause(keyword: Seq<char>, n: Option<i64>) -> Seq<char> {
    match n {
        Some(v) => keyword + signed_decimal(v as int),
        None => seq![],
    }
}

/// The GeoJSON export query.
pub open spec fn geojson_query(
    geometry: Seq<char>,
    quoted: Seq<Seq<char>>,
    table: Seq<char>,
    filter: Seq<char>,
    limit: Option<i64>,
    offset: Option<i64>,
) -> Seq<char> {
    "SELECT ST_AsGeoJSON("@ + geometry + ")"@ + geojson_columns(quoted) + " FROM "@ + table
        + filter + optional_clause(" LIMIT "@, limit) + optional_clause(" OFFSET "@, offset)
}

/// The text of the GeoJSON export query. `filter` is the bbox condition (empty for none).
pub fn geojson_sql(plan: &FeaturePlan, filter: &str, limit: Option<i64>, offset: Option<i64>) -> (s:
    String)
    ensures
        s@ == geojson_query(
            plan.geometry@,
            views(plan.quoted_properties@),
            plan.table@,
            filter@,
            limit,
            offset,
        ),
{
    let mut s = String::from_str("SELECT ST_AsGeoJSON(");
    s.append(plan.geometry.as_str());
    s.append(")");
    if plan.quoted_properties.len() > 0 {
        s.append(", ");
        let j = join_strings(&plan.quoted_properties, ", ");
        s.append(j.as_str());
    }
    s.append(" FROM ");
    s.append(plan.table.as_str());
    s.append(filter);
    if let Some(l) = limit {
        s.append(" LIMIT ");
        let t = i64_text(l);
        s.append(t.as_str());
    }
    if let Some(o) = offset {
        s.append(" OFFSET ");
        let t = i64_text(o);
        s.append(t.as_str());
    }
    s
}

/// The bbox condition of the feature queries, given the already formatted bounds:
/// a fast range test on the materialized per-row bbox columns, then an exact
/// intersection test.
pub open spec fn bbox_filter(
    geometry: Seq<char>,
    minx: Seq<char>,
    miny: Seq<char>,
    maxx: Seq<char>,
    maxy: Seq<char>,
) -> Seq<char> {
    " WHERE _bbox_xmax >= "@ + minx + " AND _bbox_xmin <= "@ + maxx + " AND _bbox_ymax >= "@
        + miny + " AND _bbox_ymin <= "@ + maxy + " AND ST_Intersects("@ + geometry
        + ", ST_MakeEnvelope("@ + minx + ", "@ + miny + ", "@ + maxx + ", "@ + maxy + "))"@
}

/// The bbox condition of a plan's feature queries from the formatted bounds.
pub fn bbox_filter_sql(plan: &FeaturePlan, minx: &str, miny: &str, maxx: &str, maxy: &str) -> (s:
    String)
    ensures
        s@ == bbox_filter(plan.geometry@, minx@, miny@, maxx@, maxy@),
{
    let mut s = String::from_str(" WHERE _bbox_xmax >= ");
    s.append(minx);
    s.append(" AND _bbox_xmin <= ");
    s.append(maxx);
    s.append(" AND _bbox_ymax >= ");
    s.append(miny);
    s.append(" AND _bbox_ymin <= ");
    s.append(maxy);
    s.append(" AND ST_Intersects(");
    s.append(plan.geometry.as_str());
    s.append(", ST_MakeEnvelope(");
    s.append(minx);
    s.append(", ");
    s.append(miny);
    s.append(", ");
    s.append(maxx);
    s.append(", ");
    s.append(maxy);
    s.append("))");
    s
}

} // verus!

//! The catalog operations on datasets and maps: lookups that answer "not found" for
//! unknown ids, removal, map creation and update, and the records restored from the
//! metadata tables at start-up.

use vstd::prelude::*;
use crate::error::{AppError, AppResult, ErrorKind};
use crate::ident::{is_identifier, validate_identifier};
use crate::ids::{id_text, id_string, fresh_id, now, Timestamp, id_or_fresh, instant_or_now,
    parsed_id, rfc3339_instant};
use crate::models::{Dataset, MapConfig, ColumnInfo, GeometryType, geometry_type_of};
use crate::store::{Store, lists_exactly};
use crate::unicode::{uppercase, to_uppercase, ascii_upper};
use vstd::utf8::is_ascii_chars;

verus! {

/// The error for an unknown dataset id.
pub open spec fn dataset_not_found(id: u128) -> (ErrorKind, Seq<char>) {
    (ErrorKind::NotFound, "Dataset "@ + id_text(id) + " not found"@)
}

/// The error for an unknown map id.
pub open spec fn map_not_found(id: u128) -> (ErrorKind, Seq<char>) {
    (ErrorKind::NotFound, "Map "@ + id_text(id) + " not found"@)
}

/// What looking a dataset up in the catalog `m` answers: the dataset, or the error
/// for an unknown id.
pub open spec fn dataset_lookup<B>(m: Map<u128, Dataset<B>>, id: u128) -> Result<
    Dataset<B>,
    (ErrorKind, Seq<char>),
> {
    if m.contains_key(id) {
        Ok(m[id])
    } else {
        Err(dataset_not_found(id))
    }
}

/// What looking a map up in the catalog `m` answers: the map, or the error for an
/// unknown id.
pub open spec fn map_lookup<V, L>(m: Map<u128, MapConfig<V, L>>, id: u128) -> Result<
    MapConfig<V, L>,
    (ErrorKind, Seq<char>),
> {
    if m.contains_key(id) {
        Ok(m[id])
    } else {
        Err(map_not_found(id))
    }
}

/// `vals` holds each record of `m` exactly once, in some order.
pub open spec fn lists_values<V>(m: Map<u128, V>, vals: Seq<&V>) -> bool {
    exists|entries: Seq<(u128, &V)>|
        lists_exactly(m, entries) && vals == entries.map_values(|e: (u128, &V)| e.1)
}

fn not_found(prefix: &str, id: u128) -> (e: AppError)
    ensures
        e@ == (ErrorKind::NotFound, prefix@ + id_text(id) + " not found"@),
{
    let mut m = String::from_str(prefix);
    let t = id_string(id);
    m.append(t.as_str());
    m.append(" not found");
    AppError::NotFound(m)
}

fn values_of<V>(store: &Store<V>) -> (r: Vec<&V>)
    ensures
        lists_values(store@, r@),
{
    let entries = store.entries();
    let mut r: Vec<&V> = Vec::new();
    let mut i: usize = 0;
    while i < entries.len()
        invariant
            i <= entries.len(),
            r@ == entries@.take(i as int).map_values(|e: (u128, &V)| e.1),
        decreases entries.len() - i,
    {
        r.push(entries[i].1);
        i = i + 1;
        assert(r@ =~= entries@.take(i as int).map_values(|e: (u128, &V)| e.1));
    }
    assert(entries@.take(entries.len() as int) =~= entries@);
    r
}

/// The dataset with the given id.
pub fn get_dataset<B>(store: &Store<Dataset<B>>, id: u128) -> (r: AppResult<&Dataset<B>>)
    ensures
        match r {
            Ok(d) => dataset_lookup(store@, id) == Ok::<Dataset<B>, (ErrorKind, Seq<char>)>(*d),
            Err(e) => dataset_lookup(store@, id) == Err::<Dataset<B>, (ErrorKind, Seq<char>)>(e@),
        },
{
    match store.get(id) {
        Some(d) => Ok(d),
        None => Err(not_found("Dataset ", id)),
    }
}

/// Every dataset, each exactly once.
pub fn list_datasets<B>(store: &Store<Dataset<B>>) -> (r: Vec<&Dataset<B>>)
    ensures
        lists_values(store@, r@),
{
    values_of(store)
}

/// The bounds of the dataset with the given id.
pub fn get_dataset_bounds<B>(store: &Store<Dataset<B>>, id: u128) -> (r: AppResult<&B>)
    ensures
        match r {
            Ok(b) => store@.contains_key(id) && store@[id].bounds == Some(*b),
            Err(e) => if store@.contains_key(id) {
                store@[id].bounds is None && e@ == (ErrorKind::Internal, "Bounds not available"@)
            } else {
                e@ == dataset_not_found(id)
            },
        },
{
    let d = get_dataset(store, id)?;
    match &d.bounds {
        Some(b) => Ok(b),
        None => Err(AppError::Internal(String::from_str("Bounds not available"))),
    }
}

/// What removing a dataset leaves for the database to do: the statement that drops
/// its table and the text of its id, under which its metadata row is deleted.
#[derive(Debug, Clone)]
pub struct DatasetRemoval {
    pub drop_sql: String,
    pub id_text: String,
}

/// The statement that drops a dataset's table.
pub open spec fn drop_table_sql(table: Seq<char>) -> Seq<char> {
    "DROP TABLE IF EXISTS "@ + table
}

/// Removes the dataset with the given id from the catalog and returns what the
/// database must then do. The dataset leaves the catalog even when its table name
/// proves invalid, in which case that error is returned.
pub fn delete_dataset<B>(store: &mut Store<Dataset<B>>, id: u128) -> (r: AppResult<DatasetRemoval>)
    ensures
        final(store)@ == old(store)@.remove(id),
        !old(store)@.contains_key(id) ==> (r matches Err(e) && e@ == dataset_not_found(id)),
        old(store)@.contains_key(id) ==> match r {
            Ok(plan) => is_identifier(old(store)@[id].table_name@) && plan.drop_sql@
                == drop_table_sql(old(store)@[id].table_name@) && plan.id_text@ == id_text(id),
            Err(e) => crate::ident::identifier_fault(old(store)@[id].table_name@) == Some(e@),
        },
{
    let d = match store.remove(id) {
        Some(d) => d,
        None => {
            return Err(not_found("Dataset ", id));
        },
    };
    match validate_identifier(d.table_name.as_str()) {
        Err(e) => Err(e),
        Ok(()) => {
            let mut sql = String::from_str("DROP TABLE IF EXISTS ");
            sql.append(d.table_name.as_str());
            Ok(DatasetRemoval { drop_sql: sql, id_text: id_string(id) })
        },
    }
}

/// A new map with the given id, no layers, the `osm` basemap unless another is
/// given, and both timestamps set to `at`.
pub fn new_map_at<V, L>(
    id: u128,
    at: Timestamp,
    name: String,
    description: Option<String>,
    basemap: Option<String>,
    view: V,
) -> (m: MapConfig<V, L>)
    ensures
        m.id == id,
        m.name == name,
        m.description == description,
        m.basemap@ == match basemap {
            Some(b) => b@,
            None => "osm"@,
        },
        m.view == view,
        m.layers@ == Seq::<L>::empty(),
        m.created_at == at,
        m.updated_at == at,
{
    MapConfig {
        id,
        name,
        description,
        basemap: match basemap {
            Some(b) => b,
            None => String::from_str("osm"),
        },
        view,
        layers: Vec::new(),
        created_at: at,
        updated_at: at,
    }
}

/// A new map with a fresh id and both timestamps set to the current instant; the
/// rest as `new_map_at` makes it.
pub fn new_map<V, L>(name: String, description: Option<String>, basemap: Option<String>, view: V) -> (m:
    MapConfig<V, L>)
    ensures
        m.name == name,
        m.description == description,
        m.basemap@ == match basemap {
            Some(b) => b@,
            None => "osm"@,
        },
        m.view == view,
        m.layers@ == Seq::<L>::empty(),
        m.created_at == m.updated_at,
{
    new_map_at(fresh_id(), now(), name, description, basemap, view)
}

/// The map with the given id.
pub fn get_map<V, L>(store: &Store<MapConfig<V, L>>, id: u128) -> (r: AppResult<&MapConfig<V, L>>)
    ensures
        match r {
            Ok(m) => map_lookup(store@, id) == Ok::<MapConfig<V, L>, (ErrorKind, Seq<char>)>(*m),
            Err(e) => map_lookup(store@, id) == Err::<MapConfig<V, L>, (ErrorKind, Seq<char>)>(e@),
        },
{
    match store.get(id) {
        Some(m) => Ok(m),
        None => Err(not_found("Map ", id)),
    }
}

/// Every map, each exactly once.
pub fn list_maps<V, L>(store: &Store<MapConfig<V, L>>) -> (r: Vec<&MapConfig<V, L>>)
    ensures
        lists_values(store@, r@),
{
    values_of(store)
}

/// `new` is `old` with the given fields replaced (those given as `None` kept, a
/// description only ever set, never cleared) and everything else but `updated_at`
/// unchanged.
pub open spec fn map_updated<V, L>(
    old: MapConfig<V, L>,
    new: MapConfig<V, L>,
    name: Option<String>,
    description: Option<String>,
    basemap: Option<String>,
    view: Option<V>,
    layers: Option<Vec<L>>,
) -> bool {
    &&& new.id == old.id
    &&& new.name == match name {
        Some(n) => n,
        None => old.name,
    }
    &&& new.description == match description {
        Some(d) => Some(d),
        None => old.description,
    }
    &&& new.basemap == match basemap {
        Some(b) => b,
        None => old.basemap,
    }
    &&& new.view == match view {
        Some(v) => v,
        None => old.view,
    }
    &&& new.layers == match layers {
        Some(l) => l,
        None => old.layers,
    }
    &&& new.created_at == old.created_at
}

/// Updates the map with the given id at the instant `at`: each field given replaces
/// the stored one, and `updated_at` becomes `at`.
pub fn update_map_at<V, L>(
    store: &mut Store<MapConfig<V, L>>,
    id: u128,
    name: Option<String>,
    description: Option<String>,
    basemap: Option<String>,
    view: Option<V>,
    layers: Option<Vec<L>>,
    at: Timestamp,
) -> (r: AppResult<()>)
    ensures
        match r {
            Ok(()) => old(store)@.contains_key(id) && final(store)@.dom() == old(store)@.dom()
                && (forall|k: u128|
                k != id && #[trigger] old(store)@.contains_key(k) ==> final(store)@[k] == old(store)@[k])
                && map_updated(
                old(store)@[id],
                final(store)@[id],
                name,
                description,
                basemap,
                view,
                layers,
            ) && final(store)@[id].updated_at == at,
            Err(e) => !old(store)@.contains_key(id) && final(store)@ == old(store)@ && e@
                == map_not_found(id),
        },
{
    let mut m = match store.remove(id) {
        Some(m) => m,
        None => {
            return Err(not_found("Map ", id));
        },
    };
    let ghost before = m;
    if let Some(n) = name {
        m.name = n;
    }
    if let Some(d) = description {
        m.description = Some(d);
    }
    if let Some(b) = basemap {
        m.basemap = b;
    }
    if let Some(v) = view {
        m.view = v;
    }
    if let Some(l) = layers {
        m.layers = l;
    }
    m.updated_at = at;
    store.insert(id, m);
    assert(final(store)@.dom() =~= old(store)@.dom());
    Ok(())
}

/// Updates the map with the given id: each field given replaces the stored one, and
/// `updated_at` becomes the current instant.
pub fn update_map<V, L>(
    store: &mut Store<MapConfig<V, L>>,
    id: u128,
    name: Option<String>,
    description: Option<String>,
    basemap: Option<String>,
    view: Option<V>,
    layers: Option<Vec<L>>,
) -> (r: AppResult<()>)
    ensures
        match r {
            Ok(()) => old(store)@.contains_key(id) && final(store)@.dom() == old(store)@.dom()
                && (forall|k: u128|
                k != id && #[trigger] old(store)@.contains_key(k) ==> final(store)@[k] == old(store)@[k])
                && map_updated(
                old(store)@[id],
                final(store)@[id],
                name,
                description,
                basemap,
                view,
                layers,
            ),
            Err(e) => !old(store)@.contains_key(id) && final(store)@ == old(store)@ && e@
                == map_not_found(id),
        },
{
    update_map_at(store, id, name, description, basemap, view, layers, now())
}

/// Removes the map with the given id from the catalog and returns the text of its
/// id, under which its metadata row is deleted.
pub fn delete_map<V, L>(store: &mut Store<MapConfig<V, L>>, id: u128) -> (r: AppResult<String>)
    ensures
        final(store)@ == old(store)@.remove(id),
        match r {
            Ok(t) => old(store)@.contains_key(id) && t@ == id_text(id),
            Err(e) => !old(store)@.contains_key(id) && e@ == map_not_found(id),
        },
{
    match store.remove(id) {
        Some(_) => Ok(id_string(id)),
        None => Err(not_found("Map ", id)),
    }
}

/// The statement that checks that a restored dataset's table still exists, or `None`
/// when its table name is no valid identifier and the dataset is skipped.
pub fn restore_check_sql(table_name: &str) -> (r: Option<String>)
    ensures
        r is Some <==> is_identifier(table_name@),
        r matches Some(s) ==> s@ == "SELECT 1 FROM "@ + table_name@ + " LIMIT 0"@,
{
    match validate_identifier(table_name) {
        Err(_) => None,
        Ok(()) => {
            let mut s = String::from_str("SELECT 1 FROM ");
            s.append(table_name);
            s.append(" LIMIT 0");
            Some(s)
        },
    }
}

/// `d` is the dataset rebuilt from a metadata row with these fields: the id that
/// the id text parses to (for the hyphenated text of an id, that id), the geometry
/// type that the upper-cased label names (for an ASCII label, upper-cased letter by
/// letter), the instants that the timestamp texts name, and the other fields as given.
pub open spec fn restored_record<B>(
    d: Dataset<B>,
    id: Seq<char>,
    name: String,
    table_name: String,
    geometry_column: String,
    geometry_type: Seq<char>,
    srid: i32,
    feature_count: i64,
    bounds: Option<B>,
    columns: Vec<ColumnInfo>,
    created_at: Seq<char>,
    updated_at: Seq<char>,
) -> bool {
    &&& parsed_id(id) matches Some(v) ==> d.id == v
    &&& forall|u: u128| id == id_text(u) ==> d.id == u
    &&& d.name == name
    &&& d.table_name == table_name
    &&& d.geometry_column == geometry_column
    &&& d.geometry_type == geometry_type_of(uppercase(geometry_type))
    &&& is_ascii_chars(geometry_type) ==> d.geometry_type == geometry_type_of(ascii_upper(geometry_type))
    &&& d.srid == srid
    &&& d.feature_count == feature_count
    &&& d.bounds == bounds
    &&& d.columns == columns
    &&& rfc3339_instant(created_at) matches Some(p) ==> (d.created_at.secs, d.created_at.nanos) == p
    &&& rfc3339_instant(updated_at) matches Some(p) ==> (d.updated_at.secs, d.updated_at.nanos) == p
}

/// A dataset rebuilt from a row of the metadata table. An id that does not parse is
/// replaced by a fresh one, a timestamp that does not parse by the current instant.
pub fn restored_dataset<B>(
    id: &str,
    name: String,
    table_name: String,
    geometry_column: String,
    geometry_type: &str,
    srid: i32,
    feature_count: i64,
    bounds: Option<B>,
    columns: Vec<ColumnInfo>,
    created_at: &str,
    updated_at: &str,
) -> (d: Dataset<B>)
    ensures
        restored_record(
            d,
            id@,
            name,
            table_name,
            geometry_column,
            geometry_type@,
            srid,
            feature_count,
            bounds,
            columns,
            created_at@,
            updated_at@,
        ),
{
    let upper = to_uppercase(geometry_type);
    Dataset {
        id: id_or_fresh(id),
        name,
        table_name,
        geometry_column,
        geometry_type: GeometryType::from_upper(upper.as_str()),
        srid,
        feature_count,
        bounds,
        columns,
        created_at: instant_or_now(created_at),
        updated_at: instant_or_now(updated_at),
    }
}

/// `r` is the key under which a restored map is stored: the id its row's id text
/// parses to (for the hyphenated text of an id, that id), or the id inside its
/// configuration when the text does not parse.
pub open spec fn restored_key(r: u128, id: Seq<char>, map_id: u128) -> bool {
    &&& r == match parsed_id(id) {
        Some(v) => v,
        None => map_id,
    }
    &&& forall|u: u128| id == id_text(u) ==> r == u
}

/// The id under which a restored map is stored: its row's id, or the id inside its
/// configuration when the row's id does not parse.
pub fn restored_map_id(id: &str, map_id: u128) -> (r: u128)
    ensures
        restored_key(r, id@, map_id),
{
    proof {
        assert forall|u: u128| id@ == id_text(u) implies parsed_id(id@) == Some(u) by {
            crate::ids::lemma_id_text_parses(u);
        }
    }
    match crate::ids::parse_id(id) {
        Some(v) => v,
        None => map_id,
    }
}

} // verus!

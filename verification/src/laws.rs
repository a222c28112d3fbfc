//! Properties that relate several operations of the library, proved over the
//! specifications that the operations' contracts use.

use vstd::prelude::*;
use vstd::utf8::{is_ascii_chars, encode_utf8, decode_utf8, encode_utf8_valid_utf8, valid_utf8_split,
    decode_utf8_encode_utf8};
use crate::catalog::{restored_record, restored_key, dataset_lookup, dataset_not_found, map_lookup, map_not_found, lists_values, map_updated};
use crate::detect::{column_views, is_internal_column, visible_columns};
use crate::error::ErrorKind;
use crate::geojson::{is_plain_json_number, json_escaped, json_int_digits, json_string_value,
    lemma_json_escaped_has_no_controls, lemma_json_escaped_reads_back, properties_object, property_members,
    value_view, bool_text, PropertyValue};
use crate::files::{extension_cut, extension_cut_ok, without_extension, first_extension, first_extension_from, format_label, reader_of, spatial_extensions,
    SpatialReader};
use crate::ident::{all_ident_chars, identifier_fault, is_identifier, quoted, lemma_identifier_shape};
use crate::models::{Dataset, MapConfig, GeometryType, geometry_label, geometry_type_of};
use crate::ids::id_text;
use crate::query::{geojson_query, geojson_columns, optional_clause, arrow_chunk_query, capped, chunk_after, chunk_limit, ChunkCursor, CHUNK_SIZE, MAX_FEATURE_LIMIT,
    split_on, lemma_split_nonempty};
use crate::store::lists_exactly;
use crate::text::{ends_with, starts_with, signed_decimal, join, all_digits, is_digit, digits_value, decimal, digit_char};
use crate::upload::{zero_padded, chunk_fault};
use crate::unicode::{ascii_upper, ascii_upper_char};

verus! {

/// Looking a dataset up after storing it under an id yields what was stored, and
/// storing it changes what no other id looks up.
pub proof fn law_dataset_read_after_write<B>(m: Map<u128, Dataset<B>>, id: u128, d: Dataset<B>, other: u128)
    ensures
        dataset_lookup(m.insert(id, d), id) == Ok::<Dataset<B>, (ErrorKind, Seq<char>)>(d),
        other != id ==> dataset_lookup(m.insert(id, d), other) == dataset_lookup(m, other),
{
}

/// After a dataset is deleted, looking it up answers "not found", and every other id
/// looks up what it did before.
pub proof fn law_dataset_gone_after_delete<B>(m: Map<u128, Dataset<B>>, id: u128, other: u128)
    ensures
        dataset_lookup(m.remove(id), id) == Err::<Dataset<B>, (ErrorKind, Seq<char>)>(
            dataset_not_found(id),
        ),
        other != id ==> dataset_lookup(m.remove(id), other) == dataset_lookup(m, other),
{
}

/// Looking a map up after storing it yields what was stored; after it is deleted the
/// lookup answers "not found"; neither changes what another id looks up.
pub proof fn law_map_write_then_delete<V, L>(
    m: Map<u128, MapConfig<V, L>>,
    id: u128,
    c: MapConfig<V, L>,
    other: u128,
)
    ensures
        map_lookup(m.insert(id, c), id) == Ok::<MapConfig<V, L>, (ErrorKind, Seq<char>)>(c),
        map_lookup(m.insert(id, c).remove(id), id) == Err::<MapConfig<V, L>, (ErrorKind, Seq<char>)>(
            map_not_found(id),
        ),
        other != id ==> map_lookup(m.insert(id, c), other) == map_lookup(m, other),
        other != id ==> map_lookup(m.remove(id), other) == map_lookup(m, other),
{
}

/// A listing holds as many records as the catalog, so storing a record under a new id
/// lengthens every later listing by one and deleting a stored one shortens it by one.
pub proof fn law_listing_counts<V>(m: Map<u128, V>, vals: Seq<&V>, id: u128, v: V)
    requires
        m.dom().finite(),
        lists_values(m, vals),
    ensures
        vals.len() == m.dom().len(),
        !m.contains_key(id) ==> m.insert(id, v).dom().len() == vals.len() + 1,
        m.contains_key(id) ==> m.remove(id).dom().len() == vals.len() - 1,
{
    let entries = choose|entries: Seq<(u128, &V)>|
        lists_exactly(m, entries) && vals == entries.map_values(|e: (u128, &V)| e.1);
    assert(vals.len() == entries.len());
}

/// Updating a map with no field given changes nothing but its `updated_at`.
pub proof fn law_empty_update_keeps_map<V, L>(old: MapConfig<V, L>, new: MapConfig<V, L>)
    requires
        map_updated(old, new, None, None, None, None, None),
    ensures
        new.id == old.id,
        new.name == old.name,
        new.description == old.description,
        new.basemap == old.basemap,
        new.view == old.view,
        new.layers == old.layers,
        new.created_at == old.created_at,
{
}

/// The capped limit never exceeds the cap; it is exactly what was asked for (or the
/// dataset's count) unless the result is marked truncated.
pub proof fn law_cap(requested: Option<i64>, dataset_count: i64)
    ensures
        capped(requested, dataset_count).0 <= MAX_FEATURE_LIMIT,
        !capped(requested, dataset_count).1 ==> capped(requested, dataset_count).0 == match requested {
            Some(r) => r,
            None => dataset_count,
        },
        capped(requested, dataset_count).1 ==> capped(requested, dataset_count).0 == MAX_FEATURE_LIMIT,
        ({
            let wanted = match requested {
                Some(r) => r,
                None => dataset_count,
            };
            &&& capped(requested, dataset_count).1 <==> wanted > 500_000
            &&& capped(requested, dataset_count).0 == if wanted <= 500_000 {
                wanted
            } else {
                500_000
            }
        }),
{
}

/// Each chunk query of the Arrow export asks for at least one and at most
/// `CHUNK_SIZE` rows; when the database returns no more rows than asked for, the
/// export never returns more rows than its limit, and the offset always stands at the
/// start offset plus the rows returned.
pub proof fn law_chunks_respect_limit(c: ChunkCursor, n: u64)
    requires
        chunk_limit(c) is Some,
        n <= chunk_limit(c)->0,
        c.remaining >= 0,
        c.rows + n <= u64::MAX,
        c.offset + n <= i64::MAX,
    ensures
        0 < chunk_limit(c)->0 <= CHUNK_SIZE,
        chunk_after(c, n).remaining >= 0,
        chunk_after(c, n).offset - chunk_after(c, n).rows == c.offset - c.rows,
        chunk_after(c, n).remaining + chunk_after(c, n).rows == c.remaining + c.rows,
{
}

/// A quoted identifier holds no double quote besides the two that enclose it, so it
/// cannot end the quoted name early.
pub proof fn law_quoted_identifier_is_closed(name: Seq<char>)
    requires
        is_identifier(name),
    ensures
        quoted(name).len() == name.len() + 2,
        quoted(name)[0] == '"',
        quoted(name)[name.len() as int + 1] == '"',
        forall|i: int| 1 <= i <= name.len() ==> #[trigger] quoted(name)[i] != '"',
{
    lemma_identifier_shape(name);
    assert forall|i: int| 1 <= i <= name.len() implies #[trigger] quoted(name)[i] != '"' by {
        assert(quoted(name)[i] == name[i - 1]);
    }
}

/// The column metadata of a dataset never lists the internal bbox columns.
pub proof fn law_internal_columns_hidden(rows: Seq<(Seq<char>, Seq<char>, Seq<char>)>)
    ensures
        forall|i: int|
            0 <= i < visible_columns(rows).len() ==> !is_internal_column(
                #[trigger] visible_columns(rows)[i].0,
            ),
    decreases rows.len(),
{
    if rows.len() > 0 {
        law_internal_columns_hidden(rows.drop_last());
        let rest = visible_columns(rows.drop_last());
        let (n, t, y) = rows.last();
        if !is_internal_column(n) {
            assert(visible_columns(rows) == rest.push((n, t, y == "YES"@)));
            assert forall|i: int|
                0 <= i < visible_columns(rows).len() implies !is_internal_column(
                #[trigger] visible_columns(rows)[i].0,
            ) by {
                if i < rest.len() {
                    assert(visible_columns(rows)[i] == rest[i]);
                }
            }
        } else {
            assert(visible_columns(rows) == rest);
        }
    }
}

/// A file is loadable exactly when it has a supported extension, which is exactly when
/// its format has a name: the reader, the format name and the extension removed from
/// dataset names all go by the same list of extensions.
pub proof fn law_formats_agree(lower: Seq<char>)
    ensures
        reader_of(lower) is Some <==> first_extension(lower) is Some,
        reader_of(lower) is Some <==> format_label(lower) != "Unknown"@,
        reader_of(lower) == Some(SpatialReader::Parquet) <==> format_label(lower) == "GeoParquet"@,
{
    reveal_with_fuel(first_extension_from, 8);
    reveal_strlit("Unknown");
    reveal_strlit("GeoParquet");
    reveal_strlit("GeoPackage");
    reveal_strlit("Shapefile");
    reveal_strlit("GeoJSON");
    reveal_strlit("KML");
    assert("GeoParquet"@ != "Unknown"@) by {
        assert("GeoParquet"@[0] != "Unknown"@[0]);
    }
    assert("GeoPackage"@ != "Unknown"@) by {
        assert("GeoPackage"@[0] != "Unknown"@[0]);
    }
    assert("Shapefile"@ != "Unknown"@) by {
        assert("Shapefile"@[0] != "Unknown"@[0]);
    }
    assert("GeoJSON"@ != "Unknown"@) by {
        assert("GeoJSON"@[0] != "Unknown"@[0]);
    }
    assert("KML"@ != "Unknown"@) by {
        assert("KML"@.len() != "Unknown"@.len());
    }
    assert("GeoPackage"@ != "GeoParquet"@) by {
        assert("GeoPackage"@[5] != "GeoParquet"@[5]);
    }
    assert("Shapefile"@ != "GeoParquet"@) by {
        assert("Shapefile"@[0] != "GeoParquet"@[0]);
    }
    assert("GeoJSON"@ != "GeoParquet"@) by {
        assert("GeoJSON"@.len() != "GeoParquet"@.len());
    }
    assert("KML"@ != "GeoParquet"@) by {
        assert("KML"@.len() != "GeoParquet"@.len());
    }
    assert("Unknown"@ != "GeoParquet"@) by {
        assert("Unknown"@[0] != "GeoParquet"@[0]);
    }
}

/// The pieces that splitting at a separator yields join back, with that separator
/// between them, into the original text.
pub proof fn law_split_join(s: Seq<char>, sep: char)
    ensures
        join(split_on(s, sep), seq![sep]) == s,
    decreases s.len(),
{
    if s.len() > 0 {
        let rest = split_on(s.drop_last(), sep);
        law_split_join(s.drop_last(), sep);
        lemma_split_nonempty(s.drop_last(), sep);
        if s.last() == sep {
            assert(rest.push(seq![]).drop_last() =~= rest);
            assert(join(rest.push(seq![]), seq![sep]) =~= s);
        } else {
            let upd = rest.update(rest.len() - 1, rest.last().push(s.last()));
            lemma_join_extend_last(rest, seq![sep], s.last());
            assert(join(upd, seq![sep]) =~= s);
        }
    }
}

proof fn lemma_join_extend_last(list: Seq<Seq<char>>, sep: Seq<char>, c: char)
    requires
        list.len() >= 1,
    ensures
        join(list.update(list.len() - 1, list.last().push(c)), sep) == join(list, sep).push(c),
{
    let upd = list.update(list.len() - 1, list.last().push(c));
    if list.len() == 1 {
        assert(upd.len() == 1);
    } else {
        assert(upd.drop_last() =~= list.drop_last());
        assert(join(upd, sep) =~= join(list, sep).push(c));
    }
}

/// The label under which a geometry type is stored is ASCII and reads back as the
/// same geometry type, so storing and restoring a dataset keeps its geometry type.
pub proof fn law_geometry_label_round_trip(g: GeometryType)
    ensures
        is_ascii_chars(geometry_label(g)),
        geometry_type_of(ascii_upper(geometry_label(g))) == g,
{
    reveal_strlit("Point");
    reveal_strlit("LineString");
    reveal_strlit("Polygon");
    reveal_strlit("MultiPoint");
    reveal_strlit("MultiLineString");
    reveal_strlit("MultiPolygon");
    reveal_strlit("GeometryCollection");
    reveal_strlit("Unknown");
    reveal_strlit("POINT");
    reveal_strlit("LINESTRING");
    reveal_strlit("POLYGON");
    reveal_strlit("MULTIPOINT");
    reveal_strlit("MULTILINESTRING");
    reveal_strlit("MULTIPOLYGON");
    reveal_strlit("GEOMETRYCOLLECTION");
    let l = geometry_label(g);
    let u = ascii_upper(l);
    assert(u.len() == l.len());
    assert(is_ascii_chars(l));
    match g {
        GeometryType::Point => {
            assert(u =~= "POINT"@);
        },
        GeometryType::LineString => {
            assert(u =~= "LINESTRING"@);
            assert(u[0] != "POINT"@[0] || u.len() != "POINT"@.len());
        },
        GeometryType::Polygon => {
            assert(u =~= "POLYGON"@);
            assert(u[1] != "LINESTRING"@[1] || u.len() != 10);
        },
        GeometryType::MultiPoint => {
            assert(u =~= "MULTIPOINT"@);
            assert(u[0] != "LINESTRING"@[0]);
        },
        GeometryType::MultiLineString => {
            assert(u =~= "MULTILINESTRING"@);
        },
        GeometryType::MultiPolygon => {
            assert(u =~= "MULTIPOLYGON"@);
        },
        GeometryType::GeometryCollection => {
            assert(u =~= "GEOMETRYCOLLECTION"@);
        },
        GeometryType::Unknown => {
            assert(u[0] == 'U');
            assert(u[0] != "POLYGON"@[0]);
        },
    }
}

/// No character of `s` is a control character below U+0020.
pub open spec fn printable(s: Seq<char>) -> bool {
    forall|i: int| 0 <= i < s.len() ==> (#[trigger] s[i] as int) >= 0x20
}

proof fn lemma_printable_concat(a: Seq<char>, b: Seq<char>)
    requires
        printable(a),
        printable(b),
    ensures
        printable(a + b),
{
    assert forall|i: int| 0 <= i < (a + b).len() implies (#[trigger] (a + b)[i] as int) >= 0x20 by {
        if i < a.len() {
            assert((a + b)[i] == a[i]);
        } else {
            assert((a + b)[i] == b[i - a.len()]);
        }
    }
}

proof fn lemma_printable_join(list: Seq<Seq<char>>, sep: Seq<char>)
    requires
        printable(sep),
        forall|i: int| 0 <= i < list.len() ==> printable(#[trigger] list[i]),
    ensures
        printable(join(list, sep)),
    decreases list.len(),
{
    if list.len() == 0 {
    } else if list.len() == 1 {
        assert(printable(list[0]));
    } else {
        lemma_printable_join(list.drop_last(), sep);
        assert(printable(list[list.len() - 1]));
        lemma_printable_concat(join(list.drop_last(), sep), sep);
        lemma_printable_concat(join(list.drop_last(), sep) + sep, list.last());
    }
}

proof fn lemma_number_printable(x: Seq<char>)
    requires
        is_plain_json_number(x),
    ensures
        printable(x),
{
    let b = if x.len() > 0 && x[0] == '-' {
        x.drop_first()
    } else {
        x
    };
    assert(printable(b)) by {
        if !json_int_digits(b) {
            let k = choose|k: int|
                0 < k < b.len() - 1 && #[trigger] b[k] == '.' && json_int_digits(b.take(k))
                    && all_digits(b.skip(k + 1));
            assert forall|i: int| 0 <= i < b.len() implies (#[trigger] b[i] as int) >= 0x20 by {
                if i < k {
                    assert(b.take(k)[i] == b[i]);
                } else if i > k {
                    assert(b.skip(k + 1)[i - k - 1] == b[i]);
                }
            }
        }
    }
    if x.len() > 0 && x[0] == '-' {
        assert forall|i: int| 0 <= i < x.len() implies (#[trigger] x[i] as int) >= 0x20 by {
            if i > 0 {
                assert(x[i] == b[i - 1]);
            }
        }
    }
}

/// Every properties object of the GeoJSON export is free of raw control characters
/// when its names are identifiers and its numbers are JSON numbers, as
/// `plan_features` and `property_value` make them: text values are escaped, so no
/// newline, tab or other control character reaches the document unescaped.
pub proof fn law_properties_object_has_no_controls(names: Seq<Seq<char>>, vals: Seq<PropertyValue>)
    requires
        forall|i: int| 0 <= i < names.len() ==> is_identifier(#[trigger] names[i]),
        forall|i: int|
            0 <= i < vals.len() ==> (#[trigger] value_view(vals[i])).0 == 1 ==> is_plain_json_number(
                value_view(vals[i]).1,
            ),
    ensures
        printable(properties_object(names, vals)),
{
    reveal_strlit("{}");
    reveal_strlit("\":null");
    reveal_strlit("\":");
    reveal_strlit("\":\"");
    reveal_strlit(",");
    if names.len() > 0 {
        let members = property_members(names, vals);
        assert forall|i: int| 0 <= i < members.len() implies printable(#[trigger] members[i]) by {
            let name = names[i];
            lemma_identifier_shape(name);
            assert(printable(name)) by {
                assert forall|j: int| 0 <= j < name.len() implies (#[trigger] name[j] as int) >= 0x20 by {
                    assert(all_ident_chars(name));
                    assert(crate::ident::is_ident_char(name[j]));
                }
            }
            lemma_printable_concat(seq!['"'], name);
            match vals[i] {
                PropertyValue::Null => {
                    lemma_printable_concat(seq!['"'] + name, "\":null"@);
                },
                PropertyValue::Number(x) => {
                    assert(value_view(vals[i]).0 == 1);
                    lemma_number_printable(x@);
                    lemma_printable_concat(seq!['"'] + name, "\":"@);
                    lemma_printable_concat(seq!['"'] + name + "\":"@, x@);
                },
                PropertyValue::Boolean(b) => {
                    reveal_strlit("true");
                    reveal_strlit("false");
                    lemma_printable_concat(seq!['"'] + name, "\":"@);
                    lemma_printable_concat(seq!['"'] + name + "\":"@, bool_text(b));
                },
                PropertyValue::Text(x) => {
                    lemma_json_escaped_has_no_controls(x@);
                    lemma_printable_concat(seq!['"'] + name, "\":\""@);
                    lemma_printable_concat(seq!['"'] + name + "\":\""@, json_escaped(x@));
                    lemma_printable_concat(
                        seq!['"'] + name + "\":\""@ + json_escaped(x@),
                        seq!['"'],
                    );
                },
            }
        }
        lemma_printable_join(members, ","@);
        lemma_printable_concat(seq!['{'], join(members, ","@));
        lemma_printable_concat(seq!['{'] + join(members, ","@), seq!['}']);
    }
}

/// A text written into a JSON string reads back, as that JSON string, as the text
/// itself, and holds no raw control character.
pub proof fn law_json_text_round_trip(s: Seq<char>)
    ensures
        json_string_value(json_escaped(s)) == Some(s),
        printable(json_escaped(s)),
{
    lemma_json_escaped_reads_back(s);
    lemma_json_escaped_has_no_controls(s);
}

/// `s` comes before `t` in lexicographic order: at the first position where they
/// differ, `s` holds the smaller character.
pub open spec fn lex_less(s: Seq<char>, t: Seq<char>) -> bool {
    exists|i: int| 0 <= i < s.len() && i < t.len() && s.take(i) == t.take(i) && #[trigger] s[i] < t[i]
}

/// Ten to the power `k`.
pub open spec fn pow10(k: nat) -> nat
    decreases k,
{
    if k == 0 {
        1
    } else {
        10 * pow10((k - 1) as nat)
    }
}

proof fn lemma_digit_char_value(d: nat)
    requires
        d < 10,
    ensures
        digit_char(d) as int - '0' as int == d,
        is_digit(digit_char(d)),
{
    if d == 0 {} else if d == 1 {} else if d == 2 {} else if d == 3 {} else if d == 4 {}
    else if d == 5 {} else if d == 6 {} else if d == 7 {} else if d == 8 {} else {}
}

proof fn lemma_decimal_value(n: nat)
    ensures
        all_digits(decimal(n)),
        digits_value(decimal(n)) == n,
        decimal(n).len() >= 1,
    decreases n,
{
    if n < 10 {
        lemma_digit_char_value(n);
        assert(decimal(n).drop_last() =~= seq![]);
        assert(digits_value(decimal(n).drop_last()) == 0);
        assert(decimal(n).last() == digit_char(n));
    } else {
        lemma_decimal_value(n / 10);
        lemma_digit_char_value(n % 10);
        assert(decimal(n).drop_last() =~= decimal(n / 10));
        assert(decimal(n).last() == digit_char(n % 10));
        assert((n / 10) * 10 + n % 10 == n);
        assert forall|i: int| 0 <= i < decimal(n).len() implies is_digit(#[trigger] decimal(n)[i]) by {
            if i < decimal(n).len() - 1 {
                assert(decimal(n)[i] == decimal(n / 10)[i]);
            }
        }
    }
}

proof fn lemma_decimal_len(n: nat, k: nat)
    requires
        n < pow10(k),
        k >= 1,
    ensures
        decimal(n).len() <= k,
    decreases k,
{
    if n >= 10 {
        if k == 1 {
            assert(pow10(0) == 1);
        }
        assert(n / 10 < pow10((k - 1) as nat));
        lemma_decimal_len(n / 10, (k - 1) as nat);
    }
}

proof fn lemma_zeros_value(k: nat, s: Seq<char>)
    requires
        all_digits(s),
    ensures
        digits_value(Seq::new(k, |i: int| '0') + s) == digits_value(s),
        all_digits(Seq::new(k, |i: int| '0') + s),
    decreases s.len() + k,
{
    let z = Seq::new(k, |i: int| '0');
    assert forall|i: int| 0 <= i < (z + s).len() implies is_digit(#[trigger] (z + s)[i]) by {
        if i >= k {
            assert((z + s)[i] == s[i - k]);
        }
    }
    if s.len() > 0 {
        assert((z + s).drop_last() =~= z + s.drop_last());
        lemma_zeros_value(k, s.drop_last());
    } else if k > 0 {
        let z1 = Seq::new((k - 1) as nat, |i: int| '0');
        assert((z + s).drop_last() =~= z1 + s);
        lemma_zeros_value((k - 1) as nat, s);
    } else {
        assert(z + s =~= s);
    }
}

proof fn lemma_padded_name(n: nat)
    ensures
        all_digits(zero_padded(decimal(n), 8)),
        digits_value(zero_padded(decimal(n), 8)) == n,
        n < 100_000_000 ==> zero_padded(decimal(n), 8).len() == 8,
{
    lemma_decimal_value(n);
    let d = decimal(n);
    if d.len() < 8 {
        lemma_zeros_value((8 - d.len()) as nat, d);
    }
    if n < 100_000_000 {
        reveal_with_fuel(pow10, 9);
        lemma_decimal_len(n, 8);
    }
}

proof fn lemma_same_value_same_digits(s: Seq<char>, t: Seq<char>)
    requires
        s.len() == t.len(),
        all_digits(s),
        all_digits(t),
        digits_value(s) == digits_value(t),
    ensures
        s == t,
    decreases s.len(),
{
    if s.len() > 0 {
        let a = digits_value(s.drop_last());
        let b = digits_value(t.drop_last());
        let ds = s.last() as int - '0' as int;
        let dt = t.last() as int - '0' as int;
        assert(is_digit(s[s.len() - 1]));
        assert(is_digit(t[t.len() - 1]));
        assert(a * 10 + ds == b * 10 + dt);
        assert(a == b && ds == dt);
        assert(all_digits(s.drop_last()));
        assert(all_digits(t.drop_last()));
        lemma_same_value_same_digits(s.drop_last(), t.drop_last());
        let cs = s[s.len() - 1];
        let ct = t[t.len() - 1];
        assert(cs as u32 == ct as u32);
        vstd::utf8::char_u32_cast(cs, cs as u32);
        vstd::utf8::char_u32_cast(ct, ct as u32);
        assert(cs == ct);
        assert forall|i: int| 0 <= i < s.len() implies s[i] == t[i] by {
            if i < s.len() - 1 {
                assert(s[i] == s.drop_last()[i]);
                assert(t[i] == t.drop_last()[i]);
            }
        }
        assert(s =~= t);
    }
}

proof fn lemma_smaller_value_lex_less(s: Seq<char>, t: Seq<char>)
    requires
        s.len() == t.len(),
        all_digits(s),
        all_digits(t),
        digits_value(s) < digits_value(t),
    ensures
        lex_less(s, t),
    decreases s.len(),
{
    let n = s.len() - 1;
    let s1 = s.drop_last();
    let t1 = t.drop_last();
    let a = digits_value(s1);
    let b = digits_value(t1);
    assert(is_digit(s[n]));
    assert(is_digit(t[n]));
    assert(all_digits(s1));
    assert(all_digits(t1));
    if a < b {
        lemma_smaller_value_lex_less(s1, t1);
        let i = choose|i: int| 0 <= i < s1.len() && i < t1.len() && s1.take(i) == t1.take(i) && #[trigger] s1[i] < t1[i];
        assert(s.take(i) =~= s1.take(i));
        assert(t.take(i) =~= t1.take(i));
        assert(s[i] == s1[i] && t[i] == t1[i]);
    } else if a == b {
        lemma_same_value_same_digits(s1, t1);
        assert(s.take(n) =~= s1);
        assert(t.take(n) =~= t1);
        assert(s[n] < t[n]);
    } else {
        assert(a * 10 >= b * 10 + 10);
        assert(false);
    }
}

/// Distinct chunk indices give distinct chunk file names, so no chunk of an upload
/// overwrites another; and for indices below 10^8, whose names are exactly eight
/// digits, the names sort in index order.
pub proof fn law_chunk_names_distinct_and_ordered(a: u32, b: u32)
    ensures
        a != b ==> zero_padded(decimal(a as nat), 8) != zero_padded(decimal(b as nat), 8),
        a < b < 100_000_000 ==> lex_less(
            zero_padded(decimal(a as nat), 8),
            zero_padded(decimal(b as nat), 8),
        ),
{
    lemma_padded_name(a as nat);
    lemma_padded_name(b as nat);
    if a < b && b < 100_000_000 {
        lemma_smaller_value_lex_less(zero_padded(decimal(a as nat), 8), zero_padded(decimal(b as nat), 8));
    }
}

/// A name loses something to the extension removal exactly when it has a supported
/// extension, that is exactly when its format has a name and a reader (see
/// `law_formats_agree`); names without one are kept as they are.
pub proof fn law_extension_removed_iff_supported(name: Seq<char>, lower: Seq<char>)
    requires
        extension_cut_ok(name, lower),
    ensures
        without_extension(name, lower) != name <==> first_extension(lower) is Some,
{
    if let Some(k) = first_extension(lower) {
        reveal_with_fuel(first_extension_from, 8);
        reveal_strlit(".parquet");
        reveal_strlit(".geoparquet");
        reveal_strlit(".gpkg");
        reveal_strlit(".shp");
        reveal_strlit(".geojson");
        reveal_strlit(".json");
        reveal_strlit(".kml");
        assert(0 <= k < 7);
        assert(spatial_extensions()[k].len() > 0);
        let bytes = encode_utf8(name);
        let cut = extension_cut(name, k);
        let p = bytes.take(cut);
        encode_utf8_valid_utf8(name);
        valid_utf8_split(bytes, cut);
        assert(p =~= bytes.subrange(0, cut));
        decode_utf8_encode_utf8(p);
        if decode_utf8(p) == name {
            assert(encode_utf8(name) == p);
            assert(p.len() == cut);
            assert(false);
        }
    }
}

/// A dataset's metadata row, written with the hyphenated text of its id and the label
/// of its geometry type, is restored to a record with the same id, geometry type and
/// every other field but the timestamps (whose text is written and read by chrono).
pub proof fn law_dataset_record_round_trip<B>(d: Dataset<B>, r: Dataset<B>, created: Seq<char>, updated: Seq<char>)
    requires
        restored_record(
            r,
            id_text(d.id),
            d.name,
            d.table_name,
            d.geometry_column,
            geometry_label(d.geometry_type),
            d.srid,
            d.feature_count,
            d.bounds,
            d.columns,
            created,
            updated,
        ),
    ensures
        r.id == d.id,
        r.name == d.name,
        r.table_name == d.table_name,
        r.geometry_column == d.geometry_column,
        r.geometry_type == d.geometry_type,
        r.srid == d.srid,
        r.feature_count == d.feature_count,
        r.bounds == d.bounds,
        r.columns == d.columns,
{
    law_geometry_label_round_trip(d.geometry_type);
}

/// A map's metadata row, keyed by the hyphenated text of its id, is restored under
/// that id.
pub proof fn law_map_key_round_trip(id: u128, map_id: u128, r: u128)
    requires
        restored_key(r, id_text(id), map_id),
    ensures
        r == id,
{
}

/// Consecutive chunk queries of the Arrow export leave no gap and overlap nothing:
/// after a full chunk the next query starts where the previous one's range ended, and
/// the end of the window (offset plus what may still be returned) stays where it was.
pub proof fn law_chunks_cover_window(c: ChunkCursor)
    requires
        chunk_limit(c) is Some,
        c.offset + chunk_limit(c)->0 <= i64::MAX,
        c.rows + chunk_limit(c)->0 <= u64::MAX,
    ensures
        chunk_after(c, chunk_limit(c)->0 as u64).offset == c.offset + chunk_limit(c)->0,
        chunk_after(c, chunk_limit(c)->0 as u64).offset + chunk_after(c, chunk_limit(c)->0 as u64).remaining
            == c.offset + c.remaining,
{
}

proof fn lemma_ends_with_concat(a: Seq<char>, b: Seq<char>)
    ensures
        ends_with(a + b, b),
{
    assert((a + b).subrange((a + b).len() - b.len(), (a + b).len() as int) =~= b);
}

proof fn lemma_starts_with_concat(a: Seq<char>, b: Seq<char>)
    ensures
        starts_with(a + b, a),
{
    assert((a + b).subrange(0, a.len() as int) =~= a);
}

proof fn lemma_geojson_query_tail(
    geometry: Seq<char>,
    quoted: Seq<Seq<char>>,
    table: Seq<char>,
    filter: Seq<char>,
    limit: Option<i64>,
    offset: Option<i64>,
)
    ensures
        starts_with(
            geojson_query(geometry, quoted, table, filter, limit, offset),
            "SELECT ST_AsGeoJSON("@ + geometry + ")"@,
        ),
        ends_with(
            geojson_query(geometry, quoted, table, filter, limit, offset),
            optional_clause(" OFFSET "@, offset),
        ),
        ends_with(
            geojson_query(geometry, quoted, table, filter, limit, offset),
            optional_clause(" LIMIT "@, limit) + optional_clause(" OFFSET "@, offset),
        ),
        ends_with(
            geojson_query(geometry, quoted, table, filter, limit, offset),
            " FROM "@ + table + filter + optional_clause(" LIMIT "@, limit) + optional_clause(
                " OFFSET "@,
                offset,
            ),
        ),
{
    let head = "SELECT ST_AsGeoJSON("@ + geometry + ")"@;
    let cols = geojson_columns(quoted);
    let from = " FROM "@ + table + filter;
    let lc = optional_clause(" LIMIT "@, limit);
    let oc = optional_clause(" OFFSET "@, offset);
    let q = geojson_query(geometry, quoted, table, filter, limit, offset);
    assert(q =~= head + (cols + from + lc + oc));
    lemma_starts_with_concat(head, cols + from + lc + oc);
    assert(q =~= (head + cols + from + lc) + oc);
    lemma_ends_with_concat(head + cols + from + lc, oc);
    assert(q =~= (head + cols + from) + (lc + oc));
    lemma_ends_with_concat(head + cols + from, lc + oc);
    assert(q =~= (head + cols) + (from + lc + oc));
    lemma_ends_with_concat(head + cols, from + lc + oc);
}

/// The GeoJSON export query pages as asked: it selects the geometry as GeoJSON; it
/// ends with the offset clause whenever an offset is given, whether or not a limit
/// is; with both it ends with the limit clause and then the offset clause; with a
/// limit alone it ends with the limit clause; with neither it ends with the table
/// and the filter.
pub proof fn law_geojson_query_pages(
    geometry: Seq<char>,
    quoted: Seq<Seq<char>>,
    table: Seq<char>,
    filter: Seq<char>,
    limit: Option<i64>,
    l: i64,
    o: i64,
)
    ensures
        starts_with(
            geojson_query(geometry, quoted, table, filter, limit, Some(o)),
            "SELECT ST_AsGeoJSON("@ + geometry + ")"@,
        ),
        ends_with(
            geojson_query(geometry, quoted, table, filter, limit, Some(o)),
            " OFFSET "@ + signed_decimal(o as int),
        ),
        ends_with(
            geojson_query(geometry, quoted, table, filter, Some(l), Some(o)),
            " LIMIT "@ + signed_decimal(l as int) + " OFFSET "@ + signed_decimal(o as int),
        ),
        ends_with(
            geojson_query(geometry, quoted, table, filter, Some(l), None),
            " LIMIT "@ + signed_decimal(l as int),
        ),
        ends_with(geojson_query(geometry, quoted, table, filter, None, None), " FROM "@ + table + filter),
{
    lemma_geojson_query_tail(geometry, quoted, table, filter, limit, Some(o));
    lemma_geojson_query_tail(geometry, quoted, table, filter, Some(l), Some(o));
    lemma_geojson_query_tail(geometry, quoted, table, filter, Some(l), None);
    lemma_geojson_query_tail(geometry, quoted, table, filter, None, None);
    assert(optional_clause(" LIMIT "@, Some(l)) + optional_clause(" OFFSET "@, Some(o)) =~= " LIMIT "@
        + signed_decimal(l as int) + " OFFSET "@ + signed_decimal(o as int));
    assert(optional_clause(" LIMIT "@, Some(l)) + optional_clause(" OFFSET "@, None) =~= " LIMIT "@
        + signed_decimal(l as int));
    assert(" FROM "@ + table + filter + optional_clause(" LIMIT "@, None) + optional_clause(
        " OFFSET "@,
        None,
    ) =~= " FROM "@ + table + filter);
}

/// Every chunk query of the Arrow export ends with its limit and then its offset.
pub proof fn law_arrow_chunk_query_pages(
    columns: Seq<char>,
    geometry: Seq<char>,
    table: Seq<char>,
    filter: Seq<char>,
    limit: i64,
    offset: i64,
)
    ensures
        ends_with(
            arrow_chunk_query(columns, geometry, table, filter, limit, offset),
            " LIMIT "@ + signed_decimal(limit as int) + " OFFSET "@ + signed_decimal(offset as int),
        ),
{
    let tail = " LIMIT "@ + signed_decimal(limit as int) + " OFFSET "@ + signed_decimal(offset as int);
    let head = "SELECT "@ + columns + "ST_AsWKB("@ + geometry + ") as geometry FROM "@ + table + filter;
    assert(arrow_chunk_query(columns, geometry, table, filter, limit, offset) =~= head + tail);
    lemma_ends_with_concat(head, tail);
}

/// A map update replaces exactly the fields it is given: each field given becomes
/// the stored one (a description given is set), each field not given keeps its old
/// value, and the id and creation time never change.
pub proof fn law_update_replaces_given_fields<V, L>(
    old: MapConfig<V, L>,
    new: MapConfig<V, L>,
    name: Option<String>,
    description: Option<String>,
    basemap: Option<String>,
    view: Option<V>,
    layers: Option<Vec<L>>,
)
    requires
        map_updated(old, new, name, description, basemap, view, layers),
    ensures
        new.id == old.id,
        new.created_at == old.created_at,
        name matches Some(n) ==> new.name == n,
        name is None ==> new.name == old.name,
        description matches Some(d) ==> new.description == Some(d),
        description is None ==> new.description == old.description,
        basemap matches Some(b) ==> new.basemap == b,
        basemap is None ==> new.basemap == old.basemap,
        view matches Some(v) ==> new.view == v,
        view is None ==> new.view == old.view,
        layers matches Some(l) ==> new.layers == l,
        layers is None ==> new.layers == old.layers,
{
}

/// A name is an identifier exactly when it has 1 to 128 characters, each an ASCII
/// letter of either case, an ASCII digit, `_` or `.`.
pub proof fn law_identifier_alphabet(name: Seq<char>)
    ensures
        is_identifier(name) <==> (1 <= name.len() <= 128 && forall|i: int|
            0 <= i < name.len() ==> ('a' <= #[trigger] name[i] <= 'z') || ('A' <= name[i] <= 'Z')
                || ('0' <= name[i] <= '9') || name[i] == '_' || name[i] == '.'),
{
    let set_ok = forall|i: int|
        0 <= i < name.len() ==> ('a' <= #[trigger] name[i] <= 'z') || ('A' <= name[i] <= 'Z')
            || ('0' <= name[i] <= '9') || name[i] == '_' || name[i] == '.';
    if set_ok || all_ident_chars(name) {
        assert(all_ident_chars(name) <==> set_ok) by {
            assert forall|i: int| 0 <= i < name.len() implies (crate::ident::is_ident_char(name[i])
                <==> (('a' <= #[trigger] name[i] <= 'z') || ('A' <= name[i] <= 'Z') || ('0' <= name[i]
                <= '9') || name[i] == '_' || name[i] == '.')) by {}
        }
        assert(is_ascii_chars(name));
        vstd::utf8::is_ascii_chars_encode_utf8(name);
    }
}

/// A chunk that passes the check lies inside its upload: every field is present and
/// its index is below the number of chunks; with every field present, an index at or
/// past the number of chunks is refused with the message that names both.
pub proof fn law_checked_chunk_inside_upload(
    session_id: Option<Seq<char>>,
    chunk_index: Option<u32>,
    total_chunks: Option<u32>,
    has_file_name: bool,
    has_data: bool,
    sid: Seq<char>,
    i: u32,
    t: u32,
)
    ensures
        chunk_fault(session_id, chunk_index, total_chunks, has_file_name, has_data) is None ==> (
        session_id is Some && has_file_name && has_data && chunk_index is Some && total_chunks is Some
            && chunk_index->0 < total_chunks->0),
        i >= t ==> chunk_fault(Some(sid), Some(i), Some(t), true, true) == Some(
            (
                ErrorKind::BadRequest,
                "Invalid chunk_index "@ + decimal(i as nat) + " for total_chunks "@ + decimal(t as nat),
            ),
        ),
{
}

} // verus!

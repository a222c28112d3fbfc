//! Spatial files: which formats are supported, how a file's dataset is named, and
//! the check that keeps loaded paths inside the data directory.

use vstd::prelude::*;
use vstd::utf8::{encode_utf8, decode_utf8, is_char_boundary, encode_utf8_decode_utf8};
use crate::error::{AppError, AppResult, ErrorKind, fault_of};
use crate::text::{ends_with, starts_with, replace_char, chars_of, replace_chars, string_from_chars};
use crate::unicode::{lowercase, to_lowercase};

verus! {

/// The file extensions of the supported spatial formats, in the order they are tried.
pub open spec fn spatial_extensions() -> Seq<Seq<char>> {
    seq![".parquet"@, ".geoparquet"@, ".gpkg"@, ".shp"@, ".geojson"@, ".json"@, ".kml"@]
}

/// The index of the first supported extension that `lower` ends with, searching from `k`.
pub open spec fn first_extension_from(lower: Seq<char>, k: int) -> Option<int>
    decreases 7 - k,
{
    if k < 0 || k >= 7 {
        None
    } else if ends_with(lower, spatial_extensions()[k]) {
        Some(k)
    } else {
        first_extension_from(lower, k + 1)
    }
}

/// The index of the first supported extension that `lower` ends with.
pub open spec fn first_extension(lower: Seq<char>) -> Option<int> {
    first_extension_from(lower, 0)
}

/// The byte offset at which the matched extension starts, counted in the original name.
pub open spec fn extension_cut(name: Seq<char>, k: int) -> int {
    encode_utf8(name).len() - spatial_extensions()[k].len()
}

/// Cutting the matched extension's length off the end of `name` lands on a
/// character boundary (the length is taken from the lower-cased name, the cut is
/// made in the original one).
pub open spec fn extension_cut_ok(name: Seq<char>, lower: Seq<char>) -> bool {
    match first_extension(lower) {
        None => true,
        Some(k) => extension_cut(name, k) >= 0 && is_char_boundary(
            encode_utf8(name),
            extension_cut(name, k),
        ),
    }
}

/// `name` without the supported extension that its lower-cased form `lower` ends
/// with, or `name` itself when there is none.
pub open spec fn without_extension(name: Seq<char>, lower: Seq<char>) -> Seq<char> {
    match first_extension(lower) {
        None => name,
        Some(k) => decode_utf8(encode_utf8(name).take(extension_cut(name, k))),
    }
}

/// The format label of a file whose lower-cased name is `lower`.
pub open spec fn format_label(lower: Seq<char>) -> Seq<char> {
    if ends_with(lower, ".parquet"@) || ends_with(lower, ".geoparquet"@) {
        "GeoParquet"@
    } else if ends_with(lower, ".gpkg"@) {
        "GeoPackage"@
    } else if ends_with(lower, ".shp"@) {
        "Shapefile"@
    } else if ends_with(lower, ".geojson"@) || ends_with(lower, ".json"@) {
        "GeoJSON"@
    } else if ends_with(lower, ".kml"@) {
        "KML"@
    } else {
        "Unknown"@
    }
}

/// The DuckDB table function that reads a spatial file.
#[derive(Debug, Clone, Copy, PartialEq, Eq, Structural)]
pub enum SpatialReader {
    /// `read_parquet`, for GeoParquet files.
    Parquet,
    /// `ST_Read`, for the formats that GDAL reads.
    Gdal,
}

/// The reader for a file whose lower-cased name is `lower`, if its format is supported.
pub open spec fn reader_of(lower: Seq<char>) -> Option<SpatialReader> {
    if ends_with(lower, ".parquet"@) || ends_with(lower, ".geoparquet"@) {
        Some(SpatialReader::Parquet)
    } else if ends_with(lower, ".gpkg"@) || ends_with(lower, ".shp"@) || ends_with(
        lower,
        ".geojson"@,
    ) || ends_with(lower, ".json"@) || ends_with(lower, ".kml"@) {
        Some(SpatialReader::Gdal)
    } else {
        None
    }
}

/// The message for a file of an unsupported format.
pub open spec fn unsupported_format_message() -> Seq<char> {
    "Unsupported file format. Supported: .parquet, .geoparquet, .gpkg, .shp, .geojson, .json, .kml"@
}

/// The name of the table function of a reader.
pub open spec fn reader_function(r: SpatialReader) -> Seq<char> {
    match r {
        SpatialReader::Parquet => "read_parquet"@,
        SpatialReader::Gdal => "ST_Read"@,
    }
}

impl SpatialReader {
    /// The name of the DuckDB table function.
    pub fn function_name(&self) -> (s: &'static str)
        ensures
            s@ == reader_function(*self),
    {
        match self {
            SpatialReader::Parquet => "read_parquet",
            SpatialReader::Gdal => "ST_Read",
        }
    }
}

/// Whether the characters `v` end with the characters of `suffix`.
pub fn ends_with_str(v: &Vec<char>, suffix: &str) -> (b: bool)
    ensures
        b == ends_with(v@, suffix@),
{
    let s = chars_of(suffix);
    if s.len() > v.len() {
        return false;
    }
    let start = v.len() - s.len();
    let mut i: usize = 0;
    while i < s.len()
        invariant
            i <= s.len(),
            s@ == suffix@,
            start == v.len() - s.len(),
            forall|j: int| 0 <= j < i ==> v@[start + j] == s@[j],
        decreases s.len() - i,
    {
        if v[start + i] != s[i] {
            assert(v@.subrange(start as int, v.len() as int)[i as int] != suffix@[i as int]);
            return false;
        }
        i = i + 1;
    }
    assert(v@.subrange(start as int, v.len() as int) =~= suffix@);
    true
}

fn first_extension_exec(lower: &Vec<char>) -> (r: Option<usize>)
    ensures
        match r {
            None => first_extension(lower@) is None,
            Some(k) => first_extension(lower@) == Some(k as int) && k < 7,
        },
{
    reveal_with_fuel(first_extension_from, 8);
    if ends_with_str(lower, ".parquet") {
        Some(0)
    } else if ends_with_str(lower, ".geoparquet") {
        Some(1)
    } else if ends_with_str(lower, ".gpkg") {
        Some(2)
    } else if ends_with_str(lower, ".shp") {
        Some(3)
    } else if ends_with_str(lower, ".geojson") {
        Some(4)
    } else if ends_with_str(lower, ".json") {
        Some(5)
    } else if ends_with_str(lower, ".kml") {
        Some(6)
    } else {
        None
    }
}

fn extension_len(k: usize) -> (n: usize)
    requires
        k < 7,
    ensures
        n == spatial_extensions()[k as int].len(),
{
    proof {
        reveal_strlit(".parquet");
        reveal_strlit(".geoparquet");
        reveal_strlit(".gpkg");
        reveal_strlit(".shp");
        reveal_strlit(".geojson");
        reveal_strlit(".json");
        reveal_strlit(".kml");
    }
    if k == 0 {
        8
    } else if k == 1 {
        11
    } else if k == 2 {
        5
    } else if k == 3 {
        4
    } else if k == 4 {
        8
    } else if k == 5 {
        5
    } else {
        4
    }
}

fn cut_at(name: &str, k: usize) -> (r: Option<usize>)
    requires
        k < 7,
    ensures
        match r {
            Some(c) => c == extension_cut(name@, k as int) && extension_cut(name@, k as int) >= 0
                && is_char_boundary(encode_utf8(name@), c as int),
            None => !(extension_cut(name@, k as int) >= 0 && is_char_boundary(
                encode_utf8(name@),
                extension_cut(name@, k as int),
            )),
        },
{
    let n = name.as_bytes().len();
    let e = extension_len(k);
    if n < e {
        return None;
    }
    let c = n - e;
    if name.is_char_boundary(c) {
        Some(c)
    } else {
        None
    }
}

/// `filename` without the supported extension that `lower`, its lower-cased form,
/// ends with; the cut is made by byte length in `filename`.
pub fn strip_spatial_extension(filename: &str, lower: &str) -> (r: String)
    requires
        extension_cut_ok(filename@, lower@),
    ensures
        r@ == without_extension(filename@, lower@),
{
    let lv = chars_of(lower);
    match first_extension_exec(&lv) {
        None => String::from_str(filename),
        Some(k) => {
            let c = cut_at(filename, k);
            match c {
                None => {
                    assert(false);
                    String::from_str(filename)
                },
                Some(c) => {
                    let (head, _) = filename.split_at(c);
                    proof {
                        encode_utf8_decode_utf8(head@);
                        assert(encode_utf8(filename@).take(c as int) =~= encode_utf8(
                            filename@,
                        ).subrange(0, c as int));
                    }
                    head.to_owned()
                },
            }
        },
    }
}

/// The dataset name for an uploaded file: the file name without its spatial
/// extension, matched case-insensitively.
pub fn remove_spatial_extension(filename: &str) -> (r: String)
    requires
        extension_cut_ok(filename@, lowercase(filename@)),
    ensures
        r@ == without_extension(filename@, lowercase(filename@)),
{
    let lower = to_lowercase(filename);
    strip_spatial_extension(filename, lower.as_str())
}

/// Like `remove_spatial_extension`, but `None` for the names on which cutting the
/// extension's length would split a character.
pub fn try_remove_spatial_extension(filename: &str) -> (r: Option<String>)
    ensures
        r is Some <==> extension_cut_ok(filename@, lowercase(filename@)),
        r matches Some(s) ==> s@ == without_extension(filename@, lowercase(filename@)),
{
    let lower = to_lowercase(filename);
    let lv = chars_of(lower.as_str());
    match first_extension_exec(&lv) {
        None => Some(remove_spatial_extension(filename)),
        Some(k) => match cut_at(filename, k) {
            None => None,
            Some(_) => Some(remove_spatial_extension(filename)),
        },
    }
}

/// A human-readable name of a file's format.
pub fn get_format_name(filename: &str) -> (s: &'static str)
    ensures
        s@ == format_label(lowercase(filename@)),
{
    let lower = to_lowercase(filename);
    let lv = chars_of(lower.as_str());
    if ends_with_str(&lv, ".parquet") || ends_with_str(&lv, ".geoparquet") {
        "GeoParquet"
    } else if ends_with_str(&lv, ".gpkg") {
        "GeoPackage"
    } else if ends_with_str(&lv, ".shp") {
        "Shapefile"
    } else if ends_with_str(&lv, ".geojson") || ends_with_str(&lv, ".json") {
        "GeoJSON"
    } else if ends_with_str(&lv, ".kml") {
        "KML"
    } else {
        "Unknown"
    }
}

/// The reader for a spatial file, chosen by its extension; other formats are refused.
pub fn choose_reader(file_path: &str) -> (r: AppResult<SpatialReader>)
    ensures
        match r {
            Ok(rd) => reader_of(lowercase(file_path@)) == Some(rd),
            Err(e) => reader_of(lowercase(file_path@)) is None && e@ == (
                ErrorKind::BadRequest,
                unsupported_format_message(),
            ),
        },
{
    let lower = to_lowercase(file_path);
    let lv = chars_of(lower.as_str());
    if ends_with_str(&lv, ".parquet") || ends_with_str(&lv, ".geoparquet") {
        Ok(SpatialReader::Parquet)
    } else if ends_with_str(&lv, ".gpkg") || ends_with_str(&lv, ".shp") || ends_with_str(
        &lv,
        ".geojson",
    ) || ends_with_str(&lv, ".json") || ends_with_str(&lv, ".kml") {
        Ok(SpatialReader::Gdal)
    } else {
        Err(
            AppError::BadRequest(
                String::from_str(
                    "Unsupported file format. Supported: .parquet, .geoparquet, .gpkg, .shp, .geojson, .json, .kml",
                ),
            ),
        )
    }
}

/// What `Path::starts_with` yields for two paths given as text: whether `base` is a
/// prefix of `path` component by component. Components are split by the path syntax
/// of the platform the library is built for (`/` on Unix; `\` and `/`, with drive
/// and UNC prefixes, on Windows), so the result is that platform's.
pub uninterp spec fn path_within(path: Seq<char>, base: Seq<char>) -> bool;

/// Calls `std::path::Path::new(path).starts_with(base)`. Claimed: the result is the
/// named component-wise prefix test of the two paths.
#[verifier::external_body]
fn path_starts_with(path: &str, base: &str) -> (b: bool)
    ensures
        b == path_within(path@, base@),
{
    std::path::Path::new(path).starts_with(base)
}

/// The Windows extended-length path prefix `\\?\`.
pub open spec fn verbatim_prefix() -> Seq<char> {
    seq!['\\', '\\', '?', '\\']
}

/// A canonical path made ready for an SQL string literal: the extended-length prefix
/// dropped, backslashes turned into slashes and single quotes doubled.
pub open spec fn sql_ready_path(canonical: Seq<char>) -> Seq<char> {
    let p = if starts_with(canonical, verbatim_prefix()) {
        canonical.skip(4)
    } else {
        canonical
    };
    replace_char(replace_char(p, '\\', seq!['/']), '\'', seq!['\'', '\''])
}

/// The error, if any, that checking a file path reports, given the outcome of
/// canonicalizing the file path and the data directory (the canonical path or the
/// text of the failure).
pub open spec fn file_path_fault(
    file_path: Seq<char>,
    canonical: Result<Seq<char>, Seq<char>>,
    data_dir: Result<Seq<char>, Seq<char>>,
) -> Option<(ErrorKind, Seq<char>)> {
    match canonical {
        Err(e) => Some((ErrorKind::BadRequest, "Invalid file path '"@ + file_path + "': "@ + e)),
        Ok(c) => match data_dir {
            Err(e) => Some((ErrorKind::Internal, "Cannot resolve data directory: "@ + e)),
            Ok(d) => if !path_within(c, d) {
                Some(
                    (
                        ErrorKind::BadRequest,
                        "File path '"@ + file_path + "' is outside the allowed data directory"@,
                    ),
                )
            } else {
                None
            },
        },
    }
}

/// The views of a text result.
pub open spec fn text_result(r: Result<String, String>) -> Result<Seq<char>, Seq<char>> {
    match r {
        Ok(s) => Ok(s@),
        Err(e) => Err(e@),
    }
}

/// Checks that a file lies inside the data directory and makes its canonical path
/// ready for an SQL string literal. `canonical` and `data_dir` are the outcomes of
/// canonicalizing the file path and the data directory: the path, or the text of the
/// failure.
pub fn validate_file_path(
    file_path: &str,
    canonical: Result<String, String>,
    data_dir: Result<String, String>,
) -> (r: AppResult<String>)
    ensures
        fault_of(r) == file_path_fault(file_path@, text_result(canonical), text_result(data_dir)),
        r matches Ok(p) ==> canonical matches Ok(c) && p@ == sql_ready_path(c@),
{
    let c = match canonical {
        Err(e) => {
            let mut m = String::from_str("Invalid file path '");
            m.append(file_path);
            m.append("': ");
            m.append(e.as_str());
            assert(m@ =~= "Invalid file path '"@ + file_path@ + "': "@ + e@);
            return Err(AppError::BadRequest(m));
        },
        Ok(c) => c,
    };
    let d = match data_dir {
        Err(e) => {
            let mut m = String::from_str("Cannot resolve data directory: ");
            m.append(e.as_str());
            return Err(AppError::Internal(m));
        },
        Ok(d) => d,
    };
    if !path_starts_with(c.as_str(), d.as_str()) {
        let mut m = String::from_str("File path '");
        m.append(file_path);
        m.append("' is outside the allowed data directory");
        assert(m@ =~= "File path '"@ + file_path@ + "' is outside the allowed data directory"@);
        return Err(AppError::BadRequest(m));
    }
    let cv = chars_of(c.as_str());
    let is_verbatim = cv.len() >= 4 && cv[0] == '\\' && cv[1] == '\\' && cv[2] == '?' && cv[3]
        == '\\';
    let mut p: Vec<char> = Vec::new();
    let start: usize = if is_verbatim {
        4
    } else {
        0
    };
    let mut i: usize = start;
    while i < cv.len()
        invariant
            start <= i <= cv.len(),
            p@ == cv@.subrange(start as int, i as int),
        decreases cv.len() - i,
    {
        p.push(cv[i]);
        i = i + 1;
        assert(p@ =~= cv@.subrange(start as int, i as int));
    }
    proof {
        if is_verbatim {
            assert(cv@.subrange(0, 4) =~= verbatim_prefix());
            assert(p@ =~= c@.skip(4));
        } else {
            assert(!starts_with(c@, verbatim_prefix()) || cv@.subrange(0, 4) =~= verbatim_prefix());
            assert(p@ =~= c@);
        }
    }
    let slashed = replace_chars(&p, '\\', "/");
    let quoted = replace_chars(&slashed, '\'', "''");
    proof {
        reveal_strlit("/");
        reveal_strlit("''");
        assert(("/"@) =~= seq!['/']);
        assert(("''"@) =~= seq!['\'', '\'']);
    }
    Ok(string_from_chars(&quoted))
}

} // verus!

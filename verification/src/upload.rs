//! Uploads: the checks on a chunk of a chunked upload, the names of the stored
//! chunks, when an upload is complete, and the checks on SQL requests.

use vstd::prelude::*;
use vstd::utf8::encode_utf8;
use crate::error::{AppError, AppResult, ErrorKind, fault_of};
use crate::text::{chars_of, decimal, u64_text, push_char, all_digits, digits_value};
use crate::unicode::{is_alphanumeric, unicode_alphanumeric, trim, trimmed};

verus! {

/// What `str::parse::<u32>` yields for a text: an optional `+`, then one or more
/// ASCII digits whose value fits in 32 bits, read as that value; anything else
/// (an empty text, a sign alone, a `-`, white space, any other character, a value
/// of 2^32 or more) is refused.
pub open spec fn parsed_u32(s: Seq<char>) -> Option<u32> {
    let d = if s.len() > 0 && s[0] == '+' {
        s.drop_first()
    } else {
        s
    };
    if d.len() > 0 && all_digits(d) && digits_value(d) <= u32::MAX {
        Some(digits_value(d) as u32)
    } else {
        None
    }
}

/// Calls `str::parse::<u32>`. Claimed: the result is `parsed_u32` of the text, as the
/// documentation of `u32::from_str` describes the accepted texts.
#[verifier::external_body]
fn parse_u32(s: &str) -> (r: Option<u32>)
    ensures
        r == parsed_u32(s@),
{
    match s.parse::<u32>() {
        Ok(v) => Some(v),
        Err(_) => None,
    }
}

/// Reads the `chunk_index` field of a chunk upload.
pub fn parse_chunk_index(text: &str) -> (r: AppResult<u32>)
    ensures
        match r {
            Ok(v) => parsed_u32(text@) == Some(v),
            Err(e) => parsed_u32(text@) is None && e@ == (ErrorKind::BadRequest, "Invalid chunk_index"@),
        },
{
    match parse_u32(text) {
        Some(v) => Ok(v),
        None => Err(AppError::BadRequest(String::from_str("Invalid chunk_index"))),
    }
}

/// Reads the `total_chunks` field of a chunk upload.
pub fn parse_total_chunks(text: &str) -> (r: AppResult<u32>)
    ensures
        match r {
            Ok(v) => parsed_u32(text@) == Some(v),
            Err(e) => parsed_u32(text@) is None && e@ == (ErrorKind::BadRequest, "Invalid total_chunks"@),
        },
{
    match parse_u32(text) {
        Some(v) => Ok(v),
        None => Err(AppError::BadRequest(String::from_str("Invalid total_chunks"))),
    }
}

/// A checked chunk of a chunked upload.
#[derive(Debug, Clone)]
pub struct ChunkUpload {
    pub session_id: String,
    pub chunk_index: u32,
    pub total_chunks: u32,
    pub file_name: String,
    pub data: Vec<u8>,
}

/// A session id may name a directory: at most 64 bytes of letters, digits, `-` and `_`.
pub open spec fn valid_session_id(s: Seq<char>) -> bool {
    encode_utf8(s).len() <= 64 && forall|i: int|
        0 <= i < s.len() ==> unicode_alphanumeric(#[trigger] s[i]) || s[i] == '-' || s[i] == '_'
}

/// The error, if any, of a chunk upload's fields: the first missing field, then an
/// index outside `0..total_chunks`, then an invalid session id.
pub open spec fn chunk_fault(
    session_id: Option<Seq<char>>,
    chunk_index: Option<u32>,
    total_chunks: Option<u32>,
    has_file_name: bool,
    has_data: bool,
) -> Option<(ErrorKind, Seq<char>)> {
    if session_id is None {
        Some((ErrorKind::BadRequest, "Missing session_id"@))
    } else if chunk_index is None {
        Some((ErrorKind::BadRequest, "Missing chunk_index"@))
    } else if total_chunks is None {
        Some((ErrorKind::BadRequest, "Missing total_chunks"@))
    } else if !has_file_name {
        Some((ErrorKind::BadRequest, "Missing filename"@))
    } else if !has_data {
        Some((ErrorKind::BadRequest, "Missing data"@))
    } else if total_chunks->0 == 0 || chunk_index->0 >= total_chunks->0 {
        Some(
            (
                ErrorKind::BadRequest,
                "Invalid chunk_index "@ + decimal(chunk_index->0 as nat) + " for total_chunks "@
                    + decimal(total_chunks->0 as nat),
            ),
        )
    } else if !valid_session_id(session_id->0) {
        Some((ErrorKind::BadRequest, "Invalid session_id"@))
    } else {
        None
    }
}

fn missing(what: &str) -> (e: AppError)
    ensures
        e@ == (ErrorKind::BadRequest, what@),
{
    AppError::BadRequest(String::from_str(what))
}

/// Checks the fields of a chunk upload.
pub fn check_chunk(
    session_id: Option<String>,
    chunk_index: Option<u32>,
    total_chunks: Option<u32>,
    file_name: Option<String>,
    data: Option<Vec<u8>>,
) -> (r: AppResult<ChunkUpload>)
    ensures
        fault_of(r) == chunk_fault(
            match session_id {
                Some(s) => Some(s@),
                None => None,
            },
            chunk_index,
            total_chunks,
            file_name is Some,
            data is Some,
        ),
        r matches Ok(c) ==> session_id == Some(c.session_id) && chunk_index == Some(c.chunk_index)
            && total_chunks == Some(c.total_chunks) && file_name == Some(c.file_name) && data
            == Some(c.data),
{
    let session_id = match session_id {
        Some(s) => s,
        None => {
            return Err(missing("Missing session_id"));
        },
    };
    let chunk_index = match chunk_index {
        Some(v) => v,
        None => {
            return Err(missing("Missing chunk_index"));
        },
    };
    let total_chunks = match total_chunks {
        Some(v) => v,
        None => {
            return Err(missing("Missing total_chunks"));
        },
    };
    let file_name = match file_name {
        Some(v) => v,
        None => {
            return Err(missing("Missing filename"));
        },
    };
    let data = match data {
        Some(v) => v,
        None => {
            return Err(missing("Missing data"));
        },
    };
    if total_chunks == 0 || chunk_index >= total_chunks {
        let mut m = String::from_str("Invalid chunk_index ");
        let a = u64_text(chunk_index as u64);
        m.append(a.as_str());
        m.append(" for total_chunks ");
        let b = u64_text(total_chunks as u64);
        m.append(b.as_str());
        return Err(AppError::BadRequest(m));
    }
    let too_long = session_id.as_str().as_bytes().len() > 64;
    let cs = chars_of(session_id.as_str());
    let mut ok = true;
    let mut i: usize = 0;
    while i < cs.len()
        invariant
            i <= cs.len(),
            ok == (forall|j: int|
                0 <= j < i ==> unicode_alphanumeric(#[trigger] cs@[j]) || cs@[j] == '-' || cs@[j]
                    == '_'),
        decreases cs.len() - i,
    {
        let c = cs[i];
        if !(is_alphanumeric(c) || c == '-' || c == '_') {
            ok = false;
        }
        i = i + 1;
    }
    if too_long || !ok {
        return Err(missing("Invalid session_id"));
    }
    Ok(ChunkUpload { session_id, chunk_index, total_chunks, file_name, data })
}

/// `s` padded on the left with zeros to at least `width` characters.
pub open spec fn zero_padded(s: Seq<char>, width: nat) -> Seq<char> {
    if s.len() < width {
        Seq::new((width - s.len()) as nat, |i: int| '0') + s
    } else {
        s
    }
}

/// The file name under which a chunk is stored: its index in decimal, zero-padded to
/// eight digits, so that the names of indices below 10^8 sort in chunk order.
pub fn chunk_file_name(index: u32) -> (s: String)
    ensures
        s@ == zero_padded(decimal(index as nat), 8),
{
    let digits = u64_text(index as u64);
    let n = digits.as_str().unicode_len();
    let mut s = String::new();
    if n < 8 {
        let mut k: usize = 0;
        while k < 8 - n
            invariant
                k <= 8 - n,
                n < 8,
                s@ == Seq::new(k as nat, |i: int| '0'),
            decreases 8 - n - k,
        {
            push_char(&mut s, '0');
            k = k + 1;
            assert(s@ =~= Seq::new(k as nat, |i: int| '0'));
        }
    }
    s.append(digits.as_str());
    assert(s@ =~= zero_padded(decimal(index as nat), 8));
    s
}

/// An upload is complete once as many chunks were received as it has.
pub fn upload_complete(received: u32, total_chunks: u32) -> (b: bool)
    ensures
        b == (received >= total_chunks),
{
    received >= total_chunks
}

/// The uploaded file of a single-file upload: its name (`uploaded.geojson` when the
/// form gave none) and its bytes; refused when no file was sent.
pub fn accept_upload(file: Option<(Option<String>, Vec<u8>)>) -> (r: AppResult<(String, Vec<u8>)>)
    ensures
        match file {
            None => r matches Err(e) && e@ == (ErrorKind::BadRequest, "No file provided"@),
            Some((name, data)) => r matches Ok((n, d)) && d == data && n@ == match name {
                Some(x) => x@,
                None => "uploaded.geojson"@,
            },
        },
{
    match file {
        None => Err(missing("No file provided")),
        Some((name, data)) => {
            let n = match name {
                Some(x) => x,
                None => String::from_str("uploaded.geojson"),
            };
            Ok((n, data))
        },
    }
}

/// Checks the query of an SQL request: it must not be blank.
pub fn check_sql_query(sql: &str) -> (r: AppResult<()>)
    ensures
        r is Ok <==> trimmed(sql@).len() > 0,
        r matches Err(e) ==> e@ == (ErrorKind::BadRequest, "SQL query is required"@),
{
    if trim(sql).is_empty() {
        Err(missing("SQL query is required"))
    } else {
        Ok(())
    }
}

/// Checks a request that creates a dataset from SQL: neither the query nor the name
/// may be blank; the name is returned trimmed.
pub fn check_sql_dataset_request(sql: &str, name: &str) -> (r: AppResult<String>)
    ensures
        match r {
            Ok(n) => trimmed(sql@).len() > 0 && trimmed(name@).len() > 0 && n@ == trimmed(name@),
            Err(e) => if trimmed(sql@).len() == 0 {
                e@ == (ErrorKind::BadRequest, "SQL query is required"@)
            } else {
                trimmed(name@).len() == 0 && e@ == (ErrorKind::BadRequest, "Dataset name is required"@)
            },
        },
{
    check_sql_query(sql)?;
    let t = trim(name);
    if t.is_empty() {
        return Err(missing("Dataset name is required"));
    }
    Ok(t.to_owned())
}

} // verus!

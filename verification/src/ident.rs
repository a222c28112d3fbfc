//! SQL identifiers: the validation that keeps table and column names safe to splice
//! into SQL text, quoting, and the names of the tables that hold datasets.

use vstd::prelude::*;
use vstd::utf8::{encode_utf8, is_ascii_chars, is_ascii_chars_encode_utf8};
use crate::error::{AppError, AppResult, ErrorKind, fault_of};
use crate::ids::{id_text, id_char, hex_char, nibble, id_string};
use crate::text::{replace_char, chars_of, replace_chars, string_from_chars};
use crate::unicode::is_ascii_alnum;

verus! {

/// The longest identifier accepted, in bytes.
pub const MAX_IDENTIFIER_BYTES: usize = 128;

/// Characters allowed in an identifier: ASCII letters and digits, `_` and `.`.
pub open spec fn is_ident_char(c: char) -> bool {
    is_ascii_alnum(c) || c == '_' || c == '.'
}

/// Every character of `s` is allowed in an identifier.
pub open spec fn all_ident_chars(s: Seq<char>) -> bool {
    forall|i: int| 0 <= i < s.len() ==> is_ident_char(#[trigger] s[i])
}

/// The error that validating `name` as an identifier reports, if any: an empty
/// name, a name longer than 128 bytes in UTF-8, or a name with a character other
/// than an ASCII letter or digit, `_` or `.`, checked in that order.
pub open spec fn identifier_fault(name: Seq<char>) -> Option<(ErrorKind, Seq<char>)> {
    if name.len() == 0 {
        Some((ErrorKind::BadRequest, "Empty identifier"@))
    } else if encode_utf8(name).len() > 128 {
        Some((ErrorKind::BadRequest, "Identifier too long"@))
    } else if !all_ident_chars(name) {
        Some(
            (
                ErrorKind::BadRequest,
                "Invalid identifier '"@ + name
                    + "': only alphanumeric, underscore, and dot allowed"@,
            ),
        )
    } else {
        None
    }
}

/// `name` is a valid identifier.
pub open spec fn is_identifier(name: Seq<char>) -> bool {
    identifier_fault(name) is None
}

/// `name` between double quotes.
pub open spec fn quoted(name: Seq<char>) -> Seq<char> {
    seq!['"'] + name + seq!['"']
}

/// `s` with each single quote doubled, as inside an SQL string literal.
pub open spec fn sql_escaped(s: Seq<char>) -> Seq<char> {
    replace_char(s, '\'', seq!['\'', '\''])
}

/// The name of the table that holds the dataset with the given id:
/// `dataset_` followed by the id's text with each hyphen turned into `_`.
pub open spec fn dataset_table(id: u128) -> Seq<char> {
    "dataset_"@ + replace_char(id_text(id), '-', seq!['_'])
}

fn is_ident_char_exec(c: char) -> (b: bool)
    ensures
        b == is_ident_char(c),
{
    ('a' <= c && c <= 'z') || ('A' <= c && c <= 'Z') || ('0' <= c && c <= '9') || c == '_'
        || c == '.'
}

/// Checks that `name` may be used as an SQL identifier: not empty, at most 128
/// bytes, and only ASCII letters, digits, `_` and `.`.
pub fn validate_identifier(name: &str) -> (r: AppResult<()>)
    ensures
        fault_of(r) == identifier_fault(name@),
{
    if name.is_empty() {
        return Err(AppError::BadRequest(String::from_str("Empty identifier")));
    }
    if name.as_bytes().len() > MAX_IDENTIFIER_BYTES {
        return Err(AppError::BadRequest(String::from_str("Identifier too long")));
    }
    let cs = chars_of(name);
    let mut i: usize = 0;
    while i < cs.len()
        invariant
            i <= cs.len(),
            cs@ == name@,
            name@.len() > 0,
            encode_utf8(name@).len() <= 128,
            forall|j: int| 0 <= j < i ==> is_ident_char(#[trigger] cs@[j]),
        decreases cs.len() - i,
    {
        if !is_ident_char_exec(cs[i]) {
            let mut m = String::from_str("Invalid identifier '");
            m.append(name);
            m.append("': only alphanumeric, underscore, and dot allowed");
            assert(!is_ident_char(name@[i as int]));
            assert(!all_ident_chars(name@));
            assert(m@ =~= "Invalid identifier '"@ + name@
                + "': only alphanumeric, underscore, and dot allowed"@);
            return Err(AppError::BadRequest(m));
        }
        i = i + 1;
    }
    assert(all_ident_chars(name@)) by {
        assert forall|j: int| 0 <= j < name@.len() implies is_ident_char(#[trigger] name@[j]) by {
            assert(cs@[j] == name@[j]);
        }
    }
    Ok(())
}

/// Validates `name` as an identifier and puts it between double quotes.
pub fn quote_ident(name: &str) -> (r: AppResult<String>)
    ensures
        match r {
            Ok(q) => is_identifier(name@) && q@ == quoted(name@),
            Err(e) => identifier_fault(name@) == Some(e@),
        },
{
    match validate_identifier(name) {
        Err(e) => Err(e),
        Ok(()) => {
            let mut q = String::from_str("\"");
            q.append(name);
            q.append("\"");
            proof {
                reveal_strlit("\"");
            }
            assert(q@ =~= quoted(name@));
            Ok(q)
        },
    }
}

/// `s` with each single quote doubled, for use inside an SQL string literal.
pub fn sql_escape(s: &str) -> (r: String)
    ensures
        r@ == sql_escaped(s@),
{
    let cs = chars_of(s);
    let out = replace_chars(&cs, '\'', "''");
    proof {
        reveal_strlit("''");
    }
    assert(("''"@) =~= seq!['\'', '\'']);
    string_from_chars(&out)
}

/// The name of the table that holds the dataset with the given id.
pub fn dataset_table_name(id: u128) -> (r: String)
    ensures
        r@ == dataset_table(id),
        is_identifier(r@),
{
    let text = id_string(id);
    let cs = chars_of(text.as_str());
    let out = replace_chars(&cs, '-', "_");
    proof {
        reveal_strlit("_");
    }
    assert(("_"@) =~= seq!['_']);
    let mut r = String::from_str("dataset_");
    let tail = string_from_chars(&out);
    r.append(tail.as_str());
    proof {
        lemma_dataset_table_is_identifier(id);
    }
    r
}

/// Replacing one character by one character keeps the length and changes exactly
/// the positions that held it.
pub proof fn lemma_replace_single(s: Seq<char>, from: char, to: char)
    ensures
        replace_char(s, from, seq![to]).len() == s.len(),
        forall|i: int|
            0 <= i < s.len() ==> #[trigger] replace_char(s, from, seq![to])[i] == if s[i] == from {
                to
            } else {
                s[i]
            },
    decreases s.len(),
{
    if s.len() > 0 {
        lemma_replace_single(s.drop_first(), from, to);
        let head: Seq<char> = if s[0] == from {
            seq![to]
        } else {
            seq![s[0]]
        };
        assert(replace_char(s, from, seq![to]) == head + replace_char(s.drop_first(), from, seq![to]));
    }
}

/// Every hexadecimal digit is an identifier character.
pub proof fn lemma_hex_char_ident(d: int)
    requires
        0 <= d < 16,
    ensures
        is_ident_char(hex_char(d)),
        hex_char(d) != '-',
{
}

/// The table name of every dataset id is a valid identifier, so the SQL built around
/// it can never fail validation.
pub proof fn lemma_dataset_table_is_identifier(id: u128)
    ensures
        is_identifier(dataset_table(id)),
        dataset_table(id).len() == 44,
{
    let t = id_text(id);
    lemma_replace_single(t, '-', '_');
    let r = replace_char(t, '-', seq!['_']);
    assert forall|p: int| 0 <= p < 36 implies is_ident_char(#[trigger] r[p]) by {
        if t[p] != '-' {
            let j = if p < 8 {
                p
            } else if p < 13 {
                p - 1
            } else if p < 18 {
                p - 2
            } else if p < 23 {
                p - 3
            } else {
                p - 4
            };
            vstd::arithmetic::power::lemma_pow_positive(16, (31 - j) as nat);
            assert(0 <= nibble(id, j) < 16);
            lemma_hex_char_ident(nibble(id, j));
            assert(t[p] == id_char(id, p));
        }
    }
    reveal_strlit("dataset_");
    let full = dataset_table(id);
    assert(full.len() == 44);
    assert forall|i: int| 0 <= i < full.len() implies is_ident_char(#[trigger] full[i]) by {
        if i >= 8 {
            assert(full[i] == r[i - 8]);
        }
    }
    assert(is_ascii_chars(full)) by {
        assert forall|i: int| 0 <= i < full.len() implies '\0' <= #[trigger] full[i] <= '\u{7f}' by {
            assert(is_ident_char(full[i]));
        }
    }
    is_ascii_chars_encode_utf8(full);
}

/// An identifier is exactly a name of 1 to 128 ASCII letters, digits, `_` and `.`.
pub proof fn lemma_identifier_shape(name: Seq<char>)
    ensures
        is_identifier(name) <==> (1 <= name.len() <= 128 && all_ident_chars(name)),
{
    if all_ident_chars(name) {
        assert(is_ascii_chars(name)) by {
            assert forall|i: int| 0 <= i < name.len() implies '\0' <= #[trigger] name[i]
                <= '\u{7f}' by {
                assert(is_ident_char(name[i]));
            }
        }
        is_ascii_chars_encode_utf8(name);
    }
}

} // verus!

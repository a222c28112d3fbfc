//! Identifiers and instants: the textual form of dataset and map ids, fresh ids,
//! and the wall clock.

use vstd::prelude::*;
use crate::geojson::hex_value;
use crate::unicode::ascii_upper;

verus! {

/// The lower-case hexadecimal digit for a value below sixteen.
pub open spec fn hex_char(d: int) -> char {
    seq!['0', '1', '2', '3', '4', '5', '6', '7', '8', '9', 'a', 'b', 'c', 'd', 'e', 'f'][d]
}

/// The `j`-th hexadecimal digit of a 128-bit id, the most significant first.
pub open spec fn nibble(id: u128, j: int) -> int {
    (id as int / vstd::arithmetic::power::pow(16, (31 - j) as nat)) % 16
}

/// The character at position `p` of the hyphenated text of an id.
pub open spec fn id_char(id: u128, p: int) -> char {
    if p == 8 || p == 13 || p == 18 || p == 23 {
        '-'
    } else if p < 8 {
        hex_char(nibble(id, p))
    } else if p < 13 {
        hex_char(nibble(id, p - 1))
    } else if p < 18 {
        hex_char(nibble(id, p - 2))
    } else if p < 23 {
        hex_char(nibble(id, p - 3))
    } else {
        hex_char(nibble(id, p - 4))
    }
}

/// The hyphenated lower-case text of an id, such as
/// `a1a2a3a4-b1b2-c1c2-d1d2-d3d4d5d6d7d8`: 32 hexadecimal digits of the id, the
/// most significant first, in groups of 8, 4, 4, 4 and 12.
pub open spec fn id_text(id: u128) -> Seq<char> {
    Seq::new(36, |p: int| id_char(id, p))
}

/// The value of a sequence of hexadecimal digits (either case), the most significant
/// first; `None` when a character is no hexadecimal digit.
pub open spec fn hex_digits_value(t: Seq<char>) -> Option<int>
    decreases t.len(),
{
    if t.len() == 0 {
        Some(0)
    } else {
        match (hex_digits_value(t.drop_last()), hex_value(t.last())) {
            (Some(a), Some(d)) => Some(a * 16 + d),
            _ => None,
        }
    }
}

/// The id written as 36 characters: 32 hexadecimal digits in groups of 8, 4, 4, 4
/// and 12, separated by hyphens.
pub open spec fn hyphenated_value(s: Seq<char>) -> Option<int> {
    if s.len() == 36 && s[8] == '-' && s[13] == '-' && s[18] == '-' && s[23] == '-' {
        hex_digits_value(
            s.subrange(0, 8) + s.subrange(9, 13) + s.subrange(14, 18) + s.subrange(19, 23)
                + s.subrange(24, 36),
        )
    } else {
        None
    }
}

/// What `uuid::Uuid::parse_str` yields for a text, as the id's 128-bit value (the
/// digits read big-endian): 32 hexadecimal digits; the hyphenated form; the
/// hyphenated form between braces; or `urn:uuid:` (in any ASCII case) followed by the
/// hyphenated form. Anything else, any text with a non-ASCII character among them,
/// is refused.
pub open spec fn parsed_id(s: Seq<char>) -> Option<u128> {
    let v = if s.len() == 32 {
        hex_digits_value(s)
    } else if s.len() == 36 {
        hyphenated_value(s)
    } else if s.len() == 38 && s[0] == '{' && s[37] == '}' {
        hyphenated_value(s.subrange(1, 37))
    } else if s.len() == 45 && ascii_upper(s.take(9)) == "URN:UUID:"@ {
        hyphenated_value(s.skip(9))
    } else {
        None
    };
    match v {
        Some(x) => Some(x as u128),
        None => None,
    }
}

/// The first `k` hexadecimal digits of an id, the most significant first.
pub open spec fn id_digits(id: u128, k: nat) -> Seq<char> {
    Seq::new(k, |j: int| hex_char(nibble(id, j)))
}

proof fn lemma_id_digits_value(id: u128, k: nat)
    requires
        k <= 32,
    ensures
        hex_digits_value(id_digits(id, k)) == Some(
            id as int / vstd::arithmetic::power::pow(16, (32 - k) as nat),
        ),
    decreases k,
{
    let x = id as int;
    if k == 0 {
        assert(id_digits(id, 0) =~= seq![]);
        reveal(vstd::arithmetic::power::pow);
        assert(vstd::arithmetic::power::pow(16, 1) == 16) by {
            reveal_with_fuel(vstd::arithmetic::power::pow, 2);
        }
        vstd::arithmetic::power::lemma_pow_positive(16, 32);
        assert(x < 0x1_0000_0000_0000_0000_0000_0000_0000_0000int);
        assert(vstd::arithmetic::power::pow(16, 32) == 0x1_0000_0000_0000_0000_0000_0000_0000_0000int) by {
            reveal_with_fuel(vstd::arithmetic::power::pow, 33);
        }
        vstd::arithmetic::div_mod::lemma_basic_div(x, 0x1_0000_0000_0000_0000_0000_0000_0000_0000int);
        assert(hex_digits_value(id_digits(id, 0)) == Some(0int));
    } else {
        let j = (k - 1) as int;
        lemma_id_digits_value(id, (k - 1) as nat);
        assert(id_digits(id, k).drop_last() =~= id_digits(id, (k - 1) as nat));
        let p = vstd::arithmetic::power::pow(16, (32 - k) as nat);
        vstd::arithmetic::power::lemma_pow_positive(16, (32 - k) as nat);
        assert(vstd::arithmetic::power::pow(16, (33 - k) as nat) == 16 * p) by {
            reveal(vstd::arithmetic::power::pow);
        }
        assert(nibble(id, j) == (x / p) % 16);
        crate::geojson::lemma_hex_char_value((x / p) % 16);
        vstd::arithmetic::div_mod::lemma_div_denominator(x, p, 16);
        vstd::arithmetic::div_mod::lemma_fundamental_div_mod(x / p, 16);
        assert(p * 16 == 16 * p);
        assert((x / p) / 16 * 16 + (x / p) % 16 == x / p);
        assert(id_digits(id, k).last() == hex_char(nibble(id, j)));
        assert(x / (p * 16) == (x / p) / 16);
        assert(hex_digits_value(id_digits(id, (k - 1) as nat)) == Some(x / (16 * p)));
        assert(hex_value(id_digits(id, k).last()) == Some((x / p) % 16));
    }
}

/// The hyphenated text of an id reads back, as `Uuid::parse_str` reads it, as that id.
pub proof fn lemma_id_text_parses(id: u128)
    ensures
        parsed_id(id_text(id)) == Some(id),
{
    let s = id_text(id);
    let h = s.subrange(0, 8) + s.subrange(9, 13) + s.subrange(14, 18) + s.subrange(19, 23)
        + s.subrange(24, 36);
    assert(h =~= id_digits(id, 32));
    lemma_id_digits_value(id, 32);
    assert(vstd::arithmetic::power::pow(16, 0) == 1) by {
        reveal(vstd::arithmetic::power::pow);
    }
    assert(s[8] == '-' && s[13] == '-' && s[18] == '-' && s[23] == '-');
}

/// Calls `Uuid::from_u128(id).to_string()`. Claimed: the text is the hyphenated
/// lower-case hexadecimal form of the id's big-endian bytes, as `id_text` states.
#[verifier::external_body]
pub(crate) fn id_string(id: u128) -> (s: String)
    ensures
        s@ == id_text(id),
{
    uuid::Uuid::from_u128(id).to_string()
}

/// Calls `Uuid::new_v4()` and returns its 128-bit value. The id is random: nothing
/// is claimed of it.
#[verifier::external_body]
pub(crate) fn fresh_id() -> (id: u128) {
    uuid::Uuid::new_v4().as_u128()
}

/// Calls `Uuid::parse_str`. Claimed: the result is `parsed_id` of the text, as the
/// crate's parser reads the four forms.
#[verifier::external_body]
pub(crate) fn parse_id(s: &str) -> (r: Option<u128>)
    ensures
        r == parsed_id(s@),
{
    match uuid::Uuid::parse_str(s) {
        Ok(u) => Some(u.as_u128()),
        Err(_) => None,
    }
}

/// An instant: whole seconds since the Unix epoch and the nanoseconds past them.
#[derive(Debug, Clone, Copy, PartialEq, Eq, Structural)]
pub struct Timestamp {
    pub secs: i64,
    pub nanos: u32,
}

/// What `DateTime::parse_from_rfc3339` yields for a text, as seconds and
/// nanoseconds of the instant in UTC.
pub uninterp spec fn rfc3339_instant(s: Seq<char>) -> Option<(i64, u32)>;

/// Calls `chrono::Utc::now()`. The instant depends on the clock: nothing is claimed.
#[verifier::external_body]
pub(crate) fn now() -> (t: Timestamp) {
    let n = chrono::Utc::now();
    Timestamp { secs: n.timestamp(), nanos: n.timestamp_subsec_nanos() }
}

/// Calls `DateTime::parse_from_rfc3339` and converts the instant to UTC. Claimed:
/// the result is the named parse of the text.
#[verifier::external_body]
pub(crate) fn parse_rfc3339(s: &str) -> (r: Option<Timestamp>)
    ensures
        r matches Some(t) ==> rfc3339_instant(s@) == Some((t.secs, t.nanos)),
        r is None <==> rfc3339_instant(s@) is None,
{
    match chrono::DateTime::parse_from_rfc3339(s) {
        Ok(d) => {
            let u = d.with_timezone(&chrono::Utc);
            Some(Timestamp { secs: u.timestamp(), nanos: u.timestamp_subsec_nanos() })
        },
        Err(_) => None,
    }
}

/// The text of an id parsed back, or a fresh id when the text is no id.
pub fn id_or_fresh(s: &str) -> (id: u128)
    ensures
        parsed_id(s@) matches Some(v) ==> id == v,
        forall|u: u128| s@ == id_text(u) ==> id == u,
{
    proof {
        assert forall|u: u128| s@ == id_text(u) implies parsed_id(s@) == Some(u) by {
            lemma_id_text_parses(u);
        }
    }
    match parse_id(s) {
        Some(v) => v,
        None => fresh_id(),
    }
}

/// The instant a text names, or the current instant when the text names none.
pub fn instant_or_now(s: &str) -> (t: Timestamp)
    ensures
        rfc3339_instant(s@) matches Some(p) ==> (t.secs, t.nanos) == p,
{
    match parse_rfc3339(s) {
        Some(t) => t,
        None => now(),
    }
}

} // verus!

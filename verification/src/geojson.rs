//! Assembly of the GeoJSON export: each row's properties as a JSON object, each row as
//! a feature, and the rows as a feature collection.

use vstd::prelude::*;
use crate::ids::hex_char;
use crate::text::{chars_of, join, views, join_strings, string_from_chars, decimal, u64_text, is_digit,
    all_digits};

verus! {

/// A value as read from a row, by the kind of its column: SQL NULL, a value of a
/// numeric column as its decimal text, a boolean, or any other value as its text.
#[derive(Debug, Clone)]
pub enum RawValue {
    Null,
    Numeric(String),
    Boolean(bool),
    Text(String),
}

/// A property value as the GeoJSON export writes it.
#[derive(Debug, Clone)]
pub enum PropertyValue {
    /// SQL NULL, written `null`.
    Null,
    /// A number, written unquoted; its text is a JSON number.
    Number(String),
    /// A boolean, written `true` or `false`.
    Boolean(bool),
    /// Any other value, written as a JSON string.
    Text(String),
}

/// A row of the GeoJSON query: the geometry's GeoJSON text and the property values.
#[derive(Debug, Clone)]
pub struct GeoRow {
    pub geometry: String,
    pub values: Vec<PropertyValue>,
}

/// How one character of a text is written inside a JSON string (RFC 8259, section
/// 7): a quotation mark and a backslash behind a backslash; the control characters
/// below U+0020 as their two-character escape where JSON has one (`\b`, `\f`, `\n`,
/// `\r`, `\t`) and as `\u00XX` otherwise; every other character as itself.
pub open spec fn json_char(c: char) -> Seq<char> {
    if c == '"' {
        seq!['\\', '"']
    } else if c == '\\' {
        seq!['\\', '\\']
    } else if c == '\u{8}' {
        seq!['\\', 'b']
    } else if c == '\u{c}' {
        seq!['\\', 'f']
    } else if c == '\n' {
        seq!['\\', 'n']
    } else if c == '\r' {
        seq!['\\', 'r']
    } else if c == '\t' {
        seq!['\\', 't']
    } else if (c as int) < 0x20 {
        seq!['\\', 'u', '0', '0', hex_char((c as int) / 16), hex_char((c as int) % 16)]
    } else {
        seq![c]
    }
}

/// `s` written as the content of a JSON string: each character as `json_char` writes it.
pub open spec fn json_escaped(s: Seq<char>) -> Seq<char>
    decreases s.len(),
{
    if s.len() == 0 {
        seq![]
    } else {
        json_char(s[0]) + json_escaped(s.drop_first())
    }
}

/// The character that the two-character escape `\x` stands for in a JSON string.
pub open spec fn short_escape(x: char) -> Option<char> {
    if x == '"' {
        Some('"')
    } else if x == '\\' {
        Some('\\')
    } else if x == '/' {
        Some('/')
    } else if x == 'b' {
        Some('\u{8}')
    } else if x == 'f' {
        Some('\u{c}')
    } else if x == 'n' {
        Some('\n')
    } else if x == 'r' {
        Some('\r')
    } else if x == 't' {
        Some('\t')
    } else {
        None
    }
}

/// The value of a hexadecimal digit, in either case.
pub open spec fn hex_value(x: char) -> Option<int> {
    if '0' <= x && x <= '9' {
        Some(x as int - '0' as int)
    } else if 'a' <= x && x <= 'f' {
        Some(x as int - 'a' as int + 10)
    } else if 'A' <= x && x <= 'F' {
        Some(x as int - 'A' as int + 10)
    } else {
        None
    }
}

/// The value of four hexadecimal digits.
pub open spec fn hex4_value(t: Seq<char>) -> Option<int> {
    if t.len() == 4 && hex_value(t[0]) is Some && hex_value(t[1]) is Some && hex_value(t[2]) is Some
        && hex_value(t[3]) is Some {
        Some(
            ((hex_value(t[0])->0 * 16 + hex_value(t[1])->0) * 16 + hex_value(t[2])->0) * 16
                + hex_value(t[3])->0,
        )
    } else {
        None
    }
}

/// The text that `t`, read as the content of a JSON string (what stands between its
/// quotation marks), stands for: `None` when `t` holds a raw quotation mark, a raw
/// control character or a malformed escape. A `\uXXXX` escape is read for the
/// characters outside the surrogate range; JSON also writes a character as a pair of
/// surrogate escapes, which this reading leaves out and `json_escaped` never writes.
pub open spec fn json_string_value(t: Seq<char>) -> Option<Seq<char>>
    decreases t.len(),
{
    if t.len() == 0 {
        Some(seq![])
    } else if t[0] == '\\' {
        if t.len() >= 2 && short_escape(t[1]) is Some {
            match json_string_value(t.skip(2)) {
                Some(r) => Some(seq![short_escape(t[1])->0] + r),
                None => None,
            }
        } else if t.len() >= 6 && t[1] == 'u' && hex4_value(t.subrange(2, 6)) is Some && (hex4_value(
            t.subrange(2, 6),
        )->0 < 0xD800 || hex4_value(t.subrange(2, 6))->0 > 0xDFFF) {
            match json_string_value(t.skip(6)) {
                Some(r) => Some(seq![(hex4_value(t.subrange(2, 6))->0 as u32) as char] + r),
                None => None,
            }
        } else {
            None
        }
    } else if t[0] == '"' || (t[0] as int) < 0x20 {
        None
    } else {
        match json_string_value(t.drop_first()) {
            Some(r) => Some(seq![t[0]] + r),
            None => None,
        }
    }
}

/// Escaping one more character at the end appends its escape.
pub proof fn lemma_json_escaped_push(s: Seq<char>, c: char)
    ensures
        json_escaped(s.push(c)) == json_escaped(s) + json_char(c),
    decreases s.len(),
{
    if s.len() == 0 {
        assert(s.push(c)[0] == c);
        assert(s.push(c).drop_first() =~= seq![]);
        assert(json_escaped(s.push(c).drop_first()) =~= seq![]);
        assert(json_escaped(s) =~= seq![]);
        assert(json_escaped(s.push(c)) =~= json_char(c));
    } else {
        lemma_json_escaped_push(s.drop_first(), c);
        assert(s.push(c).drop_first() =~= s.drop_first().push(c));
        assert(json_escaped(s.push(c)) =~= json_escaped(s) + json_char(c));
    }
}

pub proof fn lemma_hex_char_value(d: int)
    requires
        0 <= d < 16,
    ensures
        hex_value(hex_char(d)) == Some(d),
{
    reveal_with_fuel(hex_value, 1);
    if d == 0 {} else if d == 1 {} else if d == 2 {} else if d == 3 {} else if d == 4 {}
    else if d == 5 {} else if d == 6 {} else if d == 7 {} else if d == 8 {} else if d == 9 {}
    else if d == 10 {} else if d == 11 {} else if d == 12 {} else if d == 13 {} else if d == 14 {}
    else {}
}

/// The escape of one character followed by any text reads as that character
/// followed by what the text reads as.
proof fn lemma_json_char_reads_back(c: char, rest: Seq<char>)
    ensures
        json_string_value(json_char(c) + rest) == match json_string_value(rest) {
            Some(r) => Some(seq![c] + r),
            None => None::<Seq<char>>,
        },
{
    let t = json_char(c) + rest;
    let e = json_char(c);
    if e.len() == 2 {
        assert(t.skip(2) =~= rest);
        assert(t[0] == '\\');
    } else if e.len() == 6 {
        let v = c as u32;
        let n = c as int;
        assert(t.skip(6) =~= rest);
        assert(t.subrange(2, 6) =~= seq!['0', '0', hex_char(n / 16), hex_char(n % 16)]);
        lemma_hex_char_value(n / 16);
        lemma_hex_char_value(n % 16);
        assert(hex_value('0') == Some(0int));
        assert(hex4_value(t.subrange(2, 6)) == Some(v as int));
        vstd::utf8::char_u32_cast(c, v);
        assert(((v as int) as u32) as char == c);
    } else {
        assert(t.drop_first() =~= rest);
    }
}

/// Escaping loses nothing: the content that `json_escaped` writes reads back, as a
/// JSON string, as the text it was written from.
pub proof fn lemma_json_escaped_reads_back(s: Seq<char>)
    ensures
        json_string_value(json_escaped(s)) == Some(s),
    decreases s.len(),
{
    if s.len() > 0 {
        lemma_json_escaped_reads_back(s.drop_first());
        lemma_json_char_reads_back(s[0], json_escaped(s.drop_first()));
        assert(seq![s[0]] + s.drop_first() =~= s);
    }
}

proof fn lemma_json_char_printable(c: char)
    ensures
        forall|j: int| 0 <= j < json_char(c).len() ==> (#[trigger] json_char(c)[j] as int) >= 0x20,
{
    let n = c as int;
    let e = json_char(c);
    if c == '"' || c == '\\' || c == '\u{8}' || c == '\u{c}' || c == '\n' || c == '\r' || c == '\t' {
        assert(e.len() == 2);
        assert(e[0] == '\\');
    } else if n < 0x20 {
        assert(0 <= n);
        lemma_hex_char_value(n / 16);
        lemma_hex_char_value(n % 16);
        assert(e.len() == 6);
        assert(e[4] == hex_char(n / 16));
        assert(e[5] == hex_char(n % 16));
    } else {
        assert(e =~= seq![c]);
    }
}

/// No character of an escaped text is a raw control character.
pub proof fn lemma_json_escaped_has_no_controls(s: Seq<char>)
    ensures
        forall|i: int| 0 <= i < json_escaped(s).len() ==> (#[trigger] json_escaped(s)[i] as int) >= 0x20,
    decreases s.len(),
{
    if s.len() > 0 {
        lemma_json_escaped_has_no_controls(s.drop_first());
        let e = json_char(s[0]);
        let rest = json_escaped(s.drop_first());
        assert(json_escaped(s) == e + rest);
        lemma_json_char_printable(s[0]);
        assert forall|i: int| 0 <= i < json_escaped(s).len() implies (#[trigger] json_escaped(s)[i] as int)
            >= 0x20 by {
            if i < e.len() {
                assert(json_escaped(s)[i] == e[i]);
            } else {
                assert(json_escaped(s)[i] == rest[i - e.len()]);
            }
        }
    }
}

/// The integer part of a JSON number: `0`, or a digit other than `0` followed by digits.
pub open spec fn json_int_digits(s: Seq<char>) -> bool {
    s.len() >= 1 && all_digits(s) && (s[0] == '0' ==> s.len() == 1)
}

/// A JSON number without sign and exponent: an integer part, optionally followed by
/// `.` and one or more digits.
pub open spec fn json_unsigned_plain(b: Seq<char>) -> bool {
    json_int_digits(b) || exists|k: int|
        0 < k < b.len() - 1 && #[trigger] b[k] == '.' && json_int_digits(b.take(k)) && all_digits(
            b.skip(k + 1),
        )
}

/// A number as RFC 8259 writes it, without an exponent: an optional `-`, then an
/// integer part without leading zeros, then an optional fraction.
pub open spec fn is_plain_json_number(s: Seq<char>) -> bool {
    if s.len() > 0 && s[0] == '-' {
        json_unsigned_plain(s.drop_first())
    } else {
        json_unsigned_plain(s)
    }
}

/// The JSON literal of a boolean.
pub open spec fn bool_text(b: bool) -> Seq<char> {
    if b {
        "true"@
    } else {
        "false"@
    }
}

/// How a value read from a row is written, by the kind of its column: SQL NULL as
/// `null`; a numeric value as a JSON number when its text is one (without exponent),
/// else as a JSON string (JSON has no NaN or infinity); a boolean as `true` or
/// `false`; a value of any other column always as a JSON string, whatever its text.
pub open spec fn classified(v: RawValue) -> (u8, Seq<char>) {
    match v {
        RawValue::Null => (0, seq![]),
        RawValue::Numeric(x) => if is_plain_json_number(x@) {
            (1, x@)
        } else {
            (2, x@)
        },
        RawValue::Boolean(b) => (3, bool_text(b)),
        RawValue::Text(x) => (2, x@),
    }
}

/// The kind and text of a property value: 0 for null, 1 for a number, 2 for a text,
/// 3 for a boolean.
pub open spec fn value_view(v: PropertyValue) -> (u8, Seq<char>) {
    match v {
        PropertyValue::Null => (0, seq![]),
        PropertyValue::Number(x) => (1, x@),
        PropertyValue::Boolean(b) => (3, bool_text(b)),
        PropertyValue::Text(x) => (2, x@),
    }
}

/// One `"name":value` member of a properties object.
pub open spec fn property_member(name: Seq<char>, v: PropertyValue) -> Seq<char> {
    match v {
        PropertyValue::Null => seq!['"'] + name + "\":null"@,
        PropertyValue::Number(x) => seq!['"'] + name + "\":"@ + x@,
        PropertyValue::Boolean(b) => seq!['"'] + name + "\":"@ + bool_text(b),
        PropertyValue::Text(x) => seq!['"'] + name + "\":\""@ + json_escaped(x@) + seq!['"'],
    }
}

/// The members for the names and values paired up position by position, as far as
/// both go.
pub open spec fn property_members(names: Seq<Seq<char>>, vals: Seq<PropertyValue>) -> Seq<Seq<char>> {
    let n = if names.len() < vals.len() {
        names.len()
    } else {
        vals.len()
    };
    Seq::new(n, |i: int| property_member(names[i], vals[i]))
}

/// The properties object of a row: `{}` when there are no property columns, else the
/// members joined by commas between braces.
pub open spec fn properties_object(names: Seq<Seq<char>>, vals: Seq<PropertyValue>) -> Seq<char> {
    if names.len() == 0 {
        "{}"@
    } else {
        seq!['{'] + join(property_members(names, vals), ","@) + seq!['}']
    }
}

/// The feature for the row at position `idx`.
pub open spec fn feature_text(idx: nat, geometry: Seq<char>, properties: Seq<char>) -> Seq<char> {
    "{\"type\":\"Feature\",\"id\":"@ + decimal(idx) + ",\"geometry\":"@ + geometry
        + ",\"properties\":"@ + properties + seq!['}']
}

/// The features of the rows that were read, each numbered by its position among all
/// rows (rows that failed to read keep their number and yield no feature).
pub open spec fn features_of(names: Seq<Seq<char>>, rows: Seq<Option<GeoRow>>) -> Seq<Seq<char>>
    decreases rows.len(),
{
    if rows.len() == 0 {
        seq![]
    } else {
        let rest = features_of(names, rows.drop_last());
        match rows.last() {
            Some(r) => rest.push(
                feature_text(
                    (rows.len() - 1) as nat,
                    r.geometry@,
                    properties_object(names, r.values@),
                ),
            ),
            None => rest,
        }
    }
}

/// The feature collection of the given features.
pub open spec fn feature_collection(features: Seq<Seq<char>>) -> Seq<char> {
    "{\"type\":\"FeatureCollection\",\"features\":["@ + join(features, ","@) + "]}"@
}

fn hex_digit(d: u32) -> (c: char)
    requires
        d < 16,
    ensures
        c == hex_char(d as int),
{
    if d == 0 { '0' } else if d == 1 { '1' } else if d == 2 { '2' } else if d == 3 { '3' }
    else if d == 4 { '4' } else if d == 5 { '5' } else if d == 6 { '6' } else if d == 7 { '7' }
    else if d == 8 { '8' } else if d == 9 { '9' } else if d == 10 { 'a' } else if d == 11 { 'b' }
    else if d == 12 { 'c' } else if d == 13 { 'd' } else if d == 14 { 'e' } else { 'f' }
}

/// Appends how `c` is written inside a JSON string.
fn push_json_char(out: &mut Vec<char>, c: char)
    ensures
        final(out)@ == old(out)@ + json_char(c),
{
    let ghost before = out@;
    if c == '"' {
        out.push('\\');
        out.push('"');
    } else if c == '\\' {
        out.push('\\');
        out.push('\\');
    } else if c == '\u{8}' {
        out.push('\\');
        out.push('b');
    } else if c == '\u{c}' {
        out.push('\\');
        out.push('f');
    } else if c == '\n' {
        out.push('\\');
        out.push('n');
    } else if c == '\r' {
        out.push('\\');
        out.push('r');
    } else if c == '\t' {
        out.push('\\');
        out.push('t');
    } else if (c as u32) < 0x20 {
        let v = c as u32;
        out.push('\\');
        out.push('u');
        out.push('0');
        out.push('0');
        out.push(hex_digit(v / 16));
        out.push(hex_digit(v % 16));
    } else {
        out.push(c);
    }
    assert(out@ =~= before + json_char(c));
}

fn digits_end(cs: &Vec<char>, from: usize) -> (j: usize)
    requires
        from <= cs.len(),
    ensures
        from <= j <= cs.len(),
        forall|t: int| from <= t < j ==> is_digit(#[trigger] cs@[t]),
        j < cs.len() ==> !is_digit(cs@[j as int]),
{
    let mut j = from;
    while j < cs.len() && '0' <= cs[j] && cs[j] <= '9'
        invariant
            from <= j <= cs.len(),
            forall|t: int| from <= t < j ==> is_digit(#[trigger] cs@[t]),
        decreases cs.len() - j,
    {
        j = j + 1;
    }
    j
}

proof fn lemma_unsigned_plain_cases(b: Seq<char>, n: int)
    requires
        0 <= n <= b.len(),
        forall|t: int| 0 <= t < n ==> is_digit(#[trigger] b[t]),
        n < b.len() ==> !is_digit(b[n]),
    ensures
        json_unsigned_plain(b) <==> (n >= 1 && (b[0] == '0' ==> n == 1) && (n == b.len() || (
            b[n] == '.' && n + 1 < b.len() && all_digits(b.skip(n + 1))))),
{
    if json_unsigned_plain(b) {
        if !json_int_digits(b) {
            let k = choose|k: int|
                0 < k < b.len() - 1 && #[trigger] b[k] == '.' && json_int_digits(b.take(k))
                    && all_digits(b.skip(k + 1));
            if k < n {
                assert(is_digit(b[k]));
            } else if k > n {
                assert(b.take(k)[n] == b[n]);
            }
            assert(k == n);
            assert(b.take(k)[0] == b[0]);
        } else {
            if n < b.len() {
                assert(is_digit(b[n]));
            }
        }
    }
    if n >= 1 && (b[0] == '0' ==> n == 1) {
        if n == b.len() {
            assert(json_int_digits(b));
        } else if b[n] == '.' && n + 1 < b.len() && all_digits(b.skip(n + 1)) {
            assert(json_int_digits(b.take(n)));
            assert(b[n] == '.');
        }
    }
}

/// Whether a text is a JSON number without exponent.
pub fn plain_json_number(s: &str) -> (b: bool)
    ensures
        b == is_plain_json_number(s@),
{
    let cs = chars_of(s);
    let start: usize = if cs.len() > 0 && cs[0] == '-' {
        1
    } else {
        0
    };
    let ghost body = cs@.skip(start as int);
    assert(body == if s@.len() > 0 && s@[0] == '-' {
        s@.drop_first()
    } else {
        s@
    });
    let i = digits_end(&cs, start);
    let n = i - start;
    let mut frac_ok = false;
    if i < cs.len() && cs[i] == '.' && i + 1 < cs.len() {
        let j = digits_end(&cs, i + 1);
        frac_ok = j == cs.len();
        proof {
            if frac_ok {
                assert forall|t: int| 0 <= t < body.skip(n + 1).len() implies is_digit(
                    #[trigger] body.skip(n + 1)[t],
                ) by {
                    assert(body.skip(n + 1)[t] == cs@[i + 1 + t]);
                }
            } else {
                assert(body.skip(n + 1)[j - i - 1] == cs@[j as int]);
            }
        }
    }
    proof {
        assert forall|t: int| 0 <= t < n implies is_digit(#[trigger] body[t]) by {
            assert(body[t] == cs@[start + t]);
        }
        if n < body.len() {
            assert(body[n as int] == cs@[i as int]);
        }
        lemma_unsigned_plain_cases(body, n as int);
        if n >= 1 {
            assert(body[0] == cs@[start as int]);
        }
    }
    n >= 1 && !(cs[start] == '0' && n > 1) && (i == cs.len() || frac_ok)
}

/// Decides how a value read from a row is written: by its column's kind, and for a
/// numeric value also by whether its text is a JSON number.
pub fn property_value(v: RawValue) -> (p: PropertyValue)
    ensures
        value_view(p) == classified(v),
{
    match v {
        RawValue::Null => PropertyValue::Null,
        RawValue::Numeric(x) => if plain_json_number(x.as_str()) {
            PropertyValue::Number(x)
        } else {
            PropertyValue::Text(x)
        },
        RawValue::Boolean(b) => PropertyValue::Boolean(b),
        RawValue::Text(x) => PropertyValue::Text(x),
    }
}

/// Writes a text as the content of a JSON string, escaping quotation marks,
/// backslashes and every control character.
pub fn escape_json(s: &str) -> (r: String)
    ensures
        r@ == json_escaped(s@),
{
    let cs = chars_of(s);
    let mut out: Vec<char> = Vec::new();
    let mut i: usize = 0;
    while i < cs.len()
        invariant
            i <= cs.len(),
            cs@ == s@,
            out@ == json_escaped(cs@.take(i as int)),
        decreases cs.len() - i,
    {
        proof {
            lemma_json_escaped_push(cs@.take(i as int), cs@[i as int]);
            assert(cs@.take(i + 1) =~= cs@.take(i as int).push(cs@[i as int]));
        }
        push_json_char(&mut out, cs[i]);
        i = i + 1;
    }
    assert(cs@.take(cs.len() as int) =~= cs@);
    string_from_chars(&out)
}

/// The `"name":value` member of a properties object.
pub fn property_json(name: &str, v: &PropertyValue) -> (r: String)
    ensures
        r@ == property_member(name@, *v),
{
    let mut s = String::from_str("\"");
    proof {
        reveal_strlit("\"");
    }
    s.append(name);
    match v {
        PropertyValue::Null => {
            s.append("\":null");
        },
        PropertyValue::Number(x) => {
            s.append("\":");
            s.append(x.as_str());
        },
        PropertyValue::Boolean(b) => {
            if *b {
                s.append("\":true");
            } else {
                s.append("\":false");
            }
            proof {
                reveal_strlit("\":true");
                reveal_strlit("\":false");
                reveal_strlit("\":");
                reveal_strlit("true");
                reveal_strlit("false");
            }
        },
        PropertyValue::Text(x) => {
            s.append("\":\"");
            let e = escape_json(x.as_str());
            s.append(e.as_str());
            s.append("\"");
        },
    }
    assert(("\""@) =~= seq!['"']);
    s
}

/// The properties object of one row.
pub fn properties_json(names: &Vec<String>, vals: &Vec<PropertyValue>) -> (r: String)
    ensures
        r@ == properties_object(views(names@), vals@),
{
    if names.len() == 0 {
        return String::from_str("{}");
    }
    let n = if names.len() < vals.len() {
        names.len()
    } else {
        vals.len()
    };
    let mut members: Vec<String> = Vec::new();
    let mut i: usize = 0;
    while i < n
        invariant
            i <= n,
            n <= names.len(),
            n <= vals.len(),
            views(members@) == property_members(views(names@), vals@).take(i as int),
        decreases n - i,
    {
        let m = property_json(names[i].as_str(), &vals[i]);
        let ghost before = views(members@);
        members.push(m);
        assert(views(members@) =~= before.push(m@));
        i = i + 1;
        assert(views(members@) =~= property_members(views(names@), vals@).take(i as int));
    }
    assert(property_members(views(names@), vals@).take(n as int) =~= property_members(
        views(names@),
        vals@,
    ));
    let mut s = String::from_str("{");
    let j = join_strings(&members, ",");
    s.append(j.as_str());
    s.append("}");
    proof {
        reveal_strlit("{");
        reveal_strlit("}");
        assert(("{"@) =~= seq!['{']);
        assert(("}"@) =~= seq!['}']);
    }
    s
}

/// The feature for the row at position `idx`.
pub fn feature_json(idx: u64, geometry: &str, properties: &str) -> (r: String)
    ensures
        r@ == feature_text(idx as nat, geometry@, properties@),
{
    let mut s = String::from_str("{\"type\":\"Feature\",\"id\":");
    let t = u64_text(idx);
    s.append(t.as_str());
    s.append(",\"geometry\":");
    s.append(geometry);
    s.append(",\"properties\":");
    s.append(properties);
    s.append("}");
    proof {
        reveal_strlit("}");
        assert(("}"@) =~= seq!['}']);
    }
    s
}

/// The GeoJSON feature collection of the rows read by the export query, with the
/// property columns named by `names`.
pub fn geojson_document(names: &Vec<String>, rows: &Vec<Option<GeoRow>>) -> (r: String)
    requires
        rows.len() <= u64::MAX,
    ensures
        r@ == feature_collection(features_of(views(names@), rows@)),
{
    let mut features: Vec<String> = Vec::new();
    let mut i: usize = 0;
    while i < rows.len()
        invariant
            i <= rows.len(),
            rows.len() <= u64::MAX,
            views(features@) == features_of(views(names@), rows@.take(i as int)),
        decreases rows.len() - i,
    {
        assert(rows@.take(i + 1).drop_last() =~= rows@.take(i as int));
        assert(rows@.take(i + 1).last() == rows@[i as int]);
        match &rows[i] {
            Some(row) => {
                let p = properties_json(names, &row.values);
                let f = feature_json(i as u64, row.geometry.as_str(), p.as_str());
                let ghost before = views(features@);
                features.push(f);
                assert(views(features@) =~= before.push(f@));
            },
            None => {},
        }
        i = i + 1;
    }
    assert(rows@.take(rows.len() as int) =~= rows@);
    let mut s = String::from_str("{\"type\":\"FeatureCollection\",\"features\":[");
    let j = join_strings(&features, ",");
    s.append(j.as_str());
    s.append("]}");
    s
}

} // verus!

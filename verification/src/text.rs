//! Character-level helpers shared by the rest of the library.

use vstd::prelude::*;

verus! {

/// True when `suffix` is a suffix of `s`.
pub open spec fn ends_with(s: Seq<char>, suffix: Seq<char>) -> bool {
    suffix.len() <= s.len() && s.subrange(s.len() - suffix.len(), s.len() as int) == suffix
}

/// True when `prefix` is a prefix of `s`.
pub open spec fn starts_with(s: Seq<char>, prefix: Seq<char>) -> bool {
    prefix.len() <= s.len() && s.subrange(0, prefix.len() as int) == prefix
}

/// `s` with every occurrence of `from` replaced by the sequence `to`.
pub open spec fn replace_char(s: Seq<char>, from: char, to: Seq<char>) -> Seq<char>
    decreases s.len(),
{
    if s.len() == 0 {
        seq![]
    } else {
        let head = if s[0] == from { to } else { seq![s[0]] };
        head + replace_char(s.drop_first(), from, to)
    }
}

/// Appends one character to a string.
#[verifier::external_body]
pub(crate) fn push_char(s: &mut String, c: char)
    ensures
        final(s)@ == old(s)@.push(c),
{
    s.push(c)
}

/// The characters of a string slice, in order.
pub fn chars_of(s: &str) -> (r: Vec<char>)
    ensures
        r@ == s@,
{
    let mut r: Vec<char> = Vec::new();
    broadcast use vstd::string::group_string_axioms;
    let mut it = s.chars();
    loop
        invariant
            r@ + vstd::std_specs::iter::IteratorSpec::remaining(&it) == s@,
            vstd::std_specs::iter::IteratorSpec::decrease(&it) is Some,
        ensures
            r@ == s@,
        decreases vstd::std_specs::iter::IteratorSpec::decrease(&it)->0,
    {
        let ghost before = vstd::std_specs::iter::IteratorSpec::remaining(&it);
        match it.next() {
            Some(c) => {
                r.push(c);
                assert(r@ + vstd::std_specs::iter::IteratorSpec::remaining(&it) =~= s@) by {
                    assert(before =~= seq![c] + vstd::std_specs::iter::IteratorSpec::remaining(&it));
                }
            },
            None => {
                assert(r@ =~= s@);
                break;
            },
        }
    }
    r
}

} // verus!

verus! {

/// The views of a sequence of strings.
pub open spec fn views(list: Seq<String>) -> Seq<Seq<char>> {
    list.map_values(|s: String| s@)
}

/// The pieces of `list` with `sep` between each two of them.
pub open spec fn join(list: Seq<Seq<char>>, sep: Seq<char>) -> Seq<char>
    decreases list.len(),
{
    if list.len() == 0 {
        seq![]
    } else if list.len() == 1 {
        list[0]
    } else {
        join(list.drop_last(), sep) + sep + list.last()
    }
}

/// An ASCII decimal digit.
pub open spec fn is_digit(c: char) -> bool {
    '0' <= c && c <= '9'
}

/// Every character of `s` is an ASCII decimal digit.
pub open spec fn all_digits(s: Seq<char>) -> bool {
    forall|i: int| 0 <= i < s.len() ==> is_digit(#[trigger] s[i])
}

/// The value of a sequence of decimal digits, the most significant first (0 for none).
pub open spec fn digits_value(s: Seq<char>) -> nat
    decreases s.len(),
{
    if s.len() == 0 {
        0
    } else {
        digits_value(s.drop_last()) * 10 + (s.last() as int - '0' as int) as nat
    }
}

/// The decimal digit for a value below ten.
pub open spec fn digit_char(d: nat) -> char {
    seq!['0', '1', '2', '3', '4', '5', '6', '7', '8', '9'][d as int]
}

/// The decimal notation of a natural number, without leading zeros.
pub open spec fn decimal(n: nat) -> Seq<char>
    decreases n,
{
    if n < 10 {
        seq![digit_char(n)]
    } else {
        decimal(n / 10).push(digit_char(n % 10))
    }
}

/// The decimal notation of an integer, with a leading minus sign when negative.
pub open spec fn signed_decimal(n: int) -> Seq<char> {
    if n < 0 {
        seq!['-'] + decimal((-n) as nat)
    } else {
        decimal(n as nat)
    }
}

/// The string whose characters are `v`.
pub fn string_from_chars(v: &Vec<char>) -> (s: String)
    ensures
        s@ == v@,
{
    let mut s = String::new();
    let mut i: usize = 0;
    while i < v.len()
        invariant
            i <= v.len(),
            s@ == v@.take(i as int),
        decreases v.len() - i,
    {
        push_char(&mut s, v[i]);
        i = i + 1;
        assert(s@ =~= v@.take(i as int));
    }
    assert(v@.take(v.len() as int) =~= v@);
    s
}

/// The decimal digit character for `d`.
pub fn digit(d: u64) -> (c: char)
    requires
        d < 10,
    ensures
        c == digit_char(d as nat),
{
    if d == 0 {
        '0'
    } else if d == 1 {
        '1'
    } else if d == 2 {
        '2'
    } else if d == 3 {
        '3'
    } else if d == 4 {
        '4'
    } else if d == 5 {
        '5'
    } else if d == 6 {
        '6'
    } else if d == 7 {
        '7'
    } else if d == 8 {
        '8'
    } else {
        '9'
    }
}

/// The decimal notation of an unsigned number.
pub fn u64_text(n: u64) -> (s: String)
    ensures
        s@ == decimal(n as nat),
    decreases n,
{
    if n < 10 {
        let mut s = String::new();
        push_char(&mut s, digit(n));
        assert(s@ =~= decimal(n as nat));
        s
    } else {
        let mut s = u64_text(n / 10);
        push_char(&mut s, digit(n % 10));
        s
    }
}

/// The decimal notation of a signed number.
pub fn i64_text(n: i64) -> (s: String)
    ensures
        s@ == signed_decimal(n as int),
{
    if n < 0 {
        let magnitude: u64 = (0i128 - (n as i128)) as u64;
        let digits = u64_text(magnitude);
        let mut s = String::new();
        push_char(&mut s, '-');
        s.append(digits.as_str());
        assert(s@ =~= signed_decimal(n as int));
        s
    } else {
        u64_text(n as u64)
    }
}

/// The strings of `list` joined with `sep` between each two of them.
pub fn join_strings(list: &Vec<String>, sep: &str) -> (s: String)
    ensures
        s@ == join(views(list@), sep@),
{
    let mut s = String::new();
    let mut i: usize = 0;
    while i < list.len()
        invariant
            i <= list.len(),
            s@ == join(views(list@).take(i as int), sep@),
        decreases list.len() - i,
    {
        let ghost before = views(list@).take(i as int);
        if i == 0 {
            s.append(list[i].as_str());
        } else {
            s.append(sep);
            s.append(list[i].as_str());
        }
        i = i + 1;
        assert(views(list@).take(i as int).drop_last() =~= before);
        assert(views(list@).take(i as int).last() == list@[i - 1]@);
        if i == 1 {
            assert(s@ =~= join(views(list@).take(i as int), sep@));
        }
    }
    assert(views(list@).take(list.len() as int) =~= views(list@));
    s
}

/// `v` with every `from` character replaced by the characters of `to`.
pub fn replace_chars(v: &Vec<char>, from: char, to: &str) -> (r: Vec<char>)
    ensures
        r@ == replace_char(v@, from, to@),
{
    let t = chars_of(to);
    let mut r: Vec<char> = Vec::new();
    let mut k: usize = 0;
    while k < v.len()
        invariant
            k <= v.len(),
            t@ == to@,
            r@ == replace_char(v@.take(k as int), from, to@),
        decreases v.len() - k,
    {
        proof {
            lemma_replace_char_push(v@.take(k as int), v@[k as int], from, to@);
        }
        if v[k] == from {
            let mut j: usize = 0;
            let ghost base = r@;
            while j < t.len()
                invariant
                    j <= t.len(),
                    r@ == base + t@.take(j as int),
                decreases t.len() - j,
            {
                r.push(t[j]);
                j = j + 1;
                assert(r@ =~= base + t@.take(j as int));
            }
            assert(t@.take(t.len() as int) =~= t@);
        } else {
            r.push(v[k]);
        }
        k = k + 1;
        assert(v@.take(k as int) =~= v@.take(k - 1).push(v@[k - 1]));
    }
    assert(v@.take(v.len() as int) =~= v@);
    r
}

/// Replacing in a sequence extended by one character extends the result by that character's image.
pub proof fn lemma_replace_char_push(s: Seq<char>, c: char, from: char, to: Seq<char>)
    ensures
        replace_char(s.push(c), from, to) == replace_char(s, from, to) + (if c == from {
            to
        } else {
            seq![c]
        }),
    decreases s.len(),
{
    if s.len() == 0 {
        assert(s.push(c).drop_first() =~= seq![]);
        reveal_with_fuel(replace_char, 2);
        assert(replace_char(s.push(c), from, to) =~= (if c == from {
            to
        } else {
            seq![c]
        }));
    } else {
        lemma_replace_char_push(s.drop_first(), c, from, to);
        assert(s.push(c).drop_first() =~= s.drop_first().push(c));
        assert(replace_char(s.push(c), from, to) =~= replace_char(s, from, to) + (if c == from {
            to
        } else {
            seq![c]
        }));
    }
}

} // verus!

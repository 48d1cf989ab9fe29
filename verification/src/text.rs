//! Text utilities: conversions between strings, character vectors and
//! UTF-8 bytes, and a few comparisons the routing logic needs.

use vstd::prelude::*;
use vstd::utf8::{valid_utf8, encode_utf8, encode_utf8_valid_utf8};
use vstd::string::StrSliceExecFns;
use vstd::std_specs::iter::IteratorSpec;

verus! {

/// The characters of a string slice, as a vector.
pub fn chars_of(s: &str) -> (v: Vec<char>)
    ensures
        v@ == s@,
{
    broadcast use vstd::string::axiom_spec_iter;
    broadcast use vstd::string::next_postcondition;

    let mut v: Vec<char> = Vec::new();
    let mut it = s.chars();
    loop
        invariant
            it.obeys_prophetic_iter_laws(),
            v@ + it.remaining() == s@,
            IteratorSpec::decrease(&it) is Some,
        ensures
            v@ == s@,
        decreases it.decrease()->0,
    {
        let ghost prev = it;
        match it.next() {
            Some(c) => {
                proof {
                    assert(prev.remaining().len() > 0);
                }
                v.push(c);
                proof {
                    assert(v@ + it.remaining() =~= s@);
                }
            }
            None => {
                proof {
                    assert(prev.remaining().len() == 0);
                    assert(v@ =~= s@);
                }
                break;
            }
        }
    }
    v
}

/// Builds a `String` whose characters are exactly the given vector.
///
/// Relies on `String: FromIterator<char>`: collecting characters yields the
/// string of those characters in order.
#[verifier::external_body]
pub fn string_of(v: &Vec<char>) -> (s: String)
    ensures
        s@ == v@,
{
    v.iter().collect()
}

/// Checks a byte vector for well-formed UTF-8 and decodes it.
///
/// Relies on `String::from_utf8`: it returns `Ok` exactly on well-formed
/// UTF-8 input, and the returned string consists of exactly those bytes.
#[verifier::external_body]
pub fn string_from_utf8(b: Vec<u8>) -> (r: Option<String>)
    ensures
        r is Some <==> valid_utf8(b@),
        r is Some ==> encode_utf8(r->0@) == b@,
{
    match String::from_utf8(b) {
        Ok(s) => Some(s),
        Err(_) => None,
    }
}

/// The UTF-8 bytes of a string slice, as a vector.
pub fn bytes_of(s: &str) -> (b: Vec<u8>)
    ensures
        b@ == encode_utf8(s@),
        valid_utf8(b@),
{
    proof {
        encode_utf8_valid_utf8(s@);
    }
    s.as_bytes_vec()
}

/// The character for a decimal digit.
pub open spec fn digit_char(d: int) -> char {
    if d == 0 {
        '0'
    } else if d == 1 {
        '1'
    } else if d == 2 {
        '2'
    } else if d == 3 {
        '3'
    } else if d == 4 {
        '4'
    } else if d == 5 {
        '5'
    } else if d == 6 {
        '6'
    } else if d == 7 {
        '7'
    } else if d == 8 {
        '8'
    } else {
        '9'
    }
}

/// The decimal digits of a non-negative number, most significant first.
pub open spec fn dec_chars(n: int) -> Seq<char>
    recommends
        n >= 0,
    decreases n,
{
    if n < 10 {
        seq![digit_char(n)]
    } else {
        dec_chars(n / 10).push(digit_char(n % 10))
    }
}

/// Renders a number in decimal.
///
/// Relies on `itoa::Buffer::format`: it writes exactly the decimal digits
/// of the value.
#[verifier::external_body]
pub fn format_u64(n: u64) -> (s: String)
    ensures
        s@ == dec_chars(n as int),
{
    itoa::Buffer::new().format(n).to_owned()
}

/// Whether two character vectors hold the same characters.
pub fn chars_eq(a: &Vec<char>, b: &Vec<char>) -> (r: bool)
    ensures
        r == (a@ == b@),
{
    if a.len() != b.len() {
        return false;
    }
    let mut i: usize = 0;
    while i < a.len()
        invariant
            0 <= i <= a.len(),
            a.len() == b.len(),
            forall|j: int| 0 <= j < i ==> a@[j] == b@[j],
        decreases a.len() - i,
    {
        if a[i] != b[i] {
            return false;
        }
        i = i + 1;
    }
    proof {
        assert(a@ =~= b@);
    }
    true
}

/// Whether `a` begins with `b`.
pub fn chars_start_with(a: &Vec<char>, b: &Vec<char>) -> (r: bool)
    ensures
        r == (a@.len() >= b@.len() && a@.subrange(0, b@.len() as int) == b@),
{
    if a.len() < b.len() {
        return false;
    }
    let mut i: usize = 0;
    while i < b.len()
        invariant
            0 <= i <= b.len(),
            a.len() >= b.len(),
            forall|j: int| 0 <= j < i ==> a@[j] == b@[j],
        decreases b.len() - i,
    {
        if a[i] != b[i] {
            assert(a@.subrange(0, b@.len() as int)[i as int] != b@[i as int]);
            return false;
        }
        i = i + 1;
    }
    proof {
        assert(a@.subrange(0, b@.len() as int) =~= b@);
    }
    true
}

/// Whether `a` ends with `b`.
pub fn chars_end_with(a: &Vec<char>, b: &Vec<char>) -> (r: bool)
    ensures
        r == (a@.len() >= b@.len() && a@.subrange(a@.len() - b@.len(), a@.len() as int) == b@),
{
    if a.len() < b.len() {
        return false;
    }
    let off: usize = a.len() - b.len();
    let mut i: usize = 0;
    while i < b.len()
        invariant
            0 <= i <= b.len(),
            a.len() >= b.len(),
            off == a@.len() - b@.len(),
            forall|j: int| 0 <= j < i ==> a@[off + j] == b@[j],
        decreases b.len() - i,
    {
        if a[off + i] != b[i] {
            assert(a@.subrange(a@.len() - b@.len(), a@.len() as int)[i as int] != b@[i as int]);
            return false;
        }
        i = i + 1;
    }
    proof {
        assert(a@.subrange(a@.len() - b@.len(), a@.len() as int) =~= b@);
    }
    true
}

/// Appends the characters of `b` to `a`.
pub fn chars_extend(a: &mut Vec<char>, b: &Vec<char>)
    ensures
        final(a)@ == old(a)@ + b@,
{
    let ghost before = a@;
    let mut i: usize = 0;
    while i < b.len()
        invariant
            0 <= i <= b.len(),
            a@ == before + b@.subrange(0, i as int),
        decreases b.len() - i,
    {
        a.push(b[i]);
        proof {
            assert(a@ =~= before + b@.subrange(0, i as int + 1));
        }
        i = i + 1;
    }
    proof {
        assert(b@.subrange(0, b@.len() as int) =~= b@);
    }
}

/// Whether the character occurs in the vector.
pub fn chars_contain(a: &Vec<char>, c: char) -> (r: bool)
    ensures
        r == a@.contains(c),
{
    let mut i: usize = 0;
    while i < a.len()
        invariant
            0 <= i <= a.len(),
            forall|j: int| 0 <= j < i ==> a@[j] != c,
        decreases a.len() - i,
    {
        if a[i] == c {
            return true;
        }
        i = i + 1;
    }
    false
}


/// How often a character occurs in a sequence.
pub open spec fn spec_count_char(s: Seq<char>, c: char) -> int
    decreases s.len(),
{
    if s.len() == 0 {
        0
    } else {
        spec_count_char(s.drop_first(), c) + if s[0] == c {
            1int
        } else {
            0int
        }
    }
}

/// Counts a character's occurrences.
pub fn count_char(v: &Vec<char>, c: char) -> (r: usize)
    requires
        v@.len() <= usize::MAX,
    ensures
        r == spec_count_char(v@, c),
{
    proof {
        lemma_count_char_bound(v@, c);
        assert(v@.skip(0) =~= v@);
    }
    let mut cnt: usize = 0;
    let mut i: usize = 0;
    while i < v.len()
        invariant
            0 <= i <= v@.len(),
            spec_count_char(v@, c) == cnt + spec_count_char(v@.skip(i as int), c),
            cnt <= i,
        decreases v@.len() - i,
    {
        proof {
            assert(v@.skip(i as int)[0] == v@[i as int]);
            assert(v@.skip(i as int).drop_first() =~= v@.skip(i as int + 1));
            lemma_count_char_bound(v@.skip(i as int + 1), c);
        }
        if v[i] == c {
            cnt = cnt + 1;
        }
        i = i + 1;
    }
    proof {
        assert(v@.skip(v@.len() as int) =~= Seq::<char>::empty());
    }
    cnt
}

/// A count never exceeds the length, and never goes negative.
pub proof fn lemma_count_char_bound(s: Seq<char>, c: char)
    ensures
        0 <= spec_count_char(s, c) <= s.len(),
    decreases s.len(),
{
    if s.len() > 0 {
        lemma_count_char_bound(s.drop_first(), c);
    }
}
} // verus!

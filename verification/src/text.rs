//! Text helpers: building strings character by character, decimal rendering
//! of signed integers, and comparisons against string literals.

use vstd::prelude::*;

verus! {

/// Relies on String::push: appends the given character to the end of the string.
#[verifier::external_body]
pub fn push_char(s: &mut String, c: char)
    ensures
        final(s)@ == old(s)@.push(c),
{
    s.push(c);
}

/// The characters of a byte sequence, each byte read as the character with
/// that code.
pub open spec fn chars_of(bytes: Seq<u8>) -> Seq<char> {
    bytes.map_values(|b: u8| b as char)
}

/// Builds the string whose characters are the bytes of `v`, each read as the
/// character with that code.
pub fn bytes_to_string(v: &Vec<u8>) -> (s: String)
    ensures
        s@ == chars_of(v@),
{
    let mut s = String::new();
    let mut i: usize = 0;
    while i < v.len()
        invariant
            0 <= i <= v@.len(),
            s@ == chars_of(v@).take(i as int),
        decreases v@.len() - i,
    {
        push_char(&mut s, v[i] as char);
        i = i + 1;
        proof {
            assert(s@ =~= chars_of(v@).take(i as int));
        }
    }
    proof {
        assert(chars_of(v@).take(v@.len() as int) =~= chars_of(v@));
    }
    s
}

/// Whether a string equals a literal, stated over the views.
pub fn str_is(s: &String, w: &str) -> (r: bool)
    ensures
        r == (s@ == w@),
{
    let t = String::from_str(w);
    *s == t
}

/// The decimal digit character for a value in 0..9.
pub open spec fn digit_char(d: int) -> char {
    (48 + d) as char
}

/// The decimal rendering of a non-negative integer, most significant digit
/// first, with no sign and no leading zero except for zero itself.
pub open spec fn nat_string(n: int) -> Seq<char>
    decreases n,
{
    if n < 10 {
        seq![digit_char(if n >= 0 { n } else { 0 })]
    } else {
        nat_string(n / 10).push(digit_char(n % 10))
    }
}

/// The decimal rendering of a signed integer: a `-` sign before the digits
/// of its magnitude when negative.
pub open spec fn int_string(n: int) -> Seq<char> {
    if n < 0 {
        seq!['-'] + nat_string(-n)
    } else {
        nat_string(n)
    }
}

fn u32_to_string_rec(n: u32) -> (s: String)
    ensures
        s@ == nat_string(n as int),
    decreases n,
{
    if n < 10 {
        let mut s = String::new();
        push_char(&mut s, (48 + (n as u8)) as char);
        proof {
            assert(s@ =~= nat_string(n as int));
        }
        s
    } else {
        let mut s = u32_to_string_rec(n / 10);
        push_char(&mut s, (48 + ((n % 10) as u8)) as char);
        s
    }
}

/// Renders a signed 32-bit integer in decimal.
pub fn i32_to_string(n: i32) -> (s: String)
    ensures
        s@ == int_string(n as int),
{
    if n < 0 {
        let mut s = String::new();
        push_char(&mut s, '-');
        let m: u32 = (-(n as i64)) as u32;
        let digits = u32_to_string_rec(m);
        s.append(digits.as_str());
        proof {
            assert(s@ =~= int_string(n as int));
        }
        s
    } else {
        u32_to_string_rec(n as u32)
    }
}

} // verus!

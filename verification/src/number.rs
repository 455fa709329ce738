//! Numeric literal parsing.
//!
//! A word whose first byte is `#` is read as a base-16 literal: digits `0`-`9`
//! and `a`-`f` count, any other byte holds its position but contributes zero.
//! Any other word is read as a base-10 literal whose digits end at the first
//! `%` byte (a percentage suffix is accepted but not reflected in the value).
//! Values are expected to fit a signed 32-bit integer; the accumulation wraps
//! rather than fault when they do not.

use vstd::prelude::*;

verus! {

/// Base-16 value of one byte: `0`-`9` and `a`-`f`; any other byte counts zero.
pub open spec fn hex_digit(b: u8) -> i32 {
    if 48 <= b && b <= 57 {
        (b - 48) as i32
    } else if 97 <= b && b <= 102 {
        ((b - 97) + 10) as i32
    } else {
        0
    }
}

/// Base-10 value of one byte, as the offset from `0` wrapped to a byte.
pub open spec fn dec_digit(b: u8) -> i32 {
    b.wrapping_sub(48) as i32
}

/// Base-16 accumulation over `w` from position `i`, wrapping on overflow.
pub open spec fn hex_acc(w: Seq<u8>, i: int, acc: i32) -> i32
    decreases w.len() - i,
{
    if i < 0 || i >= w.len() {
        acc
    } else {
        hex_acc(w, i + 1, acc.wrapping_mul(16).wrapping_add(hex_digit(w[i])))
    }
}

/// Base-10 accumulation over `w` from position `i`, stopping at the first
/// `%` byte, wrapping on overflow.
pub open spec fn dec_acc(w: Seq<u8>, i: int, acc: i32) -> i32
    decreases w.len() - i,
{
    if i < 0 || i >= w.len() || w[i] == 37 {
        acc
    } else {
        dec_acc(w, i + 1, acc.wrapping_mul(10).wrapping_add(dec_digit(w[i])))
    }
}

/// The signed integer value of a word: base 16 after a leading `#`, else base 10.
pub open spec fn word_value(w: Seq<u8>) -> i32 {
    if w.len() > 0 && w[0] == 35 {
        hex_acc(w, 1, 0)
    } else {
        dec_acc(w, 0, 0)
    }
}

/// Base-16 accumulation as an unbounded integer, for stating when no wrap occurs.
pub open spec fn hex_acc_int(w: Seq<u8>, i: int, acc: int) -> int
    decreases w.len() - i,
{
    if i < 0 || i >= w.len() {
        acc
    } else {
        hex_acc_int(w, i + 1, acc * 16 + hex_digit(w[i]))
    }
}

/// Base-10 accumulation as an unbounded integer, for stating when no wrap occurs.
pub open spec fn dec_acc_int(w: Seq<u8>, i: int, acc: int) -> int
    decreases w.len() - i,
{
    if i < 0 || i >= w.len() || w[i] == 37 {
        acc
    } else {
        dec_acc_int(w, i + 1, acc * 10 + dec_digit(w[i]))
    }
}

/// The unbounded integer value of a word.
pub open spec fn word_value_int(w: Seq<u8>) -> int {
    if w.len() > 0 && w[0] == 35 {
        hex_acc_int(w, 1, 0)
    } else {
        dec_acc_int(w, 0, 0)
    }
}

proof fn lemma_hex_acc_int_grows(w: Seq<u8>, i: int, acc: int)
    requires
        acc >= 0,
    ensures
        hex_acc_int(w, i, acc) >= acc,
    decreases w.len() - i,
{
    if 0 <= i < w.len() {
        lemma_hex_acc_int_grows(w, i + 1, acc * 16 + hex_digit(w[i]));
    }
}

proof fn lemma_dec_acc_int_grows(w: Seq<u8>, i: int, acc: int)
    requires
        acc >= 0,
    ensures
        dec_acc_int(w, i, acc) >= acc,
    decreases w.len() - i,
{
    if 0 <= i < w.len() && w[i] != 37 {
        lemma_dec_acc_int_grows(w, i + 1, acc * 10 + dec_digit(w[i]));
    }
}

proof fn lemma_hex_acc_exact(w: Seq<u8>, i: int, acc: i32)
    requires
        acc >= 0,
        hex_acc_int(w, i, acc as int) <= i32::MAX,
    ensures
        hex_acc(w, i, acc) == hex_acc_int(w, i, acc as int),
    decreases w.len() - i,
{
    if 0 <= i < w.len() {
        let d = hex_digit(w[i]);
        let next = acc as int * 16 + d;
        lemma_hex_acc_int_grows(w, i + 1, next);
        assert((acc as int * 16) % 0x1_0000_0000 == acc as int * 16) by {
            vstd::arithmetic::div_mod::lemma_small_mod((acc as int * 16) as nat, 0x1_0000_0000);
        }
        assert(acc.wrapping_mul(16).wrapping_add(d as i32) == next as i32);
        lemma_hex_acc_exact(w, i + 1, next as i32);
    }
}

proof fn lemma_dec_acc_exact(w: Seq<u8>, i: int, acc: i32)
    requires
        acc >= 0,
        dec_acc_int(w, i, acc as int) <= i32::MAX,
    ensures
        dec_acc(w, i, acc) == dec_acc_int(w, i, acc as int),
    decreases w.len() - i,
{
    if 0 <= i < w.len() && w[i] != 37 {
        let d = dec_digit(w[i]);
        let next = acc as int * 10 + d;
        lemma_dec_acc_int_grows(w, i + 1, next);
        assert((acc as int * 10) % 0x1_0000_0000 == acc as int * 10) by {
            vstd::arithmetic::div_mod::lemma_small_mod((acc as int * 10) as nat, 0x1_0000_0000);
        }
        assert(acc.wrapping_mul(10).wrapping_add(d as i32) == next as i32);
        lemma_dec_acc_exact(w, i + 1, next as i32);
    }
}

/// A literal whose value fits the signed 32-bit width is read exactly: the
/// wrapping accumulation equals the unbounded positional value.
pub proof fn lemma_word_value_exact(w: Seq<u8>)
    requires
        word_value_int(w) <= i32::MAX,
    ensures
        word_value(w) == word_value_int(w),
{
    if w.len() > 0 && w[0] == 35 {
        lemma_hex_acc_exact(w, 1, 0);
    } else {
        lemma_dec_acc_exact(w, 0, 0);
    }
}

/// Reads the signed integer value of a non-empty word: exact whenever the
/// value fits the signed 32-bit width.
pub fn get_number(num: Vec<u8>) -> (r: i32)
    requires
        num@.len() > 0,
    ensures
        r == word_value(num@),
        word_value_int(num@) <= i32::MAX ==> r as int == word_value_int(num@),
{
    proof {
        if word_value_int(num@) <= i32::MAX {
            lemma_word_value_exact(num@);
        }
    }
    if num[0] == 35 {
        let mut acc: i32 = 0;
        let mut i: usize = 1;
        while i < num.len()
            invariant
                1 <= i <= num@.len(),
                hex_acc(num@, i as int, acc) == hex_acc(num@, 1, 0),
            decreases num@.len() - i,
        {
            let b = num[i];
            let d: i32 = if 48 <= b && b <= 57 {
                (b - 48) as i32
            } else if 97 <= b && b <= 102 {
                ((b - 97) as i32) + 10
            } else {
                0
            };
            acc = acc.wrapping_mul(16).wrapping_add(d);
            i = i + 1;
        }
        acc
    } else {
        let mut acc: i32 = 0;
        let mut i: usize = 0;
        while i < num.len() && num[i] != 37
            invariant
                0 <= i <= num@.len(),
                dec_acc(num@, i as int, acc) == dec_acc(num@, 0, 0),
            decreases num@.len() - i,
        {
            let d: i32 = num[i].wrapping_sub(48) as i32;
            acc = acc.wrapping_mul(10).wrapping_add(d);
            i = i + 1;
        }
        acc
    }
}

} // verus!

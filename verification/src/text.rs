//! Byte-level text helpers: ASCII case folding, case-insensitive
//! substring search, decimal formatting and decimal parsing.
//!
//! All visible row text is handled as bytes; case folding is ASCII-only.

use vstd::prelude::*;

verus! {

/// ASCII lower-casing of one byte.
pub open spec fn lower_byte_spec(b: u8) -> u8 {
    if 65 <= b <= 90 {
        (b + 32) as u8
    } else {
        b
    }
}

/// ASCII lower-casing of a byte sequence.
pub open spec fn lower_spec(s: Seq<u8>) -> Seq<u8> {
    s.map_values(|b: u8| lower_byte_spec(b))
}

/// `needle` occurs in `hay` starting at position `i`.
pub open spec fn match_at(hay: Seq<u8>, needle: Seq<u8>, i: int) -> bool {
    &&& 0 <= i
    &&& i + needle.len() <= hay.len()
    &&& forall|j: int| 0 <= j < needle.len() ==> hay[i + j] == needle[j]
}

/// `needle` is a substring of `hay`, comparing ASCII case-insensitively.
/// The empty needle is a substring of everything.
pub open spec fn contains_ci(hay: Seq<u8>, needle: Seq<u8>) -> bool {
    exists|i: int| match_at(lower_spec(hay), lower_spec(needle), i)
}

pub fn lower_byte(b: u8) -> (r: u8)
    ensures
        r == lower_byte_spec(b),
{
    if 65 <= b && b <= 90 {
        b + 32
    } else {
        b
    }
}

/// Case-insensitive substring test over byte slices.
pub fn contains_ci_bytes(hay: &[u8], needle: &[u8]) -> (r: bool)
    ensures
        r == contains_ci(hay@, needle@),
{
    let n = needle.len();
    let h = hay.len();
    if n > h {
        assert(!contains_ci(hay@, needle@)) by {
            assert(lower_spec(hay@).len() == hay@.len());
            assert(lower_spec(needle@).len() == needle@.len());
        }
        return false;
    }
    let mut i: usize = 0;
    while i <= h - n
        invariant
            n <= h,
            h == hay@.len(),
            n == needle@.len(),
            i <= h - n + 1,
            forall|p: int| 0 <= p < i ==> !match_at(lower_spec(hay@), lower_spec(needle@), p),
        decreases h - n - i + 1,
    {
        let mut j: usize = 0;
        let mut hit = true;
        while j < n
            invariant
                n <= h,
                h == hay@.len(),
                n == needle@.len(),
                i <= h - n,
                j <= n,
                hit <==> forall|q: int|
                    0 <= q < j ==> lower_spec(hay@)[i + q] == lower_spec(needle@)[q],
            decreases n - j,
        {
            if lower_byte(hay[i + j]) != lower_byte(needle[j]) {
                assert(lower_spec(hay@)[i + j] != lower_spec(needle@)[j as int]);
                hit = false;
                j = n;
            } else {
                assert(lower_spec(hay@)[i + j] == lower_byte_spec(hay@[i + j as int]));
                assert(lower_spec(needle@)[j as int] == lower_byte_spec(needle@[j as int]));
                j = j + 1;
            }
        }
        if hit {
            assert(match_at(lower_spec(hay@), lower_spec(needle@), i as int));
            return true;
        }
        i = i + 1;
    }
    assert(forall|p: int| !match_at(lower_spec(hay@), lower_spec(needle@), p));
    false
}

/// The decimal rendering of a number, as ASCII digit bytes.
pub open spec fn dec_spec(n: nat) -> Seq<u8>
    decreases n,
{
    if n < 10 {
        seq![(n + 48) as u8]
    } else {
        dec_spec(n / 10).push((n % 10 + 48) as u8)
    }
}

/// Renders `n` in decimal.
pub fn dec_u64(n: u64) -> (r: Vec<u8>)
    ensures
        r@ == dec_spec(n as nat),
    decreases n,
{
    if n < 10 {
        let mut v: Vec<u8> = Vec::new();
        v.push((n as u8) + 48);
        v
    } else {
        let mut v = dec_u64(n / 10);
        v.push(((n % 10) as u8) + 48);
        v
    }
}

/// The text showing a quantity counted in tenths, with one decimal
/// place: 25 tenths renders as the bytes of "2.5".
pub open spec fn tenths_text_spec(t: nat) -> Seq<u8> {
    dec_spec(t / 10).push(46u8).push((t % 10 + 48) as u8)
}

/// Renders a quantity of tenths with one decimal place.
pub fn tenths_text(t: u64) -> (r: Vec<u8>)
    ensures
        r@ == tenths_text_spec(t as nat),
{
    let mut v = dec_u64(t / 10);
    v.push(46);
    v.push(((t % 10) as u8) + 48);
    v
}

pub open spec fn is_digit_byte(b: u8) -> bool {
    48 <= b <= 57
}

pub open spec fn all_digits(s: Seq<u8>) -> bool {
    forall|i: int| 0 <= i < s.len() ==> is_digit_byte(s[i])
}

/// The numeric value of a digit string.
pub open spec fn digits_val(s: Seq<u8>) -> int
    decreases s.len(),
{
    if s.len() == 0 {
        0
    } else {
        digits_val(s.drop_last()) * 10 + (s.last() - 48)
    }
}

/// What parsing a byte string as an unsigned 32-bit decimal number
/// yields: `None` on an empty string, on any non-digit byte, and on
/// overflow, as the digit buffer of the kill-by-pid entry demands.
pub open spec fn parse_u32_spec(s: Seq<u8>) -> Option<u32> {
    if s.len() == 0 || !all_digits(s) {
        None
    } else if digits_val(s) > u32::MAX {
        None
    } else {
        Some(digits_val(s) as u32)
    }
}

proof fn lemma_digits_val_nonneg(s: Seq<u8>)
    requires
        all_digits(s),
    ensures
        digits_val(s) >= 0,
    decreases s.len(),
{
    if s.len() > 0 {
        assert(all_digits(s.drop_last()));
        lemma_digits_val_nonneg(s.drop_last());
    }
}

/// A digit string's value is at least the value of any of its prefixes.
proof fn lemma_digits_val_prefix(s: Seq<u8>, i: int)
    requires
        all_digits(s),
        0 <= i <= s.len(),
    ensures
        digits_val(s) >= digits_val(s.take(i)),
    decreases s.len() - i,
{
    if i < s.len() {
        lemma_digits_val_prefix(s, i + 1);
        assert(s.take(i + 1).drop_last() =~= s.take(i));
        assert(s.take(i + 1).last() == s[i]);
        assert(all_digits(s.take(i)));
        lemma_digits_val_nonneg(s.take(i));
        assert(digits_val(s.take(i + 1)) == digits_val(s.take(i)) * 10 + (s[i] - 48));
        assert(digits_val(s.take(i)) * 10 >= digits_val(s.take(i)));
    } else {
        assert(s.take(i) =~= s);
    }
}

/// Parses a decimal byte string into a `u32`.
pub fn parse_u32(s: &[u8]) -> (r: Option<u32>)
    ensures
        r == parse_u32_spec(s@),
{
    if s.len() == 0 {
        return None;
    }
    let mut acc: u64 = 0;
    let mut i: usize = 0;
    while i < s.len()
        invariant
            0 < s@.len(),
            i <= s@.len(),
            all_digits(s@.take(i as int)),
            acc == digits_val(s@.take(i as int)),
            acc <= u32::MAX,
        decreases s@.len() - i,
    {
        let b = s[i];
        if b < 48 || b > 57 {
            assert(!all_digits(s@));
            return None;
        }
        acc = acc * 10 + ((b - 48) as u64);
        proof {
            assert(s@.take(i + 1).drop_last() =~= s@.take(i as int));
            assert(s@.take(i + 1).last() == s@[i as int]);
            assert(all_digits(s@.take(i + 1)));
        }
        i = i + 1;
        if acc > 0xffff_ffff {
            proof {
                if all_digits(s@) {
                    lemma_digits_val_prefix(s@, i as int);
                    assert(s@.take(s@.len() as int) =~= s@);
                    assert(digits_val(s@) > u32::MAX);
                }
            }
            return None;
        }
    }
    proof {
        assert(s@.take(s@.len() as int) =~= s@);
    }
    Some(acc as u32)
}

} // verus!

//! Character-level helpers: moving between `str`/`String` and vectors of
//! characters, and decimal formatting of integers.  The two conversions are
//! the only trusted code in this module; everything that computes is
//! verified against character-sequence specifications.

use vstd::prelude::*;
use vstd::string::{StrSliceExecFns, StringExecFns};

verus! {

/// Relies on `str::chars`: yields exactly the characters of the string, in
/// order.  A vector of 4-byte characters holds fewer than `usize::MAX / 4`
/// of them, since an allocation is at most `isize::MAX` bytes.
#[verifier::external_body]
pub fn chars_vec(s: &str) -> (v: Vec<char>)
    ensures
        v@ == s@,
        v@.len() < usize::MAX as int / 4,
{
    s.chars().collect()
}

/// Relies on `FromIterator for String`: collecting characters builds the
/// string with exactly those characters, in order.
#[verifier::external_body]
pub fn chars_to_string(v: &Vec<char>) -> (s: String)
    ensures
        s@ == v@,
{
    v.iter().collect()
}

/// The character for one decimal digit.
pub open spec fn digit_char(d: int) -> char {
    ((48 + d) as u8) as char
}

/// The decimal digits of `n`, most significant first.
pub open spec fn dec_digits(n: int) -> Seq<char>
    decreases n,
{
    if n < 10 {
        seq![digit_char(if n >= 0 { n } else { 0 })]
    } else {
        dec_digits(n / 10).push(digit_char(n % 10))
    }
}

/// The decimal rendering of an integer, with a leading minus sign when
/// negative.
pub open spec fn int_display(i: int) -> Seq<char> {
    if i < 0 {
        seq!['-'] + dec_digits(-i)
    } else {
        dec_digits(i)
    }
}

/// The decimal digits of `m`.
pub fn format_u64(m: u64) -> (r: String)
    ensures
        r@ == dec_digits(m as int),
{
    let mut m = m;
    let ghost m0 = m as int;
    let mut rev: Vec<char> = Vec::new();
    if m == 0 {
        rev.push('0');
        assert(rev@ =~= dec_digits(m0).reverse());
    } else {
        while m > 0
            invariant
                0 <= m <= m0,
                m0 > 0,
                m > 0 ==> dec_digits(m0) =~= dec_digits(m as int) + rev@.reverse(),
                m == 0 ==> dec_digits(m0) =~= rev@.reverse(),
            decreases m,
        {
            let d = m % 10;
            let c = (48u8 + d as u8) as char;
            assert(c == digit_char(d as int));
            let ghost prev_rev = rev@;
            let ghost prev_m = m as int;
            rev.push(c);
            m = m / 10;
            proof {
                assert(rev@ =~= prev_rev.push(c));
                assert(rev@.reverse() =~= seq![c] + prev_rev.reverse());
                if prev_m >= 10 {
                    assert(dec_digits(prev_m) == dec_digits(prev_m / 10).push(
                        digit_char(prev_m % 10),
                    ));
                    assert(dec_digits(m as int) + rev@.reverse() =~= (dec_digits(prev_m / 10).push(
                        digit_char(prev_m % 10),
                    )) + prev_rev.reverse());
                } else {
                    assert(dec_digits(prev_m) =~= seq![c]);
                    assert(m == 0);
                    assert(dec_digits(m0) =~= rev@.reverse());
                }
            }
        }
    }
    let mut out: Vec<char> = Vec::new();
    let ghost sign = out@;
    let mut j: usize = rev.len();
    while j > 0
        invariant
            j <= rev@.len(),
            out@ =~= sign + rev@.reverse().take(rev@.len() - j),
        decreases j,
    {
        j = j - 1;
        out.push(rev[j]);
        proof {
            assert(rev@.reverse()[rev@.len() - 1 - j] == rev@[j as int]);
            assert(out@ =~= sign + rev@.reverse().take(rev@.len() - j));
        }
    }
    proof {
        assert(rev@.reverse().take(rev@.len() as int) =~= rev@.reverse());
        assert(out@ =~= sign + rev@.reverse());
        assert(rev@.reverse() =~= dec_digits(m0));
        assert(out@ =~= dec_digits(m0));
    }
    chars_to_string(&out)
}

/// The decimal rendering of `x`.
pub fn format_i64(x: i64) -> (r: String)
    ensures
        r@ == int_display(x as int),
{
    if x >= 0 {
        format_u64(x as u64)
    } else {
        let m: u64 = (-(x as i128)) as u64;
        let digits = format_u64(m);
        let sign = "-".to_owned();
        let r = sign.concat(digits.as_str());
        proof {
            assert("-"@ =~= seq!['-']) by {
                reveal_strlit("-");
            }
            assert(r@ =~= seq!['-'] + dec_digits(-(x as int)));
        }
        r
    }
}

/// The decimal rendering of an index or count.
pub fn format_usize(x: usize) -> (r: String)
    ensures
        r@ == int_display(x as int),
{
    format_u64(x as u64)
}

/// `n` spaces.
pub open spec fn spaces(n: int) -> Seq<char>
    decreases n,
{
    if n <= 0 {
        Seq::empty()
    } else {
        spaces(n - 1).push(' ')
    }
}

/// `s`, padded on the left with spaces up to `width` characters.
pub open spec fn pad_left_spec(s: Seq<char>, width: int) -> Seq<char> {
    if s.len() >= width {
        s
    } else {
        spaces(width - s.len()) + s
    }
}

/// Pad a string on the left with spaces up to `width` characters.
pub fn pad_left(s: &str, width: usize) -> (r: String)
    ensures
        r@ == pad_left_spec(s@, width as int),
{
    let n = s.unicode_len();
    if n >= width {
        let r = s.to_owned();
        proof {
            assert(r@ == pad_left_spec(s@, width as int));
        }
        return r;
    }
    let mut out = String::new();
    let mut i: usize = 0;
    while i < width - n
        invariant
            n < width,
            i <= width - n,
            out@ =~= spaces(i as int),
        decreases width - n - i,
    {
        out.append(" ");
        proof {
            assert(" "@ =~= seq![' ']) by {
                reveal_strlit(" ");
            }
            assert(out@ =~= spaces(i + 1));
        }
        i = i + 1;
    }
    out.append(s);
    proof {
        assert(out@ =~= spaces(width - s@.len()) + s@);
    }
    out
}

} // verus!

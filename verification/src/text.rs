//! Small verified text utilities shared by the library: character-exact
//! string comparison and conversion between strings and character vectors.

use vstd::prelude::*;
use vstd::string::StrSliceExecFns;

verus! {

/// Character-exact equality of two string slices.
pub fn str_eq(a: &str, b: &str) -> (r: bool)
    ensures
        r == (a@ == b@),
{
    let alen = a.unicode_len();
    let blen = b.unicode_len();
    if alen != blen {
        return false;
    }
    let mut i: usize = 0;
    while i < alen
        invariant
            alen == a@.len(),
            blen == b@.len(),
            alen == blen,
            i <= alen,
            forall|k: int| 0 <= k < i ==> a@[k] == b@[k],
        decreases alen - i,
    {
        if a.get_char(i) != b.get_char(i) {
            return false;
        }
        i += 1;
    }
    proof {
        assert(a@ =~= b@);
    }
    true
}

/// The characters of a string slice, in order, as a vector.
pub fn str_to_chars(s: &str) -> (v: Vec<char>)
    ensures
        v@ == s@,
{
    let len = s.unicode_len();
    let mut v: Vec<char> = Vec::new();
    let mut i: usize = 0;
    while i < len
        invariant
            len == s@.len(),
            i <= len,
            v@ == s@.take(i as int),
        decreases len - i,
    {
        v.push(s.get_char(i));
        proof {
            assert(v@ =~= s@.take(i as int + 1));
        }
        i += 1;
    }
    proof {
        assert(s@.take(len as int) =~= s@);
    }
    v
}

/// Relies on `String`'s `FromIterator<char>`: collecting characters yields
/// the string of exactly those characters in order.
#[verifier::external_body]
pub fn string_from_chars(v: &Vec<char>) -> (s: String)
    ensures
        s@ == v@,
{
    v.iter().collect()
}

/// Whether the list holds this exact string.
pub open spec fn spec_contains_str(l: Seq<Seq<char>>, x: Seq<char>) -> bool {
    exists|i: int| 0 <= i < l.len() && l[i] == x
}

/// Whether the list holds an exact match of `x`.
pub fn contains_str(list: &Vec<String>, x: &str) -> (b: bool)
    ensures
        b == spec_contains_str(list.deep_view(), x@),
{
    let n = list.len();
    let mut i: usize = 0;
    while i < n
        invariant
            n == list@.len(),
            i <= n,
            forall|k: int| 0 <= k < i ==> list@[k]@ != x@,
        decreases n - i,
    {
        if str_eq(list[i].as_str(), x) {
            assert(list.deep_view()[i as int] == list@[i as int]@);
            return true;
        }
        i += 1;
    }
    assert(forall|k: int| 0 <= k < list.deep_view().len() ==> list.deep_view()[k] == list@[k]@);
    false
}

/// The character for one decimal digit.
pub open spec fn spec_digit_char(d: int) -> char {
    if d == 0 {
        '0'
    } else if d == 1 {
        '1'
    } else if d == 2 {
        '2'
    } else if d == 3 {
        '3'
    } else if d == 4 {
        '4'
    } else if d == 5 {
        '5'
    } else if d == 6 {
        '6'
    } else if d == 7 {
        '7'
    } else if d == 8 {
        '8'
    } else {
        '9'
    }
}

/// The decimal digits of a non-negative number, most significant first.
pub open spec fn spec_decimal(n: int) -> Seq<char>
    decreases n,
{
    if n < 10 {
        seq![spec_digit_char(n)]
    } else {
        spec_decimal(n / 10) + seq![spec_digit_char(n % 10)]
    }
}

fn digit_char(d: u16) -> (c: char)
    requires
        d < 10,
    ensures
        c == spec_digit_char(d as int),
{
    if d == 0 {
        '0'
    } else if d == 1 {
        '1'
    } else if d == 2 {
        '2'
    } else if d == 3 {
        '3'
    } else if d == 4 {
        '4'
    } else if d == 5 {
        '5'
    } else if d == 6 {
        '6'
    } else if d == 7 {
        '7'
    } else if d == 8 {
        '8'
    } else {
        '9'
    }
}

/// The characters of a sequence in reverse order.
pub open spec fn spec_rev_chars(s: Seq<char>) -> Seq<char> {
    Seq::new(s.len(), |i: int| s[s.len() - 1 - i])
}

/// The decimal text of a port or other 16-bit number.
pub fn u16_to_string(x: u16) -> (r: String)
    ensures
        r@ == spec_decimal(x as int),
{
    let mut digits: Vec<char> = Vec::new();
    let mut val: u16 = x;
    proof {
        assert(spec_rev_chars(digits@) =~= Seq::<char>::empty());
    }
    loop
        invariant_except_break
            spec_decimal(x as int) == spec_decimal(val as int) + spec_rev_chars(digits@),
        ensures
            spec_decimal(x as int) == spec_rev_chars(digits@),
        decreases val,
    {
        let ghost digits0 = digits@;
        let ghost val0 = val;
        let d = val % 10;
        digits.push(digit_char(d));
        val = val / 10;
        proof {
            assert(spec_rev_chars(digits@) =~= seq![spec_digit_char(d as int)] + spec_rev_chars(
                digits0,
            ));
        }
        if val == 0 {
            proof {
                assert(val0 < 10);
                assert(spec_decimal(val0 as int) == seq![spec_digit_char(d as int)]);
                assert(spec_decimal(x as int) =~= spec_rev_chars(digits@));
            }
            break;
        }
        proof {
            assert(spec_decimal(val0 as int) == spec_decimal(val as int) + seq![
                spec_digit_char(d as int),
            ]);
            assert(spec_decimal(val as int) + seq![spec_digit_char(d as int)] + spec_rev_chars(
                digits0,
            ) =~= spec_decimal(val as int) + spec_rev_chars(digits@));
        }
    }
    let n = digits.len();
    let mut out: Vec<char> = Vec::new();
    let mut j: usize = 0;
    proof {
        assert(out@ =~= spec_rev_chars(digits@).take(0));
    }
    while j < n
        invariant
            n == digits@.len(),
            j <= n,
            spec_decimal(x as int) == spec_rev_chars(digits@),
            out@ == spec_rev_chars(digits@).take(j as int),
        decreases n - j,
    {
        out.push(digits[n - 1 - j]);
        proof {
            assert(out@ =~= spec_rev_chars(digits@).take(j as int + 1));
        }
        j += 1;
    }
    proof {
        assert(spec_rev_chars(digits@).take(n as int) =~= spec_rev_chars(digits@));
    }
    string_from_chars(&out)
}

} // verus!

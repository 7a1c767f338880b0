//! Small helpers for moving between strings and character vectors.
//!
//! The library's text processing (wire codec, Markdown conversion, splitting)
//! works over vectors of characters, whose views are the same `Seq<char>` as
//! the views of the strings they came from.

use vstd::prelude::*;

verus! {

/// Collect the characters of a string slice into a vector.
pub fn str_to_chars(s: &str) -> (r: Vec<char>)
    ensures
        r@ == s@,
{
    let n = s.unicode_len();
    let mut v: Vec<char> = Vec::new();
    let mut i: usize = 0;
    while i < n
        invariant
            n == s@.len(),
            i <= n,
            v@ == s@.subrange(0, i as int),
        decreases n - i,
    {
        let c = s.get_char(i);
        v.push(c);
        i += 1;
    }
    assert(v@ =~= s@);
    v
}

/// Relies on `Iterator::collect` for `String`: the collected string holds
/// exactly the characters of the slice, in order.
#[verifier::external_body]
pub fn chars_to_string(v: &Vec<char>) -> (r: String)
    ensures
        r@ == v@,
{
    v.iter().collect()
}

/// Append every character of `src` to `dst`.
pub fn push_all(dst: &mut Vec<char>, src: &Vec<char>)
    ensures
        final(dst)@ == old(dst)@ + src@,
{
    let mut i: usize = 0;
    while i < src.len()
        invariant
            i <= src@.len(),
            dst@ == old(dst)@ + src@.subrange(0, i as int),
        decreases src@.len() - i,
    {
        dst.push(src[i]);
        i += 1;
    }
    assert(dst@ =~= old(dst)@ + src@);
}

/// Append every character of the string slice `src` to `dst`.
pub fn push_str_chars(dst: &mut Vec<char>, src: &str)
    ensures
        final(dst)@ == old(dst)@ + src@,
{
    let n = src.unicode_len();
    let mut i: usize = 0;
    while i < n
        invariant
            n == src@.len(),
            i <= n,
            dst@ == old(dst)@ + src@.subrange(0, i as int),
        decreases n - i,
    {
        dst.push(src.get_char(i));
        i += 1;
    }
    assert(dst@ =~= old(dst)@ + src@);
}

/// Copy the characters of `s` in positions `a .. b` into a fresh vector.
pub fn subvec(s: &Vec<char>, a: usize, b: usize) -> (r: Vec<char>)
    requires
        a <= b <= s@.len(),
    ensures
        r@ == s@.subrange(a as int, b as int),
{
    let mut v: Vec<char> = Vec::new();
    let mut i: usize = a;
    while i < b
        invariant
            a <= i <= b <= s@.len(),
            v@ == s@.subrange(a as int, i as int),
        decreases b - i,
    {
        v.push(s[i]);
        assert(v@ =~= s@.subrange(a as int, i + 1));
        i += 1;
    }
    v
}

/// Whether two character vectors hold the same characters.
pub fn chars_eq(a: &Vec<char>, b: &Vec<char>) -> (r: bool)
    ensures
        r == (a@ == b@),
{
    if a.len() != b.len() {
        assert(a@ != b@);
        return false;
    }
    let mut i: usize = 0;
    while i < a.len()
        invariant
            i <= a@.len(),
            a@.len() == b@.len(),
            forall|k: int| 0 <= k < i ==> a@[k] == b@[k],
        decreases a@.len() - i,
    {
        if a[i] != b[i] {
            return false;
        }
        i += 1;
    }
    assert(a@ =~= b@);
    true
}

/// Whether `a` holds exactly the characters of the string slice `b`.
pub fn chars_eq_str(a: &Vec<char>, b: &str) -> (r: bool)
    ensures
        r == (a@ == b@),
{
    let n = b.unicode_len();
    if a.len() != n {
        assert(a@ != b@);
        return false;
    }
    let mut i: usize = 0;
    while i < n
        invariant
            n == b@.len(),
            i <= n,
            a@.len() == b@.len(),
            forall|k: int| 0 <= k < i ==> a@[k] == b@[k],
        decreases n - i,
    {
        if a[i] != b.get_char(i) {
            return false;
        }
        i += 1;
    }
    assert(a@ =~= b@);
    true
}

/// Whether a string slice is non-empty.
pub fn str_len_positive(s: &str) -> (r: bool)
    ensures
        r == (s@.len() > 0),
{
    !s.is_empty()
}

/// Decimal digit character for a value below ten.
pub open spec fn spec_digit_char(v: nat) -> char {
    crate::codec::hex_digit_char(v as u32)
}

/// Decimal digits of a number, most significant first.
pub open spec fn spec_dec(n: nat) -> Seq<char>
    decreases n,
{
    if n < 10 {
        seq![spec_digit_char(n)]
    } else {
        spec_dec(n / 10) + seq![spec_digit_char(n % 10)]
    }
}

/// Decimal digits of a number.
pub fn dec_chars(n: u64) -> (r: Vec<char>)
    ensures
        r@ == spec_dec(n as nat),
    decreases n,
{
    if n < 10 {
        let mut v: Vec<char> = Vec::new();
        v.push(crate::codec::hex_char(n as u32));
        assert(v@ =~= seq![spec_digit_char(n as nat)]);
        v
    } else {
        let mut v = dec_chars(n / 10);
        v.push(crate::codec::hex_char((n % 10) as u32));
        assert(v@ =~= spec_dec((n / 10) as nat) + seq![spec_digit_char((n % 10) as nat)]);
        v
    }
}

/// Decimal digits of a wide number.
pub fn dec_chars_u128(n: u128) -> (r: Vec<char>)
    ensures
        r@ == spec_dec(n as nat),
    decreases n,
{
    if n < 10 {
        let mut v: Vec<char> = Vec::new();
        v.push(crate::codec::hex_char(n as u32));
        assert(v@ =~= seq![spec_digit_char(n as nat)]);
        v
    } else {
        let mut v = dec_chars_u128(n / 10);
        v.push(crate::codec::hex_char((n % 10) as u32));
        assert(v@ =~= spec_dec((n / 10) as nat) + seq![spec_digit_char((n % 10) as nat)]);
        v
    }
}

/// First index at or after `from` where `pat` occurs in `s`.
pub open spec fn spec_find(s: Seq<char>, pat: Seq<char>, from: int) -> Option<int>
    decreases s.len() - from + 1,
{
    if from < 0 || from + pat.len() > s.len() {
        None
    } else if s.subrange(from, from + pat.len()) == pat {
        Some(from)
    } else {
        spec_find(s, pat, from + 1)
    }
}

/// Replace every occurrence of `pat` (left to right, without overlap) by
/// `sub`.
pub open spec fn spec_replace_all(s: Seq<char>, pat: Seq<char>, sub: Seq<char>) -> Seq<char>
    decreases s.len(),
{
    if pat.len() == 0 {
        s
    } else {
        match spec_find(s, pat, 0) {
            None => s,
            Some(k) => if k < 0 || k + pat.len() > s.len() {
                s
            } else {
                s.subrange(0, k) + sub + spec_replace_all(s.skip(k + pat.len()), pat, sub)
            },
        }
    }
}

/// Whether `pat` occurs at position `k` of `s`.
pub fn matches_at(s: &Vec<char>, pat: &Vec<char>, k: usize) -> (r: bool)
    requires
        k + pat@.len() <= s@.len(),
    ensures
        r == (s@.subrange(k as int, k as int + pat@.len() as int) == pat@),
{
    let n = s.len();
    let mut j: usize = 0;
    while j < pat.len()
        invariant
            n == s@.len(),
            j <= pat@.len(),
            k + pat@.len() <= s@.len(),
            forall|m: int| 0 <= m < j ==> s@[k + m] == pat@[m],
        decreases pat@.len() - j,
    {
        if s[k + j] != pat[j] {
            proof {
                let sr = s@.subrange(k as int, k as int + pat@.len() as int);
                assert(sr[j as int] != pat@[j as int]);
            }
            return false;
        }
        j += 1;
    }
    assert(s@.subrange(k as int, k as int + pat@.len() as int) =~= pat@);
    true
}

/// First occurrence of `pat` in `s` at or after `from`.
pub fn find_from(s: &Vec<char>, pat: &Vec<char>, from: usize) -> (r: Option<usize>)
    requires
        from <= s@.len(),
        pat@.len() > 0,
    ensures
        (match r {
            None => spec_find(s@, pat@, from as int) is None,
            Some(k) => spec_find(s@, pat@, from as int) == Some(k as int) && from <= k
                && k + pat@.len() <= s@.len(),
        }),
{
    let n = s.len();
    let m = pat.len();
    let mut k = from;
    loop
        invariant
            n == s@.len(),
            m == pat@.len(),
            m > 0,
            from <= k <= s@.len(),
            spec_find(s@, pat@, from as int) == spec_find(s@, pat@, k as int),
        decreases s@.len() - k,
    {
        if m > n - k {
            return None;
        }
        if matches_at(s, pat, k) {
            return Some(k);
        }
        assert(spec_find(s@, pat@, k as int) == spec_find(s@, pat@, k + 1));
        k += 1;
    }
}

/// Replace every occurrence of `pat` by `sub`.
pub fn replace_all(s: &Vec<char>, pat: &Vec<char>, sub: &Vec<char>) -> (r: Vec<char>)
    requires
        pat@.len() > 0,
    ensures
        r@ == spec_replace_all(s@, pat@, sub@),
{
    let mut out: Vec<char> = Vec::new();
    let mut rem = subvec(s, 0, s.len());
    proof {
        assert(rem@ =~= s@);
        assert(Seq::<char>::empty() + spec_replace_all(s@, pat@, sub@) =~= spec_replace_all(
            s@,
            pat@,
            sub@,
        ));
    }
    loop
        invariant
            pat@.len() > 0,
            out@ + spec_replace_all(rem@, pat@, sub@) == spec_replace_all(s@, pat@, sub@),
        decreases rem@.len(),
    {
        match find_from(&rem, pat, 0) {
            None => {
                proof {
                    assert(out@ + rem@ =~= out@ + spec_replace_all(rem@, pat@, sub@));
                }
                push_all(&mut out, &rem);
                return out;
            },
            Some(k) => {
                let rl = rem.len();
                let pre = subvec(&rem, 0, k);
                let next = subvec(&rem, k + pat.len(), rl);
                proof {
                    assert(next@ =~= rem@.skip(k as int + pat@.len() as int));
                    assert((out@ + (rem@.subrange(0, k as int) + sub@ + spec_replace_all(
                        next@,
                        pat@,
                        sub@,
                    ))) =~= ((out@ + rem@.subrange(0, k as int)) + sub@) + spec_replace_all(
                        next@,
                        pat@,
                        sub@,
                    ));
                }
                push_all(&mut out, &pre);
                push_all(&mut out, sub);
                rem = next;
            },
        }
    }
}

} // verus!

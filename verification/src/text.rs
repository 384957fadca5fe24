//! Building text: appending, removing the last character, numbers in decimal,
//! prefixes and searching.

use vstd::prelude::*;

verus! {

/// Calls `String::push`.  Claimed: the character is appended.
#[verifier::external_body]
pub fn push_char(s: &mut String, c: char)
    ensures
        final(s)@ == old(s)@.push(c),
{
    s.push(c);
}

/// Calls `String::pop`.  Claimed: the last character, if any, is removed and returned.
#[verifier::external_body]
pub fn pop_char(s: &mut String) -> (c: Option<char>)
    ensures
        old(s)@.len() == 0 ==> c is None && final(s)@ == old(s)@,
        old(s)@.len() > 0 ==> c == Some(old(s)@.last()) && final(s)@ == old(s)@.drop_last(),
{
    s.pop()
}

/// Appends a string.
pub fn push_str(s: &mut String, t: &str)
    ensures
        final(s)@ == old(s)@ + t@,
{
    s.append(t);
}

/// The decimal digit of a value below 10.
pub open spec fn digit_char(d: int) -> char {
    (d + '0' as u32) as char
}

/// The decimal text of a number, without leading zeros ("0" for zero).
pub open spec fn decimal(n: nat) -> Seq<char>
    decreases n,
{
    if n < 10 {
        seq![digit_char(n as int)]
    } else {
        decimal(n / 10).push(digit_char((n % 10) as int))
    }
}

/// The decimal text of a number.
pub fn decimal_text(n: u64) -> (text: String)
    ensures
        text@ == decimal(n as nat),
{
    // digits, least significant first
    let mut digits: Vec<char> = Vec::new();
    let mut m: u64 = n;
    let ghost mut rest: Seq<char> = Seq::empty();
    loop
        invariant_except_break
            m <= n,
            decimal(n as nat) == decimal(m as nat) + rest,
            digits@ == rest.reverse(),
        ensures
            decimal(n as nat) == rest,
            digits@ == rest.reverse(),
        decreases m,
    {
        let d: u64 = m % 10;
        let c: char = if d == 0 { '0' } else if d == 1 { '1' } else if d == 2 { '2' } else if d == 3 {
            '3'
        } else if d == 4 { '4' } else if d == 5 { '5' } else if d == 6 { '6' } else if d == 7 { '7' } else if d == 8 {
            '8'
        } else { '9' };
        assert(c == digit_char(d as int));
        proof {
            if m >= 10 {
                assert(decimal(m as nat) == decimal((m / 10) as nat).push(c));
                assert(decimal((m / 10) as nat).push(c) + rest =~= decimal((m / 10) as nat) + (
                seq![c] + rest));
            } else {
                assert(decimal(m as nat) == seq![c]);
                assert(decimal(m as nat) + rest =~= seq![c] + rest);
            }
            assert((seq![c] + rest).reverse() =~= rest.reverse().push(c));
            rest = seq![c] + rest;
        }
        digits.push(c);
        if m < 10 {
            assert(decimal(n as nat) =~= rest);
            break;
        }
        m = m / 10;
    }
    let mut text = String::new();
    let mut i: usize = digits.len();
    while i > 0
        invariant
            i <= digits.len(),
            digits@ == rest.reverse(),
            text@ =~= rest.take((digits.len() - i) as int),
            decimal(n as nat) == rest,
        decreases i,
    {
        i = i - 1;
        push_char(&mut text, digits[i]);
        assert(rest.take((digits.len() - i) as int) =~= rest.take((digits.len() - i - 1) as int).push(
            rest[(digits.len() - i - 1) as int],
        ));
    }
    assert(rest.take(digits.len() as int) =~= rest);
    text
}

/// Whether `needle` occurs in `hay` as a contiguous run.
pub open spec fn occurs_in(needle: Seq<char>, hay: Seq<char>) -> bool {
    exists|i: int| 0 <= i && i + needle.len() <= hay.len() && #[trigger] hay.subrange(i, i + needle.len()) == needle
}

/// Whether `needle` matches `hay` at position `at`.
pub open spec fn matches_at(needle: Seq<char>, hay: Seq<char>, at: int) -> bool {
    0 <= at && at + needle.len() <= hay.len() && hay.subrange(at, at + needle.len()) == needle
}

/// Searches for `needle` in `hay`, as `str::contains` does.
pub fn contains(hay: &str, needle: &str) -> (r: bool)
    ensures
        r == occurs_in(needle@, hay@),
{
    let hay_len = hay.unicode_len();
    let needle_len = needle.unicode_len();
    if needle_len > hay_len {
        proof {
            if occurs_in(needle@, hay@) {
                let i = choose|i: int| 0 <= i && i + needle@.len() <= hay@.len() && #[trigger] hay@.subrange(i, i + needle@.len()) == needle@;
            }
        }
        return false;
    }
    if needle_len == 0 {
        assert(hay@.subrange(0int, 0int + needle@.len()) =~= needle@);
        return true;
    }
    let mut start: usize = 0;
    while start <= hay_len - needle_len
        invariant
            hay_len == hay@.len(),
            needle_len == needle@.len(),
            0 < needle_len <= hay_len,
            start <= hay_len - needle_len + 1,
            hay_len - needle_len + 1 <= usize::MAX,
            forall|i: int| 0 <= i < start ==> !matches_at(needle@, hay@, i),
        decreases hay_len + 1 - start,
    {
        let mut j: usize = 0;
        let mut same = true;
        while j < needle_len
            invariant
                hay_len == hay@.len(),
                needle_len == needle@.len(),
                start + needle_len <= hay_len,
                j <= needle_len,
                same ==> forall|k: int| 0 <= k < j ==> hay@[start + k] == needle@[k],
                !same ==> !matches_at(needle@, hay@, start as int),
            decreases needle_len - j,
        {
            if hay.get_char(start + j) != needle.get_char(j) {
                if same {
                    assert(hay@.subrange(start as int, start + needle@.len())[j as int] == hay@[start + j]);
                }
                same = false;
            }
            j = j + 1;
        }
        if same {
            assert(hay@.subrange(start as int, start + needle@.len()) =~= needle@);
            assert(matches_at(needle@, hay@, start as int));
            return true;
        }
        start = start + 1;
    }
    proof {
        if occurs_in(needle@, hay@) {
            let i = choose|i: int| 0 <= i && i + needle@.len() <= hay@.len() && #[trigger] hay@.subrange(i, i + needle@.len()) == needle@;
            assert(matches_at(needle@, hay@, i));
        }
    }
    false
}

/// The first `n` characters of a string, or all of it if it is shorter.
pub open spec fn prefix(s: Seq<char>, n: nat) -> Seq<char> {
    if s.len() <= n {
        s
    } else {
        s.take(n as int)
    }
}

/// The first `n` characters of `s` (all of `s` if it is shorter), as the
/// precision of a `{:.n}` format does.
pub fn truncate_chars(s: &str, n: usize) -> (r: String)
    ensures
        r@ == prefix(s@, n as nat),
{
    let len = s.unicode_len();
    let end = if len <= n { len } else { n };
    let sub = s.substring_char(0, end);
    let r = sub.to_string();
    proof {
        vstd::string::to_string_from_display_ensures_for_str(sub, r);
        if len <= n {
            assert(s@.subrange(0, end as int) =~= s@);
        }
    }
    r
}

} // verus!

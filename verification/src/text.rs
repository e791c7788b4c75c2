//! Small executable helpers on strings and characters.

use vstd::prelude::*;

verus! {

/// Relies on String::push: appends one character to the end of the string.
#[verifier::external_body]
pub fn push_char(s: &mut String, c: char)
    ensures
        final(s)@ == old(s)@.push(c),
{
    s.push(c);
}

/// Character-by-character equality of two string slices.
pub fn str_eq(a: &str, b: &str) -> (r: bool)
    ensures
        r == (a@ == b@),
{
    let n = a.unicode_len();
    let m = b.unicode_len();
    if n != m {
        assert(a@ != b@) by {
            assert(a@.len() != b@.len());
        }
        return false;
    }
    let mut i: usize = 0;
    while i < n
        invariant
            n == a@.len(),
            n == b@.len(),
            0 <= i <= n,
            forall|j: int| 0 <= j < i ==> a@[j] == b@[j],
        decreases n - i,
    {
        if a.get_char(i) != b.get_char(i) {
            return false;
        }
        i = i + 1;
    }
    proof {
        assert(a@ =~= b@);
    }
    true
}

/// The character for a decimal digit.
pub fn digit_to_char(d: u64) -> (c: char)
    requires
        d < 10,
    ensures
        c == crate::json::digit_char(d as nat),
{
    if d == 0 { '0' } else if d == 1 { '1' } else if d == 2 { '2' }
    else if d == 3 { '3' } else if d == 4 { '4' } else if d == 5 { '5' }
    else if d == 6 { '6' } else if d == 7 { '7' } else if d == 8 { '8' }
    else { '9' }
}

/// Whether a character is a decimal digit.
pub fn char_is_digit(c: char) -> (r: bool)
    ensures
        r == crate::json::is_digit(c),
{
    '0' <= c && c <= '9'
}

/// The numeric value of a digit character.
pub fn char_digit_val(c: char) -> (d: u64)
    requires
        crate::json::is_digit(c),
    ensures
        d == crate::json::digit_val(c),
        d < 10,
{
    (c as u64) - ('0' as u64)
}

/// Whether a character is whitespace between tokens.
pub fn char_is_ws(c: char) -> (r: bool)
    ensures
        r == crate::json::is_ws(c),
{
    c == ' ' || c == '\t' || c == '\n' || c == '\r'
}

/// Whether a character can be part of a number token.
pub fn char_is_num(c: char) -> (r: bool)
    ensures
        r == crate::json::num_char(c),
{
    char_is_digit(c) || c == '.' || c == 'e' || c == 'E' || c == '+' || c == '-'
}

/// The character for a hexadecimal digit, lower case.
pub fn hex_to_char(d: u64) -> (c: char)
    requires
        d < 16,
    ensures
        c == crate::json::hex_char(d as nat),
{
    if d == 0 { '0' } else if d == 1 { '1' } else if d == 2 { '2' }
    else if d == 3 { '3' } else if d == 4 { '4' } else if d == 5 { '5' }
    else if d == 6 { '6' } else if d == 7 { '7' } else if d == 8 { '8' }
    else if d == 9 { '9' } else if d == 10 { 'a' } else if d == 11 { 'b' }
    else if d == 12 { 'c' } else if d == 13 { 'd' } else if d == 14 { 'e' }
    else { 'f' }
}

/// The numeric value of a hexadecimal digit, if the character is one.
pub fn char_hex_val(c: char) -> (r: Option<u64>)
    ensures
        (match r {
            Option::Some(d) => crate::json::hex_val(c) == Some(d as nat) && d < 16,
            Option::None => crate::json::hex_val(c) is None,
        }),
{
    if char_is_digit(c) {
        Some(char_digit_val(c))
    } else if 'a' <= c && c <= 'f' {
        Some((c as u64) - ('a' as u64) + 10)
    } else if 'A' <= c && c <= 'F' {
        Some((c as u64) - ('A' as u64) + 10)
    } else {
        None
    }
}

/// Whether `p` is a prefix of `s`.
pub open spec fn has_prefix(s: Seq<char>, p: Seq<char>) -> bool {
    s.len() >= p.len() && s.subrange(0, p.len() as int) == p
}

/// Prefix test on string slices.
#[verifier::loop_isolation(false)]
pub fn str_has_prefix(s: &str, p: &str) -> (r: bool)
    ensures
        r == has_prefix(s@, p@),
{
    let n = s.unicode_len();
    let m = p.unicode_len();
    if n < m {
        return false;
    }
    let mut i: usize = 0;
    while i < m
        invariant
            0 <= i <= m,
            m <= n,
            forall|j: int| 0 <= j < i ==> s@[j] == p@[j],
        decreases m - i,
    {
        if s.get_char(i) != p.get_char(i) {
            proof {
                assert(s@.subrange(0, m as int)[i as int] != p@[i as int]);
            }
            return false;
        }
        i = i + 1;
    }
    proof {
        assert(s@.subrange(0, m as int) =~= p@);
    }
    true
}

/// Whether `sub` occurs in `s` starting at `i`.
pub open spec fn occurs_at(s: Seq<char>, sub: Seq<char>, i: int) -> bool {
    0 <= i && i + sub.len() <= s.len() && s.subrange(i, i + sub.len()) == sub
}

/// Whether `sub` occurs anywhere in `s`.
pub open spec fn contains_seq(s: Seq<char>, sub: Seq<char>) -> bool {
    exists|i: int| occurs_at(s, sub, i)
}

/// Substring search.
#[verifier::loop_isolation(false)]
pub fn str_contains(s: &str, sub: &str) -> (r: bool)
    ensures
        r == contains_seq(s@, sub@),
{
    let n = s.unicode_len();
    let m = sub.unicode_len();
    if m > n {
        proof {
            assert forall|i: int| !occurs_at(s@, sub@, i) by {}
        }
        return false;
    }
    if m == 0 {
        proof {
            assert(s@.subrange(0, 0) =~= sub@);
            assert(occurs_at(s@, sub@, 0));
        }
        return true;
    }
    let last = n - m;
    let mut i: usize = 0;
    while i <= last
        invariant
            0 <= i <= last + 1,
            last == n - m,
            1 <= m <= n,
            n == s@.len(),
            m == sub@.len(),
            forall|k: int| 0 <= k < i ==> !occurs_at(s@, sub@, k),
        decreases last - i + 1,
    {
        let mut j: usize = 0;
        let mut matched = true;
        while j < m
            invariant
                0 <= j <= m,
                i + m <= n,
                matched ==> forall|q: int| 0 <= q < j ==> s@[i + q] == sub@[q],
                !matched ==> !occurs_at(s@, sub@, i as int),
            decreases m - j,
        {
            if s.get_char(i + j) != sub.get_char(j) {
                matched = false;
                proof {
                    assert(s@.subrange(i as int, i + m)[j as int] != sub@[j as int]);
                    assert(!occurs_at(s@, sub@, i as int));
                }
                j = m;
            } else {
                j = j + 1;
            }
        }
        if matched {
            proof {
                assert(s@.subrange(i as int, i + m) =~= sub@);
                assert(occurs_at(s@, sub@, i as int));
            }
            return true;
        }
        i = i + 1;
    }
    proof {
        assert forall|k: int| !occurs_at(s@, sub@, k) by {
            if 0 <= k && k + sub@.len() <= s@.len() {
                assert(k < i);
            }
        }
    }
    false
}

// ---------------------------------------------------------------------------
// Splitting on a separator
// ---------------------------------------------------------------------------

/// The first position where `sep` occurs.
pub open spec fn find_sub(s: Seq<char>, sep: Seq<char>) -> Option<int>
    decreases s.len(),
{
    if has_prefix(s, sep) {
        Some(0)
    } else if s.len() == 0 {
        None
    } else {
        match find_sub(s.skip(1), sep) {
            Option::Some(i) => Some(i + 1),
            Option::None => None,
        }
    }
}

/// The pieces of `s` between occurrences of `sep`, in order.
pub open spec fn split_text(s: Seq<char>, sep: Seq<char>) -> Seq<Seq<char>>
    decreases s.len(),
{
    match find_sub(s, sep) {
        Option::None => seq![s],
        Option::Some(i) => {
            if sep.len() >= 1 && 0 <= i && i + sep.len() <= s.len() {
                seq![s.take(i)] + split_text(s.skip(i + sep.len()), sep)
            } else {
                seq![s]
            }
        },
    }
}

pub proof fn lemma_occurs_shift(s: Seq<char>, sep: Seq<char>, pos: int, t: int)
    requires
        0 <= pos <= s.len(),
        0 <= t,
    ensures
        occurs_at(s.skip(pos), sep, t) == occurs_at(s, sep, pos + t),
{
    if t + sep.len() <= s.len() - pos {
        assert(s.skip(pos).subrange(t, t + sep.len())
            =~= s.subrange(pos + t, pos + t + sep.len()));
    }
}

pub proof fn lemma_find_sub_spec(s: Seq<char>, sep: Seq<char>)
    ensures
        (match find_sub(s, sep) {
            Option::Some(i) => occurs_at(s, sep, i)
                && forall|k: int| 0 <= k < i ==> !occurs_at(s, sep, k),
            Option::None => forall|k: int| !occurs_at(s, sep, k),
        }),
    decreases s.len(),
{
    assert(has_prefix(s, sep) == occurs_at(s, sep, 0)) by {
        if has_prefix(s, sep) {
            assert(s.subrange(0, sep.len() as int) == sep);
        }
    }
    if !has_prefix(s, sep) && s.len() > 0 {
        lemma_find_sub_spec(s.skip(1), sep);
        assert forall|k: int| 0 <= k implies occurs_at(s.skip(1), sep, k)
            == occurs_at(s, sep, k + 1) by {
            lemma_occurs_shift(s, sep, 1, k);
        }
        match find_sub(s.skip(1), sep) {
            Option::Some(i) => {
                assert(occurs_at(s, sep, i + 1));
                assert forall|k: int| 0 <= k < i + 1 implies !occurs_at(s, sep, k) by {
                    if k > 0 {
                        assert(!occurs_at(s.skip(1), sep, k - 1));
                    }
                }
            },
            Option::None => {
                assert forall|k: int| !occurs_at(s, sep, k) by {
                    if k > 0 {
                        assert(!occurs_at(s.skip(1), sep, k - 1));
                    }
                }
            },
        }
    }
}

/// Finds the first occurrence of `sep` at or after `pos`.
#[verifier::loop_isolation(false)]
fn find_from(s: &str, n: usize, sep: &str, m: usize, pos: usize) -> (r: Option<usize>)
    requires
        n == s@.len(),
        m == sep@.len(),
        m >= 1,
        pos <= n,
    ensures
        (match r {
            Option::Some(j) => pos <= j && j + m <= n
                && find_sub(s@.skip(pos as int), sep@) == Some(j - pos),
            Option::None => find_sub(s@.skip(pos as int), sep@) is None,
        }),
{
    proof {
        lemma_find_sub_spec(s@.skip(pos as int), sep@);
    }
    if m > n - pos {
        proof {
            assert forall|t: int| !occurs_at(s@.skip(pos as int), sep@, t) by {}
            if find_sub(s@.skip(pos as int), sep@) is Some {
                let i0 = find_sub(s@.skip(pos as int), sep@).unwrap();
                assert(occurs_at(s@.skip(pos as int), sep@, i0));
            }
        }
        return None;
    }
    let last = n - m;
    let mut j: usize = pos;
    while j <= last
        invariant
            pos <= j <= last + 1,
            last == n - m,
            pos + m <= n,
            forall|k: int| pos <= k < j ==> !occurs_at(s@, sep@, k),
        decreases last - j + 1,
    {
        let mut q: usize = 0;
        let mut matched = true;
        while q < m
            invariant
                0 <= q <= m,
                j + m <= n,
                matched ==> forall|w: int| 0 <= w < q ==> s@[j + w] == sep@[w],
                !matched ==> !occurs_at(s@, sep@, j as int),
            decreases m - q,
        {
            if s.get_char(j + q) != sep.get_char(q) {
                matched = false;
                proof {
                    assert(s@.subrange(j as int, j + m)[q as int] != sep@[q as int]);
                    assert(!occurs_at(s@, sep@, j as int));
                }
                q = m;
            } else {
                q = q + 1;
            }
        }
        if matched {
            proof {
                assert(s@.subrange(j as int, j + m) =~= sep@);
                assert(occurs_at(s@, sep@, j as int));
                lemma_find_sub_spec(s@.skip(pos as int), sep@);
                assert forall|t: int| 0 <= t implies occurs_at(s@.skip(pos as int), sep@, t)
                    == occurs_at(s@, sep@, pos + t) by {
                    lemma_occurs_shift(s@, sep@, pos as int, t);
                }
                assert(occurs_at(s@.skip(pos as int), sep@, j - pos));
                match find_sub(s@.skip(pos as int), sep@) {
                    Option::Some(i0) => {
                        assert(occurs_at(s@, sep@, pos + i0));
                        if i0 < j - pos {
                            assert(!occurs_at(s@, sep@, pos + i0));
                        } else if i0 > j - pos {
                            assert(!occurs_at(s@.skip(pos as int), sep@, j - pos));
                        }
                    },
                    Option::None => {
                        assert(!occurs_at(s@.skip(pos as int), sep@, j - pos));
                    },
                }
            }
            return Some(j);
        }
        j = j + 1;
    }
    proof {
        lemma_find_sub_spec(s@.skip(pos as int), sep@);
        assert forall|t: int| 0 <= t implies !occurs_at(s@.skip(pos as int), sep@, t) by {
            lemma_occurs_shift(s@, sep@, pos as int, t);
            if pos + t + m <= n {
                assert(pos <= pos + t < j);
            }
        }
        if find_sub(s@.skip(pos as int), sep@) is Some {
            let i0 = find_sub(s@.skip(pos as int), sep@).unwrap();
            assert(occurs_at(s@.skip(pos as int), sep@, i0));
        }
    }
    None
}

/// Splits a string on a separator, keeping empty pieces.
#[verifier::loop_isolation(false)]
pub fn split_string(s: &str, sep: &str) -> (out: Vec<String>)
    requires
        sep@.len() >= 1,
    ensures
        crate::hardware::strs_view(out@) == split_text(s@, sep@),
{
    let n = s.unicode_len();
    let m = sep.unicode_len();
    let mut out: Vec<String> = Vec::new();
    let mut pos: usize = 0;
    proof {
        assert(s@.skip(0) =~= s@);
        assert(crate::hardware::strs_view(out@) + split_text(s@, sep@) =~= split_text(s@, sep@));
    }
    loop
        invariant
            pos <= n,
            n == s@.len(),
            m == sep@.len(),
            m >= 1,
            crate::hardware::strs_view(out@) + split_text(s@.skip(pos as int), sep@)
                == split_text(s@, sep@),
        decreases n - pos,
    {
        match find_from(s, n, sep, m, pos) {
            Option::Some(j) => {
                let ghost out0 = crate::hardware::strs_view(out@);
                let ghost suf = s@.skip(pos as int);
                let piece = s.substring_char(pos, j).to_owned();
                out.push(piece);
                proof {
                    assert(crate::hardware::strs_view(out@) =~= out0.push(
                        s@.subrange(pos as int, j as int)));
                    assert(suf.take(j - pos) =~= s@.subrange(pos as int, j as int));
                    assert(suf.skip(j - pos + m) =~= s@.skip(j + m));
                    assert(split_text(suf, sep@)
                        == seq![suf.take(j - pos)] + split_text(s@.skip(j + m), sep@));
                    assert(out0 + (seq![suf.take(j - pos)] + split_text(s@.skip(j + m), sep@))
                        =~= crate::hardware::strs_view(out@) + split_text(s@.skip(j + m), sep@));
                }
                pos = j + m;
            },
            Option::None => {
                let ghost out0 = crate::hardware::strs_view(out@);
                let ghost suf = s@.skip(pos as int);
                let piece = s.substring_char(pos, n).to_owned();
                out.push(piece);
                proof {
                    assert(suf =~= s@.subrange(pos as int, n as int));
                    assert(crate::hardware::strs_view(out@) =~= out0.push(suf));
                    assert(split_text(suf, sep@) == seq![suf]);
                    assert(out0 + seq![suf] =~= crate::hardware::strs_view(out@));
                    assert(crate::hardware::strs_view(out@) + Seq::<Seq<char>>::empty()
                        =~= crate::hardware::strs_view(out@));
                    assert(crate::hardware::strs_view(out@) =~= split_text(s@, sep@));
                }
                return out;
            },
        }
    }
}

} // verus!

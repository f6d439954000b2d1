//! Verified text primitives: substring search, character scans, string
//! equality, decimal parsing and comma splitting.
//!
//! All contracts are stated over `Seq<char>` views.

use vstd::prelude::*;

verus! {

/// Holds when `p` occurs in `s` starting at position `i`.
pub open spec fn contains_at(s: Seq<char>, i: int, p: Seq<char>) -> bool {
    0 <= i && i + p.len() <= s.len() && s.subrange(i, i + p.len() as int) == p
}

/// The position of the first occurrence of `p` in `s`, if any.
pub open spec fn find_sub(s: Seq<char>, p: Seq<char>) -> Option<int>
    decreases s.len(),
{
    if contains_at(s, 0, p) {
        Some(0)
    } else if s.len() == 0 {
        None
    } else {
        match find_sub(s.drop_first(), p) {
            Some(i) => Some(i + 1),
            None => None,
        }
    }
}

proof fn lemma_contains_at_shift(s: Seq<char>, p: Seq<char>, j: int)
    requires
        s.len() > 0,
        0 <= j,
    ensures
        contains_at(s.drop_first(), j, p) <==> contains_at(s, j + 1, p),
{
    if 0 <= j && j + p.len() <= s.len() - 1 {
        assert(s.drop_first().subrange(j, j + p.len() as int) =~= s.subrange(
            j + 1,
            j + 1 + p.len() as int,
        ));
    }
}

/// `find_sub` returns the first occurrence, or `None` when there is none.
pub proof fn lemma_find_sub_first(s: Seq<char>, p: Seq<char>)
    ensures
        match find_sub(s, p) {
            Some(i) => contains_at(s, i, p) && forall|j: int|
                0 <= j < i ==> !contains_at(s, j, p),
            None => forall|j: int| !contains_at(s, j, p),
        },
    decreases s.len(),
{
    if contains_at(s, 0, p) {
    } else if s.len() == 0 {
        assert forall|j: int| !contains_at(s, j, p) by {
            if 0 <= j && j + p.len() <= s.len() {
                assert(j == 0);
            }
        }
    } else {
        lemma_find_sub_first(s.drop_first(), p);
        match find_sub(s.drop_first(), p) {
            Some(i) => {
                lemma_contains_at_shift(s, p, i);
                assert forall|j: int| 0 <= j < i + 1 implies !contains_at(s, j, p) by {
                    if j > 0 {
                        lemma_contains_at_shift(s, p, j - 1);
                    }
                }
            },
            None => {
                assert forall|j: int| !contains_at(s, j, p) by {
                    if j > 0 {
                        lemma_contains_at_shift(s, p, j - 1);
                    }
                }
            },
        }
    }
}

/// A first occurrence at `i` determines `find_sub`.
pub proof fn lemma_find_sub_unique(s: Seq<char>, p: Seq<char>, i: int)
    requires
        contains_at(s, i, p),
        forall|j: int| 0 <= j < i ==> !contains_at(s, j, p),
    ensures
        find_sub(s, p) == Some(i),
{
    lemma_find_sub_first(s, p);
    match find_sub(s, p) {
        Some(k) => {
            if k < i {
                assert(!contains_at(s, k, p));
            } else if i < k {
                assert(!contains_at(s, i, p));
            }
        },
        None => {
            assert(!contains_at(s, i, p));
        },
    }
}

/// `r == true` exactly when the two strings hold the same characters.
pub fn str_eq(a: &str, b: &str) -> (r: bool)
    ensures
        r == (a@ == b@),
{
    let n = a.unicode_len();
    let m = b.unicode_len();
    if n != m {
        return false;
    }
    let mut i: usize = 0;
    while i < n
        invariant
            n == a@.len(),
            n == b@.len(),
            i <= n,
            forall|t: int| 0 <= t < i ==> a@[t] == b@[t],
        decreases n - i,
    {
        if a.get_char(i) != b.get_char(i) {
            assert(a@ != b@);
            return false;
        }
        i += 1;
    }
    assert(a@ =~= b@);
    true
}

/// Finds the first occurrence of `p` in `s`, by character position.
pub fn find_substr(s: &str, p: &str) -> (r: Option<usize>)
    ensures
        r matches Some(i) ==> find_sub(s@, p@) == Some(i as int),
        r is None ==> find_sub(s@, p@) is None,
{
    let n = s.unicode_len();
    let m = p.unicode_len();
    if m > n {
        proof {
            lemma_find_sub_first(s@, p@);
            match find_sub(s@, p@) {
                Some(i) => {
                    assert(contains_at(s@, i, p@));
                },
                None => {},
            }
        }
        return None;
    }
    let mut i: usize = 0;
    while i <= n - m
        invariant
            m <= n,
            n == s@.len(),
            m == p@.len(),
            i <= n - m + 1,
            forall|j: int| 0 <= j < i ==> !contains_at(s@, j, p@),
        decreases n - m + 1 - i,
    {
        let mut k: usize = 0;
        let mut ok = true;
        while ok && k < m
            invariant
                m <= n,
                n == s@.len(),
                m == p@.len(),
                i + m <= n,
                k <= m,
                ok ==> forall|t: int| 0 <= t < k ==> s@[i + t] == p@[t],
                !ok ==> !contains_at(s@, i as int, p@) && m > 0,
            decreases m - k + (if ok { 1int } else { 0int }),
        {
            if s.get_char(i + k) == p.get_char(k) {
                k += 1;
            } else {
                proof {
                    if contains_at(s@, i as int, p@) {
                        assert(s@.subrange(i as int, i + m as int)[k as int] == p@[k as int]);
                    }
                }
                ok = false;
            }
        }
        if ok {
            proof {
                assert(s@.subrange(i as int, i + m as int) =~= p@);
                lemma_find_sub_unique(s@, p@, i as int);
            }
            return Some(i);
        }
        i += 1;
    }
    proof {
        assert forall|j: int| !contains_at(s@, j, p@) by {
            if 0 <= j < i {
            } else if 0 <= j && j + p@.len() <= s@.len() {
                assert(j >= i);
                assert(false);
            }
        }
        lemma_find_sub_first(s@, p@);
        match find_sub(s@, p@) {
            Some(t) => {
                assert(!contains_at(s@, t, p@));
            },
            None => {},
        }
    }
    None
}

/// The first position at or after `from` holding character `c`, or the
/// length of `s` when no position does.
pub open spec fn char_end(s: Seq<char>, from: int, c: char) -> int
    decreases s.len() - from,
    when 0 <= from <= s.len()
{
    if from >= s.len() {
        s.len() as int
    } else if s[from] == c {
        from
    } else {
        char_end(s, from + 1, c)
    }
}

pub proof fn lemma_char_end_bounds(s: Seq<char>, from: int, c: char)
    requires
        0 <= from <= s.len(),
    ensures
        from <= char_end(s, from, c) <= s.len(),
        char_end(s, from, c) < s.len() ==> s[char_end(s, from, c)] == c,
        forall|j: int| from <= j < char_end(s, from, c) ==> s[j] != c,
    decreases s.len() - from,
{
    if from < s.len() && s[from] != c {
        lemma_char_end_bounds(s, from + 1, c);
    }
}

pub proof fn lemma_char_end_unique(s: Seq<char>, from: int, i: int, c: char)
    requires
        0 <= from <= i <= s.len(),
        forall|j: int| from <= j < i ==> s[j] != c,
        i < s.len() ==> s[i] == c,
    ensures
        char_end(s, from, c) == i,
    decreases i - from,
{
    if from < i {
        lemma_char_end_unique(s, from + 1, i, c);
    }
}

/// Finds the first position at or after `from` holding `c`, scanning by
/// character position; returns the length when none does.
pub fn scan_char(s: &str, from: usize, c: char) -> (r: usize)
    requires
        from <= s@.len(),
    ensures
        r == char_end(s@, from as int, c),
        from <= r <= s@.len(),
        r < s@.len() ==> s@[r as int] == c,
        forall|j: int| from <= j < r ==> s@[j] != c,
{
    let n = s.unicode_len();
    let mut i: usize = from;
    while i < n
        invariant
            from <= i <= n,
            n == s@.len(),
            forall|j: int| from <= j < i ==> s@[j] != c,
        decreases n - i,
    {
        if s.get_char(i) == c {
            proof {
                lemma_char_end_unique(s@, from as int, i as int, c);
            }
            return i;
        }
        i += 1;
    }
    proof {
        lemma_char_end_unique(s@, from as int, n as int, c);
    }
    n
}

/// Holds when `c` is a decimal digit.
pub open spec fn is_digit(c: char) -> bool {
    '0' as u32 <= c as u32 && c as u32 <= '9' as u32
}

/// The value of one decimal digit.
pub open spec fn digit_val(c: char) -> nat {
    (c as u32 - '0' as u32) as nat
}

/// Holds when every character of `s` is a decimal digit.
pub open spec fn all_digits(s: Seq<char>) -> bool {
    forall|i: int| 0 <= i < s.len() ==> is_digit(#[trigger] s[i])
}

/// The value of a string of decimal digits, most significant first.
pub open spec fn dec_val(s: Seq<char>) -> nat
    decreases s.len(),
{
    if s.len() == 0 {
        0
    } else {
        dec_val(s.drop_last()) * 10 + digit_val(s.last())
    }
}

/// The digits of an unsigned decimal notation: one leading `+` is allowed
/// and dropped.
pub open spec fn unsigned_digits(s: Seq<char>) -> Seq<char> {
    if s.len() >= 1 && s[0] == '+' {
        s.drop_first()
    } else {
        s
    }
}

/// Holds when `s` is well-formed unsigned decimal notation for a value of
/// at most `max`.
pub open spec fn uint_ok(s: Seq<char>, max: nat) -> bool {
    let d = unsigned_digits(s);
    d.len() > 0 && all_digits(d) && dec_val(d) <= max
}

/// The value that `s` denotes.
pub open spec fn uint_val(s: Seq<char>) -> nat {
    dec_val(unsigned_digits(s))
}

proof fn lemma_dec_val_take_step(d: Seq<char>, i: int)
    requires
        0 <= i < d.len(),
    ensures
        dec_val(d.take(i + 1)) == dec_val(d.take(i)) * 10 + digit_val(d[i]),
{
    assert(d.take(i + 1).drop_last() =~= d.take(i));
    assert(d.take(i + 1).last() == d[i]);
}

proof fn lemma_dec_val_take_exceeds(d: Seq<char>, i: int, max: nat)
    requires
        0 <= i <= d.len(),
        dec_val(d.take(i)) > max,
    ensures
        dec_val(d) > max,
    decreases d.len() - i,
{
    if i == d.len() {
        assert(d.take(i) =~= d);
    } else {
        lemma_dec_val_take_step(d, i);
        lemma_dec_val_take_exceeds(d, i + 1, max);
    }
}

/// Parses unsigned decimal notation, rejecting values above `max`; the
/// same inputs are accepted as by the standard unsigned parsers.
pub fn parse_uint(s: &str, max: u64) -> (r: Option<u64>)
    ensures
        r is Some <==> uint_ok(s@, max as nat),
        r matches Some(v) ==> v as nat == uint_val(s@) && v <= max,
{
    let n = s.unicode_len();
    let start: usize = if n >= 1 && s.get_char(0) == '+' {
        1
    } else {
        0
    };
    let ghost d = unsigned_digits(s@);
    proof {
        assert(d.len() == n - start);
        assert(forall|t: int| 0 <= t < d.len() ==> d[t] == s@[t + start]);
    }
    if start >= n {
        return None;
    }
    let mut acc: u64 = 0;
    let mut i: usize = start;
    while i < n
        invariant
            start <= i <= n,
            start <= 1,
            n == s@.len(),
            d == unsigned_digits(s@),
            d.len() == n - start,
            forall|t: int| 0 <= t < d.len() ==> d[t] == s@[t + start],
            forall|t: int| 0 <= t < i - start ==> is_digit(#[trigger] d[t]),
            acc as nat == dec_val(d.take(i - start)),
            acc <= max,
        decreases n - i,
    {
        let c = s.get_char(i);
        let cv = c as u32;
        if cv < '0' as u32 || cv > '9' as u32 {
            assert(!is_digit(d[i - start]));
            return None;
        }
        let dv: u64 = (cv - '0' as u32) as u64;
        proof {
            vstd::arithmetic::div_mod::lemma_fundamental_div_mod(max as int, 10);
            lemma_dec_val_take_step(d, i - start);
        }
        if acc > max / 10 || (acc == max / 10 && dv > max % 10) {
            proof {
                assert(dec_val(d.take(i - start + 1)) > max as nat);
                lemma_dec_val_take_exceeds(d, i - start + 1, max as nat);
            }
            return None;
        }
        acc = acc * 10 + dv;
        i += 1;
    }
    proof {
        assert(d.take(n - start) =~= d);
    }
    Some(acc)
}

/// The segments of `s` between commas, in order; `n` commas give `n + 1`
/// segments, and an empty string gives one empty segment.
pub open spec fn split_commas(s: Seq<char>) -> Seq<Seq<char>>
    decreases s.len(),
    via split_commas_dec
{
    let i = char_end(s, 0, ',');
    if i >= s.len() {
        seq![s]
    } else {
        seq![s.subrange(0, i)] + split_commas(s.subrange(i + 1, s.len() as int))
    }
}

#[via_fn]
proof fn split_commas_dec(s: Seq<char>) {
    lemma_char_end_bounds(s, 0, ',');
}

/// Splits `s` at every comma, keeping segment order.
pub fn split_commas_exec(s: &str) -> (r: Vec<String>)
    ensures
        r.deep_view() == split_commas(s@),
        r@.len() == split_commas(s@).len(),
{
    let n = s.unicode_len();
    let mut r: Vec<String> = Vec::new();
    let mut pos: usize = 0;
    proof {
        assert(s@.subrange(0, n as int) =~= s@);
        assert(r.deep_view() + split_commas(s@) =~= split_commas(s@));
    }
    loop
        invariant
            pos <= n,
            n == s@.len(),
            r.deep_view() + split_commas(s@.subrange(pos as int, n as int)) =~= split_commas(s@),
        decreases n - pos,
    {
        let j = scan_char(s, pos, ',');
        let seg: String = s.substring_char(pos, j).to_owned();
        let ghost rem = s@.subrange(pos as int, n as int);
        proof {
            assert(forall|t: int| 0 <= t < rem.len() ==> rem[t] == s@[pos + t]);
            lemma_char_end_unique(rem, 0, j - pos, ',');
            assert(rem.subrange(0, j - pos) =~= seg@);
        }
        let ghost r0 = r.deep_view();
        r.push(seg);
        proof {
            assert(r.deep_view() =~= r0.push(seg@));
        }
        if j == n {
            proof {
                assert(split_commas(rem) =~= seq![rem]);
                assert(rem =~= seg@);
                assert(r.deep_view() =~~= split_commas(s@));
            }
            return r;
        }
        proof {
            assert(split_commas(rem) =~= seq![seg@] + split_commas(
                rem.subrange(j - pos + 1, rem.len() as int),
            ));
            assert(rem.subrange(j - pos + 1, rem.len() as int) =~= s@.subrange(
                j + 1,
                n as int,
            ));
            assert(r.deep_view() + split_commas(s@.subrange(j + 1, n as int)) =~~= split_commas(
                s@,
            ));
        }
        pos = j + 1;
    }
}

} // verus!

//! Small verified string helpers shared across the crate.

use vstd::prelude::*;

verus! {

/// Character-wise string equality.
pub fn str_eq(a: &str, b: &str) -> (r: bool)
    ensures
        r == (a@ == b@),
{
    let n = a.unicode_len();
    let m = b.unicode_len();
    if n != m {
        return false;
    }
    let mut i: usize = 0;
    while i < n
        invariant
            0 <= i <= n,
            n == a@.len(),
            n == b@.len(),
            forall|k: int| 0 <= k < i ==> a@[k] == b@[k],
        decreases n - i,
    {
        if a.get_char(i) != b.get_char(i) {
            return false;
        }
        i += 1;
    }
    proof {
        assert(a@ =~= b@);
    }
    true
}

/// String-against-string equality.
pub fn string_eq(a: &String, b: &String) -> (r: bool)
    ensures
        r == (a@ == b@),
{
    str_eq(a.as_str(), b.as_str())
}

/// The whitespace characters trimmed off condition text.
pub open spec fn is_space(c: char) -> bool {
    c == ' ' || c == '\t' || c == '\n' || c == '\r'
}

/// The first non-space position at or after `i`.
pub open spec fn trim_start_idx(s: Seq<char>, i: int) -> int
    decreases s.len() - i when 0 <= i <= s.len()
{
    if i >= s.len() {
        i
    } else if is_space(s[i]) {
        trim_start_idx(s, i + 1)
    } else {
        i
    }
}

/// The position just after the last non-space strictly before `j`.
pub open spec fn trim_end_idx(s: Seq<char>, j: int) -> int
    decreases j,
{
    if j <= 0 {
        0
    } else if is_space(s[j - 1]) {
        trim_end_idx(s, j - 1)
    } else {
        j
    }
}

/// The text with leading and trailing whitespace removed.
pub open spec fn trim_view(s: Seq<char>) -> Seq<char> {
    let a = trim_start_idx(s, 0);
    let b = trim_end_idx(s, s.len() as int);
    if a <= b {
        s.subrange(a, b)
    } else {
        Seq::<char>::empty()
    }
}

fn is_space_exec(c: char) -> (r: bool)
    ensures
        r == is_space(c),
{
    c == ' ' || c == '\t' || c == '\n' || c == '\r'
}

/// Trims leading and trailing whitespace.
pub fn trim_str<'a>(s: &'a str) -> (r: &'a str)
    ensures
        r@ == trim_view(s@),
{
    let n = s.unicode_len();
    let mut a: usize = 0;
    while a < n && is_space_exec(s.get_char(a))
        invariant
            0 <= a <= n,
            n == s@.len(),
            trim_start_idx(s@, 0) == trim_start_idx(s@, a as int),
        decreases n - a,
    {
        a += 1;
    }
    let mut b: usize = n;
    while b > 0 && is_space_exec(s.get_char(b - 1))
        invariant
            0 <= b <= n,
            n == s@.len(),
            trim_end_idx(s@, n as int) == trim_end_idx(s@, b as int),
        decreases b,
    {
        b -= 1;
    }
    if a <= b {
        s.substring_char(a, b)
    } else {
        let empty = s.substring_char(0, 0);
        proof {
            assert(empty@ =~= Seq::<char>::empty());
        }
        empty
    }
}

/// The least position where the two-character pattern `ab` occurs, or a
/// negative value when it never does.
pub open spec fn find2(s: Seq<char>, a: char, b: char, i: int) -> int
    decreases s.len() - i when 0 <= i
{
    if i + 2 > s.len() {
        -1
    } else if s[i] == a && s[i + 1] == b {
        i
    } else {
        find2(s, a, b, i + 1)
    }
}

/// Finds the first occurrence of the two-character pattern `ab`.
pub fn find2_exec(s: &str, a: char, b: char) -> (r: Option<usize>)
    ensures
        r is Some <==> find2(s@, a, b, 0) >= 0,
        r matches Some(i) ==> i as int == find2(s@, a, b, 0) && i + 2 <= s@.len(),
{
    let n = s.unicode_len();
    if n < 2 {
        return None;
    }
    let mut i: usize = 0;
    while i <= n - 2
        invariant
            0 <= i,
            n >= 2,
            i <= n - 1,
            n == s@.len(),
            find2(s@, a, b, 0) == find2(s@, a, b, i as int),
        decreases n - i,
    {
        if s.get_char(i) == a && s.get_char(i + 1) == b {
            return Some(i);
        }
        i += 1;
    }
    None
}

} // verus!

//! Character-level helpers: exact and ASCII-case-insensitive string
//! comparison, and locating the first `:` of a `host:port` address.

use vstd::prelude::*;

verus! {

/// Two characters are equal up to ASCII case.
pub open spec fn char_eq_ci(a: char, b: char) -> bool {
    let x = a as u32;
    let y = b as u32;
    ||| x == y
    ||| (65 <= x <= 90 && x + 32 == y)
    ||| (65 <= y <= 90 && y + 32 == x)
}

/// Two character sequences are equal up to ASCII case, position by position.
pub open spec fn seq_eq_ci(a: Seq<char>, b: Seq<char>) -> bool {
    a.len() == b.len() && (forall|i: int| 0 <= i < a.len() ==> char_eq_ci(a[i], b[i]))
}

/// Exact string equality, decided character by character.
pub fn str_eq(a: &str, b: &str) -> (r: bool)
    ensures
        r == (a@ == b@),
{
    let n = a.unicode_len();
    if n != b.unicode_len() {
        return false;
    }
    let mut i: usize = 0;
    while i < n
        invariant
            n == a@.len() == b@.len(),
            0 <= i <= n,
            forall|j: int| 0 <= j < i ==> a@[j] == b@[j],
        decreases n - i,
    {
        if a.get_char(i) != b.get_char(i) {
            assert(a@[i as int] != b@[i as int]);
            return false;
        }
        i = i + 1;
    }
    proof {
        assert(a@ =~= b@);
    }
    true
}

/// String equality up to ASCII case, decided character by character.
pub fn str_eq_ci(a: &str, b: &str) -> (r: bool)
    ensures
        r == seq_eq_ci(a@, b@),
{
    let n = a.unicode_len();
    if n != b.unicode_len() {
        return false;
    }
    let mut i: usize = 0;
    while i < n
        invariant
            n == a@.len() == b@.len(),
            0 <= i <= n,
            forall|j: int| 0 <= j < i ==> char_eq_ci(a@[j], b@[j]),
        decreases n - i,
    {
        let x = a.get_char(i) as u32;
        let y = b.get_char(i) as u32;
        let same = x == y || (65 <= x && x <= 90 && x + 32 == y) || (65 <= y && y <= 90 && y + 32
            == x);
        if !same {
            assert(!char_eq_ci(a@[i as int], b@[i as int]));
            return false;
        }
        i = i + 1;
    }
    true
}

/// Whether `s` holds a `:` anywhere.
pub open spec fn has_colon(s: Seq<char>) -> bool {
    exists|i: int| 0 <= i < s.len() && s[i] == ':'
}

/// The index of the first `:` of `s`, or `s.len()` when there is none.
pub open spec fn first_colon_idx(s: Seq<char>) -> int
    decreases s.len(),
{
    if s.len() == 0 {
        0
    } else if s[0] == ':' {
        0
    } else {
        1 + first_colon_idx(s.drop_first())
    }
}

/// The text before the first `:` of `s`; all of `s` when there is none.
pub open spec fn host_part(s: Seq<char>) -> Seq<char> {
    s.subrange(0, first_colon_idx(s))
}

/// `first_colon_idx` names the first `:` when `s` has one, and `s.len()`
/// when it has none.
pub proof fn lemma_first_colon_idx(s: Seq<char>)
    ensures
        0 <= first_colon_idx(s) <= s.len(),
        has_colon(s) ==> first_colon_idx(s) < s.len() && s[first_colon_idx(s)] == ':',
        !has_colon(s) ==> first_colon_idx(s) == s.len(),
        forall|j: int| 0 <= j < first_colon_idx(s) ==> s[j] != ':',
    decreases s.len(),
{
    if s.len() == 0 {
    } else if s[0] == ':' {
    } else {
        let t = s.drop_first();
        lemma_first_colon_idx(t);
        assert(forall|i: int| 0 <= i < t.len() ==> t[i] == s[i + 1]);
        if has_colon(s) {
            let w = choose|i: int| 0 <= i < s.len() && s[i] == ':';
            assert(t[w - 1] == ':');
            assert(has_colon(t));
        }
        if has_colon(t) {
            let w = choose|i: int| 0 <= i < t.len() && t[i] == ':';
            assert(s[w + 1] == ':');
        }
        assert forall|j: int| 0 <= j < first_colon_idx(s) implies s[j] != ':' by {
            if j > 0 {
                assert(s[j] == t[j - 1]);
            }
        }
    }
}

} // verus!

use vstd::prelude::*;

verus! {

/// Index of the first occurrence of `c` in `s`, or `-1` when `c` does not
/// occur at all.
pub open spec fn find_char(s: Seq<char>, c: char) -> int
    decreases s.len(),
{
    if s.len() == 0 {
        -1
    } else if s[0] == c {
        0
    } else if find_char(s.subrange(1, s.len() as int), c) == -1 {
        -1
    } else {
        find_char(s.subrange(1, s.len() as int), c) + 1
    }
}

/// `find_char` returns `-1` exactly when `c` is absent, and otherwise the
/// smallest index holding `c`.
pub proof fn lemma_find_char(s: Seq<char>, c: char)
    ensures
        find_char(s, c) == -1 ==> forall|i: int| 0 <= i < s.len() ==> s[i] != c,
        find_char(s, c) != -1 ==> 0 <= find_char(s, c) < s.len() && s[find_char(s, c)] == c
            && (forall|i: int| 0 <= i < find_char(s, c) ==> s[i] != c),
    decreases s.len(),
{
    if s.len() != 0 && s[0] != c {
        let rest = s.subrange(1, s.len() as int);
        lemma_find_char(rest, c);
        assert forall|i: int| 1 <= i < s.len() implies s[i] == rest[i - 1] by {}
    }
}

/// First position of `c` in `s`, scanning left to right.
pub fn find_char_in(s: &str, c: char) -> (r: Option<usize>)
    ensures
        r matches Some(i) ==> find_char(s@, c) == i as int,
        r is None ==> find_char(s@, c) == -1,
{
    let n = s.unicode_len();
    let mut i: usize = 0;
    while i < n
        invariant
            n == s@.len(),
            i <= n,
            forall|j: int| 0 <= j < i ==> s@[j] != c,
        decreases n - i,
    {
        if s.get_char(i) == c {
            proof {
                lemma_find_char(s@, c);
            }
            return Some(i);
        }
        i += 1;
    }
    proof {
        lemma_find_char(s@, c);
    }
    None
}

/// Whether `c` occurs anywhere in `s`.
pub fn contains_char(s: &str, c: char) -> (r: bool)
    ensures
        r == s@.contains(c),
{
    proof {
        lemma_find_char(s@, c);
    }
    match find_char_in(s, c) {
        Some(i) => {
            assert(s@[i as int] == c);
            true
        },
        None => {
            assert(forall|i: int| 0 <= i < s@.len() ==> s@[i] != c);
            false
        },
    }
}

/// How `str::trim` reads a string: the same text with leading and trailing
/// whitespace removed.
pub uninterp spec fn trimmed(s: Seq<char>) -> Seq<char>;

/// Relies on `str::trim`: returns the input with leading and trailing
/// whitespace removed; the result depends on the input characters alone.
#[verifier::external_body]
pub(crate) fn trim_str(s: &str) -> (r: String)
    ensures
        r@ == trimmed(s@),
{
    s.trim().to_string()
}

} // verus!

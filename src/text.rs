use vstd::prelude::*;

verus! {

/// `i` is the one position of `s` that holds `c`.
pub open spec fn sole_index(s: Seq<char>, c: char, i: int) -> bool {
    &&& 0 <= i < s.len()
    &&& s[i] == c
    &&& forall|j: int| 0 <= j < s.len() && j != i ==> s[j] != c
}

/// `s` cut at its only `c` into the text before and the text after it;
/// `None` where `c` occurs zero times or more than once.
pub open spec fn split_pair(s: Seq<char>, c: char) -> Option<(Seq<char>, Seq<char>)> {
    if exists|i: int| sole_index(s, c, i) {
        let i = choose|i: int| sole_index(s, c, i);
        Some((s.take(i), s.skip(i + 1)))
    } else {
        None
    }
}

/// `s` holds `c` somewhere.
pub open spec fn has_char(s: Seq<char>, c: char) -> bool {
    exists|i: int| 0 <= i < s.len() && s[i] == c
}

/// A character that occurs once occurs at no other position.
pub proof fn lemma_sole_index_unique(s: Seq<char>, c: char, i: int, k: int)
    requires
        sole_index(s, c, i),
        0 <= k < s.len(),
        s[k] == c,
    ensures
        i == k,
{
}

/// Whether `a` and `b` hold the same characters.
pub fn same_text(a: &str, b: &str) -> (r: bool)
    ensures
        r == (a@ == b@),
{
    let n = a.unicode_len();
    if n != b.unicode_len() {
        return false;
    }
    let mut i: usize = 0;
    while i < n
        invariant
            n == a@.len(),
            n == b@.len(),
            i <= n,
            forall|j: int| 0 <= j < i ==> a@[j] == b@[j],
        decreases n - i,
    {
        if a.get_char(i) != b.get_char(i) {
            return false;
        }
        i = i + 1;
    }
    assert(a@ =~= b@);
    true
}

/// Splits `s` at its only occurrence of `c`.
pub fn split_exact(s: &str, c: char) -> (r: Option<(String, String)>)
    ensures
        match r {
            Some((a, b)) => split_pair(s@, c) == Some((a@, b@)),
            None => split_pair(s@, c) is None,
        },
{
    let n = s.unicode_len();
    let mut found: Option<usize> = None;
    let mut i: usize = 0;
    while i < n
        invariant
            n == s@.len(),
            i <= n,
            match found {
                None => forall|j: int| 0 <= j < i ==> s@[j] != c,
                Some(k) => k < i && s@[k as int] == c && forall|j: int|
                    0 <= j < i && j != k ==> s@[j] != c,
            },
        decreases n - i,
    {
        if s.get_char(i) == c {
            match found {
                None => {
                    found = Some(i);
                },
                Some(k) => {
                    proof {
                        if exists|m: int| sole_index(s@, c, m) {
                            let m = choose|m: int| sole_index(s@, c, m);
                            lemma_sole_index_unique(s@, c, m, k as int);
                            lemma_sole_index_unique(s@, c, m, i as int);
                        }
                    }
                    return None;
                },
            }
        }
        i = i + 1;
    }
    match found {
        None => {
            proof {
                if exists|m: int| sole_index(s@, c, m) {
                    let m = choose|m: int| sole_index(s@, c, m);
                    assert(s@[m] == c);
                }
            }
            None
        },
        Some(k) => {
            proof {
                assert(sole_index(s@, c, k as int));
                let m = choose|m: int| sole_index(s@, c, m);
                lemma_sole_index_unique(s@, c, m, k as int);
            }
            let a = String::from_str(s.substring_char(0, k));
            let b = String::from_str(s.substring_char(k + 1, n));
            proof {
                assert(a@ =~= s@.take(k as int));
                assert(b@ =~= s@.skip(k + 1));
            }
            Some((a, b))
        },
    }
}

} // verus!

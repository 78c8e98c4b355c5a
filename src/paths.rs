use vstd::prelude::*;

verus! {

/// `rel` appended to `root` as a path: an absolute `rel` replaces `root`,
/// and one `/` stands between them unless `root` is empty or ends in one.
pub open spec fn joined(root: Seq<char>, rel: Seq<char>) -> Seq<char> {
    if rel.len() > 0 && rel[0] == '/' {
        rel
    } else if root.len() == 0 {
        rel
    } else if root.last() == '/' {
        root + rel
    } else {
        root + seq!['/'] + rel
    }
}

/// `s` with every backslash turned into a forward slash.
pub open spec fn slashed(s: Seq<char>) -> Seq<char> {
    s.map_values(|c: char| if c == '\\' { '/' } else { c })
}

/// Where the entry at relative path `rel` goes under `root`, with forward
/// slashes throughout.
pub open spec fn remote_path(root: Seq<char>, rel: Seq<char>) -> Seq<char> {
    slashed(joined(root, rel))
}

/// `path` relative to `root`, where `root` is a whole leading part of it.
pub open spec fn relative_to(root: Seq<char>, path: Seq<char>) -> Option<Seq<char>> {
    if root.len() <= path.len() && path.take(root.len() as int) == root {
        let rest = path.skip(root.len() as int);
        if rest.len() == 0 {
            Some(rest)
        } else if rest[0] == '/' {
            Some(rest.skip(1))
        } else if root.len() > 0 && root.last() == '/' {
            Some(rest)
        } else {
            None
        }
    } else {
        None
    }
}

/// Where the last component of `s` starts: just after its last `/`.
pub open spec fn base_start(s: Seq<char>) -> int
    decreases s.len(),
{
    if s.len() == 0 {
        0
    } else if s.last() == '/' {
        s.len() as int
    } else {
        base_start(s.drop_last())
    }
}

/// The last component of `s`: what follows its last `/`.
pub open spec fn base_name(s: Seq<char>) -> Seq<char> {
    s.skip(base_start(s))
}

/// Where a single file `source` goes given `remote_root`: a root that ends
/// in `/` names a directory that receives the file under its own name; any
/// other root is the exact remote file name.
pub open spec fn effective_path(remote_root: Seq<char>, source: Seq<char>) -> Seq<char> {
    if remote_root.len() > 0 && remote_root.last() == '/' {
        remote_root + base_name(source)
    } else {
        remote_root
    }
}

proof fn lemma_base_start_bounds(s: Seq<char>)
    ensures
        0 <= base_start(s) <= s.len(),
    decreases s.len(),
{
    if s.len() > 0 && s.last() != '/' {
        lemma_base_start_bounds(s.drop_last());
    }
}

/// The last component of `s`.
pub fn base_name_of(s: &str) -> (r: String)
    ensures
        r@ == base_name(s@),
{
    let n = s.unicode_len();
    let mut start: usize = 0;
    let mut i: usize = 0;
    while i < n
        invariant
            n == s@.len(),
            i <= n,
            start == base_start(s@.take(i as int)),
        decreases n - i,
    {
        proof {
            assert(s@.take(i + 1).drop_last() =~= s@.take(i as int));
        }
        if s.get_char(i) == '/' {
            start = i + 1;
        }
        i = i + 1;
    }
    proof {
        assert(s@.take(n as int) =~= s@);
        lemma_base_start_bounds(s@);
    }
    String::from_str(s.substring_char(start, n))
}

/// The remote file name for a single `source` file sent to `remote_root`.
pub fn effective_remote_path(remote_root: &str, source: &str) -> (r: String)
    ensures
        r@ == effective_path(remote_root@, source@),
{
    let n = remote_root.unicode_len();
    if n > 0 && remote_root.get_char(n - 1) == '/' {
        let name = base_name_of(source);
        let r = String::from_str(remote_root);
        r.concat(name.as_str())
    } else {
        String::from_str(remote_root)
    }
}

/// `s` with backslashes turned into forward slashes.
pub fn forward_slashes(s: &str) -> (r: String)
    ensures
        r@ == slashed(s@),
{
    let n = s.unicode_len();
    let mut r = String::new();
    let mut i: usize = 0;
    while i < n
        invariant
            n == s@.len(),
            i <= n,
            r@ == slashed(s@.take(i as int)),
        decreases n - i,
    {
        if s.get_char(i) == '\\' {
            r.append("/");
        } else {
            r.append(s.substring_char(i, i + 1));
        }
        proof {
            reveal_strlit("/");
            assert(slashed(s@.take(i + 1)) =~= slashed(s@.take(i as int)) + slashed(
                s@.subrange(i as int, i + 1),
            ));
        }
        i = i + 1;
    }
    proof {
        assert(s@.take(n as int) =~= s@);
    }
    r
}

/// `rel` appended to `root` as a path.
pub fn join_path(root: &str, rel: &str) -> (r: String)
    ensures
        r@ == joined(root@, rel@),
{
    let rn = rel.unicode_len();
    let n = root.unicode_len();
    if rn > 0 && rel.get_char(0) == '/' {
        String::from_str(rel)
    } else if n == 0 {
        String::from_str(rel)
    } else if root.get_char(n - 1) == '/' {
        String::from_str(root).concat(rel)
    } else {
        proof {
            reveal_strlit("/");
        }
        String::from_str(root).concat("/").concat(rel)
    }
}

/// Where the entry at relative path `rel` goes under `root`.
pub fn remote_path_of(root: &str, rel: &str) -> (r: String)
    ensures
        r@ == remote_path(root@, rel@),
{
    let j = join_path(root, rel);
    forward_slashes(j.as_str())
}

/// `path` relative to `root`, or `None` where `root` does not lead it.
pub fn relative_path(root: &str, path: &str) -> (r: Option<String>)
    ensures
        match r {
            Some(s) => relative_to(root@, path@) == Some(s@),
            None => relative_to(root@, path@) is None,
        },
{
    let n = root.unicode_len();
    let m = path.unicode_len();
    if n > m {
        return None;
    }
    let mut i: usize = 0;
    while i < n
        invariant
            n == root@.len(),
            m == path@.len(),
            n <= m,
            i <= n,
            forall|j: int| 0 <= j < i ==> root@[j] == path@[j],
        decreases n - i,
    {
        if root.get_char(i) != path.get_char(i) {
            proof {
                assert(path@.take(n as int)[i as int] != root@[i as int]);
            }
            return None;
        }
        i = i + 1;
    }
    proof {
        assert(path@.take(n as int) =~= root@);
    }
    if n == m {
        proof {
            assert(path@.skip(n as int) =~= Seq::<char>::empty());
        }
        return Some(String::new());
    }
    if path.get_char(n) == '/' {
        let r = String::from_str(path.substring_char(n + 1, m));
        proof {
            assert(path@.skip(n as int).skip(1) =~= r@);
        }
        Some(r)
    } else if n > 0 && root.get_char(n - 1) == '/' {
        let r = String::from_str(path.substring_char(n, m));
        proof {
            assert(path@.skip(n as int) =~= r@);
        }
        Some(r)
    } else {
        None
    }
}

} // verus!

//! Path names as plain strings: splitting a path into parent and base name,
//! and deriving the sibling backup name of a file.
use vstd::prelude::*;

verus! {

/// The suffix every backup name ends with.
pub open spec fn bak_suffix() -> Seq<char> {
    ".oxidizr.bak"@
}

/// The index just past the last `/` of `s`, or `0` when `s` holds none.
pub open spec fn split_pos(s: Seq<char>) -> int
    decreases s.len(),
{
    if s.len() == 0 {
        0
    } else if s.last() == '/' {
        s.len() as int
    } else {
        split_pos(s.drop_last())
    }
}

/// The base name of a path: everything after its last `/`.
pub open spec fn basename_of(s: Seq<char>) -> Seq<char> {
    s.subrange(split_pos(s), s.len() as int)
}

/// The backup name of a path: a sibling whose base name is the original base
/// name with `.` prepended and the backup suffix appended.
pub open spec fn backup_name_of(s: Seq<char>) -> Seq<char> {
    s.subrange(0, split_pos(s)) + "."@ + basename_of(s) + bak_suffix()
}

/// The split position lies inside the sequence.
pub proof fn lemma_split_pos_bounds(s: Seq<char>)
    ensures
        0 <= split_pos(s) <= s.len(),
    decreases s.len(),
{
    if s.len() != 0 && s.last() != '/' {
        lemma_split_pos_bounds(s.drop_last());
    }
}

/// A backup name is strictly longer than the path it backs up, so the two
/// never coincide.
pub proof fn lemma_backup_name_longer(s: Seq<char>)
    ensures
        backup_name_of(s).len() > s.len(),
        backup_name_of(s) != s,
{
    lemma_split_pos_bounds(s);
    reveal_strlit(".");
    reveal_strlit(".oxidizr.bak");
}

/// A path lies directly under a directory: it extends the directory name
/// with `/` and a non-empty base name that holds no further `/`.
pub open spec fn in_dir(path: Seq<char>, dir: Seq<char>) -> bool {
    &&& path.len() > dir.len() + 1
    &&& path.subrange(0, dir.len() as int) == dir
    &&& path[dir.len() as int] == '/'
    &&& forall|k: int| dir.len() + 1 <= k < path.len() ==> path[k] != '/'
}

/// Finds the index just past the last `/`, scanning from the end.
fn find_split(file: &str) -> (r: usize)
    ensures
        r == split_pos(file@),
{
    let n = file.unicode_len();
    proof {
        assert(file@.take(n as int) =~= file@);
    }
    let mut p: usize = n;
    while p > 0 && file.get_char(p - 1) != '/'
        invariant
            p <= n,
            n == file@.len(),
            split_pos(file@) == split_pos(file@.take(p as int)),
        decreases p,
    {
        proof {
            assert(file@.take(p as int).drop_last() =~= file@.take(p - 1));
            assert(file@.take(p as int).last() == file@[p - 1]);
        }
        p = p - 1;
    }
    proof {
        if p == 0 {
            assert(file@.take(0).len() == 0);
        } else {
            assert(file@.take(p as int).last() == file@[p - 1]);
        }
        assert(split_pos(file@) == p);
    }
    p
}

/// The base name of a path: everything after its last `/`.
pub fn basename(file: &str) -> (r: String)
    ensures
        r@ == basename_of(file@),
{
    let n = file.unicode_len();
    let p = find_split(file);
    proof {
        lemma_split_pos_bounds(file@);
    }
    String::from_str(file.substring_char(p, n))
}

/// Decides whether a path lies directly under a directory.
pub fn is_direct_child(path: &str, dir: &str) -> (r: bool)
    ensures
        r == in_dir(path@, dir@),
{
    let plen = path.unicode_len();
    let dlen = dir.unicode_len();
    if plen <= dlen || plen - dlen < 2 {
        return false;
    }
    let mut i: usize = 0;
    while i < dlen
        invariant
            i <= dlen,
            plen == path@.len(),
            dlen == dir@.len(),
            dlen + 2 <= plen,
            forall|j: int| 0 <= j < i ==> path@[j] == dir@[j],
        decreases dlen - i,
    {
        if path.get_char(i) as u32 != dir.get_char(i) as u32 {
            proof {
                assert(path@.subrange(0, dir@.len() as int)[i as int] == path@[i as int]);
            }
            return false;
        }
        i += 1;
    }
    proof {
        assert(path@.subrange(0, dir@.len() as int) =~= dir@);
    }
    if path.get_char(dlen) != '/' {
        return false;
    }
    let mut k: usize = dlen + 1;
    while k < plen
        invariant
            dlen + 1 <= k <= plen,
            plen == path@.len(),
            dlen == dir@.len(),
            forall|j: int| dlen + 1 <= j < k ==> path@[j] != '/',
        decreases plen - k,
    {
        if path.get_char(k) == '/' {
            return false;
        }
        k += 1;
    }
    true
}

/// Derives the backup name that sits beside a file: for `/path/to/file` it is
/// `/path/to/.file.oxidizr.bak`.
pub fn backup_filename(file: &str) -> (r: String)
    ensures
        r@ == backup_name_of(file@),
{
    let n = file.unicode_len();
    let p = find_split(file);
    proof {
        lemma_split_pos_bounds(file@);
    }
    let parent = file.substring_char(0, p);
    let name = file.substring_char(p, n);
    let mut out = String::from_str(parent);
    out.append(".");
    out.append(name);
    out.append(".oxidizr.bak");
    proof {
        assert(out@ =~= backup_name_of(file@));
    }
    out
}

} // verus!

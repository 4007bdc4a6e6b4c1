//! Path-text helpers: extension filtering and file-name extraction.
//!
//! The host identifies scripts by their path text alone, so the few string
//! operations it needs are stated and proved here over sequences of
//! characters.

use vstd::prelude::*;

verus! {

/// Whether `p` ends in a dot followed by exactly the characters of `ext`.
pub open spec fn has_dot_ext(p: Seq<char>, ext: Seq<char>) -> bool {
    &&& p.len() > ext.len()
    &&& p[p.len() - ext.len() - 1] == '.'
    &&& p.subrange(p.len() - ext.len(), p.len() as int) == ext
}

/// Where the file name of `p` starts: just past the last `/`, or the start
/// of `p` when it holds no `/` at all.
pub open spec fn name_start(p: Seq<char>) -> int
    decreases p.len(),
{
    if p.len() == 0 {
        0
    } else if p[p.len() - 1] == '/' {
        p.len() as int
    } else {
        name_start(p.take(p.len() - 1))
    }
}

/// The file name of `p`: everything past the last `/`.
pub open spec fn file_name_of(p: Seq<char>) -> Seq<char> {
    p.subrange(name_start(p), p.len() as int)
}

pub proof fn lemma_name_start_bounds(p: Seq<char>)
    ensures
        0 <= name_start(p) <= p.len(),
    decreases p.len(),
{
    if p.len() > 0 && p[p.len() - 1] != '/' {
        lemma_name_start_bounds(p.take(p.len() - 1));
    }
}

/// Reports whether `path` ends in a dot followed by `ext`.
pub fn has_extension(path: &str, ext: &str) -> (r: bool)
    ensures
        r == has_dot_ext(path@, ext@),
{
    let plen = path.unicode_len();
    let elen = ext.unicode_len();
    if plen <= elen {
        return false;
    }
    if path.get_char(plen - elen - 1) != '.' {
        return false;
    }
    let mut i: usize = 0;
    while i < elen
        invariant
            0 <= i <= elen,
            elen < plen,
            plen == path@.len(),
            elen == ext@.len(),
            forall|j: int| 0 <= j < i ==> path@[suffix_start(path@, ext@) + j] == ext@[j],
        decreases elen - i,
    {
        if path.get_char(plen - elen + i) != ext.get_char(i) {
            return false;
        }
        i += 1;
    }
    proof {
        assert(path@.subrange(suffix_start(path@, ext@), path@.len() as int) =~= ext@);
    }
    true
}

/// The index in `p` where a suffix of the length of `ext` starts.
pub open spec fn suffix_start(p: Seq<char>, ext: Seq<char>) -> int {
    p.len() - ext.len()
}

/// Where the file name of `path` starts, as an index usable for slicing.
fn name_start_index(path: &str) -> (r: usize)
    ensures
        r == name_start(path@),
{
    let len = path.unicode_len();
    proof {
        assert(path@.take(len as int) =~= path@);
    }
    let mut i: usize = len;
    while i > 0
        invariant
            0 <= i <= len,
            len == path@.len(),
            name_start(path@) == name_start(path@.take(i as int)),
        decreases i,
    {
        let c = path.get_char(i - 1);
        if c == '/' {
            proof {
                assert(path@.take(i as int)[i - 1] == '/');
                assert(name_start(path@.take(i as int)) == i);
            }
            return i;
        }
        proof {
            assert(path@.take(i as int).take(i - 1) =~= path@.take(i - 1));
        }
        i -= 1;
    }
    proof {
        assert(path@.take(0).len() == 0);
    }
    0
}

/// The file name of `path`: everything past the last `/`.
pub fn file_name(path: &str) -> (r: String)
    ensures
        r@ == file_name_of(path@),
{
    let len = path.unicode_len();
    let start = name_start_index(path);
    proof {
        lemma_name_start_bounds(path@);
    }
    let tail = path.substring_char(start, len);
    tail.to_owned()
}

} // verus!

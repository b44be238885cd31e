//! Byte scanning: first occurrence of a plain or masked byte pattern, and
//! in-place overwriting of a located range.
use vstd::prelude::*;

verus! {

/// `n` occurs in `h` at position `i`.
pub open spec fn match_at(h: Seq<u8>, n: Seq<u8>, i: int) -> bool {
    0 <= i && i + n.len() <= h.len() && h.subrange(i, i + n.len() as int) == n
}

/// `n` occurs somewhere in `h`.
pub open spec fn contains_bytes(h: Seq<u8>, n: Seq<u8>) -> bool {
    exists|i: int| match_at(h, n, i)
}

/// `i` is the first occurrence of `n` in `h`.
pub open spec fn first_match_at(h: Seq<u8>, n: Seq<u8>, i: int) -> bool {
    match_at(h, n, i) && forall|j: int| 0 <= j < i ==> !match_at(h, n, j)
}

/// A masked pattern occurs at `i`: every fixed byte agrees, holes match any.
pub open spec fn pat_match_at(h: Seq<u8>, p: Seq<Option<u8>>, i: int) -> bool {
    &&& 0 <= i
    &&& i + p.len() <= h.len()
    &&& forall|j: int| 0 <= j < p.len() && p[j] is Some ==> h[i + j] == p[j]->0
}

/// Whether `n` occurs in `h` at position `i`.
#[verifier::loop_isolation(false)]
pub fn is_match_at(h: &[u8], n: &[u8], i: usize) -> (r: bool)
    requires
        i + n@.len() <= h@.len(),
    ensures
        r == match_at(h@, n@, i as int),
{
    let n_len = n.len();
    let h_len = h.len();
    assert(i + n_len <= h_len);
    let mut j: usize = 0;
    while j < n_len
        invariant
            j <= n_len,
            forall|k: int| 0 <= k < j ==> h@[i + k] == n@[k],
        decreases n_len - j,
    {
        if h[i + j] != n[j] {
            assert(h@.subrange(i as int, i + n@.len() as int)[j as int] != n@[j as int]);
            return false;
        }
        j = j + 1;
    }
    assert(h@.subrange(i as int, i + n@.len() as int) =~= n@);
    true
}

/// First occurrence of `n` in `h` at or after `from`, if any.
#[verifier::loop_isolation(false)]
pub fn find_bytes(h: &[u8], n: &[u8], from: usize) -> (r: Option<usize>)
    ensures
        r is Some ==> from <= r->0 && match_at(h@, n@, r->0 as int) && (forall|j: int|
            from <= j < r->0 ==> !match_at(h@, n@, j)),
        r is None ==> forall|j: int| from <= j ==> !match_at(h@, n@, j),
{
    if n.len() == 0 {
        if from <= h.len() {
            assert(h@.subrange(from as int, from as int) =~= n@);
            return Some(from);
        } else {
            return None;
        }
    }
    if n.len() > h.len() {
        return None;
    }
    let last = h.len() - n.len();
    if from > last {
        return None;
    }
    let mut i: usize = from;
    while i <= last
        invariant
            from <= i <= last + 1,
            forall|j: int| from <= j < i ==> !match_at(h@, n@, j),
        decreases last + 1 - i,
    {
        if is_match_at(h, n, i) {
            return Some(i);
        }
        i = i + 1;
    }
    assert(forall|j: int| j > last ==> !match_at(h@, n@, j));
    None
}

/// Whether `n` occurs anywhere in `h`.
pub fn has_bytes(h: &[u8], n: &[u8]) -> (r: bool)
    ensures
        r == contains_bytes(h@, n@),
{
    let f = find_bytes(h, n, 0);
    proof {
        if f is None && contains_bytes(h@, n@) {
            let i = choose|i: int| match_at(h@, n@, i);
            assert(!match_at(h@, n@, i));
        }
    }
    f.is_some()
}

/// Whether the masked pattern `p` matches `h` at position `i`.
#[verifier::loop_isolation(false)]
pub fn is_pat_match_at(h: &[u8], p: &[Option<u8>], i: usize) -> (r: bool)
    requires
        i + p@.len() <= h@.len(),
    ensures
        r == pat_match_at(h@, p@, i as int),
{
    let p_len = p.len();
    let h_len = h.len();
    assert(i + p_len <= h_len);
    let mut j: usize = 0;
    while j < p_len
        invariant
            j <= p_len,
            forall|k: int| 0 <= k < j && p@[k] is Some ==> h@[i + k] == p@[k]->0,
        decreases p_len - j,
    {
        match p[j] {
            Some(b) => {
                if h[i + j] != b {
                    return false;
                }
            },
            None => {},
        }
        j = j + 1;
    }
    true
}

/// First position at or after `from` where the masked pattern matches.
#[verifier::loop_isolation(false)]
pub fn find_pattern(h: &[u8], p: &[Option<u8>], from: usize) -> (r: Option<usize>)
    ensures
        r is Some ==> from <= r->0 && pat_match_at(h@, p@, r->0 as int) && (forall|j: int|
            from <= j < r->0 ==> !pat_match_at(h@, p@, j)),
        r is None ==> forall|j: int| from <= j ==> !pat_match_at(h@, p@, j),
{
    if p.len() == 0 {
        if from <= h.len() {
            return Some(from);
        } else {
            return None;
        }
    }
    if p.len() > h.len() {
        return None;
    }
    let last = h.len() - p.len();
    if from > last {
        return None;
    }
    let mut i: usize = from;
    while i <= last
        invariant
            from <= i <= last + 1,
            forall|j: int| from <= j < i ==> !pat_match_at(h@, p@, j),
        decreases last + 1 - i,
    {
        if is_pat_match_at(h, p, i) {
            return Some(i);
        }
        i = i + 1;
    }
    assert(forall|j: int| j > last ==> !pat_match_at(h@, p@, j));
    None
}

/// An occurrence inside a suffix window survives appends to the stream.
pub proof fn lemma_contains_in_extension(w_old: Seq<u8>, w_new: Seq<u8>, base: int, n: Seq<u8>)
    requires
        0 <= base <= w_old.len(),
        w_old.is_prefix_of(w_new),
        contains_bytes(w_old.skip(base), n),
    ensures
        contains_bytes(w_new.skip(base), n),
{
    let i = choose|i: int| match_at(w_old.skip(base), n, i);
    assert(w_new.skip(base).subrange(i, i + n.len() as int) =~= w_old.skip(base).subrange(
        i,
        i + n.len() as int,
    ));
    assert(match_at(w_new.skip(base), n, i));
}

/// A match of `n` survives a change that leaves its range untouched.
pub proof fn lemma_match_preserved(before: Seq<u8>, after: Seq<u8>, n: Seq<u8>, i: int, lo: int, hi: int)
    requires
        match_at(before, n, i),
        after.len() == before.len(),
        forall|k: int| 0 <= k < before.len() && !(lo <= k < hi) ==> after[k] == before[k],
        i + n.len() <= lo || hi <= i,
    ensures
        match_at(after, n, i),
{
    assert(after.subrange(i, i + n.len() as int) =~= n);
}

/// Overwrites `data[pos .. pos + patch.len()]` with `patch`, leaving the
/// rest and the length unchanged.
#[verifier::loop_isolation(false)]
pub fn overwrite(data: &mut Vec<u8>, pos: usize, patch: &[u8])
    requires
        pos + patch@.len() <= old(data)@.len(),
    ensures
        final(data)@.len() == old(data)@.len(),
        final(data)@ == old(data)@.take(pos as int) + patch@ + old(data)@.skip(
            pos + patch@.len() as int,
        ),
        forall|k: int|
            0 <= k < old(data)@.len() && !(pos <= k < pos + patch@.len()) ==> final(data)@[k]
                == old(data)@[k],
        forall|k: int| 0 <= k < patch@.len() ==> final(data)@[pos + k] == patch@[k],
{
    let p_len = patch.len();
    let d_len = data.len();
    assert(pos + p_len <= d_len);
    let mut j: usize = 0;
    while j < p_len
        invariant
            j <= p_len,
            data@.len() == old(data)@.len(),
            forall|k: int| 0 <= k < j ==> data@[pos + k] == patch@[k],
            forall|k: int|
                0 <= k < data@.len() && !(pos <= k < pos + j) ==> data@[k] == old(data)@[k],
        decreases p_len - j,
    {
        data.set(pos + j, patch[j]);
        j = j + 1;
    }
    assert(data@ =~= old(data)@.take(pos as int) + patch@ + old(data)@.skip(
        pos + patch@.len() as int,
    ));
}

} // verus!

use vstd::prelude::*;

use crate::error::Error;

verus! {

/// Whether `path` holds a NUL byte.
pub open spec fn has_nul(path: Seq<u8>) -> bool {
    exists|i: int| 0 <= i < path.len() && path[i] == 0
}

/// The position of the first NUL byte of `path`.
pub open spec fn first_nul(path: Seq<u8>) -> int {
    choose|i: int| 0 <= i < path.len() && path[i] == 0 && forall|j: int| 0 <= j < i ==> path[j] != 0
}

/// What a path becomes for the kernel: its bytes with a NUL byte after
/// them, or the error that names the first NUL byte inside it.
pub open spec fn spec_to_cstring(path: Seq<u8>) -> Result<Seq<u8>, Error> {
    if has_nul(path) {
        Err(Error::InteriorNul(first_nul(path) as usize))
    } else {
        Ok(path.push(0u8))
    }
}

/// A path without a NUL byte is handed to the kernel as its own bytes,
/// unchanged, followed by one NUL; a path with a NUL byte is refused, with
/// the position of its first NUL byte.
pub proof fn law_to_cstring(path: Seq<u8>)
    ensures
        (forall|i: int| 0 <= i < path.len() ==> path[i] != 0) ==> {
            &&& spec_to_cstring(path) matches Ok(c)
            &&& c.len() == path.len() + 1
            &&& c.drop_last() == path
            &&& c.last() == 0
        },
        path.len() <= usize::MAX ==> forall|i: int| 0 <= i < path.len() && path[i] == 0 ==> {
            &&& spec_to_cstring(path) matches Err(Error::InteriorNul(p))
            &&& p <= i
            &&& path[p as int] == 0
            &&& forall|j: int| 0 <= j < p ==> path[j] != 0
        },
{
    if forall|i: int| 0 <= i < path.len() ==> path[i] != 0 {
        assert(!has_nul(path));
        assert(path.push(0u8).drop_last() =~= path);
    }
    assert forall|i: int| path.len() <= usize::MAX && 0 <= i < path.len() && path[i] == 0 implies {
        &&& spec_to_cstring(path) matches Err(Error::InteriorNul(p))
        &&& p <= i
        &&& path[p as int] == 0
        &&& forall|j: int| 0 <= j < p ==> path[j] != 0
    } by {
        assert(has_nul(path));
        lemma_first_nul_exists(path, i);
        let f = first_nul(path);
        assert(f <= i) by {
            if f > i {
                assert(path[i] != 0);
            }
        }
    }
}

/// A path with a NUL byte has a first one.
proof fn lemma_first_nul_exists(path: Seq<u8>, i: int)
    requires
        0 <= i < path.len(),
        path[i] == 0,
    ensures
        0 <= first_nul(path) < path.len(),
        path[first_nul(path)] == 0,
        forall|j: int| 0 <= j < first_nul(path) ==> path[j] != 0,
    decreases i,
{
    if exists|j: int| 0 <= j < i && path[j] == 0 {
        let j = choose|j: int| 0 <= j < i && path[j] == 0;
        lemma_first_nul_exists(path, j);
    } else {
        assert(0 <= i < path.len() && path[i] == 0 && forall|j: int| 0 <= j < i ==> path[j] != 0);
    }
}

/// The bytes of a path as the kernel takes them: NUL-terminated. A path
/// that holds a NUL byte is refused, with the position of the first one.
pub fn to_cstring(path: &[u8]) -> (r: Result<Vec<u8>, Error>)
    ensures
        r matches Ok(v) ==> spec_to_cstring(path@) == Ok::<Seq<u8>, Error>(v@),
        r matches Ok(v) ==> v@.len() == path@.len() + 1 && v@.drop_last() == path@ && v@.last() == 0,
        r is Ok <==> forall|i: int| 0 <= i < path@.len() ==> path@[i] != 0,
        r matches Err(e) ==> spec_to_cstring(path@) == Err::<Seq<u8>, Error>(e),
{
    let mut out: Vec<u8> = Vec::new();
    let mut i: usize = 0;
    while i < path.len()
        invariant
            i <= path@.len(),
            out@ == path@.subrange(0, i as int),
            forall|j: int| 0 <= j < i ==> path@[j] != 0,
        decreases path@.len() - i,
    {
        if path[i] == 0 {
            proof {
                assert(has_nul(path@));
                let f = first_nul(path@);
                assert(f == i) by {
                    if f < i {
                        assert(path@[f] != 0);
                    }
                    if f > i {
                        assert(path@[i as int] == 0);
                    }
                }
            }
            return Err(Error::InteriorNul(i));
        }
        out.push(path[i]);
        proof {
            assert(out@ =~= path@.subrange(0, i as int + 1));
        }
        i = i + 1;
    }
    out.push(0u8);
    proof {
        assert(path@.subrange(0, path@.len() as int) =~= path@);
    }
    Ok(out)
}

} // verus!

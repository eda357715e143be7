//! Version compatibility between this tool and a component's resolved
//! runtime dependency.
//!
//! While the tool is pre-1.0 the entire version string must match exactly;
//! from 1.0 on only the major component has to agree.

use vstd::prelude::*;

use crate::text::str_eq;
use crate::text::to_chars;

verus! {

/// Index of the first `.` in `v` at or after `i`, or the length when there
/// is none.
pub open spec fn dot_from(v: Seq<char>, i: int) -> int
    decreases v.len() - i,
    when 0 <= i <= v.len()
{
    if i >= v.len() {
        i
    } else if v[i] == '.' {
        i
    } else {
        dot_from(v, i + 1)
    }
}

/// The major component of a version string: everything before the first dot.
pub open spec fn major_of(v: Seq<char>) -> Seq<char> {
    v.take(dot_from(v, 0))
}

/// Is a dependency resolved to version `theirs` compatible with our own
/// version `ours`? Exact-string match while pre-1.0, major-version match
/// thereafter.
pub open spec fn spec_version_compatible(ours: Seq<char>, theirs: Seq<char>) -> bool {
    if major_of(ours) == seq!['0'] {
        ours == theirs
    } else {
        major_of(ours) == major_of(theirs)
    }
}

proof fn lemma_dot_from_bounds(v: Seq<char>, i: int)
    requires
        0 <= i <= v.len(),
    ensures
        i <= dot_from(v, i) <= v.len(),
        dot_from(v, i) < v.len() ==> v[dot_from(v, i)] == '.',
        forall|k: int| i <= k < dot_from(v, i) ==> v[k] != '.',
    decreases v.len() - i,
{
    if i >= v.len() {
    } else if v[i] == '.' {
    } else {
        lemma_dot_from_bounds(v, i + 1);
    }
}

fn dot_pos(v: &Vec<char>, i: usize) -> (r: usize)
    requires
        i <= v@.len(),
    ensures
        r as int == dot_from(v@, i as int),
        i <= r <= v@.len(),
    decreases v@.len() - i,
{
    if i >= v.len() {
        i
    } else if v[i] == '.' {
        i
    } else {
        dot_pos(v, i + 1)
    }
}

/// Report whether a dependency's resolved version string is compatible with
/// this tool's own version.
pub fn version_compatible(ours: &str, theirs: &str) -> (r: bool)
    ensures
        r == spec_version_compatible(ours@, theirs@),
{
    let a = to_chars(ours);
    let b = to_chars(theirs);
    let pa = dot_pos(&a, 0);
    let pb = dot_pos(&b, 0);
    let pre_one = pa == 1 && a.len() >= 1 && a[0] == '0';
    proof {
        if pre_one {
            assert(major_of(ours@) =~= seq!['0']);
        } else {
            if major_of(ours@) == seq!['0'] {
                assert(major_of(ours@).len() == 1);
                assert(major_of(ours@)[0] == '0');
                assert(ours@.take(pa as int)[0] == ours@[0]);
                assert(false);
            }
        }
    }
    if pre_one {
        str_eq(ours, theirs)
    } else {
        if pa != pb {
            proof {
                assert(major_of(ours@).len() != major_of(theirs@).len());
            }
            return false;
        }
        let mut k: usize = 0;
        while k < pa
            invariant
                k <= pa,
                pa == pb,
                pa as int == dot_from(a@, 0),
                pb as int == dot_from(b@, 0),
                pa <= a@.len(),
                pb <= b@.len(),
                a@ == ours@,
                b@ == theirs@,
                forall|q: int| 0 <= q < k ==> a@[q] == b@[q],
            decreases pa - k,
        {
            if a[k] != b[k] {
                proof {
                    assert(major_of(ours@)[k as int] == ours@[k as int]);
                    assert(major_of(theirs@)[k as int] == theirs@[k as int]);
                }
                return false;
            }
            k += 1;
        }
        proof {
            assert forall|q: int| 0 <= q < pa implies major_of(ours@)[q] == major_of(theirs@)[q]
                by {
                assert(a@[q] == b@[q]);
            }
            assert(major_of(ours@) =~= major_of(theirs@));
        }
        true
    }
}

} // verus!

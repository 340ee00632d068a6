//! Patches: named, independently trackable change-sets.
//!
//! A patch's name is a stable identifier; the commit it points at changes as
//! the patch is reapplied onto new bases, the name does not.

use vstd::prelude::*;

use crate::CommitId;

verus! {

/// One named change-set in a stack.
///
/// For an applied patch, `commit` is the commit that holds the patch's
/// change-set applied on top of everything below it; for an unapplied or
/// hidden patch it is the commit the patch last produced, kept so the
/// change-set can be reapplied later. `empty` records that the patch's
/// change-set was found to be a no-operation against its base (for example
/// because it was merged upstream); such a patch keeps its place in the
/// stack.
#[derive(Debug)]
pub struct Patch {
    pub name: String,
    pub commit: CommitId,
    pub empty: bool,
}

impl Clone for Patch {
    fn clone(&self) -> (r: Self)
        ensures
            r == *self,
    {
        let r = Patch { name: self.name.clone(), commit: self.commit, empty: self.empty };
        proof {
            assert(r == *self);
        }
        r
    }
}

/// The names of a sequence of patches, in order.
pub open spec fn name_seq(ps: Seq<Patch>) -> Seq<Seq<char>> {
    ps.map_values(|q: Patch| q.name@)
}

/// An element-wise copy of a patch vector.
pub fn clone_patches(v: &Vec<Patch>) -> (r: Vec<Patch>)
    ensures
        r@ == v@,
{
    let mut r: Vec<Patch> = Vec::new();
    let mut i: usize = 0;
    while i < v.len()
        invariant
            i <= v.len(),
            r@ =~= v@.take(i as int),
        decreases v.len() - i,
    {
        r.push(v[i].clone());
        i += 1;
    }
    proof {
        assert(r@ =~= v@);
    }
    r
}

/// Whether `n` occurs among `names`.
pub fn contains_name(names: &Vec<String>, n: &String) -> (r: bool)
    ensures
        r == names.deep_view().contains(n@),
{
    let mut i: usize = 0;
    while i < names.len()
        invariant
            i <= names.len(),
            forall|j: int| 0 <= j < i ==> names.deep_view()[j] != n@,
        decreases names.len() - i,
    {
        if names[i].eq(n) {
            proof {
                assert(names.deep_view()[i as int] == n@);
            }
            return true;
        }
        i += 1;
    }
    false
}

} // verus!

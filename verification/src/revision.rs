//! Revision identifiers and the choice of the stop boundary.

use vstd::prelude::*;

verus! {

/// A fixed-width content identifier of a commit.
#[derive(Clone, Copy, Debug, Hash)]
pub struct RevisionId {
    pub bytes: [u8; 20],
}

impl View for RevisionId {
    type V = Seq<u8>;

    open spec fn view(&self) -> Seq<u8> {
        self.bytes@
    }
}

impl RevisionId {
    /// The identifier with the given bytes.
    pub fn from_bytes(bytes: [u8; 20]) -> (id: RevisionId)
        ensures
            id@ == bytes@,
    {
        RevisionId { bytes }
    }

    /// Whether two identifiers name the same revision.
    pub fn same(&self, other: &RevisionId) -> (r: bool)
        ensures
            r == (self@ == other@),
            r == (*self == *other),
    {
        let mut i: usize = 0;
        while i < 20
            invariant
                0 <= i <= 20,
                forall|j: int| 0 <= j < i ==> self.bytes@[j] == other.bytes@[j],
            decreases 20 - i,
        {
            if self.bytes[i] != other.bytes[i] {
                return false;
            }
            i += 1;
        }
        assert(self.bytes@ =~= other.bytes@);
        assert(self.bytes == other.bytes);
        true
    }
}

impl PartialEq for RevisionId {
    fn eq(&self, other: &RevisionId) -> (r: bool) {
        self.same(other)
    }
}

impl Eq for RevisionId {}

impl vstd::std_specs::cmp::PartialEqSpecImpl for RevisionId {
    open spec fn obeys_eq_spec() -> bool {
        true
    }

    open spec fn eq_spec(&self, other: &RevisionId) -> bool {
        *self == *other
    }
}

} // verus!

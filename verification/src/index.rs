//! The handle of the nearest-neighbour index. The engine itself is outside
//! this library; the handle keeps what the store has to know of it: the
//! dimension it was made with, its kind, and the identifiers it holds.

use crate::text::same_text;
use std::collections::HashSet;
use vstd::prelude::*;

verus! {

broadcast use vstd::std_specs::hash::group_hash_axioms;

/// The structure that the engine builds.
#[derive(Debug, Clone, Copy, PartialEq, Eq, Structural)]
pub enum IndexKind {
    /// Balanced k-means trees.
    Bkt,
    /// k-d trees.
    Kdt,
}

/// What a persisted index says of itself.
#[derive(Debug, Clone, Copy, PartialEq, Eq, Structural)]
pub struct IndexHeader {
    pub dimension: usize,
    pub kind: IndexKind,
}

/// Why the index refused an operation.
#[derive(Debug, Clone, Copy, PartialEq, Eq, Structural)]
pub enum IndexError {
    /// The vector does not have the dimension of the index.
    DimensionMismatch { expected: usize, found: usize },
    /// The index already holds a vector under this identifier.
    DuplicateIdentifier(usize),
    /// There is no persisted index to load.
    Missing,
    /// The persisted index has another dimension or kind.
    Incompatible,
    /// The engine did not take the vector.
    Rejected,
}

/// The mathematical content of a [`VectorIndexHandle`].
pub struct IndexView {
    pub dimension: nat,
    pub kind: IndexKind,
    pub ids: Set<usize>,
}

/// The identifiers `0, 1, .., count - 1`.
pub open spec fn dense(count: nat) -> Set<usize> {
    Set::new(|id: usize| (id as nat) < count)
}

/// What [`VectorIndexHandle::check_add`] answers for an index.
pub open spec fn add_fault(index: IndexView, identifier: usize, vector_len: usize) -> Option<
    IndexError,
> {
    if vector_len as nat != index.dimension {
        Some(
            IndexError::DimensionMismatch {
                expected: index.dimension as usize,
                found: vector_len,
            },
        )
    } else if index.ids.contains(identifier) {
        Some(IndexError::DuplicateIdentifier(identifier))
    } else {
        None
    }
}

/// There are exactly `count` identifiers below `count`.
pub proof fn lemma_dense_len(count: nat)
    requires
        count <= usize::MAX,
    ensures
        dense(count).finite(),
        dense(count).len() == count,
    decreases count,
{
    if count == 0 {
        assert(dense(0) =~= Set::<usize>::empty());
    } else {
        let below = (count - 1) as nat;
        lemma_dense_len(below);
        assert(dense(count) =~= dense(below).insert(below as usize));
    }
}

impl IndexKind {
    /// The kind that a configured name stands for: `BKT` or `KDT`.
    pub open spec fn named(name: Seq<char>) -> Option<IndexKind> {
        if name == "BKT"@ {
            Some(IndexKind::Bkt)
        } else if name == "KDT"@ {
            Some(IndexKind::Kdt)
        } else {
            None
        }
    }

    /// Reads a configured name.
    pub fn from_name(name: &str) -> (r: Option<IndexKind>)
        ensures
            r == IndexKind::named(name@),
    {
        if same_text(name, "BKT") {
            Some(IndexKind::Bkt)
        } else if same_text(name, "KDT") {
            Some(IndexKind::Kdt)
        } else {
            None
        }
    }
}

/// The store's side of the index: which identifiers the engine holds, and
/// the checks that an addition has to pass.
#[derive(Debug)]
pub struct VectorIndexHandle {
    dimension: usize,
    kind: IndexKind,
    ids: HashSet<usize>,
}

impl View for VectorIndexHandle {
    type V = IndexView;

    closed spec fn view(&self) -> IndexView {
        IndexView { dimension: self.dimension as nat, kind: self.kind, ids: self.ids@ }
    }
}

impl VectorIndexHandle {
    /// The handle is well formed: it holds finitely many identifiers.
    pub open spec fn wf(&self) -> bool {
        self@.ids.finite()
    }

    /// An empty index.
    pub fn new(dimension: usize, kind: IndexKind) -> (index: Self)
        ensures
            index.wf(),
            index@.dimension == dimension,
            index@.kind == kind,
            index@.ids == Set::<usize>::empty(),
    {
        VectorIndexHandle { dimension, kind, ids: HashSet::new() }
    }

    /// The handle of a persisted index. `found` is the header of the file,
    /// `None` where there is no file; `identifiers` are those that the
    /// engine holds after loading it. Fails with `Missing` where there is
    /// no file, with `Incompatible` where the header has another dimension
    /// or kind, and with `DuplicateIdentifier` on the first identifier
    /// listed twice.
    pub fn load(
        dimension: usize,
        kind: IndexKind,
        found: Option<IndexHeader>,
        identifiers: &[usize],
    ) -> (r: Result<Self, IndexError>)
        ensures
            found is None ==> r == Err::<Self, IndexError>(IndexError::Missing),
            found matches Some(header) ==> {
                let compatible = header.dimension == dimension && header.kind == kind;
                match r {
                    Ok(index) => {
                        &&& index.wf()
                        &&& compatible
                        &&& identifiers@.no_duplicates()
                        &&& index@.dimension == dimension
                        &&& index@.kind == kind
                        &&& index@.ids == identifiers@.to_set()
                    },
                    Err(e) => if !compatible {
                        e == IndexError::Incompatible
                    } else {
                        exists|j: int|
                            {
                                &&& 0 <= j < identifiers@.len()
                                &&& e == IndexError::DuplicateIdentifier(#[trigger] identifiers@[j])
                                &&& identifiers@.take(j).contains(identifiers@[j])
                                &&& identifiers@.take(j).no_duplicates()
                            }
                    },
                }
            },
    {
        let header = match found {
            Some(header) => header,
            None => {
                return Err(IndexError::Missing);
            },
        };
        if header.dimension != dimension || header.kind != kind {
            return Err(IndexError::Incompatible);
        }
        let mut index = VectorIndexHandle::new(dimension, kind);
        let mut i: usize = 0;
        while i < identifiers.len()
            invariant
                0 <= i <= identifiers@.len(),
                found == Some(header),
                header.dimension == dimension && header.kind == kind,
                index.wf(),
                index@.dimension == dimension,
                index@.kind == kind,
                index@.ids == identifiers@.take(i as int).to_set(),
                identifiers@.take(i as int).no_duplicates(),
            decreases identifiers@.len() - i,
        {
            let id = identifiers[i];
            let ghost before = identifiers@.take(i as int);
            let fresh = index.ids.insert(id);
            proof {
                assert(identifiers@.take(i as int + 1) == before.push(id));
                before.lemma_push_to_set_commute(id);
                assert(before.to_set().contains(id) <==> before.contains(id));
                if fresh {
                    assert forall|a: int, b: int|
                        0 <= a < b < before.push(id).len() implies before.push(id)[a]
                        != before.push(id)[b] by {
                        if b == before.len() {
                            assert(before.contains(before[a]));
                        }
                    }
                }
            }
            if !fresh {
                return Err(IndexError::DuplicateIdentifier(id));
            }
            i = i + 1;
        }
        proof {
            assert(identifiers@.take(i as int) == identifiers@);
        }
        Ok(index)
    }

    /// The dimension of the vectors of this index.
    pub fn dimension(&self) -> (r: usize)
        ensures
            r == self@.dimension,
    {
        self.dimension
    }

    /// The kind of this index.
    pub fn kind(&self) -> (r: IndexKind)
        ensures
            r == self@.kind,
    {
        self.kind
    }

    /// What a persisted copy of this index says of itself.
    pub fn header(&self) -> (r: IndexHeader)
        ensures
            r.dimension == self@.dimension,
            r.kind == self@.kind,
    {
        IndexHeader { dimension: self.dimension, kind: self.kind }
    }

    /// The number of vectors in the index.
    pub fn count(&self) -> (r: usize)
        ensures
            r == self@.ids.len(),
    {
        self.ids.len()
    }

    /// Whether the index holds a vector under an identifier.
    pub fn contains(&self, identifier: usize) -> (r: bool)
        ensures
            r == self@.ids.contains(identifier),
    {
        self.ids.contains(&identifier)
    }

    /// Decides whether a vector of `vector_len` numbers may be added under
    /// an identifier: its length must be the dimension of the index, and the
    /// identifier must be new. The dimension is looked at first.
    pub fn check_add(&self, identifier: usize, vector_len: usize) -> (r: Result<(), IndexError>)
        ensures
            match r {
                Ok(_) => add_fault(self@, identifier, vector_len) is None,
                Err(e) => add_fault(self@, identifier, vector_len) == Some(e),
            },
    {
        if vector_len != self.dimension {
            Err(IndexError::DimensionMismatch { expected: self.dimension, found: vector_len })
        } else if self.ids.contains(&identifier) {
            Err(IndexError::DuplicateIdentifier(identifier))
        } else {
            Ok(())
        }
    }

    /// Records a vector under an identifier, after the checks of
    /// [`VectorIndexHandle::check_add`]. A refusal leaves the index as it
    /// was.
    pub fn add(&mut self, identifier: usize, vector_len: usize) -> (r: Result<(), IndexError>)
        requires
            old(self).wf(),
        ensures
            final(self).wf(),
            final(self)@.dimension == old(self)@.dimension,
            final(self)@.kind == old(self)@.kind,
            match r {
                Ok(_) => {
                    &&& add_fault(old(self)@, identifier, vector_len) is None
                    &&& final(self)@.ids == old(self)@.ids.insert(identifier)
                },
                Err(e) => {
                    &&& add_fault(old(self)@, identifier, vector_len) == Some(e)
                    &&& final(self)@ == old(self)@
                },
            },
    {
        match self.check_add(identifier, vector_len) {
            Ok(_) => {
                self.ids.insert(identifier);
                Ok(())
            },
            Err(e) => Err(e),
        }
    }
}

} // verus!

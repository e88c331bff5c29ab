//! A collection of objects that keeps insertion order and finds an object by
//! its identifier.

use crate::error::{ImportError, ImportErrorView};
use vstd::hash_map::StringHashMap;
use vstd::prelude::*;

verus! {

/// An object that names itself by a string identifier.
pub trait Id {
    /// The identifier, as a sequence of characters.
    spec fn spec_id(&self) -> Seq<char>;

    /// The identifier.
    fn id(&self) -> (id: &str)
        ensures
            id@ == self.spec_id(),
    ;
}

/// Whether some object of `objects` carries the identifier `id`.
pub open spec fn has_id<T: Id>(objects: Seq<T>, id: Seq<char>) -> bool {
    exists|i: int| 0 <= i < objects.len() && (#[trigger] objects[i]).spec_id() == id
}

/// The position in `objects` of an object that carries the identifier `id`.
pub open spec fn position_of<T: Id>(objects: Seq<T>, id: Seq<char>) -> Option<int> {
    if has_id(objects, id) {
        Some(choose|i: int| 0 <= i < objects.len() && (#[trigger] objects[i]).spec_id() == id)
    } else {
        None
    }
}

/// Whether no two objects of `objects` carry the same identifier.
pub open spec fn distinct_ids<T: Id>(objects: Seq<T>) -> bool {
    forall|i: int, j: int|
        0 <= i < j < objects.len() ==> (#[trigger] objects[i]).spec_id() != (
        #[trigger] objects[j]).spec_id()
}

/// Whether the object at position `k` of `added` carries an identifier that
/// some object of `kept` carries too.
pub open spec fn clashes<T: Id>(kept: Seq<T>, added: Seq<T>, k: int) -> bool {
    0 <= k < added.len() && has_id(kept, added[k].spec_id())
}

/// Whether `merged` and `outcome` are what comes of moving the objects of
/// `added`, in their order, behind those of `kept` until one clashes: without
/// a clash all are moved; at the first clash the objects before it have been
/// moved and the identifier that clashes is reported.
pub open spec fn merges<T: Id>(
    kept: Seq<T>,
    added: Seq<T>,
    merged: Seq<T>,
    outcome: Result<(), ImportErrorView>,
) -> bool {
    match outcome {
        Ok(()) => {
            &&& forall|k: int| !clashes(kept, added, k)
            &&& merged == kept + added
        },
        Err(error) => exists|k: int|
            {
                &&& #[trigger] clashes(kept, added, k)
                &&& forall|j: int| 0 <= j < k ==> !clashes(kept, added, j)
                &&& merged == kept + added.take(k)
                &&& error == ImportErrorView::DuplicateIdentifier(added[k].spec_id())
            },
    }
}

/// A merge of objects of which none clashes succeeds, and what comes of it
/// holds the objects that were kept and the objects that were added, all of
/// them, in that order.
pub proof fn lemma_merge_of_disjoint<T: Id>(
    kept: Seq<T>,
    added: Seq<T>,
    merged: Seq<T>,
    outcome: Result<(), ImportErrorView>,
)
    requires
        merges(kept, added, merged, outcome),
        forall|i: int, j: int|
            0 <= i < kept.len() && 0 <= j < added.len() ==> (#[trigger] kept[i]).spec_id() != (
            #[trigger] added[j]).spec_id(),
    ensures
        outcome is Ok,
        merged == kept + added,
{
    assert forall|k: int| !clashes(kept, added, k) by {
        if clashes(kept, added, k) {
            let i = choose|i: int|
                0 <= i < kept.len() && (#[trigger] kept[i]).spec_id() == added[k].spec_id();
            assert(kept[i].spec_id() != added[k].spec_id());
        }
    }
}

/// A merge of objects of which one clashes fails, and what was kept is
/// neither lost nor overwritten: it stands in front as it was, and behind it
/// only objects that do not clash.
pub proof fn lemma_merge_of_overlapping<T: Id>(
    kept: Seq<T>,
    added: Seq<T>,
    merged: Seq<T>,
    outcome: Result<(), ImportErrorView>,
    i: int,
    j: int,
)
    requires
        merges(kept, added, merged, outcome),
        0 <= i < kept.len(),
        0 <= j < added.len(),
        kept[i].spec_id() == added[j].spec_id(),
    ensures
        outcome is Err,
        kept.len() <= merged.len() <= kept.len() + j,
        merged.take(kept.len() as int) == kept,
        forall|k: int|
            kept.len() <= k < merged.len() ==> !has_id(kept, (#[trigger] merged[k]).spec_id()),
{
    assert(clashes(kept, added, j));
    let first = choose|k: int|
        {
            &&& #[trigger] clashes(kept, added, k)
            &&& forall|m: int| 0 <= m < k ==> !clashes(kept, added, m)
            &&& merged == kept + added.take(k)
        };
    assert forall|k: int| kept.len() <= k < merged.len() implies !has_id(
        kept,
        (#[trigger] merged[k]).spec_id(),
    ) by {
        assert(!clashes(kept, added, k - kept.len()));
    }
}

/// Objects in insertion order, each found again by its identifier.
pub struct CollectionWithId<T> {
    objects: Vec<T>,
    id_to_idx: StringHashMap<usize>,
}

impl<T: Id> View for CollectionWithId<T> {
    type V = Seq<T>;

    closed spec fn view(&self) -> Seq<T> {
        self.objects@
    }
}

impl<T: Id> Default for CollectionWithId<T> {
    fn default() -> (collection: Self)
        ensures
            collection.wf(),
            collection@ == Seq::<T>::empty(),
    {
        CollectionWithId::new()
    }
}

impl<T: Id> CollectionWithId<T> {
    /// The index agrees with the objects: every object is listed under its
    /// identifier at its own position, and nothing else is listed.
    pub closed spec fn wf(&self) -> bool {
        &&& forall|i: int|
            0 <= i < self.objects@.len() ==> {
                &&& self.id_to_idx@.contains_key((#[trigger] self.objects@[i]).spec_id())
                &&& self.id_to_idx@[self.objects@[i].spec_id()] == i
            }
        &&& forall|id: Seq<char>| #[trigger]
            self.id_to_idx@.contains_key(id) ==> {
                &&& 0 <= self.id_to_idx@[id] < self.objects@.len()
                &&& self.objects@[self.id_to_idx@[id] as int].spec_id() == id
            }
    }

    /// In a well-formed collection no identifier occurs twice.
    pub proof fn lemma_distinct_ids(&self)
        requires
            self.wf(),
        ensures
            distinct_ids(self@),
    {
    }

    /// In a well-formed collection an identifier is found at one position only.
    pub proof fn lemma_position_of(&self, i: int)
        requires
            self.wf(),
            0 <= i < self@.len(),
        ensures
            position_of(self@, self@[i].spec_id()) == Some(i),
    {
        let id = self@[i].spec_id();
        assert(has_id(self@, id));
    }

    /// An empty collection.
    pub fn new() -> (collection: Self)
        ensures
            collection.wf(),
            collection@ == Seq::<T>::empty(),
    {
        CollectionWithId { objects: Vec::new(), id_to_idx: StringHashMap::new() }
    }

    /// The number of objects.
    pub fn len(&self) -> (len: usize)
        ensures
            len == self@.len(),
    {
        self.objects.len()
    }

    /// Whether the collection holds no object.
    pub fn is_empty(&self) -> (empty: bool)
        ensures
            empty == (self@.len() == 0),
    {
        self.objects.len() == 0
    }

    /// Whether an object with the identifier `id` is in the collection.
    pub fn contains_id(&self, id: &str) -> (found: bool)
        requires
            self.wf(),
        ensures
            found == has_id(self@, id@),
    {
        let found = self.id_to_idx.contains_key(id);
        found
    }

    /// The position of the object with the identifier `id`, if there is one.
    pub fn get_idx(&self, id: &str) -> (idx: Option<usize>)
        requires
            self.wf(),
        ensures
            match idx {
                Some(i) => position_of(self@, id@) == Some(i as int),
                None => position_of(self@, id@) is None,
            },
    {
        match self.id_to_idx.get(id) {
            Some(idx) => {
                proof {
                    self.lemma_position_of(*idx as int);
                }
                Some(*idx)
            },
            None => {
                None
            },
        }
    }

    /// The object at position `idx`.
    pub fn index(&self, idx: usize) -> (object: &T)
        requires
            idx < self@.len(),
        ensures
            *object == self@[idx as int],
    {
        &self.objects[idx]
    }

    /// The object with the identifier `id`, if there is one.
    pub fn get(&self, id: &str) -> (object: Option<&T>)
        requires
            self.wf(),
        ensures
            match object {
                Some(found) => position_of(self@, id@) matches Some(i) && *found == self@[i],
                None => position_of(self@, id@) is None,
            },
    {
        match self.get_idx(id) {
            Some(idx) => Some(&self.objects[idx]),
            None => None,
        }
    }

    /// The objects, in insertion order.
    pub fn values(&self) -> (objects: &Vec<T>)
        ensures
            objects@ == self@,
    {
        &self.objects
    }

    /// Appends `object`, unless its identifier is taken already: then the
    /// collection stays as it is and the identifier is reported.
    pub fn push(&mut self, object: T) -> (outcome: Result<usize, ImportError>)
        requires
            old(self).wf(),
        ensures
            final(self).wf(),
            match outcome {
                Ok(idx) => {
                    &&& !has_id(old(self)@, object.spec_id())
                    &&& idx == old(self)@.len()
                    &&& final(self)@ == old(self)@.push(object)
                },
                Err(error) => {
                    &&& has_id(old(self)@, object.spec_id())
                    &&& error@ == ImportErrorView::DuplicateIdentifier(object.spec_id())
                    &&& final(self)@ == old(self)@
                },
            },
    {
        let taken = self.contains_id(object.id());
        if taken {
            return Err(ImportError::DuplicateIdentifier(object.id().to_owned()));
        }
        let idx = self.objects.len();
        let key = object.id().to_owned();
        self.id_to_idx.insert(key, idx);
        self.objects.push(object);
        Ok(idx)
    }

    /// The object at position `idx`, to be changed in place. The collection
    /// stays well-formed as long as the change keeps the identifier.
    pub fn index_mut(&mut self, idx: usize) -> (object: &mut T)
        requires
            old(self).wf(),
            idx < old(self)@.len(),
        ensures
            *object == old(self)@[idx as int],
            final(self)@ == old(self)@.update(idx as int, *final(object)),
            final(object).spec_id() == old(self)@[idx as int].spec_id() ==> final(self).wf(),
    {
        &mut self.objects[idx]
    }

    /// Moves the objects of `other` to the end of this collection, in their
    /// order, and stops at the first whose identifier is taken already: that
    /// identifier is reported, and the objects before it stay merged.
    pub fn try_merge(&mut self, other: Self) -> (outcome: Result<(), ImportError>)
        requires
            old(self).wf(),
            other.wf(),
        ensures
            final(self).wf(),
            merges(
                old(self)@,
                other@,
                final(self)@,
                match outcome {
                    Ok(()) => Ok(()),
                    Err(error) => Err(error@),
                },
            ),
    {
        proof {
            other.lemma_distinct_ids();
        }
        let ghost added = other@;
        for object in it: other.objects.into_iter()
            invariant
                it.seq() == added,
                distinct_ids(added),
                self.wf(),
                self@ == old(self)@ + added.take(it.index() as int),
                forall|j: int| 0 <= j < it.index() ==> !clashes(old(self)@, added, j),
        {
            let ghost k = it.index() as int;
            let ghost before = self@;
            match self.push(object) {
                Ok(_) => {
                    proof {
                        if has_id(old(self)@, added[k].spec_id()) {
                            let i = choose|i: int|
                                0 <= i < old(self)@.len() && (#[trigger] old(self)@[i]).spec_id()
                                    == added[k].spec_id();
                            assert(before[i].spec_id() == added[k].spec_id());
                        }
                    }
                },
                Err(error) => {
                    proof {
                        let i = choose|i: int|
                            0 <= i < before.len() && (#[trigger] before[i]).spec_id()
                                == added[k].spec_id();
                        assert(clashes(old(self)@, added, k));
                    }
                    return Err(error);
                },
            }
        }
        proof {
            assert(added.take(added.len() as int) == added);
        }
        Ok(())
    }
}

} // verus!

//! The model that imports are merged into.

use crate::collection::CollectionWithId;
use crate::objects::{Calendar, StopArea, StopPoint};
use vstd::prelude::*;

verus! {

/// The collections of a transit model, one for each type of object.
pub struct Collections {
    pub calendars: CollectionWithId<Calendar>,
    pub stop_areas: CollectionWithId<StopArea>,
    pub stop_points: CollectionWithId<StopPoint>,
}

impl Default for Collections {
    fn default() -> (collections: Self)
        ensures
            collections.wf(),
            collections.calendars@.len() == 0,
            collections.stop_areas@.len() == 0,
            collections.stop_points@.len() == 0,
    {
        Collections::new()
    }
}

impl Collections {
    /// Every collection of the model is well-formed.
    pub open spec fn wf(&self) -> bool {
        &&& self.calendars.wf()
        &&& self.stop_areas.wf()
        &&& self.stop_points.wf()
    }

    /// A model without objects.
    pub fn new() -> (collections: Self)
        ensures
            collections.wf(),
            collections.calendars@.len() == 0,
            collections.stop_areas@.len() == 0,
            collections.stop_points@.len() == 0,
    {
        Collections {
            calendars: CollectionWithId::new(),
            stop_areas: CollectionWithId::new(),
            stop_points: CollectionWithId::new(),
        }
    }
}

} // verus!

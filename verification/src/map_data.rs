//! A single piece of data tied to one tile of the map.

use vstd::prelude::*;

verus! {

/// Spatial data for use with the [`MapIndex`](crate::map_index::MapIndex) struct.
///
/// The map index keeps one value per tile; hex patches of neighbouring data
/// are read from that same storage, so an update is seen by every patch that
/// covers the tile.
#[derive(Debug)]
pub struct MapData<T> {
    /// The stored data.
    inner: T,
}

impl<T> View for MapData<T> {
    type V = T;

    closed spec fn view(&self) -> T {
        self.inner
    }
}

impl<T> MapData<T> {
    /// Create from data.
    pub fn new(data: T) -> (d: Self)
        ensures
            d@ == data,
    {
        MapData { inner: data }
    }

    /// Immutably borrow the inner data (read access).
    pub fn read(&self) -> (r: &T)
        ensures
            *r == self@,
    {
        &self.inner
    }

    /// Immutably borrow the inner data.
    pub fn borrow(&self) -> (r: &T)
        ensures
            *r == self@,
    {
        &self.inner
    }

    /// Get mutable access to the data.
    pub fn get_mut(&mut self) -> (r: &mut T)
        ensures
            *r == old(self)@,
            final(self)@ == *final(r),
    {
        &mut self.inner
    }

    /// Mutably borrow the inner data.
    pub fn borrow_mut(&mut self) -> (r: &mut T)
        ensures
            *r == old(self)@,
            final(self)@ == *final(r),
    {
        &mut self.inner
    }

    /// Replace internal data.
    pub fn replace(&mut self, new_data: T)
        ensures
            final(self)@ == new_data,
    {
        *self.get_mut() = new_data;
    }
}

} // verus!

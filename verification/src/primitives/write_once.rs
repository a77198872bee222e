use vstd::prelude::*;

verus! {

/// A write-once slot. The first writer wins; subsequent writes are dropped.
pub struct WriteOnceSlot<T> {
    value: Option<T>,
}

impl<T> View for WriteOnceSlot<T> {
    type V = Option<T>;

    closed spec fn view(&self) -> Option<T> {
        self.value
    }
}

/// What a slot holds after a store.
pub open spec fn after_store<T>(held: Option<T>, value: T) -> Option<T> {
    match held {
        Some(first) => Some(first),
        None => Some(value),
    }
}

/// What a slot holds after several stores, in order.
pub open spec fn stored_all<T>(held: Option<T>, values: Seq<T>) -> Option<T>
    decreases values.len(),
{
    if values.len() == 0 {
        held
    } else {
        after_store(stored_all(held, values.drop_last()), values.last())
    }
}

impl<T> WriteOnceSlot<T> {
    pub fn new() -> (slot: WriteOnceSlot<T>)
        ensures
            slot@ is None,
    {
        WriteOnceSlot { value: None }
    }

    /// Try to store a value. Returns a reference to the stored value.
    /// If a value is stored already, the provided one is dropped and
    /// a reference to the first one is returned.
    pub fn try_store(&mut self, value: T) -> (stored: &T)
        ensures
            final(self)@ == after_store(old(self)@, value),
            Some(*stored) == final(self)@,
    {
        if self.value.is_none() {
            self.value = Some(value);
        }
        match &self.value {
            Some(stored) => stored,
            None => vstd::pervasive::unreached(),
        }
    }

    /// Get a reference to the stored value, if any.
    pub fn get(&self) -> (stored: Option<&T>)
        ensures
            match stored {
                Some(v) => self@ == Some(*v),
                None => self@ is None,
            },
    {
        self.value.as_ref()
    }
}

impl<T> Default for WriteOnceSlot<T> {
    fn default() -> (slot: WriteOnceSlot<T>)
        ensures
            slot@ is None,
    {
        WriteOnceSlot::new()
    }
}

/// From the first store into an empty slot on, the slot holds the first value, whatever else is
/// stored: every store gives it back, and so does every read.
pub proof fn the_first_value_stays<T>(values: Seq<T>)
    requires
        values.len() > 0,
    ensures
        stored_all(None, values) == Some(values[0]),
    decreases values.len(),
{
    if values.len() > 1 {
        the_first_value_stays(values.drop_last());
    } else {
        assert(stored_all(None::<T>, values.drop_last()) is None);
    }
}

} // verus!

//! A value that is written once and read any number of times.

use vstd::prelude::*;

verus! {

/// Why a value could not be read or written.
#[derive(Clone, Copy, Debug, PartialEq, Eq, Structural)]
pub enum SingleWriteMultiReadError {
    /// The value was not written in time.
    Timeout,
    /// The value was not written.
    NoValue,
    /// The value was written before.
    AlreadyWritten,
}

/// A value that is written once and read any number of times.
pub struct SingleWriteMultiRead<T> {
    value: Option<T>,
}

impl<T> SingleWriteMultiRead<T> {
    /// The value, once it is written.
    pub closed spec fn value(&self) -> Option<T> {
        self.value
    }

    /// Nothing is written yet.
    pub fn new() -> (r: Self)
        ensures
            r.value() is None,
    {
        SingleWriteMultiRead { value: None }
    }

    /// Writes the value, unless one was written before.
    pub fn write(&mut self, value: T) -> (r: Result<(), SingleWriteMultiReadError>)
        ensures
            match old(self).value() {
                None => r is Ok && final(self).value() == Some(value),
                Some(_) => r == Err::<(), _>(SingleWriteMultiReadError::AlreadyWritten)
                    && *final(self) == *old(self),
            },
    {
        match &self.value {
            Some(_) => Err(SingleWriteMultiReadError::AlreadyWritten),
            None => {
                self.value = Some(value);
                Ok(())
            },
        }
    }

    /// The value, if it is written.
    pub fn read_now(&self) -> (r: Result<&T, SingleWriteMultiReadError>)
        ensures
            match self.value() {
                Some(value) => r matches Ok(v) && *v == value,
                None => r == Err::<&T, _>(SingleWriteMultiReadError::NoValue),
            },
    {
        match &self.value {
            Some(value) => Ok(value),
            None => Err(SingleWriteMultiReadError::NoValue),
        }
    }
}

/// The first value that is written is the one that is read from then on, and every later one is
/// refused.
pub proof fn the_first_value_is_read<T>(
    made: SingleWriteMultiRead<T>,
    unread: Result<&T, SingleWriteMultiReadError>,
    cell: &mut SingleWriteMultiRead<T>,
    first: T,
    written: Result<(), SingleWriteMultiReadError>,
    again: &mut SingleWriteMultiRead<T>,
    second: T,
    refused: Result<(), SingleWriteMultiReadError>,
    read: Result<&T, SingleWriteMultiReadError>,
)
    requires
        call_ensures(SingleWriteMultiRead::<T>::new, (), made),
        call_ensures(SingleWriteMultiRead::<T>::read_now, (&made,), unread),
        *cell == made,
        call_ensures(SingleWriteMultiRead::<T>::write, (cell, first), written),
        *again == *final(cell),
        call_ensures(SingleWriteMultiRead::<T>::write, (again, second), refused),
        call_ensures(SingleWriteMultiRead::<T>::read_now, (&*final(again),), read),
    ensures
        unread == Err::<&T, _>(SingleWriteMultiReadError::NoValue),
        written is Ok,
        refused == Err::<(), _>(SingleWriteMultiReadError::AlreadyWritten),
        read matches Ok(value) && *value == first,
{
}

} // verus!

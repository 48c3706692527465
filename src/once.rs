//! A value set exactly once after construction, such as the handle through
//! which a reply handler answers once the router has given it one.
use vstd::prelude::*;

verus! {

#[derive(Debug, Clone, Copy, PartialEq, Eq, Structural)]
pub enum OnceError {
    /// The cell was already set.
    AlreadySet,
    /// The cell was read before being set.
    Unset,
}

pub struct WriteOnce<T> {
    value: Option<T>,
}

impl<T> WriteOnce<T> {
    pub closed spec fn value_spec(&self) -> Option<T> {
        self.value
    }

    pub fn new() -> (r: Self)
        ensures
            r.value_spec() is None,
    {
        WriteOnce { value: None }
    }

    /// Sets the value; a second set is refused and leaves the first value.
    pub fn set(&mut self, v: T) -> (r: Result<(), OnceError>)
        ensures
            old(self).value_spec() is None ==> r is Ok && final(self).value_spec() == Some(v),
            old(self).value_spec() is Some ==> r == Err::<(), OnceError>(OnceError::AlreadySet)
                && final(self).value_spec() == old(self).value_spec(),
    {
        if self.value.is_some() {
            return Err(OnceError::AlreadySet);
        }
        self.value = Some(v);
        Ok(())
    }

    /// The value, once set; reading it before is an error.
    pub fn get(&self) -> (r: Result<&T, OnceError>)
        ensures
            match self.value_spec() {
                Some(v) => r == Ok::<&T, OnceError>(&v),
                None => r == Err::<&T, OnceError>(OnceError::Unset),
            },
    {
        match &self.value {
            Some(v) => Ok(v),
            None => Err(OnceError::Unset),
        }
    }

    pub fn is_set(&self) -> (r: bool)
        ensures
            r == self.value_spec() is Some,
    {
        self.value.is_some()
    }
}

} // verus!

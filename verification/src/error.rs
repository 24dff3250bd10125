//! An error that can be handed to many receivers, whether or not the error
//! inside can be copied.

use std::sync::Arc;
use vstd::prelude::*;
use vstd::std_specs::cmp::PartialEqSpec;

verus! {

/// An error behind shared ownership. Every copy holds the same error.
#[derive(Debug)]
pub struct SharedError<E> {
    inner: Arc<E>,
}

impl<E> View for SharedError<E> {
    type V = E;

    /// The error inside.
    closed spec fn view(&self) -> E {
        *self.inner
    }
}

/// `Arc::clone`: the copy points to the value that `shared` points to.
#[verifier::external_body]
fn arc_clone<E>(shared: &Arc<E>) -> (copy: Arc<E>)
    ensures
        copy == shared,
{
    Arc::clone(shared)
}

/// `Arc::try_unwrap`: either the value that `shared` pointed to, or `shared`
/// itself; which of the two depends on whether other copies are alive.
#[verifier::external_body]
fn arc_try_unwrap<E>(shared: Arc<E>) -> (unwrapped: Result<E, Arc<E>>)
    ensures
        match unwrapped {
            Ok(value) => value == *shared,
            Err(same) => same == shared,
        },
{
    Arc::try_unwrap(shared)
}

impl<E> SharedError<E> {
    /// The envelope that holds `inner`.
    pub closed spec fn holding(inner: E) -> Self {
        SharedError { inner: Arc::new(inner) }
    }

    /// The envelope that holds `inner` holds `inner`, and no other does.
    pub proof fn lemma_holding(self, inner: E)
        ensures
            Self::holding(inner)@ == inner,
            self@ == inner <==> self == Self::holding(inner),
    {
    }

    /// Puts `inner` behind shared ownership.
    pub fn new(inner: E) -> (error: Self)
        ensures
            error == Self::holding(inner),
            error@ == inner,
    {
        SharedError { inner: Arc::new(inner) }
    }

    /// The error inside.
    pub fn inner(&self) -> (inner: &E)
        ensures
            *inner == self@,
    {
        &self.inner
    }

    /// Takes the error out, which succeeds only for the last copy alive;
    /// otherwise the envelope comes back as it was.
    pub fn take(self) -> (taken: Result<E, Self>)
        ensures
            match taken {
                Ok(inner) => inner == self@,
                Err(same) => same == self,
            },
    {
        match arc_try_unwrap(self.inner) {
            Ok(inner) => Ok(inner),
            Err(shared) => Err(SharedError { inner: shared }),
        }
    }

    /// The error inside, as it displays itself.
    pub fn to_string(&self) -> (text: String) where E: std::fmt::Display
        ensures
            vstd::string::to_string_from_display_ensures::<E>(&self@, text),
    {
        self.inner().to_string()
    }

    /// Two envelopes that hold equal errors are equal.
    pub proof fn lemma_equal_by_content(self, other: Self)
        requires
            self@ == other@,
        ensures
            self == other,
    {
    }
}

impl<E> Clone for SharedError<E> {
    /// Another handle to the same error.
    fn clone(&self) -> (copy: Self)
        ensures
            copy == *self,
    {
        SharedError { inner: arc_clone(&self.inner) }
    }
}

impl<E> From<E> for SharedError<E> {
    fn from(inner: E) -> (error: Self)
        ensures
            error@ == inner,
    {
        SharedError::new(inner)
    }
}

impl<E> vstd::std_specs::convert::FromSpecImpl<E> for SharedError<E> {
    open spec fn obeys_from_spec() -> bool {
        true
    }

    open spec fn from_spec(inner: E) -> Self {
        SharedError::holding(inner)
    }
}

impl<E> std::ops::Deref for SharedError<E> {
    type Target = E;

    fn deref(&self) -> (inner: &E)
        ensures
            *inner == self@,
    {
        &self.inner
    }
}

impl<E: PartialEq> PartialEq for SharedError<E> {
    /// Envelopes compare as the errors inside do.
    fn eq(&self, other: &Self) -> (equal: bool) {
        self.inner().eq(other.inner())
    }
}

impl<E: PartialEq> vstd::std_specs::cmp::PartialEqSpecImpl for SharedError<E> {
    open spec fn obeys_eq_spec() -> bool {
        <E as PartialEqSpec>::obeys_eq_spec()
    }

    open spec fn eq_spec(&self, other: &Self) -> bool {
        self@.eq_spec(&other@)
    }
}

} // verus!

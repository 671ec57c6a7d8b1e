//! A one-shot slot for the outcome of an HTTP operation.
use vstd::prelude::*;

verus! {

/// A value that arrives once and may be taken once.
pub struct FutureHttp<T> {
    value: Option<T>,
    consumed: bool,
}

/// The mathematical value of a [`FutureHttp`].
pub struct FutureView<T> {
    pub value: Option<T>,
    pub consumed: bool,
}

impl<T> View for FutureHttp<T> {
    type V = FutureView<T>;

    closed spec fn view(&self) -> FutureView<T> {
        FutureView { value: self.value, consumed: self.consumed }
    }
}

impl<T> FutureView<T> {
    /// What `get` gives on this state.
    pub open spec fn get_result(self) -> Option<Result<T, ()>> {
        if self.consumed {
            Some(Err(()))
        } else {
            match self.value {
                Some(v) => Some(Ok(v)),
                None => None,
            }
        }
    }

    /// The state after `get`.
    pub open spec fn after_get(self) -> FutureView<T> {
        if !self.consumed && self.value is Some {
            FutureView { value: None, consumed: true }
        } else {
            self
        }
    }
}

impl<T> Default for FutureHttp<T> {
    fn default() -> (f: Self)
        ensures
            f@ == (FutureView::<T> { value: None, consumed: false }),
    {
        Self { value: None, consumed: false }
    }
}

impl<T> FutureHttp<T> {
    pub fn set(&mut self, value: T)
        ensures
            final(self)@ == (FutureView { value: Some(value), consumed: old(self)@.consumed }),
    {
        self.value = Some(value);
    }

    /// Take the value: `Some(Ok(..))` the first time a value is there,
    /// `Some(Err(()))` ever after, `None` while no value has come.
    pub fn get(&mut self) -> (r: Option<Result<T, ()>>)
        ensures
            r == old(self)@.get_result(),
            final(self)@ == old(self)@.after_get(),
    {
        if self.consumed {
            return Some(Err(()));
        }
        if let Some(value) = self.value.take() {
            self.consumed = true;
            return Some(Ok(value));
        }
        None
    }

    pub fn is_ready(&self) -> (b: bool)
        ensures
            b == (self@.consumed || self@.value is Some),
    {
        self.consumed || self.value.is_some()
    }
}

/// A future hands out its value at most once: after a `get` that gave the
/// value, every later `get` reports the value as taken, whatever is set
/// in between.
pub proof fn lemma_taken_once<T>(f: FutureView<T>, later: T)
    requires
        f.get_result() matches Some(Ok(_)),
    ensures
        f.after_get().consumed,
        f.after_get().get_result() == Some(Err::<T, ()>(())),
        (FutureView { value: Some(later), consumed: f.after_get().consumed }).get_result() == Some(
            Err::<T, ()>(()),
        ),
        f.after_get().after_get() == f.after_get(),
{
}

/// A future is ready exactly when `get` gives something.
pub proof fn lemma_ready_iff_some<T>(f: FutureView<T>)
    ensures
        (f.consumed || f.value is Some) <==> f.get_result() is Some,
{
}

} // verus!

//! Timeouts of an outgoing HTTP request.
use vstd::prelude::*;

verus! {

/// The timeouts of an outgoing request, each in nanoseconds when set.
pub struct RequestOptions {
    connect_timeout: Option<u64>,
    first_byte_timeout: Option<u64>,
    between_bytes_timeout: Option<u64>,
}

/// The mathematical value of [`RequestOptions`].
pub struct OptionsView {
    pub connect_timeout: Option<u64>,
    pub first_byte_timeout: Option<u64>,
    pub between_bytes_timeout: Option<u64>,
}

impl View for RequestOptions {
    type V = OptionsView;

    closed spec fn view(&self) -> OptionsView {
        OptionsView {
            connect_timeout: self.connect_timeout,
            first_byte_timeout: self.first_byte_timeout,
            between_bytes_timeout: self.between_bytes_timeout,
        }
    }
}

impl Default for RequestOptions {
    fn default() -> (o: Self)
        ensures
            o@ == (OptionsView {
                connect_timeout: None,
                first_byte_timeout: None,
                between_bytes_timeout: None,
            }),
    {
        RequestOptions { connect_timeout: None, first_byte_timeout: None, between_bytes_timeout: None }
    }
}

impl RequestOptions {
    pub fn connect_timeout(&self) -> (r: Option<u64>)
        ensures
            r == self@.connect_timeout,
    {
        self.connect_timeout
    }

    pub fn set_connect_timeout(&mut self, duration: Option<u64>) -> (r: Result<(), ()>)
        ensures
            r is Ok,
            final(self)@ == (OptionsView { connect_timeout: duration, ..old(self)@ }),
    {
        self.connect_timeout = duration;
        Ok(())
    }

    pub fn first_byte_timeout(&self) -> (r: Option<u64>)
        ensures
            r == self@.first_byte_timeout,
    {
        self.first_byte_timeout
    }

    pub fn set_first_byte_timeout(&mut self, duration: Option<u64>) -> (r: Result<(), ()>)
        ensures
            r is Ok,
            final(self)@ == (OptionsView { first_byte_timeout: duration, ..old(self)@ }),
    {
        self.first_byte_timeout = duration;
        Ok(())
    }

    pub fn between_bytes_timeout(&self) -> (r: Option<u64>)
        ensures
            r == self@.between_bytes_timeout,
    {
        self.between_bytes_timeout
    }

    pub fn set_between_bytes_timeout(&mut self, duration: Option<u64>) -> (r: Result<(), ()>)
        ensures
            r is Ok,
            final(self)@ == (OptionsView { between_bytes_timeout: duration, ..old(self)@ }),
    {
        self.between_bytes_timeout = duration;
        Ok(())
    }
}

} // verus!

//! The decisions around calls to a remote or embedded instance. The calls themselves
//! (connecting, sending a query) are made by the caller, who hands their outcome here.
use vstd::prelude::*;

use crate::error::{ConnectionError, Error};
use crate::k_error::{error_symbol, KError};
use crate::k_type::ERROR;
use crate::kbox::{Any, KBox};
use crate::raw::Runtime;

verus! {

/// A connection to an instance, by its handle. Handle 0 is the embedding instance itself;
/// a positive handle is a remote one.
pub struct Connection {
    handle: i32,
}

impl View for Connection {
    type V = i32;

    closed spec fn view(&self) -> i32 {
        self.handle
    }
}

/// The connection, or the error, that a connect call's result code stands for.
pub open spec fn connect_outcome(code: i32) -> Result<i32, ConnectionError> {
    if code == 0 {
        Err(ConnectionError::BadCredentials)
    } else if code == -1 {
        Err(ConnectionError::CouldNotConnect)
    } else if code == -2 {
        Err(ConnectionError::Timeout)
    } else {
        Ok(code)
    }
}

impl Connection {
    /// The connection to the embedding instance.
    pub fn new() -> (r: Self)
        ensures
            r@ == 0,
    {
        Connection { handle: 0 }
    }

    /// The connection that a connect call's result code stands for: 0 means bad
    /// credentials, -1 no connection, -2 a timeout, anything else is the handle.
    pub fn from_code(code: i32) -> (r: Result<Connection, ConnectionError>)
        ensures
            connect_outcome(code) matches Ok(h) ==> (r matches Ok(c) && c@ == h),
            connect_outcome(code) matches Err(e) ==> r == Err::<Connection, ConnectionError>(e),
    {
        match code {
            0 => Err(ConnectionError::BadCredentials),
            -1 => Err(ConnectionError::CouldNotConnect),
            -2 => Err(ConnectionError::Timeout),
            x => Ok(Connection { handle: x }),
        }
    }

    /// The handle for synchronous calls.
    pub fn handle(&self) -> (r: i32)
        ensures
            r == self@,
    {
        self.handle
    }

    /// The handle for asynchronous calls: the negated handle.
    pub fn async_handle(&self) -> (r: i32)
        requires
            self@ != i32::MIN,
        ensures
            r == -self@,
    {
        -self.handle
    }

    /// What a synchronous call returned: no value means the network failed; an error value
    /// becomes a query error with its message, and the error value is given up; any other
    /// value is handed to the caller, who now owns it.
    pub fn take_result(&self, rt: &mut Runtime, result: Option<usize>) -> (r: Result<KBox<Any>, Error>)
        requires
            old(rt).wf(),
            result matches Some(k) ==> old(rt).live(k),
        ensures
            final(rt).wf(),
            result is None ==> r == Err::<KBox<Any>, Error>(Error::NetworkError) && *final(rt)
                == *old(rt),
            result is Some && old(rt).tag_of(result->Some_0) == ERROR ==> {
                &&& r is Err
                &&& final(rt).released(old(rt), result->Some_0)
                &&& error_symbol(old(rt), result->Some_0).id() < old(rt).symbols().len() ==> (r matches Err(
                    Error::QError(m),
                ) && m@ == old(rt).symbols()[error_symbol(old(rt), result->Some_0).id() as int])
            },
            result is Some && old(rt).tag_of(result->Some_0) != ERROR ==> (r matches Ok(b)
                && b@ == result->Some_0) && *final(rt) == *old(rt),
    {
        match result {
            None => Err(Error::NetworkError),
            Some(k) => {
                if rt.tag(k).0 == ERROR {
                    let e = KBox::<Any>::from_raw(k);
                    match e.try_cast::<KError>(rt) {
                        Ok(err) => Err(err.into_error(rt)),
                        Err(_) => Err(Error::UnknownQError),
                    }
                } else {
                    Ok(KBox::from_raw(k))
                }
            },
        }
    }

    /// What an asynchronous call returned: no value means the network failed. A value is
    /// not owned by the caller and is left alone.
    pub fn publish_result(&self, result: Option<usize>) -> (r: Result<(), Error>)
        ensures
            result is None ==> r == Err::<(), Error>(Error::NetworkError),
            result is Some ==> r == Ok::<(), Error>(()),
    {
        match result {
            None => Err(Error::NetworkError),
            Some(_) => Ok(()),
        }
    }
}

} // verus!

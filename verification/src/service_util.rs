//! Service-side vocabulary: the error carrier handlers return, and the small
//! traits the endpoint's loops read from and write to.

use vstd::prelude::*;

verus! {

/// A plain error carrying a human-readable message.
#[derive(Debug, PartialEq)]
pub struct ErrorMessage {
    pub message: String,
}

impl ErrorMessage {
    /// An error with the given message.
    pub fn create(message: String) -> (r: ErrorMessage)
        ensures
            r.message == message,
    {
        ErrorMessage { message }
    }
}

/// A source of values, each attempt yielding a value or an error.
pub trait Provider<VALUE, ERR> {
    fn obtain_next(&mut self) -> Result<VALUE, ERR>;
}

/// A sink that is handed one message at a time.
pub trait Handler<VALUE, ERR> {
    fn supply(&mut self, msg: &str) -> Result<(), ERR>;
}

/// A source of transport messages: one whole message text per read, or an
/// error that ends the read loop.
///
/// `remaining()` is how much input is left to read; every successful read
/// consumes some of it, so a finite stream is eventually exhausted.
pub trait MessageReader {
    spec fn remaining(&self) -> nat;

    fn read_next(&mut self) -> (r: Result<String, ErrorMessage>)
        ensures
            r is Ok ==> final(self).remaining() < old(self).remaining(),
    ;
}

/// The error a method handler reports: a numeric code, a message, and a typed
/// data payload that is always serialized onto the wire.
#[derive(Debug, PartialEq)]
pub struct ServiceError<DATA> {
    pub code: u32,
    pub message: String,
    pub data: DATA,
}

/// What a method handler returns: its result, or a [`ServiceError`].
#[allow(non_camel_case_types)]
pub type ServiceResult<RETURN_VALUE, ERROR_DATA> = Result<RETURN_VALUE, ServiceError<ERROR_DATA>>;

} // verus!

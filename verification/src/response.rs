//! The JSON envelopes that the HTTP endpoints answer with.

use vstd::prelude::*;

verus! {

/// The status code of every successful answer.
pub const OK_CODE: u16 = 200;

/// A successful answer: the code and the data.
pub struct ResultOk<T> {
    pub code: u16,
    pub data: T,
}

impl<T> ResultOk<T> {
    /// Wraps `data` with the success code.
    pub fn new(data: T) -> (res: Self)
        ensures
            res.code == OK_CODE,
            res.data == data,
    {
        ResultOk { code: OK_CODE, data }
    }
}

/// A failed answer: the code and a message for the client.
pub struct ResultErr {
    pub code: u16,
    pub err_msg: String,
}

impl ResultErr {
    /// Builds an error answer from its code and message.
    pub fn new(code: u16, err_msg: String) -> (res: Self)
        ensures
            res.code == code,
            res.err_msg@ == err_msg@,
    {
        ResultErr { code, err_msg }
    }
}

/// Builder of the two answer shapes.
pub struct ResultJson;

impl ResultJson {
    /// A success answer around `data`.
    pub fn ok<T>(data: T) -> (res: ResultOk<T>)
        ensures
            res.code == OK_CODE,
            res.data == data,
    {
        ResultOk::new(data)
    }

    /// An error answer with the given code and message.
    pub fn err(code: u16, err_msg: &str) -> (res: ResultErr)
        ensures
            res.code == code,
            res.err_msg@ == err_msg@,
    {
        ResultErr::new(code, err_msg.to_string())
    }
}

} // verus!

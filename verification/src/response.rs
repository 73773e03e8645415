//! The answers that the store's entry points give their caller.
use vstd::prelude::*;

verus! {

/// An answer to the caller of an entry point: whether the call succeeded,
/// whether a write batch changed the schema, the error message of a failed
/// call, and the bytes that a successful call hands back, if any.
#[derive(Clone, Debug, PartialEq, Eq)]
pub struct Response {
    pub success: bool,
    pub has_ddl: bool,
    pub err_msg: Option<String>,
    pub data: Option<Vec<u8>>,
}

/// The answer is a plain success: no schema change, no message, no data.
pub open spec fn is_plain_success(r: Response) -> bool {
    &&& r.success
    &&& !r.has_ddl
    &&& r.err_msg is None
    &&& r.data is None
}

/// The answer is a failure that carries `msg` and nothing else.
pub open spec fn is_failure_with(r: Response, msg: String) -> bool {
    &&& !r.success
    &&& !r.has_ddl
    &&& r.err_msg == Some(msg)
    &&& r.data is None
}

impl Response {
    /// A plain success.
    pub fn new_success() -> (r: Response)
        ensures
            is_plain_success(r),
    {
        Response { success: true, has_ddl: false, err_msg: None, data: None }
    }

    /// A failure with the message `msg`.
    pub fn new_error(msg: String) -> (r: Response)
        ensures
            is_failure_with(r, msg),
    {
        Response { success: false, has_ddl: false, err_msg: Some(msg), data: None }
    }

    /// The caller could not take over the bytes of this answer: the answer
    /// turns into a failure with the message `msg`, and carries no bytes. Its
    /// schema flag is kept.
    pub fn refuse_data(&mut self, msg: String)
        ensures
            !final(self).success,
            final(self).has_ddl == old(self).has_ddl,
            final(self).err_msg == Some(msg),
            final(self).data is None,
    {
        self.success = false;
        self.err_msg = Some(msg);
        self.data = None;
    }
}

/// The answer to a write batch: on success, a success that says whether the
/// schema changed; otherwise a failure with the batch's error.
pub fn write_batch_response(result: Result<bool, String>) -> (r: Response)
    ensures
        match result {
            Ok(has_ddl) => r.success && r.has_ddl == has_ddl && r.err_msg is None && r.data is None,
            Err(msg) => is_failure_with(r, msg),
        },
{
    match result {
        Ok(has_ddl) => {
            let mut r = Response::new_success();
            r.has_ddl = has_ddl;
            r
        },
        Err(msg) => Response::new_error(msg),
    }
}

/// The answer to a call that returns nothing on success, such as ingesting
/// data or collecting the garbage of old snapshots.
pub fn status_response(result: Result<(), String>) -> (r: Response)
    ensures
        match result {
            Ok(_) => is_plain_success(r),
            Err(msg) => is_failure_with(r, msg),
        },
{
    match result {
        Ok(_) => Response::new_success(),
        Err(msg) => Response::new_error(msg),
    }
}

/// The answer to a request for the serialized graph definition: a success
/// that carries the bytes, or a failure with the error of the lookup.
pub fn graph_def_response(fetched: Result<Vec<u8>, String>) -> (r: Response)
    ensures
        match fetched {
            Ok(blob) => r.success && !r.has_ddl && r.err_msg is None && r.data == Some(blob),
            Err(msg) => is_failure_with(r, msg),
        },
{
    match fetched {
        Ok(blob) => {
            let mut r = Response::new_success();
            r.data = Some(blob);
            r
        },
        Err(msg) => Response::new_error(msg),
    }
}

} // verus!

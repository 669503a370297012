use vstd::prelude::*;

use crate::json::Json;

verus! {

/// The HTTP methods the clients use.
#[derive(Debug, Clone, Copy, PartialEq, Eq, Structural)]
pub enum Method {
    Get,
    Post,
    Put,
}

/// A request for the transport to send: the method and URL, the bearer
/// token, the content type and version headers where there are any, and
/// the JSON body where there is one.
#[derive(Debug)]
pub struct Request {
    pub method: Method,
    pub url: String,
    pub bearer_token: String,
    pub content_type_id: Option<String>,
    pub version: Option<i32>,
    pub body: Option<Json>,
}

/// What a fetch of one object came to, by the response's status.
#[derive(Debug, Clone, Copy, PartialEq, Eq, Structural)]
pub enum ReadOutcome {
    /// 200: the body holds the object.
    Found,
    /// 404: there is no such object; not an error.
    NotFound,
    /// Any other status: an error.
    Failed,
}

/// Classifies the status of a response to a read.
pub fn read_outcome(status: u16) -> (r: ReadOutcome)
    ensures
        status == 200 ==> r == ReadOutcome::Found,
        status == 404 ==> r == ReadOutcome::NotFound,
        status != 200 && status != 404 ==> r == ReadOutcome::Failed,
{
    if status == 200 {
        ReadOutcome::Found
    } else if status == 404 {
        ReadOutcome::NotFound
    } else {
        ReadOutcome::Failed
    }
}

/// Whether the status of a response to a write means it was done.
pub fn write_succeeded(status: u16) -> (r: bool)
    ensures
        r == (status == 200 || status == 201),
{
    status == 200 || status == 201
}

} // verus!

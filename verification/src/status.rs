//! The statuses that a handler answers with.

use vstd::prelude::*;

verus! {

/// The status of an answer. Each stands for the HTTP status of the same name.
#[derive(Debug, PartialEq, Eq, Clone, Copy)]
pub enum Status {
    /// 200: the request was served, and the answer has a body.
    Success,
    /// 201: the record was created.
    Created,
    /// 204: the request was served, and there is nothing to send back.
    NoContent,
    /// 404: there is no record under the id.
    NotFound,
    /// 500: the storage failed.
    InternalServerError,
}

impl Status {
    /// The number of the status.
    pub fn code(&self) -> (code: u16)
        ensures
            code == match *self {
                Status::Success => 200u16,
                Status::Created => 201u16,
                Status::NoContent => 204u16,
                Status::NotFound => 404u16,
                Status::InternalServerError => 500u16,
            },
    {
        match self {
            Status::Success => 200,
            Status::Created => 201,
            Status::NoContent => 204,
            Status::NotFound => 404,
            Status::InternalServerError => 500,
        }
    }
}

} // verus!

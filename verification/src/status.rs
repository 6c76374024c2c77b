//! The error the backend answers a refused request with: a gRPC status code
//! and a message.
use vstd::prelude::*;

verus! {

/// The gRPC status codes that the backend's own rules produce.
#[derive(PartialEq, Eq, Structural, Clone, Copy, Debug)]
pub enum Code {
    NotFound,
    Internal,
    InvalidArgument,
    FailedPrecondition,
}

#[derive(Debug)]
pub struct Status {
    pub code: Code,
    pub message: String,
}

impl Status {
    pub fn new(code: Code, message: String) -> (r: Status)
        ensures
            r.code == code,
            r.message@ == message@,
    {
        Status { code, message }
    }

    pub fn not_found(message: &str) -> (r: Status)
        ensures
            r.code == Code::NotFound,
            r.message@ == message@,
    {
        Status { code: Code::NotFound, message: message.to_string() }
    }

    pub fn internal(message: &str) -> (r: Status)
        ensures
            r.code == Code::Internal,
            r.message@ == message@,
    {
        Status { code: Code::Internal, message: message.to_string() }
    }

    pub fn invalid_argument(message: &str) -> (r: Status)
        ensures
            r.code == Code::InvalidArgument,
            r.message@ == message@,
    {
        Status { code: Code::InvalidArgument, message: message.to_string() }
    }

    pub fn failed_precondition(message: &str) -> (r: Status)
        ensures
            r.code == Code::FailedPrecondition,
            r.message@ == message@,
    {
        Status { code: Code::FailedPrecondition, message: message.to_string() }
    }
}

} // verus!

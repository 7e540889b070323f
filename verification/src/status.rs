//! gRPC status codes and the `Status` value carried in trailers.

use vstd::prelude::*;

verus! {

/// The gRPC status codes, as carried in the `grpc-status` trailer.
#[derive(Clone, Copy, Debug, PartialEq, Eq, Structural)]
pub enum Code {
    Okay,
    Cancelled,
    Unknown,
    InvalidArgument,
    DeadlineExceeded,
    NotFound,
    AlreadyExists,
    PermissionDenied,
    ResourceExhausted,
    FailedPrecondition,
    Aborted,
    OutOfRange,
    Unimplemented,
    Internal,
    Unavailable,
    DataLoss,
    Unauthenticated,
}

impl Code {
    /// The integer that stands for this code on the wire.
    pub open spec fn spec_wire(self) -> u32 {
        match self {
            Code::Okay => 0,
            Code::Cancelled => 1,
            Code::Unknown => 2,
            Code::InvalidArgument => 3,
            Code::DeadlineExceeded => 4,
            Code::NotFound => 5,
            Code::AlreadyExists => 6,
            Code::PermissionDenied => 7,
            Code::ResourceExhausted => 8,
            Code::FailedPrecondition => 9,
            Code::Aborted => 10,
            Code::OutOfRange => 11,
            Code::Unimplemented => 12,
            Code::Internal => 13,
            Code::Unavailable => 14,
            Code::DataLoss => 15,
            Code::Unauthenticated => 16,
        }
    }

    /// The integer that stands for this code on the wire.
    pub fn to_wire(self) -> (r: u32)
        ensures
            r == self.spec_wire(),
    {
        match self {
            Code::Okay => 0,
            Code::Cancelled => 1,
            Code::Unknown => 2,
            Code::InvalidArgument => 3,
            Code::DeadlineExceeded => 4,
            Code::NotFound => 5,
            Code::AlreadyExists => 6,
            Code::PermissionDenied => 7,
            Code::ResourceExhausted => 8,
            Code::FailedPrecondition => 9,
            Code::Aborted => 10,
            Code::OutOfRange => 11,
            Code::Unimplemented => 12,
            Code::Internal => 13,
            Code::Unavailable => 14,
            Code::DataLoss => 15,
            Code::Unauthenticated => 16,
        }
    }

    /// The code a wire integer stands for; an unknown integer reads as `Unknown`.
    pub open spec fn spec_from_wire(n: u32) -> Code {
        if n == 0 { Code::Okay }
        else if n == 1 { Code::Cancelled }
        else if n == 2 { Code::Unknown }
        else if n == 3 { Code::InvalidArgument }
        else if n == 4 { Code::DeadlineExceeded }
        else if n == 5 { Code::NotFound }
        else if n == 6 { Code::AlreadyExists }
        else if n == 7 { Code::PermissionDenied }
        else if n == 8 { Code::ResourceExhausted }
        else if n == 9 { Code::FailedPrecondition }
        else if n == 10 { Code::Aborted }
        else if n == 11 { Code::OutOfRange }
        else if n == 12 { Code::Unimplemented }
        else if n == 13 { Code::Internal }
        else if n == 14 { Code::Unavailable }
        else if n == 15 { Code::DataLoss }
        else if n == 16 { Code::Unauthenticated }
        else { Code::Unknown }
    }

    /// The code a wire integer stands for; an unknown integer reads as `Unknown`.
    pub fn from_wire(n: u32) -> (r: Code)
        ensures
            r == Code::spec_from_wire(n),
    {
        match n {
            0 => Code::Okay,
            1 => Code::Cancelled,
            2 => Code::Unknown,
            3 => Code::InvalidArgument,
            4 => Code::DeadlineExceeded,
            5 => Code::NotFound,
            6 => Code::AlreadyExists,
            7 => Code::PermissionDenied,
            8 => Code::ResourceExhausted,
            9 => Code::FailedPrecondition,
            10 => Code::Aborted,
            11 => Code::OutOfRange,
            12 => Code::Unimplemented,
            13 => Code::Internal,
            14 => Code::Unavailable,
            15 => Code::DataLoss,
            16 => Code::Unauthenticated,
            _ => Code::Unknown,
        }
    }
}

/// A gRPC status: a code, a human-readable message, and optional
/// structured error details, as reported in the `grpc-status`,
/// `grpc-message` and `grpc-status-details-bin` trailers.
#[derive(Clone, Debug, PartialEq, Eq)]
pub struct Status {
    pub code: Code,
    pub message: String,
    pub details: Vec<u8>,
}

impl Status {
    pub fn new(code: Code, message: String) -> (r: Status)
        ensures
            r.code == code,
            r.message == message,
            r.details@ == Seq::<u8>::empty(),
    {
        let r = Status { code, message, details: Vec::new() };
        proof {
            assert(r.details@ =~= Seq::<u8>::empty());
        }
        r
    }

    /// A status carrying structured error details for the trailers.
    pub fn with_details(code: Code, message: String, details: Vec<u8>) -> (r: Status)
        ensures
            r.code == code,
            r.message == message,
            r.details == details,
    {
        Status { code, message, details }
    }

    /// Whether this status reports success.
    pub open spec fn spec_is_ok(self) -> bool {
        self.code == Code::Okay
    }

    pub fn is_ok(&self) -> (r: bool)
        ensures
            r == self.spec_is_ok(),
    {
        matches!(self.code, Code::Okay)
    }
}

/// Round trip: every code survives the trip through its wire integer.
pub proof fn lemma_code_wire_round_trip(c: Code)
    ensures
        c.spec_wire() <= 16,
        Code::spec_from_wire(c.spec_wire()) == c,
{
}

} // verus!

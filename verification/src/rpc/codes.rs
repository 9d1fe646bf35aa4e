//! The closed set of error codes of the control service.
use vstd::prelude::*;

verus! {

/// Why a request failed.
#[derive(Clone, Copy, Debug, PartialEq, Eq, Hash, Structural)]
pub enum ErrorCode {
    InternalError,
    EmptyRequest,
    UnknownRequest,
    InvalidTime,
    InvalidDuration,
    MissingArgument,
    InvalidKey,
    InvalidMessage,
    SourceNotFound,
    SinkNotFound,
    SimulationNotStarted,
    SimulationTimeOutOfRange,
}

/// The number that stands for a code in an encoded reply.
pub open spec fn wire_code(code: ErrorCode) -> int {
    match code {
        ErrorCode::InternalError => 0,
        ErrorCode::EmptyRequest => 1,
        ErrorCode::UnknownRequest => 2,
        ErrorCode::InvalidTime => 3,
        ErrorCode::InvalidDuration => 4,
        ErrorCode::MissingArgument => 5,
        ErrorCode::InvalidKey => 6,
        ErrorCode::InvalidMessage => 7,
        ErrorCode::SourceNotFound => 8,
        ErrorCode::SinkNotFound => 9,
        ErrorCode::SimulationNotStarted => 10,
        ErrorCode::SimulationTimeOutOfRange => 11,
    }
}

/// The code that a number of an encoded reply stands for, if any.
pub open spec fn code_of(number: int) -> Option<ErrorCode> {
    if number == 0 {
        Some(ErrorCode::InternalError)
    } else if number == 1 {
        Some(ErrorCode::EmptyRequest)
    } else if number == 2 {
        Some(ErrorCode::UnknownRequest)
    } else if number == 3 {
        Some(ErrorCode::InvalidTime)
    } else if number == 4 {
        Some(ErrorCode::InvalidDuration)
    } else if number == 5 {
        Some(ErrorCode::MissingArgument)
    } else if number == 6 {
        Some(ErrorCode::InvalidKey)
    } else if number == 7 {
        Some(ErrorCode::InvalidMessage)
    } else if number == 8 {
        Some(ErrorCode::SourceNotFound)
    } else if number == 9 {
        Some(ErrorCode::SinkNotFound)
    } else if number == 10 {
        Some(ErrorCode::SimulationNotStarted)
    } else if number == 11 {
        Some(ErrorCode::SimulationTimeOutOfRange)
    } else {
        None
    }
}

/// Codes and numbers correspond one to one.
///
/// Every code is read back from its number, two codes never share a
/// number, and a number that is read as a code is the number of that code.
pub proof fn lemma_codes_one_to_one(code: ErrorCode, other: ErrorCode, number: int)
    ensures
        code_of(wire_code(code)) == Some(code),
        wire_code(code) == wire_code(other) ==> code == other,
        code_of(number) == Some(code) ==> wire_code(code) == number,
        0 <= wire_code(code) <= 11,
{
}

impl ErrorCode {
    /// The number that stands for the code in an encoded reply.
    pub fn to_wire(self) -> (number: i32)
        ensures
            number == wire_code(self),
    {
        match self {
            ErrorCode::InternalError => 0,
            ErrorCode::EmptyRequest => 1,
            ErrorCode::UnknownRequest => 2,
            ErrorCode::InvalidTime => 3,
            ErrorCode::InvalidDuration => 4,
            ErrorCode::MissingArgument => 5,
            ErrorCode::InvalidKey => 6,
            ErrorCode::InvalidMessage => 7,
            ErrorCode::SourceNotFound => 8,
            ErrorCode::SinkNotFound => 9,
            ErrorCode::SimulationNotStarted => 10,
            ErrorCode::SimulationTimeOutOfRange => 11,
        }
    }

    /// The code that a number of an encoded reply stands for, if any.
    pub fn from_wire(number: i32) -> (code: Option<ErrorCode>)
        ensures
            code == code_of(number as int),
    {
        if number == 0 {
            Some(ErrorCode::InternalError)
        } else if number == 1 {
            Some(ErrorCode::EmptyRequest)
        } else if number == 2 {
            Some(ErrorCode::UnknownRequest)
        } else if number == 3 {
            Some(ErrorCode::InvalidTime)
        } else if number == 4 {
            Some(ErrorCode::InvalidDuration)
        } else if number == 5 {
            Some(ErrorCode::MissingArgument)
        } else if number == 6 {
            Some(ErrorCode::InvalidKey)
        } else if number == 7 {
            Some(ErrorCode::InvalidMessage)
        } else if number == 8 {
            Some(ErrorCode::SourceNotFound)
        } else if number == 9 {
            Some(ErrorCode::SinkNotFound)
        } else if number == 10 {
            Some(ErrorCode::SimulationNotStarted)
        } else if number == 11 {
            Some(ErrorCode::SimulationTimeOutOfRange)
        } else {
            None
        }
    }
}

} // verus!

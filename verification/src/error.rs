//! The one error type every fallible operation of the library returns.
use vstd::prelude::*;

verus! {

/// Every failure mode of the library: bad keys, bad CIDRs, exhausted
/// pools, bad numeric fields, parse failures and I/O failures.
#[derive(Debug, Clone)]
pub enum WgError {
    InvalidKey(String),
    InvalidCidr(String),
    PoolExhausted(String),
    Value(String),
    Parse(String),
    Io(String),
}

/// Which kind of failure an error is, without its text.
#[derive(PartialEq, Eq, Structural, Clone, Copy, Debug)]
pub enum FailKind {
    InvalidKey,
    InvalidCidr,
    PoolExhausted,
    Value,
    Parse,
    Io,
}

impl WgError {
    pub open spec fn kind(&self) -> FailKind {
        match self {
            WgError::InvalidKey(_) => FailKind::InvalidKey,
            WgError::InvalidCidr(_) => FailKind::InvalidCidr,
            WgError::PoolExhausted(_) => FailKind::PoolExhausted,
            WgError::Value(_) => FailKind::Value,
            WgError::Parse(_) => FailKind::Parse,
            WgError::Io(_) => FailKind::Io,
        }
    }

    /// The text the error is shown as.
    pub open spec fn spec_message(&self) -> Seq<char> {
        match self {
            WgError::InvalidKey(m) => m@,
            WgError::InvalidCidr(m) => m@,
            WgError::PoolExhausted(m) => m@,
            WgError::Value(m) => m@,
            WgError::Parse(m) => m@,
            WgError::Io(m) => "I/O error: "@ + m@,
        }
    }

    /// The text the error is shown as.
    pub fn message(&self) -> (res: String)
        ensures
            res@ == self.spec_message(),
    {
        match self {
            WgError::InvalidKey(m) => m.clone(),
            WgError::InvalidCidr(m) => m.clone(),
            WgError::PoolExhausted(m) => m.clone(),
            WgError::Value(m) => m.clone(),
            WgError::Parse(m) => m.clone(),
            WgError::Io(m) => {
                let mut s = String::from_str("I/O error: ");
                s.append(m.as_str());
                s
            },
        }
    }
}

} // verus!

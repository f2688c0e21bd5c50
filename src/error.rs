use vstd::prelude::*;

verus! {

/// Why a reader could not be built, or why it stopped for good.
#[derive(Debug, PartialEq, Eq)]
pub enum StreamError {
    /// The object does not exist.
    NotFound,
    /// The service reported no length for the object.
    SizeUnavailable,
    /// The configured range size is not a positive number of bytes.
    InvalidChunkSize,
    /// A metadata or range request failed; the service's description.
    Transport(String),
    /// Reading a response body failed and the retry budget is spent.
    BodyRead(String),
    /// A response body ran past the range that was asked for, and the retry
    /// budget is spent.
    BodyOverrun,
}

impl StreamError {
    /// An equal copy of this error.
    pub fn duplicate(&self) -> (r: StreamError)
        ensures
            r == *self,
    {
        match self {
            StreamError::NotFound => StreamError::NotFound,
            StreamError::SizeUnavailable => StreamError::SizeUnavailable,
            StreamError::InvalidChunkSize => StreamError::InvalidChunkSize,
            StreamError::Transport(m) => StreamError::Transport(m.clone()),
            StreamError::BodyRead(m) => StreamError::BodyRead(m.clone()),
            StreamError::BodyOverrun => StreamError::BodyOverrun,
        }
    }
}

/// What the metadata query for the object answered.
#[derive(Debug, PartialEq, Eq)]
pub enum ProbeOutcome {
    /// The object exists; the length that the service reported, if any.
    Length(Option<i64>),
    /// The service reported that the object does not exist.
    NotFound,
    /// Any other failure of the query; the service's description.
    Failed(String),
}

/// The object's size in bytes, or the construction error, as a probe answer
/// decides it.
pub open spec fn probe_size(p: ProbeOutcome) -> Result<nat, StreamError> {
    match p {
        ProbeOutcome::Length(Some(n)) => if n >= 0 {
            Ok(n as nat)
        } else {
            Err(StreamError::SizeUnavailable)
        },
        ProbeOutcome::Length(None) => Err(StreamError::SizeUnavailable),
        ProbeOutcome::NotFound => Err(StreamError::NotFound),
        ProbeOutcome::Failed(m) => Err(StreamError::Transport(m)),
    }
}

/// Reads the object's size out of a probe answer.
pub fn size_from_probe(p: ProbeOutcome) -> (r: Result<u64, StreamError>)
    ensures
        match (r, probe_size(p)) {
            (Ok(n), Ok(m)) => n as nat == m,
            (Err(e), Err(f)) => e == f,
            _ => false,
        },
{
    match p {
        ProbeOutcome::Length(Some(n)) => {
            if n >= 0 {
                Ok(n as u64)
            } else {
                Err(StreamError::SizeUnavailable)
            }
        },
        ProbeOutcome::Length(None) => Err(StreamError::SizeUnavailable),
        ProbeOutcome::NotFound => Err(StreamError::NotFound),
        ProbeOutcome::Failed(m) => Err(StreamError::Transport(m)),
    }
}

} // verus!

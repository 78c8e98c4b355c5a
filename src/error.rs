use vstd::prelude::*;

verus! {

/// The kinds of failure that a run can end with, each with a message.
#[derive(Debug, Clone)]
pub enum TransferError {
    /// A malformed or empty destination, or an unusable local path.
    Configuration(String),
    /// A malformed object-storage record.
    Serialization(String),
    /// A connection, authentication or stream-protocol failure.
    Transport(String),
    /// A failed upload to object storage.
    ObjectStorage(String),
    /// A local read or metadata failure.
    Io(String),
}

impl TransferError {
    /// The message that a failed run prints: the kind, then the cause.
    pub fn describe(&self) -> (r: String)
        ensures
            r@ == match *self {
                TransferError::Configuration(m) => "configuration error: "@ + m@,
                TransferError::Serialization(m) => "serialization error: "@ + m@,
                TransferError::Transport(m) => "transport error: "@ + m@,
                TransferError::ObjectStorage(m) => "object storage error: "@ + m@,
                TransferError::Io(m) => "io error: "@ + m@,
            },
    {
        let (kind, cause) = match self {
            TransferError::Configuration(m) => ("configuration error: ", m),
            TransferError::Serialization(m) => ("serialization error: ", m),
            TransferError::Transport(m) => ("transport error: ", m),
            TransferError::ObjectStorage(m) => ("object storage error: ", m),
            TransferError::Io(m) => ("io error: ", m),
        };
        let r = String::from_str(kind);
        r.concat(cause.as_str())
    }
}

} // verus!

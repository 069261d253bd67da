use vstd::prelude::*;

verus! {

/// Why a request was turned down.
#[derive(Clone, Debug)]
pub enum Rejection {
    /// The global ceiling of live jobs is reached.
    TooManyJobs,
    /// The user already has a live job.
    UserHasJob,
    /// Declared ports outside the allowed inclusive range `min..=max`.
    IllegalPorts { ports: Vec<u16>, min: u16, max: u16 },
    /// Declared ports that another job already holds.
    PortConflict { ports: Vec<u16> },
    /// An uploaded artifact is over its size limit.
    PayloadTooLarge,
    /// The workload artifact does not carry the binary content type.
    UnsupportedMediaType,
    /// The upload is missing a part, repeats one, or labels one wrongly.
    MalformedUpload,
    /// The configuration could not be decoded.
    MalformedConfig,
    /// Something on the server side failed.
    Internal,
}

} // verus!

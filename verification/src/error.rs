//! Error codes.
use vstd::prelude::*;

verus! {

/// The error codes that the driver reports.
#[derive(Clone, Copy, Debug, PartialEq, Eq, Structural)]
pub enum Error {
    /// No such entry.
    ENOENT,
    /// Input or output failed.
    EIO,
    /// Nothing available now, try again.
    EAGAIN,
    /// Out of memory.
    ENOMEM,
    /// Invalid argument.
    EINVAL,
    /// Result not representable, or a message of another kind than asked for.
    ERANGE,
    /// Value too large.
    EOVERFLOW,
    /// Timed out.
    ETIMEDOUT,
    /// Operation not supported.
    ENOTSUPP,
    /// Buffer too small.
    ETOOSMALL,
}

} // verus!

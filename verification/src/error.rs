//! The ways a single invocation can fail. Every error is terminal: it is
//! reported once on the diagnostic stream and nothing is written to the
//! primary stream.

use vstd::prelude::*;

verus! {

/// An error of the codec, the version check or the generator.
#[derive(Clone, Copy, Debug, PartialEq, Eq, Structural)]
pub enum Error {
    /// The input string matches none of the supported encodings.
    InvalidFormat,
    /// The supplied value's version differs from the requested one.
    VersionMismatch,
    /// Generation was requested for a version that needs a source value.
    UnsupportedGenerationVersion,
    /// The named interface yielded no hardware address.
    InterfaceNotFound,
    /// No non-loopback interface with a hardware address exists.
    NoMacAddressAvailable,
}

impl Error {
    /// The message written to the diagnostic stream for this error.
    pub fn describe(&self) -> (r: &'static str)
        ensures
            r@ == match self {
                Error::InvalidFormat => "invalid uuid format"@,
                Error::VersionMismatch => "Provided <uuid> did not match `--version-mode`"@,
                Error::UnsupportedGenerationVersion => "Only 0, 1, and 4 are supported for '--version <version-mode>' without a provided <uuid>"@,
                Error::InterfaceNotFound => "MAC address could not be obtained for the requested interface"@,
                Error::NoMacAddressAvailable => "No mac address found"@,
            },
    {
        match self {
            Error::InvalidFormat => "invalid uuid format",
            Error::VersionMismatch => "Provided <uuid> did not match `--version-mode`",
            Error::UnsupportedGenerationVersion => "Only 0, 1, and 4 are supported for '--version <version-mode>' without a provided <uuid>",
            Error::InterfaceNotFound => "MAC address could not be obtained for the requested interface",
            Error::NoMacAddressAvailable => "No mac address found",
        }
    }
}

} // verus!

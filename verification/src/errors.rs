use vstd::prelude::*;

verus! {

/// The failures this host reports.
///
/// Identifier-length and payload violations abort only the operation that
/// raised them; surrounding work continues. A channel failure means the
/// consumer did not take an event, which is then dropped. None of these is
/// fatal to the process.
#[derive(Clone, Copy, Debug, PartialEq, Eq, Structural)]
pub enum HostError {
    /// An identifier was not exactly 32 bytes long.
    InvalidIdentifierLength,
    /// Fragment addressing was asked for the identifier of an empty payload.
    EmptyPayload,
    /// Fragment addressing was invoked with no payload at all.
    MissingInput,
    /// The consumer's receiving side was unavailable; the event was dropped.
    ChannelSendFailure,
}

} // verus!

use vstd::prelude::*;

verus! {

/// A platform capability that the applier may be asked for.
#[derive(Clone, Copy, PartialEq, Eq, Structural, Debug)]
pub enum Capability {
    AssignAddress,
    SetMtu,
    AddRoute,
    BringLinkUp,
}

/// A capability is missing on the running OS. This failure is always loud:
/// it must never be mistaken for a successful no-op.
#[derive(Clone, Copy, PartialEq, Eq, Structural, Debug)]
pub struct NotImplementedError {
    pub capability: Capability,
}

/// Kernel-socket transport failures.
#[derive(Clone, Copy, PartialEq, Eq, Structural, Debug)]
pub enum TransportError {
    /// The serialized request exceeds the maximum frame size.
    Oversize { len: usize },
    /// Fewer bytes were sent than requested.
    TruncatedWrite { sent: usize, expected: usize },
    /// Response bytes could not be parsed as framed messages.
    Malformed,
    /// The kernel answered with an explicit error payload; the raw code is
    /// propagated unchanged.
    Kernel { code: u32 },
}

/// Malformed structured documents, bad address text, bad credential encoding.
#[derive(Clone, Copy, PartialEq, Eq, Structural, Debug)]
pub enum ConfigError {
    BadCidr,
    BadEndpoint,
    BadPort,
    BadEncoding,
    BadDocument,
}

/// Remote-call failures: an explicit remote error or a response that does
/// not decode.
#[derive(Clone, Copy, PartialEq, Eq, Structural, Debug)]
pub enum ProtocolError {
    Remote,
    Decode,
}

/// Any convergence-step failure against the OS or the device driver.
#[derive(Clone, Copy, PartialEq, Eq, Structural, Debug)]
pub enum ApplyError {
    /// A kernel transport failure surfaced through the applier.
    Transport(TransportError),
    /// The device driver rejected the update.
    Device,
    /// An OS tool invocation failed.
    Os,
    /// The interface configuration could not be turned into a device update.
    BadConfig(ConfigError),
    /// The capability is not implemented on the running OS.
    NotImplemented(NotImplementedError),
}

} // verus!

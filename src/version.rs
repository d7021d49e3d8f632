use vstd::prelude::*;

use crate::protocol::NetworkVersion;

verus! {

/// A version of Archipelago, for the server or for the generator.
#[derive(Debug, Clone, Copy, PartialEq, Eq, Structural)]
pub struct Version {
    pub major: u16,
    pub minor: u16,
    pub build: u16,
}

/// Narrows a wire version component to 16 bits; larger values saturate.
pub open spec fn component(n: u64) -> u16 {
    if n > u16::MAX as u64 {
        u16::MAX
    } else {
        n as u16
    }
}

impl Version {
    /// The major version number.
    pub fn major(&self) -> (r: u16)
        ensures
            r == self.major,
    {
        self.major
    }

    /// The minor version number.
    pub fn minor(&self) -> (r: u16)
        ensures
            r == self.minor,
    {
        self.minor
    }

    /// The build version number.
    pub fn build(&self) -> (r: u16)
        ensures
            r == self.build,
    {
        self.build
    }

    /// Converts the version triple sent by the server.
    pub fn from_network(network: &NetworkVersion) -> (r: Version)
        ensures
            r.major == component(network.major),
            r.minor == component(network.minor),
            r.build == component(network.build),
    {
        Version {
            major: narrow(network.major),
            minor: narrow(network.minor),
            build: narrow(network.build),
        }
    }
}

fn narrow(n: u64) -> (r: u16)
    ensures
        r == component(n),
{
    if n > u16::MAX as u64 {
        u16::MAX
    } else {
        n as u16
    }
}

} // verus!

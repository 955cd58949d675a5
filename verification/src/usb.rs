//! The vocabulary of the peripheral side: directions, endpoint addresses,
//! endpoint descriptors, poll results and the errors of the packet interface.

use vstd::prelude::*;

verus! {

/// Number of endpoint numbers per direction.
pub const NUM_ENDPOINTS: usize = 16;

/// Direction of a transfer, seen from the host.
#[derive(Clone, Copy, Debug, PartialEq, Eq, Structural)]
pub enum UsbDirection {
    /// Host to device.
    Out,
    /// Device to host.
    In,
}

impl UsbDirection {
    pub open spec fn spec_opposite(self) -> UsbDirection {
        match self {
            UsbDirection::Out => UsbDirection::In,
            UsbDirection::In => UsbDirection::Out,
        }
    }

    /// The other direction.
    #[verifier::when_used_as_spec(spec_opposite)]
    pub fn opposite(self) -> (d: UsbDirection)
        ensures
            d == self.spec_opposite(),
    {
        match self {
            UsbDirection::Out => UsbDirection::In,
            UsbDirection::In => UsbDirection::Out,
        }
    }
}

/// An endpoint number together with a direction.
#[derive(Clone, Copy, Debug, PartialEq, Eq, Structural)]
pub struct EndpointAddress {
    pub number: u8,
    pub direction: UsbDirection,
}

impl EndpointAddress {
    /// An address is usable on the bus when its number is below `NUM_ENDPOINTS`.
    pub open spec fn is_valid(self) -> bool {
        self.number < 16
    }

    pub open spec fn spec_from_parts(number: u8, direction: UsbDirection) -> EndpointAddress {
        EndpointAddress { number, direction }
    }

    /// The address with the given number and direction.
    #[verifier::when_used_as_spec(spec_from_parts)]
    pub fn from_parts(number: u8, direction: UsbDirection) -> (a: EndpointAddress)
        ensures
            a == Self::spec_from_parts(number, direction),
    {
        EndpointAddress { number, direction }
    }

    pub fn number(&self) -> (n: u8)
        ensures
            n == self.number,
    {
        self.number
    }

    pub fn direction(&self) -> (d: UsbDirection)
        ensures
            d == self.direction,
    {
        self.direction
    }

    pub fn is_in(&self) -> (b: bool)
        ensures
            b == (self.direction == UsbDirection::In),
    {
        self.direction == UsbDirection::In
    }

    pub fn is_out(&self) -> (b: bool)
        ensures
            b == (self.direction == UsbDirection::Out),
    {
        self.direction == UsbDirection::Out
    }
}

/// The control endpoint in its OUT direction, where every control transfer starts.
pub open spec fn control_out() -> EndpointAddress {
    EndpointAddress { number: 0, direction: UsbDirection::Out }
}

/// The control endpoint in its IN direction.
pub open spec fn control_in() -> EndpointAddress {
    EndpointAddress { number: 0, direction: UsbDirection::In }
}

/// Transfer type of an endpoint.
#[derive(Clone, Copy, Debug, PartialEq, Eq, Structural)]
pub enum EndpointType {
    Control,
    Isochronous,
    Bulk,
    Interrupt,
}

/// What a class asks of the allocator for one endpoint.
#[derive(Clone, Copy, Debug, PartialEq, Eq)]
pub struct EndpointConfig {
    /// The endpoint number wanted, or `None` to take the next free one.
    pub number: Option<u8>,
    pub ep_type: EndpointType,
    pub max_packet_size: u16,
    pub interval: u8,
}

/// What the allocator settled for one endpoint.
#[derive(Clone, Copy, Debug, PartialEq, Eq, Structural)]
pub struct EndpointDescriptor {
    pub address: EndpointAddress,
    pub ep_type: EndpointType,
    pub max_packet_size: u16,
    pub interval: u8,
}

/// Kind of packet that an OUT endpoint hands to the class.
#[derive(Clone, Copy, Debug, PartialEq, Eq, Structural)]
pub enum OutPacketType {
    /// The eight bytes of a SETUP packet.
    Setup,
    /// A data packet, possibly empty.
    Data,
}

/// Errors of the peripheral interface.
#[derive(Clone, Copy, Debug, PartialEq, Eq, Structural)]
pub enum UsbError {
    /// No transfer is available for the endpoint now; poll again later.
    WouldBlock,
    /// A buffer does not fit the endpoint's packet size.
    BufferOverflow,
    /// The endpoint is taken, unknown, or of the wrong direction.
    InvalidEndpoint,
    /// The endpoint number is out of range.
    EndpointOverflow,
    /// The operation is not available on a virtual bus.
    Unsupported,
}

/// What a poll of the bus reports.
#[derive(Clone, Copy, Debug, PartialEq, Eq, Structural)]
pub enum PollResult {
    /// Nothing to do.
    Idle,
    /// The host reset the bus.
    Reset,
    /// Endpoints that may have work, one bit per endpoint number: those
    /// with a packet to read, those that can take a packet, and those with a
    /// SETUP packet to read.
    Data { ep_out: u16, ep_in_complete: u16, ep_setup: u16 },
    /// The bus was suspended.
    Suspend,
    /// The bus was resumed.
    Resume,
}

} // verus!

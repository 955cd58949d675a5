//! Control requests: the eight bytes of a SETUP packet and what they mean.

use crate::usb::UsbDirection;
use vstd::prelude::*;

verus! {

/// Standard request that sets the address of the device.
pub const REQUEST_SET_ADDRESS: u8 = 5;

/// Standard request that reads a descriptor.
pub const REQUEST_GET_DESCRIPTOR: u8 = 6;

/// Who defined a request.
#[derive(Clone, Copy, Debug, PartialEq, Eq, Structural)]
pub enum RequestType {
    Standard,
    Class,
    Vendor,
    Reserved,
}

/// Whom a request is for.
#[derive(Clone, Copy, Debug, PartialEq, Eq, Structural)]
pub enum Recipient {
    Device,
    Interface,
    Endpoint,
    Other,
    Reserved,
}

/// A control request.
#[derive(Clone, Copy, Debug, PartialEq, Eq, Structural)]
pub struct ControlRequest {
    /// Direction of the data stage.
    pub direction: UsbDirection,
    pub request_type: RequestType,
    pub recipient: Recipient,
    pub request: u8,
    pub value: u16,
    pub index: u16,
    /// Length of the data stage.
    pub length: u16,
}

impl RequestType {
    /// The two bits of the type in `bmRequestType`.
    pub open spec fn spec_code(self) -> u8 {
        match self {
            RequestType::Standard => 0,
            RequestType::Class => 1,
            RequestType::Vendor => 2,
            RequestType::Reserved => 3,
        }
    }

    #[verifier::when_used_as_spec(spec_code)]
    pub fn code(self) -> (c: u8)
        ensures
            c == self.spec_code(),
    {
        match self {
            RequestType::Standard => 0,
            RequestType::Class => 1,
            RequestType::Vendor => 2,
            RequestType::Reserved => 3,
        }
    }
}

impl Recipient {
    /// The five bits of the recipient in `bmRequestType`.
    pub open spec fn spec_code(self) -> u8 {
        match self {
            Recipient::Device => 0,
            Recipient::Interface => 1,
            Recipient::Endpoint => 2,
            Recipient::Other => 3,
            Recipient::Reserved => 4,
        }
    }

    #[verifier::when_used_as_spec(spec_code)]
    pub fn code(self) -> (c: u8)
        ensures
            c == self.spec_code(),
    {
        match self {
            Recipient::Device => 0,
            Recipient::Interface => 1,
            Recipient::Endpoint => 2,
            Recipient::Other => 3,
            Recipient::Reserved => 4,
        }
    }
}

impl ControlRequest {
    /// `bmRequestType`: the direction in bit 7, the type in bits 5 and 6, the
    /// recipient below.
    pub open spec fn request_type_byte(self) -> u8 {
        ((if self.direction == UsbDirection::In {
            0x80int
        } else {
            0int
        }) + self.request_type.spec_code() * 0x20 + self.recipient.spec_code()) as u8
    }

    /// The SETUP packet of the request: `bmRequestType`, `bRequest`, and
    /// `wValue`, `wIndex` and `wLength` with their low bytes first.
    pub open spec fn spec_setup_packet(self) -> Seq<u8> {
        seq![
            self.request_type_byte(),
            self.request,
            (self.value % 0x100) as u8,
            (self.value / 0x100) as u8,
            (self.index % 0x100) as u8,
            (self.index / 0x100) as u8,
            (self.length % 0x100) as u8,
            (self.length / 0x100) as u8,
        ]
    }

    /// The SETUP packet of the request.
    pub fn setup_packet(&self) -> (setup: [u8; 8])
        ensures
            setup@ == self.spec_setup_packet(),
    {
        let direction: u8 = match self.direction {
            UsbDirection::In => 0x80,
            UsbDirection::Out => 0,
        };
        let setup = [
            direction + self.request_type.code() * 0x20 + self.recipient.code(),
            self.request,
            (self.value % 0x100) as u8,
            (self.value / 0x100) as u8,
            (self.index % 0x100) as u8,
            (self.index / 0x100) as u8,
            (self.length % 0x100) as u8,
            (self.length / 0x100) as u8,
        ];
        assert(setup@ =~= self.spec_setup_packet());
        setup
    }

    /// The request that reads `length` bytes of a descriptor of the device.
    pub open spec fn spec_get_descriptor(dtype: u8, dindex: u8, length: u16) -> ControlRequest {
        ControlRequest {
            direction: UsbDirection::In,
            request_type: RequestType::Standard,
            recipient: Recipient::Device,
            request: REQUEST_GET_DESCRIPTOR,
            value: (dtype * 0x100 + dindex) as u16,
            index: 0,
            length,
        }
    }

    /// The request that reads `length` bytes of a descriptor of the device.
    #[verifier::when_used_as_spec(spec_get_descriptor)]
    pub fn get_descriptor(dtype: u8, dindex: u8, length: u16) -> (req: ControlRequest)
        ensures
            req == Self::spec_get_descriptor(dtype, dindex, length),
    {
        ControlRequest {
            direction: UsbDirection::In,
            request_type: RequestType::Standard,
            recipient: Recipient::Device,
            request: REQUEST_GET_DESCRIPTOR,
            value: dtype as u16 * 0x100 + dindex as u16,
            index: 0,
            length,
        }
    }

    /// The request that gives the device its address.
    pub open spec fn spec_set_address(address: u8) -> ControlRequest {
        ControlRequest {
            direction: UsbDirection::Out,
            request_type: RequestType::Standard,
            recipient: Recipient::Device,
            request: REQUEST_SET_ADDRESS,
            value: address as u16,
            index: 0,
            length: 0,
        }
    }

    /// The request that gives the device its address.
    #[verifier::when_used_as_spec(spec_set_address)]
    pub fn set_address(address: u8) -> (req: ControlRequest)
        ensures
            req == Self::spec_set_address(address),
    {
        ControlRequest {
            direction: UsbDirection::Out,
            request_type: RequestType::Standard,
            recipient: Recipient::Device,
            request: REQUEST_SET_ADDRESS,
            value: address as u16,
            index: 0,
            length: 0,
        }
    }
}

} // verus!

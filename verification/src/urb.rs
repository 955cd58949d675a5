//! The URB: one transfer in flight between the wire and an endpoint.

use crate::buffer::buf_bytes;
use crate::usb::{EndpointAddress, UsbDirection};
use bytes::BytesMut;
use vstd::prelude::*;

verus! {

/// Status of a transfer that went through.
pub const STATUS_OK: u32 = 0;

/// Status of a transfer that could not be carried out.
pub const STATUS_ERROR: u32 = 1;

/// Status of a transfer that met a stalled endpoint (`-EPIPE`).
pub const STATUS_STALLED: u32 = 0xffff_ffe0;

/// Phase of a control transfer.
#[derive(Clone, Copy, Debug, PartialEq, Eq, Structural)]
pub enum ControlState {
    /// The SETUP packet has not been read yet.
    Setup,
    /// The data stage is under way.
    Data,
    /// The status stage is due.
    Status,
    /// The transfer is over.
    Complete,
}

/// What marks a URB as a control transfer: its SETUP packet and its phase.
#[derive(Clone, Copy, Debug, PartialEq, Eq)]
pub struct UrbControl {
    pub setup: [u8; 8],
    pub state: ControlState,
}

/// A USB request block.
#[derive(Debug, PartialEq, Eq)]
pub struct Urb {
    /// Chosen by the remote host; names the transfer in replies and unlinks.
    pub seqnum: u32,
    pub devid: u32,
    /// The endpoint that handles the URB now.
    pub ep: EndpointAddress,
    /// The endpoint that the remote host addressed.
    pub req_ep: EndpointAddress,
    /// Number of bytes that the remote host asked to transfer.
    pub len: usize,
    pub control: Option<UrbControl>,
    /// Towards the device: what is left to hand to the class. Towards the
    /// host: what the class has written so far.
    pub data: BytesMut,
    /// What the reply will report: `STATUS_OK` unless the transfer failed.
    pub status: u32,
    /// Made by the enumeration, not by the remote host.
    pub internal: bool,
}

/// The control part of a URB as a mathematical value.
pub struct UrbControlView {
    pub setup: Seq<u8>,
    pub state: ControlState,
}

impl View for UrbControl {
    type V = UrbControlView;

    open spec fn view(&self) -> UrbControlView {
        UrbControlView { setup: self.setup@, state: self.state }
    }
}

/// A URB as a mathematical value.
pub struct UrbView {
    pub seqnum: u32,
    pub devid: u32,
    pub ep: EndpointAddress,
    pub req_ep: EndpointAddress,
    pub len: nat,
    pub control: Option<UrbControlView>,
    pub data: Seq<u8>,
    pub status: u32,
    pub internal: bool,
}

impl View for Urb {
    type V = UrbView;

    open spec fn view(&self) -> UrbView {
        UrbView {
            seqnum: self.seqnum,
            devid: self.devid,
            ep: self.ep,
            req_ep: self.req_ep,
            len: self.len as nat,
            control: match self.control {
                Some(c) => Some(c@),
                None => None,
            },
            data: buf_bytes(self.data),
            status: self.status,
            internal: self.internal,
        }
    }
}

impl UrbView {
    /// Whether this is a control transfer in the given phase.
    pub open spec fn in_state(self, state: ControlState) -> bool {
        self.control matches Some(c) && c.state == state
    }

    /// The direction of the status stage of a control transfer: towards the
    /// host where there is no data stage, else against the data stage.
    pub open spec fn status_direction(self) -> UsbDirection {
        if self.len == 0 {
            UsbDirection::In
        } else {
            self.req_ep.direction.spec_opposite()
        }
    }

    /// What holds of every URB between submission and completion: the data
    /// never exceeds the requested length; a URB that is no control transfer
    /// stays on the endpoint that was addressed; a control transfer is on
    /// endpoint 0, in the direction that its phase calls for.
    pub open spec fn in_flight(self) -> bool {
        &&& self.data.len() <= self.len
        &&& match self.control {
            None => self.ep == self.req_ep,
            Some(c) => self.ep.number == 0 && match c.state {
                ControlState::Setup => self.ep.direction == UsbDirection::Out,
                ControlState::Data => self.len > 0 && self.ep.direction
                    == self.req_ep.direction,
                ControlState::Status => self.ep.direction == self.status_direction(),
                ControlState::Complete => false,
            },
        }
    }

    /// What holds of a URB as it is submitted: it is in flight, and a control
    /// transfer starts with its SETUP packet.
    pub open spec fn is_new(self) -> bool {
        &&& self.in_flight()
        &&& self.control matches Some(c) ==> c.state == ControlState::Setup
    }

    /// The same URB on another endpoint.
    pub open spec fn on(self, ep: EndpointAddress) -> UrbView {
        UrbView { ep, ..self }
    }

    /// The same URB in another phase. A URB that is no control transfer has
    /// no phase and stays as it is.
    pub open spec fn in_phase(self, state: ControlState) -> UrbView {
        match self.control {
            Some(c) => UrbView {
                control: Some(UrbControlView { setup: c.setup, state }),
                ..self
            },
            None => self,
        }
    }

    /// The same URB with other data.
    pub open spec fn with_data(self, data: Seq<u8>) -> UrbView {
        UrbView { data, ..self }
    }

    /// The same URB with another status.
    pub open spec fn with_status(self, status: u32) -> UrbView {
        UrbView { status, ..self }
    }

    /// Whether two URBs are one transfer: what the remote host named stays.
    pub open spec fn same_transfer(self, other: UrbView) -> bool {
        &&& self.seqnum == other.seqnum
        &&& self.devid == other.devid
        &&& self.req_ep == other.req_ep
        &&& self.len == other.len
        &&& self.internal == other.internal
    }
}

/// The views of a run of URBs.
pub open spec fn urb_views(urbs: Seq<Urb>) -> Seq<UrbView> {
    Seq::new(urbs.len(), |i: int| urbs[i]@)
}

} // verus!

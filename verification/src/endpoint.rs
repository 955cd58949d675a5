//! The endpoint adapters: between the packets that a class reads and writes
//! and the URBs that the remote host submits.
//!
//! An adapter serves one URB at a time. It takes the URB from the channel
//! when the class asks for a packet, keeps it while packets remain, and
//! hands it back when the transfer, or its present phase, is over.

use crate::buffer::{buf_as_slice, buf_bytes, buf_extend_from_slice, buf_len, buf_split_to};
use crate::channel::{ChannelView, CoreChannel};
use crate::urb::{ControlState, Urb, UrbControl, UrbView, STATUS_STALLED};
use crate::usb::{EndpointAddress, EndpointDescriptor, OutPacketType, UsbDirection, UsbError};
use vstd::prelude::*;

verus! {

/// An endpoint adapter as a mathematical value.
pub struct EndpointView {
    pub address: EndpointAddress,
    pub max_packet_size: nat,
    pub stalled: bool,
    /// The URB being served.
    pub urb: Option<UrbView>,
}

impl EndpointView {
    /// The URB being served, if any, is in flight and on this endpoint.
    pub open spec fn wf(self) -> bool {
        self.urb matches Some(u) ==> u.in_flight() && u.ep == self.address
    }

    /// The URB that the next packet is about: the one being served, else the
    /// next one that the channel has for this endpoint.
    pub open spec fn current(self, ch: ChannelView) -> Option<UrbView> {
        match self.urb {
            Some(u) => Some(u),
            None => ch.next_urb(self.address),
        }
    }

    /// The channel once the endpoint has its current URB.
    pub open spec fn channel_after_pull(self, ch: ChannelView) -> ChannelView {
        match self.urb {
            Some(u) => ch,
            None => ch.after_take(self.address),
        }
    }

    /// Whether the current URB is refused: it is taken up while the endpoint
    /// is stalled.
    pub open spec fn refuses(self) -> bool {
        self.urb is None && self.stalled
    }

    /// The endpoint serving the given URB, or none.
    pub open spec fn serving(self, urb: Option<UrbView>) -> EndpointView {
        EndpointView { urb, ..self }
    }
}

/// A URB that was refused by a stalled endpoint: over, with the stall as
/// its status.
pub open spec fn stalled_urb(u: UrbView) -> UrbView {
    u.in_phase(ControlState::Complete).with_status(STATUS_STALLED)
}

/// What a read does to the endpoint and the channel, and what it gives.
pub struct ReadOutcome {
    pub endpoint: EndpointView,
    pub channel: ChannelView,
    /// The packet and its kind, or the error.
    pub result: Result<(Seq<u8>, OutPacketType), UsbError>,
}

/// A read on an OUT endpoint with a buffer of `room` bytes.
///
/// A buffer smaller than a packet is an error. With no URB to serve the read
/// would block. A URB taken up while the endpoint is stalled is finished
/// with the stall as its status, and the read would block. A control
/// transfer that starts gives its SETUP packet and moves to its data stage,
/// or to its status stage where no data is asked for; a buffer too small for
/// the SETUP packet is an error, and the URB stays. A control transfer in
/// its status stage gives an empty packet and is complete.
/// Otherwise the read gives the next packet of the data: all that is left if
/// it fits a packet, which finishes the URB or the data stage, else one full
/// packet.
pub open spec fn read_packet_spec(ep: EndpointView, ch: ChannelView, room: nat) -> ReadOutcome {
    if room < ep.max_packet_size {
        ReadOutcome { endpoint: ep, channel: ch, result: Err(UsbError::BufferOverflow) }
    } else {
        let pulled = ep.channel_after_pull(ch);
        match ep.current(ch) {
            None => ReadOutcome {
                endpoint: ep,
                channel: pulled,
                result: Err(UsbError::WouldBlock),
            },
            Some(u) => {
                if ep.refuses() {
                    ReadOutcome {
                        endpoint: ep.serving(None),
                        channel: pulled.complete(stalled_urb(u)),
                        result: Err(UsbError::WouldBlock),
                    }
                } else if u.in_state(ControlState::Setup) {
                    let packet = u.control->Some_0.setup;
                    if room < 8 {
                        ReadOutcome {
                            endpoint: ep.serving(Some(u)),
                            channel: pulled,
                            result: Err(UsbError::BufferOverflow),
                        }
                    } else if u.len > 0 && u.req_ep.direction == UsbDirection::Out {
                        ReadOutcome {
                            endpoint: ep.serving(Some(u.in_phase(ControlState::Data))),
                            channel: pulled,
                            result: Ok((packet, OutPacketType::Setup)),
                        }
                    } else {
                        let next = if u.len > 0 {
                            ControlState::Data
                        } else {
                            ControlState::Status
                        };
                        ReadOutcome {
                            endpoint: ep.serving(None),
                            channel: pulled.complete(u.in_phase(next)),
                            result: Ok((packet, OutPacketType::Setup)),
                        }
                    }
                } else if u.in_state(ControlState::Status) {
                    ReadOutcome {
                        endpoint: ep.serving(None),
                        channel: pulled.complete(u.in_phase(ControlState::Complete)),
                        result: Ok((Seq::empty(), OutPacketType::Data)),
                    }
                } else if u.data.len() <= ep.max_packet_size {
                    ReadOutcome {
                        endpoint: ep.serving(None),
                        channel: pulled.complete(
                            u.with_data(Seq::empty()).in_phase(ControlState::Status),
                        ),
                        result: Ok((u.data, OutPacketType::Data)),
                    }
                } else {
                    let n = ep.max_packet_size as int;
                    ReadOutcome {
                        endpoint: ep.serving(Some(u.with_data(u.data.skip(n)))),
                        channel: pulled,
                        result: Ok((u.data.take(n), OutPacketType::Data)),
                    }
                }
            },
        }
    }
}

/// What a write does to the endpoint and the channel, and how it ends.
pub struct WriteOutcome {
    pub endpoint: EndpointView,
    pub channel: ChannelView,
    pub result: Result<(), UsbError>,
}

/// Whether a packet ends the transfer, or the phase, of the URB that it was
/// added to: it is short, or the URB has all that was asked for, or it is
/// the empty packet of a status stage.
pub open spec fn packet_completes(u: UrbView, packet: Seq<u8>, max_packet_size: nat) -> bool {
    packet.len() < max_packet_size || u.data.len() + packet.len() == u.len || u.in_state(
        ControlState::Status,
    )
}

/// Whether the URB has no room for the packet: the data would exceed what
/// was asked for, or a status stage would carry data.
pub open spec fn packet_overflows(u: UrbView, packet: Seq<u8>) -> bool {
    u.data.len() + packet.len() > u.len || (u.in_state(ControlState::Status) && packet.len() > 0)
}

/// The URB after a packet that completes it was added: a data stage becomes
/// a status stage, a status stage is complete.
pub open spec fn after_last_packet(u: UrbView, packet: Seq<u8>) -> UrbView {
    let filled = u.with_data(u.data + packet);
    if u.in_state(ControlState::Data) {
        filled.in_phase(ControlState::Status)
    } else if u.in_state(ControlState::Status) {
        filled.in_phase(ControlState::Complete)
    } else {
        filled
    }
}

/// A write of `packet` on an IN endpoint.
///
/// A packet larger than the endpoint's packet size is an error. With no URB
/// to serve the write would block. A URB taken up while the endpoint is
/// stalled is finished with the stall as its status, and the write would
/// block. A control transfer whose SETUP packet has not been read is on the
/// wrong endpoint here: that is an error, and the URB stays. A packet that
/// the URB has no room for is an error too, and the URB stays. Otherwise the
/// packet joins the data of the URB, and a packet that completes it sends it
/// on.
pub open spec fn write_packet_spec(ep: EndpointView, ch: ChannelView, packet: Seq<u8>)
    -> WriteOutcome {
    if packet.len() > ep.max_packet_size {
        WriteOutcome { endpoint: ep, channel: ch, result: Err(UsbError::BufferOverflow) }
    } else {
        let pulled = ep.channel_after_pull(ch);
        match ep.current(ch) {
            None => WriteOutcome {
                endpoint: ep,
                channel: pulled,
                result: Err(UsbError::WouldBlock),
            },
            Some(u) => {
                if ep.refuses() {
                    WriteOutcome {
                        endpoint: ep.serving(None),
                        channel: pulled.complete(stalled_urb(u)),
                        result: Err(UsbError::WouldBlock),
                    }
                } else if u.in_state(ControlState::Setup) {
                    WriteOutcome {
                        endpoint: ep.serving(Some(u)),
                        channel: pulled,
                        result: Err(UsbError::InvalidEndpoint),
                    }
                } else if packet_overflows(u, packet) {
                    WriteOutcome {
                        endpoint: ep.serving(Some(u)),
                        channel: pulled,
                        result: Err(UsbError::BufferOverflow),
                    }
                } else if packet_completes(u, packet, ep.max_packet_size) {
                    WriteOutcome {
                        endpoint: ep.serving(None),
                        channel: pulled.complete(after_last_packet(u, packet)),
                        result: Ok(()),
                    }
                } else {
                    WriteOutcome {
                        endpoint: ep.serving(Some(u.with_data(u.data + packet))),
                        channel: pulled,
                        result: Ok(()),
                    }
                }
            },
        }
    }
}

/// Sets the phase of a control transfer; any other URB stays as it is.
fn set_phase(urb: &mut Urb, state: ControlState)
    ensures
        final(urb)@ == old(urb)@.in_phase(state),
{
    match urb.control {
        Some(control) => {
            urb.control = Some(UrbControl { setup: control.setup, state });
        },
        None => {},
    }
}

/// The URB of the slot, or else the next one from the channel.
fn update_urb(ep_addr: EndpointAddress, slot: Option<Urb>, channel: &mut CoreChannel) -> (r: Option<
    Urb,
>)
    ensures
        match slot {
            Some(urb) => r == Some(urb) && final(channel)@ == old(channel)@,
            None => final(channel)@ == old(channel)@.after_take(ep_addr) && match r {
                Some(urb) => old(channel)@.next_urb(ep_addr) == Some(urb@),
                None => old(channel)@.next_urb(ep_addr) is None,
            },
        },
{
    match slot {
        Some(urb) => Some(urb),
        None => channel.take_next_urb(ep_addr),
    }
}

/// Copies `src` to the front of `buf`.
fn copy_to_front(buf: &mut [u8], src: &[u8])
    requires
        src@.len() <= old(buf)@.len(),
    ensures
        final(buf)@ == src@ + old(buf)@.skip(src@.len() as int),
{
    let n = src.len();
    let mut i: usize = 0;
    while i < n
        invariant
            i <= n,
            n == src@.len(),
            buf@.len() == old(buf)@.len(),
            n <= buf@.len(),
            buf@ == src@.take(i as int) + old(buf)@.skip(i as int),
        decreases n - i,
    {
        buf[i] = src[i];
        i = i + 1;
        assert(buf@ =~= src@.take(i as int) + old(buf)@.skip(i as int));
    }
    assert(src@.take(n as int) =~= src@);
}

/// The adapter of an OUT endpoint: the class reads packets from it.
#[derive(Debug)]
pub struct EndpointOut {
    descriptor: EndpointDescriptor,
    stalled: bool,
    urb: Option<Urb>,
}

impl View for EndpointOut {
    type V = EndpointView;

    closed spec fn view(&self) -> EndpointView {
        EndpointView {
            address: self.descriptor.address,
            max_packet_size: self.descriptor.max_packet_size as nat,
            stalled: self.stalled,
            urb: match self.urb {
                Some(urb) => Some(urb@),
                None => None,
            },
        }
    }
}

impl EndpointOut {
    /// An adapter that is not stalled and serves no URB.
    pub fn new(descriptor: EndpointDescriptor) -> (ep: EndpointOut)
        ensures
            ep@ == (EndpointView {
                address: descriptor.address,
                max_packet_size: descriptor.max_packet_size as nat,
                stalled: false,
                urb: None,
            }),
            ep.descriptor() == descriptor,
    {
        EndpointOut { descriptor, stalled: false, urb: None }
    }

    /// What the allocator settled for this endpoint.
    pub closed spec fn descriptor(&self) -> EndpointDescriptor {
        self.descriptor
    }

    pub fn address(&self) -> (a: EndpointAddress)
        ensures
            a == self@.address,
    {
        self.descriptor.address
    }

    pub fn max_packet_size(&self) -> (n: usize)
        ensures
            n == self@.max_packet_size,
    {
        self.descriptor.max_packet_size as usize
    }

    /// Enabling changes nothing on a virtual bus.
    pub fn enable(&mut self) -> (r: Result<(), UsbError>)
        ensures
            r is Ok,
            *final(self) == *old(self),
    {
        Ok(())
    }

    /// Disabling changes nothing on a virtual bus.
    pub fn disable(&mut self) -> (r: Result<(), UsbError>)
        ensures
            r is Ok,
            *final(self) == *old(self),
    {
        Ok(())
    }

    /// Stalls the endpoint or ends the stall. The URB being served is not
    /// touched: the stall is for those taken up later.
    pub fn set_stalled(&mut self, is_stalled: bool) -> (r: Result<(), UsbError>)
        ensures
            r is Ok,
            final(self)@ == (EndpointView { stalled: is_stalled, ..old(self)@ }),
            final(self).descriptor() == old(self).descriptor(),
    {
        self.stalled = is_stalled;
        Ok(())
    }

    pub fn is_stalled(&self) -> (r: Result<bool, UsbError>)
        ensures
            r == Ok::<bool, UsbError>(self@.stalled),
    {
        Ok(self.stalled)
    }

    /// Reads the next packet into the front of `buf` (see `read_packet_spec`).
    /// The result gives the length of the packet and its kind; the bytes of
    /// `buf` behind the packet stay as they were.
    pub fn read_packet(&mut self, channel: &mut CoreChannel, buf: &mut [u8]) -> (r: Result<
        (usize, OutPacketType),
        UsbError,
    >)
        ensures
            ({
                let outcome = read_packet_spec(old(self)@, old(channel)@, old(buf)@.len());
                &&& final(self)@ == outcome.endpoint
                &&& final(self).descriptor() == old(self).descriptor()
                &&& final(channel)@ == outcome.channel
                &&& match outcome.result {
                    Ok((packet, kind)) => r == Ok::<(usize, OutPacketType), UsbError>(
                        (packet.len() as usize, kind),
                    ) && packet.len() <= old(buf)@.len() && final(buf)@ == packet + old(
                        buf,
                    )@.skip(packet.len() as int),
                    Err(e) => r == Err::<(usize, OutPacketType), UsbError>(e) && final(buf)@
                        == old(buf)@,
                }
            }),
    {
        let max_packet_size = self.descriptor.max_packet_size as usize;
        if buf.len() < max_packet_size {
            return Err(UsbError::BufferOverflow);
        }
        let fresh = self.urb.is_none();
        let slot = self.urb.take();
        let mut urb = match update_urb(self.descriptor.address, slot, channel) {
            Some(urb) => urb,
            None => {
                return Err(UsbError::WouldBlock);
            },
        };
        let ghost u = urb@;
        if fresh && self.stalled {
            set_phase(&mut urb, ControlState::Complete);
            urb.status = STATUS_STALLED;
            channel.complete_urb(urb);
            return Err(UsbError::WouldBlock);
        }
        let state = match &urb.control {
            Some(control) => Some(control.state),
            None => None,
        };
        match state {
            Some(ControlState::Setup) => {
                let setup = match &urb.control {
                    Some(control) => control.setup,
                    None => [0u8; 8],
                };
                if buf.len() < 8 {
                    self.urb = Some(urb);
                    return Err(UsbError::BufferOverflow);
                }
                copy_to_front(buf, setup.as_slice());
                if urb.len > 0 {
                    set_phase(&mut urb, ControlState::Data);
                    if urb.req_ep.direction() == UsbDirection::In {
                        channel.complete_urb(urb);
                    } else {
                        self.urb = Some(urb);
                    }
                } else {
                    set_phase(&mut urb, ControlState::Status);
                    channel.complete_urb(urb);
                }
                Ok((8, OutPacketType::Setup))
            },
            Some(ControlState::Status) => {
                set_phase(&mut urb, ControlState::Complete);
                channel.complete_urb(urb);
                assert(buf@ =~= Seq::<u8>::empty() + old(buf)@.skip(0));
                Ok((0, OutPacketType::Data))
            },
            _ => {
                let left = buf_len(&urb.data);
                if left <= max_packet_size {
                    let packet = buf_split_to(&mut urb.data, left);
                    copy_to_front(buf, buf_as_slice(&packet));
                    set_phase(&mut urb, ControlState::Status);
                    proof {
                        assert(buf_bytes(packet) =~= u.data);
                        assert(buf_bytes(urb.data) =~= Seq::<u8>::empty());
                    }
                    channel.complete_urb(urb);
                    Ok((left, OutPacketType::Data))
                } else {
                    let packet = buf_split_to(&mut urb.data, max_packet_size);
                    copy_to_front(buf, buf_as_slice(&packet));
                    self.urb = Some(urb);
                    Ok((max_packet_size, OutPacketType::Data))
                }
            },
        }
    }
}

/// The adapter of an IN endpoint: the class writes packets to it.
#[derive(Debug)]
pub struct EndpointIn {
    descriptor: EndpointDescriptor,
    stalled: bool,
    urb: Option<Urb>,
}

impl View for EndpointIn {
    type V = EndpointView;

    closed spec fn view(&self) -> EndpointView {
        EndpointView {
            address: self.descriptor.address,
            max_packet_size: self.descriptor.max_packet_size as nat,
            stalled: self.stalled,
            urb: match self.urb {
                Some(urb) => Some(urb@),
                None => None,
            },
        }
    }
}

impl EndpointIn {
    /// An adapter that is not stalled and serves no URB.
    pub fn new(descriptor: EndpointDescriptor) -> (ep: EndpointIn)
        ensures
            ep@ == (EndpointView {
                address: descriptor.address,
                max_packet_size: descriptor.max_packet_size as nat,
                stalled: false,
                urb: None,
            }),
            ep.descriptor() == descriptor,
    {
        EndpointIn { descriptor, stalled: false, urb: None }
    }

    /// What the allocator settled for this endpoint.
    pub closed spec fn descriptor(&self) -> EndpointDescriptor {
        self.descriptor
    }

    pub fn address(&self) -> (a: EndpointAddress)
        ensures
            a == self@.address,
    {
        self.descriptor.address
    }

    pub fn max_packet_size(&self) -> (n: usize)
        ensures
            n == self@.max_packet_size,
    {
        self.descriptor.max_packet_size as usize
    }

    /// Enabling changes nothing on a virtual bus.
    pub fn enable(&mut self) -> (r: Result<(), UsbError>)
        ensures
            r is Ok,
            *final(self) == *old(self),
    {
        Ok(())
    }

    /// Disabling changes nothing on a virtual bus.
    pub fn disable(&mut self) -> (r: Result<(), UsbError>)
        ensures
            r is Ok,
            *final(self) == *old(self),
    {
        Ok(())
    }

    /// Stalls the endpoint or ends the stall. The URB being served is not
    /// touched: the stall is for those taken up later.
    pub fn set_stalled(&mut self, is_stalled: bool) -> (r: Result<(), UsbError>)
        ensures
            r is Ok,
            final(self)@ == (EndpointView { stalled: is_stalled, ..old(self)@ }),
            final(self).descriptor() == old(self).descriptor(),
    {
        self.stalled = is_stalled;
        Ok(())
    }

    pub fn is_stalled(&self) -> (r: Result<bool, UsbError>)
        ensures
            r == Ok::<bool, UsbError>(self@.stalled),
    {
        Ok(self.stalled)
    }

    /// Writes one packet (see `write_packet_spec`).
    pub fn write_packet(&mut self, channel: &mut CoreChannel, buf: &[u8]) -> (r: Result<
        (),
        UsbError,
    >)
        ensures
            ({
                let outcome = write_packet_spec(old(self)@, old(channel)@, buf@);
                &&& final(self)@ == outcome.endpoint
                &&& final(self).descriptor() == old(self).descriptor()
                &&& final(channel)@ == outcome.channel
                &&& r == outcome.result
            }),
    {
        let max_packet_size = self.descriptor.max_packet_size as usize;
        if buf.len() > max_packet_size {
            return Err(UsbError::BufferOverflow);
        }
        let fresh = self.urb.is_none();
        let slot = self.urb.take();
        let mut urb = match update_urb(self.descriptor.address, slot, channel) {
            Some(urb) => urb,
            None => {
                return Err(UsbError::WouldBlock);
            },
        };
        let ghost u = urb@;
        if fresh && self.stalled {
            set_phase(&mut urb, ControlState::Complete);
            urb.status = STATUS_STALLED;
            channel.complete_urb(urb);
            return Err(UsbError::WouldBlock);
        }
        let state = match &urb.control {
            Some(control) => Some(control.state),
            None => None,
        };
        if let Some(ControlState::Setup) = state {
            self.urb = Some(urb);
            return Err(UsbError::InvalidEndpoint);
        }
        let in_status = match state {
            Some(ControlState::Status) => true,
            _ => false,
        };
        let filled = buf_len(&urb.data);
        if filled > urb.len || buf.len() > urb.len - filled || (in_status && buf.len() > 0) {
            self.urb = Some(urb);
            return Err(UsbError::BufferOverflow);
        }
        buf_extend_from_slice(&mut urb.data, buf);
        if buf.len() < max_packet_size || filled + buf.len() == urb.len || in_status {
            match state {
                Some(ControlState::Data) => {
                    set_phase(&mut urb, ControlState::Status);
                },
                Some(ControlState::Status) => {
                    set_phase(&mut urb, ControlState::Complete);
                },
                _ => {},
            }
            channel.complete_urb(urb);
        } else {
            self.urb = Some(urb);
        }
        Ok(())
    }

    /// A virtual bus holds nothing back: there is nothing to flush.
    pub fn flush(&mut self) -> (r: Result<(), UsbError>)
        ensures
            r is Ok,
            *final(self) == *old(self),
    {
        Ok(())
    }
}

} // verus!

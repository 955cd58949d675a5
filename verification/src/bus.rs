//! The peripheral with its allocator in one piece, for a driver that reaches
//! endpoints by their addresses only.

use crate::channel::CoreChannel;
use crate::endpoint::{read_packet_spec, write_packet_spec, EndpointView};
use crate::usb::{
    EndpointAddress, EndpointConfig, EndpointType, OutPacketType, PollResult, UsbDirection,
    UsbError,
};
use crate::usbcore::{endpoint_index, EndpointAllocator, UsbCore, UsbCoreView};
use vstd::prelude::*;

verus! {

/// A virtual bus: the endpoints of a peripheral and the allocator that made
/// them.
#[derive(Debug)]
pub struct UsbBus {
    core: UsbCore,
    allocator: EndpointAllocator,
}

impl UsbBus {
    /// The endpoints of the bus.
    pub closed spec fn endpoints(&self) -> UsbCoreView {
        self.core@
    }

    /// The allocator of the bus.
    pub closed spec fn allocator(&self) -> EndpointAllocator {
        self.allocator
    }

    /// A bus without endpoints, every address free.
    pub fn new() -> (bus: UsbBus)
        ensures
            bus.endpoints().endpoints_out.len() == 0,
            bus.endpoints().endpoints_in.len() == 0,
            bus.allocator().next_number() == 1,
            forall|a: EndpointAddress| a.is_valid() ==> !(#[trigger] bus.allocator().is_taken(a)),
    {
        UsbBus { core: UsbCore::new(), allocator: EndpointAllocator::new() }
    }

    /// Allocates an endpoint of the given direction and keeps its adapter.
    /// The number is that of `ep_addr`, or the next automatic one where
    /// there is none. The errors are those of the allocator.
    pub fn alloc_ep(
        &mut self,
        ep_dir: UsbDirection,
        ep_addr: Option<EndpointAddress>,
        ep_type: EndpointType,
        max_packet_size: u16,
        interval: u8,
    ) -> (r: Result<EndpointAddress, UsbError>)
        ensures
            ({
                let number = match ep_addr {
                    Some(a) => a.number,
                    None => old(self).allocator().next_number(),
                };
                let address = EndpointAddress { number, direction: ep_dir };
                let added = EndpointView {
                    address,
                    max_packet_size: max_packet_size as nat,
                    stalled: false,
                    urb: None,
                };
                if number >= 16 {
                    &&& r == Err::<EndpointAddress, UsbError>(UsbError::EndpointOverflow)
                    &&& *final(self) == *old(self)
                } else if old(self).allocator().is_taken(address) {
                    &&& r == Err::<EndpointAddress, UsbError>(UsbError::InvalidEndpoint)
                    &&& *final(self) == *old(self)
                } else {
                    &&& r == Ok::<EndpointAddress, UsbError>(address)
                    &&& forall|a: EndpointAddress|
                        a.is_valid() ==> (#[trigger] final(self).allocator().is_taken(a)) == (old(
                            self,
                        ).allocator().is_taken(a) || a == address)
                    &&& final(self).allocator().next_number() == (if ep_addr is None {
                        (number + 1) as u8
                    } else {
                        old(self).allocator().next_number()
                    })
                    &&& final(self).endpoints() == (match ep_dir {
                        UsbDirection::Out => UsbCoreView {
                            endpoints_out: old(self).endpoints().endpoints_out.push(added),
                            ..old(self).endpoints()
                        },
                        UsbDirection::In => UsbCoreView {
                            endpoints_in: old(self).endpoints().endpoints_in.push(added),
                            ..old(self).endpoints()
                        },
                    })
                }
            }),
    {
        let config = EndpointConfig {
            number: match ep_addr {
                Some(a) => Some(a.number()),
                None => None,
            },
            ep_type,
            max_packet_size,
            interval,
        };
        match ep_dir {
            UsbDirection::Out => match self.allocator.alloc_out(&config) {
                Ok(endpoint) => {
                    let address = endpoint.address();
                    self.core.add_out(endpoint);
                    Ok(address)
                },
                Err(e) => Err(e),
            },
            UsbDirection::In => match self.allocator.alloc_in(&config) {
                Ok(endpoint) => {
                    let address = endpoint.address();
                    self.core.add_in(endpoint);
                    Ok(address)
                },
                Err(e) => Err(e),
            },
        }
    }

    /// A virtual bus has nothing to switch on.
    pub fn enable(&mut self)
        ensures
            *final(self) == *old(self),
    {
    }

    /// A virtual bus has no electrical state to reset.
    pub fn reset(&mut self)
        ensures
            *final(self) == *old(self),
    {
    }

    /// The address of the device is of no use on a virtual bus.
    pub fn set_device_address(&mut self, addr: u8)
        ensures
            *final(self) == *old(self),
    {
    }

    /// A virtual bus cannot make the host reset it.
    pub fn force_reset(&mut self) -> (r: Result<(), UsbError>)
        ensures
            r == Err::<(), UsbError>(UsbError::Unsupported),
            *final(self) == *old(self),
    {
        Err(UsbError::Unsupported)
    }

    pub fn suspend(&mut self)
        ensures
            *final(self) == *old(self),
    {
    }

    pub fn resume(&mut self)
        ensures
            *final(self) == *old(self),
    {
    }

    /// Every endpoint may have work, and endpoint 0 may have a SETUP packet:
    /// the endpoints themselves say `WouldBlock` where they have nothing.
    pub fn poll(&mut self) -> (r: PollResult)
        ensures
            r == (PollResult::Data { ep_out: 0xffff, ep_in_complete: 0xffff, ep_setup: 0x0001 }),
            *final(self) == *old(self),
    {
        PollResult::Data { ep_out: 0xffff, ep_in_complete: 0xffff, ep_setup: 0x0001 }
    }

    /// Reads a packet from the OUT endpoint with the given address (see
    /// `read_packet_spec`). An address that no OUT endpoint has is
    /// `InvalidEndpoint`.
    pub fn read(&mut self, ep_addr: EndpointAddress, channel: &mut CoreChannel, buf: &mut [u8])
        -> (r: Result<(usize, OutPacketType), UsbError>)
        ensures
            final(self).allocator() == old(self).allocator(),
            ({
                let i = endpoint_index(old(self).endpoints().endpoints_out, ep_addr);
                if i == old(self).endpoints().endpoints_out.len() {
                    &&& r == Err::<(usize, OutPacketType), UsbError>(UsbError::InvalidEndpoint)
                    &&& final(self).endpoints() == old(self).endpoints()
                    &&& final(channel)@ == old(channel)@
                    &&& final(buf)@ == old(buf)@
                } else {
                    let outcome = read_packet_spec(
                        old(self).endpoints().endpoints_out[i],
                        old(channel)@,
                        old(buf)@.len(),
                    );
                    &&& final(self).endpoints() == (UsbCoreView {
                        endpoints_out: old(self).endpoints().endpoints_out.update(
                            i,
                            outcome.endpoint,
                        ),
                        ..old(self).endpoints()
                    })
                    &&& final(channel)@ == outcome.channel
                    &&& match outcome.result {
                        Ok((packet, kind)) => r == Ok::<(usize, OutPacketType), UsbError>(
                            (packet.len() as usize, kind),
                        ) && packet.len() <= old(buf)@.len() && final(buf)@ == packet + old(
                            buf,
                        )@.skip(packet.len() as int),
                        Err(e) => r == Err::<(usize, OutPacketType), UsbError>(e) && final(buf)@
                            == old(buf)@,
                    }
                }
            }),
    {
        self.core.read_packet(ep_addr, channel, buf)
    }

    /// Writes a packet to the IN endpoint with the given address (see
    /// `write_packet_spec`); the result is the length of the packet. An
    /// address that no IN endpoint has is `InvalidEndpoint`.
    pub fn write(&mut self, ep_addr: EndpointAddress, channel: &mut CoreChannel, buf: &[u8]) -> (r:
        Result<usize, UsbError>)
        ensures
            final(self).allocator() == old(self).allocator(),
            ({
                let i = endpoint_index(old(self).endpoints().endpoints_in, ep_addr);
                if i == old(self).endpoints().endpoints_in.len() {
                    &&& r == Err::<usize, UsbError>(UsbError::InvalidEndpoint)
                    &&& final(self).endpoints() == old(self).endpoints()
                    &&& final(channel)@ == old(channel)@
                } else {
                    let outcome = write_packet_spec(
                        old(self).endpoints().endpoints_in[i],
                        old(channel)@,
                        buf@,
                    );
                    &&& final(self).endpoints() == (UsbCoreView {
                        endpoints_in: old(self).endpoints().endpoints_in.update(
                            i,
                            outcome.endpoint,
                        ),
                        ..old(self).endpoints()
                    })
                    &&& final(channel)@ == outcome.channel
                    &&& match outcome.result {
                        Ok(_) => r == Ok::<usize, UsbError>(buf@.len() as usize),
                        Err(e) => r == Err::<usize, UsbError>(e),
                    }
                }
            }),
    {
        match self.core.write_packet(ep_addr, channel, buf) {
            Ok(()) => Ok(buf.len()),
            Err(e) => Err(e),
        }
    }

    /// Stalls the endpoint with the given address or ends its stall; an
    /// address that no endpoint has changes nothing.
    pub fn set_stalled(&mut self, ep_addr: EndpointAddress, stalled: bool)
        ensures
            final(self).allocator() == old(self).allocator(),
            ({
                let (list, i) = match ep_addr.direction {
                    UsbDirection::Out => (
                        old(self).endpoints().endpoints_out,
                        endpoint_index(old(self).endpoints().endpoints_out, ep_addr),
                    ),
                    UsbDirection::In => (
                        old(self).endpoints().endpoints_in,
                        endpoint_index(old(self).endpoints().endpoints_in, ep_addr),
                    ),
                };
                if i == list.len() {
                    final(self).endpoints() == old(self).endpoints()
                } else {
                    let changed = list.update(i, EndpointView { stalled, ..list[i] });
                    final(self).endpoints() == (match ep_addr.direction {
                        UsbDirection::Out => UsbCoreView {
                            endpoints_out: changed,
                            ..old(self).endpoints()
                        },
                        UsbDirection::In => UsbCoreView {
                            endpoints_in: changed,
                            ..old(self).endpoints()
                        },
                    })
                }
            }),
    {
        let _ = self.core.set_stalled(ep_addr, stalled);
    }

    /// Whether the endpoint with the given address is stalled, as the
    /// endpoint has it; an address that no endpoint has is not stalled.
    pub fn is_stalled(&self, ep_addr: EndpointAddress) -> (stalled: bool)
        ensures
            ({
                let list = match ep_addr.direction {
                    UsbDirection::Out => self.endpoints().endpoints_out,
                    UsbDirection::In => self.endpoints().endpoints_in,
                };
                let i = endpoint_index(list, ep_addr);
                stalled == (i < list.len() && list[i].stalled)
            }),
    {
        proof {
            lemma_index_in_bounds(self.core@.endpoints_out, ep_addr);
            lemma_index_in_bounds(self.core@.endpoints_in, ep_addr);
        }
        match self.core.is_stalled(ep_addr) {
            Ok(stalled) => stalled,
            Err(_) => false,
        }
    }
}

/// An index is a place in the list or its length.
proof fn lemma_index_in_bounds(endpoints: Seq<EndpointView>, address: EndpointAddress)
    ensures
        0 <= endpoint_index(endpoints, address) <= endpoints.len(),
    decreases endpoints.len(),
{
    if endpoints.len() > 0 && endpoints.first().address != address {
        lemma_index_in_bounds(endpoints.drop_first(), address);
    }
}

} // verus!

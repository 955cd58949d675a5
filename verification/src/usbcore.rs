//! The peripheral as a class sees it: an allocator that hands out endpoints,
//! and the core that polls, stalls and resets.

use crate::channel::CoreChannel;
use crate::endpoint::{read_packet_spec, write_packet_spec, EndpointIn, EndpointOut, EndpointView};
use crate::usb::{
    EndpointAddress, EndpointConfig, EndpointDescriptor, OutPacketType, PollResult, UsbDirection,
    UsbError, NUM_ENDPOINTS,
};
use vstd::prelude::*;

verus! {

/// Whether the bit of endpoint `number` is set in `mask`.
pub open spec fn bit_is_set(mask: u16, number: u8) -> bool {
    mask & (1u16 << (number as u16)) != 0
}

/// Setting the bit of one endpoint sets that bit and no other.
proof fn lemma_set_bit(mask: u16, number: u8, other: u8)
    requires
        number < 16,
        other < 16,
    ensures
        bit_is_set(mask | (1u16 << (number as u16)), other) == (bit_is_set(mask, other) || other
            == number),
{
    let n = number as u16;
    let k = other as u16;
    assert(((mask | (1u16 << n)) & (1u16 << k) != 0) == ((mask & (1u16 << k) != 0) || k == n))
        by (bit_vector)
        requires
            n < 16,
            k < 16,
    ;
}

/// No bit is set in an empty mask.
proof fn lemma_no_bit(number: u8)
    requires
        number < 16,
    ensures
        !bit_is_set(0, number),
{
    let n = number as u16;
    assert(0u16 & (1u16 << n) == 0) by (bit_vector);
}

/// Hands out endpoint addresses, each at most once per direction.
#[derive(Debug)]
pub struct EndpointAllocator {
    next_endpoint_number: u8,
    out_taken: u16,
    in_taken: u16,
}

impl EndpointAllocator {
    /// The number that the next endpoint without a wish of its own gets.
    pub closed spec fn next_number(&self) -> u8 {
        self.next_endpoint_number
    }

    /// Whether an address has been handed out.
    pub closed spec fn is_taken(&self, address: EndpointAddress) -> bool {
        match address.direction {
            UsbDirection::Out => bit_is_set(self.out_taken, address.number),
            UsbDirection::In => bit_is_set(self.in_taken, address.number),
        }
    }

    /// The number that a configuration asks for.
    pub open spec fn wanted(&self, config: EndpointConfig) -> u8 {
        match config.number {
            Some(number) => number,
            None => self.next_number(),
        }
    }

    /// An allocator with every address free; automatic numbers start at 1.
    pub fn new() -> (alloc: EndpointAllocator)
        ensures
            alloc.next_number() == 1,
            forall|a: EndpointAddress| a.is_valid() ==> !(#[trigger] alloc.is_taken(a)),
    {
        let alloc = EndpointAllocator { next_endpoint_number: 1, out_taken: 0, in_taken: 0 };
        assert forall|a: EndpointAddress| a.is_valid() implies !(#[trigger] alloc.is_taken(a)) by {
            lemma_no_bit(a.number);
        }
        alloc
    }

    /// Takes an address for an endpoint of the given direction: the number
    /// that the configuration names, or else the next automatic number.
    ///
    /// A number of 16 or more is `EndpointOverflow`; an address that is taken
    /// is `InvalidEndpoint`; either way nothing changes. Otherwise the
    /// address is taken from now on, and an automatic number moves the
    /// counter on by one.
    pub fn alloc_ep(&mut self, direction: UsbDirection, config: &EndpointConfig) -> (r: Result<
        EndpointDescriptor,
        UsbError,
    >)
        ensures
            ({
                let number = old(self).wanted(*config);
                let address = EndpointAddress { number, direction };
                if number >= 16 {
                    r == Err::<EndpointDescriptor, UsbError>(UsbError::EndpointOverflow)
                        && *final(self) == *old(self)
                } else if old(self).is_taken(address) {
                    r == Err::<EndpointDescriptor, UsbError>(UsbError::InvalidEndpoint)
                        && *final(self) == *old(self)
                } else {
                    &&& r == Ok::<EndpointDescriptor, UsbError>(
                        EndpointDescriptor {
                            address,
                            ep_type: config.ep_type,
                            max_packet_size: config.max_packet_size,
                            interval: config.interval,
                        },
                    )
                    &&& forall|a: EndpointAddress|
                        a.is_valid() ==> (#[trigger] final(self).is_taken(a)) == (old(
                            self,
                        ).is_taken(a) || a == address)
                    &&& final(self).next_number() == (if config.number is None {
                        (number + 1) as u8
                    } else {
                        old(self).next_number()
                    })
                }
            }),
    {
        let number = match config.number {
            Some(number) => number,
            None => self.next_endpoint_number,
        };
        if number as usize >= NUM_ENDPOINTS {
            return Err(UsbError::EndpointOverflow);
        }
        let bit: u16 = 1u16 << (number as u16);
        match direction {
            UsbDirection::Out => {
                if self.out_taken & bit != 0 {
                    return Err(UsbError::InvalidEndpoint);
                }
                self.out_taken = self.out_taken | bit;
            },
            UsbDirection::In => {
                if self.in_taken & bit != 0 {
                    return Err(UsbError::InvalidEndpoint);
                }
                self.in_taken = self.in_taken | bit;
            },
        }
        if config.number.is_none() {
            self.next_endpoint_number = self.next_endpoint_number + 1;
        }
        proof {
            let address = EndpointAddress { number, direction };
            assert forall|a: EndpointAddress| a.is_valid() implies (
            #[trigger] self.is_taken(a)) == (old(self).is_taken(a) || a == address) by {
                lemma_set_bit(old(self).out_taken, number, a.number);
                lemma_set_bit(old(self).in_taken, number, a.number);
            }
        }
        Ok(
            EndpointDescriptor {
                address: EndpointAddress::from_parts(number, direction),
                ep_type: config.ep_type,
                max_packet_size: config.max_packet_size,
                interval: config.interval,
            },
        )
    }

    /// Allocates an OUT endpoint (see `alloc_ep`) and makes its adapter.
    pub fn alloc_out(&mut self, config: &EndpointConfig) -> (r: Result<EndpointOut, UsbError>)
        ensures
            ({
                let number = old(self).wanted(*config);
                let address = EndpointAddress { number, direction: UsbDirection::Out };
                if number >= 16 {
                    r matches Err(e) && e == UsbError::EndpointOverflow && *final(self) == *old(
                        self,
                    )
                } else if old(self).is_taken(address) {
                    r matches Err(e) && e == UsbError::InvalidEndpoint && *final(self) == *old(
                        self,
                    )
                } else {
                    &&& r matches Ok(ep) && ep@ == (EndpointView {
                        address,
                        max_packet_size: config.max_packet_size as nat,
                        stalled: false,
                        urb: None,
                    })
                    &&& forall|a: EndpointAddress|
                        a.is_valid() ==> (#[trigger] final(self).is_taken(a)) == (old(
                            self,
                        ).is_taken(a) || a == address)
                    &&& final(self).next_number() == (if config.number is None {
                        (number + 1) as u8
                    } else {
                        old(self).next_number()
                    })
                }
            }),
    {
        match self.alloc_ep(UsbDirection::Out, config) {
            Ok(descriptor) => Ok(EndpointOut::new(descriptor)),
            Err(e) => Err(e),
        }
    }

    /// Allocates an IN endpoint (see `alloc_ep`) and makes its adapter.
    pub fn alloc_in(&mut self, config: &EndpointConfig) -> (r: Result<EndpointIn, UsbError>)
        ensures
            ({
                let number = old(self).wanted(*config);
                let address = EndpointAddress { number, direction: UsbDirection::In };
                if number >= 16 {
                    r matches Err(e) && e == UsbError::EndpointOverflow && *final(self) == *old(
                        self,
                    )
                } else if old(self).is_taken(address) {
                    r matches Err(e) && e == UsbError::InvalidEndpoint && *final(self) == *old(
                        self,
                    )
                } else {
                    &&& r matches Ok(ep) && ep@ == (EndpointView {
                        address,
                        max_packet_size: config.max_packet_size as nat,
                        stalled: false,
                        urb: None,
                    })
                    &&& forall|a: EndpointAddress|
                        a.is_valid() ==> (#[trigger] final(self).is_taken(a)) == (old(
                            self,
                        ).is_taken(a) || a == address)
                    &&& final(self).next_number() == (if config.number is None {
                        (number + 1) as u8
                    } else {
                        old(self).next_number()
                    })
                }
            }),
    {
        match self.alloc_ep(UsbDirection::In, config) {
            Ok(descriptor) => Ok(EndpointIn::new(descriptor)),
            Err(e) => Err(e),
        }
    }

    /// Interfaces need nothing from the allocator.
    pub fn begin_interface(&mut self) -> (r: Result<(), UsbError>)
        ensures
            r is Ok,
            *final(self) == *old(self),
    {
        Ok(())
    }

    /// Alternate settings need nothing from the allocator.
    pub fn next_alt_setting(&mut self) -> (r: Result<(), UsbError>)
        ensures
            r is Ok,
            *final(self) == *old(self),
    {
        Ok(())
    }
}

/// The views of a run of OUT endpoints.
pub open spec fn out_views(endpoints: Seq<EndpointOut>) -> Seq<EndpointView> {
    Seq::new(endpoints.len(), |i: int| endpoints[i]@)
}

/// The views of a run of IN endpoints.
pub open spec fn in_views(endpoints: Seq<EndpointIn>) -> Seq<EndpointView> {
    Seq::new(endpoints.len(), |i: int| endpoints[i]@)
}

/// The place of the first endpoint with the given address, or the number of
/// endpoints where there is none.
pub open spec fn endpoint_index(endpoints: Seq<EndpointView>, address: EndpointAddress) -> int
    decreases endpoints.len(),
{
    if endpoints.len() == 0 {
        0
    } else if endpoints.first().address == address {
        0
    } else {
        1 + endpoint_index(endpoints.drop_first(), address)
    }
}

/// `endpoint_index` by what it means.
pub proof fn lemma_endpoint_index(endpoints: Seq<EndpointView>, address: EndpointAddress, i: int)
    requires
        0 <= i <= endpoints.len(),
        forall|j: int| 0 <= j < i ==> endpoints[j].address != address,
        i < endpoints.len() ==> endpoints[i].address == address,
    ensures
        endpoint_index(endpoints, address) == i,
    decreases endpoints.len(),
{
    if endpoints.len() > 0 && i > 0 {
        let rest = endpoints.drop_first();
        assert(endpoints[0].address != address);
        assert forall|j: int| 0 <= j < i - 1 implies rest[j].address != address by {
            assert(rest[j] == endpoints[j + 1]);
        }
        lemma_endpoint_index(rest, address, i - 1);
    }
}

/// The virtual peripheral: the endpoints that were allocated, reached by
/// their addresses.
#[derive(Debug)]
pub struct UsbCore {
    endpoints_out: Vec<EndpointOut>,
    endpoints_in: Vec<EndpointIn>,
}

/// A peripheral as a mathematical value.
pub struct UsbCoreView {
    pub endpoints_out: Seq<EndpointView>,
    pub endpoints_in: Seq<EndpointView>,
}

impl View for UsbCore {
    type V = UsbCoreView;

    closed spec fn view(&self) -> UsbCoreView {
        UsbCoreView {
            endpoints_out: out_views(self.endpoints_out@),
            endpoints_in: in_views(self.endpoints_in@),
        }
    }
}

impl UsbCore {
    /// A peripheral without endpoints.
    pub fn new() -> (core: UsbCore)
        ensures
            core@.endpoints_out.len() == 0,
            core@.endpoints_in.len() == 0,
    {
        UsbCore { endpoints_out: Vec::new(), endpoints_in: Vec::new() }
    }

    /// A fresh allocator for the endpoints of this peripheral.
    pub fn create_allocator(&mut self) -> (alloc: EndpointAllocator)
        ensures
            alloc.next_number() == 1,
            forall|a: EndpointAddress| a.is_valid() ==> !(#[trigger] alloc.is_taken(a)),
            *final(self) == *old(self),
    {
        EndpointAllocator::new()
    }

    /// Puts an OUT endpoint under the care of the peripheral.
    pub fn add_out(&mut self, endpoint: EndpointOut)
        ensures
            final(self)@ == (UsbCoreView {
                endpoints_out: old(self)@.endpoints_out.push(endpoint@),
                ..old(self)@
            }),
    {
        self.endpoints_out.push(endpoint);
        assert(out_views(self.endpoints_out@) =~= out_views(old(self).endpoints_out@).push(
            endpoint@,
        ));
    }

    /// Puts an IN endpoint under the care of the peripheral.
    pub fn add_in(&mut self, endpoint: EndpointIn)
        ensures
            final(self)@ == (UsbCoreView {
                endpoints_in: old(self)@.endpoints_in.push(endpoint@),
                ..old(self)@
            }),
    {
        self.endpoints_in.push(endpoint);
        assert(in_views(self.endpoints_in@) =~= in_views(old(self).endpoints_in@).push(endpoint@));
    }

    /// The allocation is over; a virtual bus has nothing to switch on.
    pub fn enable(&mut self, alloc: EndpointAllocator) -> (r: Result<(), UsbError>)
        ensures
            r is Ok,
            *final(self) == *old(self),
    {
        Ok(())
    }

    /// A virtual bus has no electrical state to reset.
    pub fn reset(&mut self) -> (r: Result<(), UsbError>)
        ensures
            r is Ok,
            *final(self) == *old(self),
    {
        Ok(())
    }

    /// The address of the device is of no use on a virtual bus.
    pub fn set_device_address(&mut self, addr: u8) -> (r: Result<(), UsbError>)
        ensures
            r is Ok,
            *final(self) == *old(self),
    {
        Ok(())
    }

    /// Every endpoint may have work: the endpoints themselves say
    /// `WouldBlock` where they have none.
    pub fn poll(&mut self) -> (r: Result<PollResult, UsbError>)
        ensures
            r == Ok::<PollResult, UsbError>(
                PollResult::Data { ep_out: 0xffff, ep_in_complete: 0xffff, ep_setup: 0 },
            ),
            *final(self) == *old(self),
    {
        Ok(PollResult::Data { ep_out: 0xffff, ep_in_complete: 0xffff, ep_setup: 0 })
    }

    /// A virtual bus cannot make the host reset it.
    pub fn force_reset(&mut self) -> (r: Result<(), UsbError>)
        ensures
            r == Err::<(), UsbError>(UsbError::Unsupported),
            *final(self) == *old(self),
    {
        Err(UsbError::Unsupported)
    }

    pub fn suspend(&mut self) -> (r: Result<(), UsbError>)
        ensures
            r is Ok,
            *final(self) == *old(self),
    {
        Ok(())
    }

    pub fn resume(&mut self) -> (r: Result<(), UsbError>)
        ensures
            r is Ok,
            *final(self) == *old(self),
    {
        Ok(())
    }

    /// The place of the OUT endpoint with the given address.
    fn find_out(&self, address: EndpointAddress) -> (r: Option<usize>)
        ensures
            match r {
                Some(i) => i < self@.endpoints_out.len() && endpoint_index(
                    self@.endpoints_out,
                    address,
                ) == i,
                None => endpoint_index(self@.endpoints_out, address)
                    == self@.endpoints_out.len(),
            },
    {
        let mut i: usize = 0;
        while i < self.endpoints_out.len()
            invariant
                i <= self.endpoints_out@.len(),
                forall|j: int| 0 <= j < i ==> self@.endpoints_out[j].address != address,
            decreases self.endpoints_out@.len() - i,
        {
            if self.endpoints_out[i].address() == address {
                proof {
                    lemma_endpoint_index(self@.endpoints_out, address, i as int);
                }
                return Some(i);
            }
            i = i + 1;
        }
        proof {
            lemma_endpoint_index(self@.endpoints_out, address, i as int);
        }
        None
    }

    /// The place of the IN endpoint with the given address.
    fn find_in(&self, address: EndpointAddress) -> (r: Option<usize>)
        ensures
            match r {
                Some(i) => i < self@.endpoints_in.len() && endpoint_index(
                    self@.endpoints_in,
                    address,
                ) == i,
                None => endpoint_index(self@.endpoints_in, address) == self@.endpoints_in.len(),
            },
    {
        let mut i: usize = 0;
        while i < self.endpoints_in.len()
            invariant
                i <= self.endpoints_in@.len(),
                forall|j: int| 0 <= j < i ==> self@.endpoints_in[j].address != address,
            decreases self.endpoints_in@.len() - i,
        {
            if self.endpoints_in[i].address() == address {
                proof {
                    lemma_endpoint_index(self@.endpoints_in, address, i as int);
                }
                return Some(i);
            }
            i = i + 1;
        }
        proof {
            lemma_endpoint_index(self@.endpoints_in, address, i as int);
        }
        None
    }

    /// Reads a packet from the OUT endpoint with the given address (see
    /// `read_packet_spec`). An address that no OUT endpoint has is
    /// `InvalidEndpoint`.
    pub fn read_packet(
        &mut self,
        ep_addr: EndpointAddress,
        channel: &mut CoreChannel,
        buf: &mut [u8],
    ) -> (r: Result<(usize, OutPacketType), UsbError>)
        ensures
            ({
                let i = endpoint_index(old(self)@.endpoints_out, ep_addr);
                if i == old(self)@.endpoints_out.len() {
                    &&& r == Err::<(usize, OutPacketType), UsbError>(UsbError::InvalidEndpoint)
                    &&& final(self)@ == old(self)@
                    &&& final(channel)@ == old(channel)@
                    &&& final(buf)@ == old(buf)@
                } else {
                    let outcome = read_packet_spec(
                        old(self)@.endpoints_out[i],
                        old(channel)@,
                        old(buf)@.len(),
                    );
                    &&& final(self)@ == (UsbCoreView {
                        endpoints_out: old(self)@.endpoints_out.update(i, outcome.endpoint),
                        ..old(self)@
                    })
                    &&& final(channel)@ == outcome.channel
                    &&& match outcome.result {
                        Ok((packet, kind)) => r == Ok::<(usize, OutPacketType), UsbError>(
                            (packet.len() as usize, kind),
                        ) && packet.len() <= old(buf)@.len() && final(buf)@ == packet + old(
                            buf,
                        )@.skip(packet.len() as int),
                        Err(e) => r == Err::<(usize, OutPacketType), UsbError>(e) && final(buf)@
                            == old(buf)@,
                    }
                }
            }),
    {
        let i = match self.find_out(ep_addr) {
            Some(i) => i,
            None => {
                return Err(UsbError::InvalidEndpoint);
            },
        };
        let r = self.endpoints_out[i].read_packet(channel, buf);
        assert(out_views(self.endpoints_out@) =~= out_views(old(self).endpoints_out@).update(
            i as int,
            self.endpoints_out@[i as int]@,
        ));
        r
    }

    /// Writes a packet to the IN endpoint with the given address (see
    /// `write_packet_spec`). An address that no IN endpoint has is
    /// `InvalidEndpoint`.
    pub fn write_packet(&mut self, ep_addr: EndpointAddress, channel: &mut CoreChannel, buf: &[u8])
        -> (r: Result<(), UsbError>)
        ensures
            ({
                let i = endpoint_index(old(self)@.endpoints_in, ep_addr);
                if i == old(self)@.endpoints_in.len() {
                    &&& r == Err::<(), UsbError>(UsbError::InvalidEndpoint)
                    &&& final(self)@ == old(self)@
                    &&& final(channel)@ == old(channel)@
                } else {
                    let outcome = write_packet_spec(
                        old(self)@.endpoints_in[i],
                        old(channel)@,
                        buf@,
                    );
                    &&& final(self)@ == (UsbCoreView {
                        endpoints_in: old(self)@.endpoints_in.update(i, outcome.endpoint),
                        ..old(self)@
                    })
                    &&& final(channel)@ == outcome.channel
                    &&& r == outcome.result
                }
            }),
    {
        let i = match self.find_in(ep_addr) {
            Some(i) => i,
            None => {
                return Err(UsbError::InvalidEndpoint);
            },
        };
        let r = self.endpoints_in[i].write_packet(channel, buf);
        assert(in_views(self.endpoints_in@) =~= in_views(old(self).endpoints_in@).update(
            i as int,
            self.endpoints_in@[i as int]@,
        ));
        r
    }

    /// Stalls the endpoint with the given address or ends its stall. The
    /// stall is kept by the endpoint. An address that no endpoint has is
    /// `InvalidEndpoint`.
    pub fn set_stalled(&mut self, ep_addr: EndpointAddress, stalled: bool) -> (r: Result<
        (),
        UsbError,
    >)
        ensures
            ({
                let (list, i) = match ep_addr.direction {
                    UsbDirection::Out => (
                        old(self)@.endpoints_out,
                        endpoint_index(old(self)@.endpoints_out, ep_addr),
                    ),
                    UsbDirection::In => (
                        old(self)@.endpoints_in,
                        endpoint_index(old(self)@.endpoints_in, ep_addr),
                    ),
                };
                if i == list.len() {
                    r == Err::<(), UsbError>(UsbError::InvalidEndpoint) && final(self)@ == old(
                        self,
                    )@
                } else {
                    let changed = list.update(i, EndpointView { stalled, ..list[i] });
                    r is Ok && final(self)@ == (match ep_addr.direction {
                        UsbDirection::Out => UsbCoreView { endpoints_out: changed, ..old(self)@ },
                        UsbDirection::In => UsbCoreView { endpoints_in: changed, ..old(self)@ },
                    })
                }
            }),
    {
        match ep_addr.direction() {
            UsbDirection::Out => {
                let i = match self.find_out(ep_addr) {
                    Some(i) => i,
                    None => {
                        return Err(UsbError::InvalidEndpoint);
                    },
                };
                let r = self.endpoints_out[i].set_stalled(stalled);
                assert(out_views(self.endpoints_out@) =~= out_views(
                    old(self).endpoints_out@,
                ).update(i as int, self.endpoints_out@[i as int]@));
                r
            },
            UsbDirection::In => {
                let i = match self.find_in(ep_addr) {
                    Some(i) => i,
                    None => {
                        return Err(UsbError::InvalidEndpoint);
                    },
                };
                let r = self.endpoints_in[i].set_stalled(stalled);
                assert(in_views(self.endpoints_in@) =~= in_views(old(self).endpoints_in@).update(
                    i as int,
                    self.endpoints_in@[i as int]@,
                ));
                r
            },
        }
    }

    /// Whether the endpoint with the given address is stalled, as the
    /// endpoint has it. An address that no endpoint has is `InvalidEndpoint`.
    pub fn is_stalled(&self, ep_addr: EndpointAddress) -> (r: Result<bool, UsbError>)
        ensures
            ({
                let list = match ep_addr.direction {
                    UsbDirection::Out => self@.endpoints_out,
                    UsbDirection::In => self@.endpoints_in,
                };
                let i = endpoint_index(list, ep_addr);
                if i == list.len() {
                    r == Err::<bool, UsbError>(UsbError::InvalidEndpoint)
                } else {
                    r == Ok::<bool, UsbError>(list[i].stalled)
                }
            }),
    {
        match ep_addr.direction() {
            UsbDirection::Out => match self.find_out(ep_addr) {
                Some(i) => self.endpoints_out[i].is_stalled(),
                None => Err(UsbError::InvalidEndpoint),
            },
            UsbDirection::In => match self.find_in(ep_addr) {
                Some(i) => self.endpoints_in[i].is_stalled(),
                None => Err(UsbError::InvalidEndpoint),
            },
        }
    }
}

} // verus!

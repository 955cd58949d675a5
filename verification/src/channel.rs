//! The core channel: the queue of pending URBs between the wire and the
//! endpoints, the latch that keeps control transfers apart, and the two
//! places where finished URBs wait to be collected.

use crate::urb::{urb_views, ControlState, Urb, UrbView};
use crate::usb::{EndpointAddress, UsbDirection};
use std::collections::VecDeque;
use vstd::prelude::*;

verus! {

/// A channel as a mathematical value.
pub struct ChannelView {
    /// The pending URBs, the next to be served first.
    pub queue: Seq<UrbView>,
    /// Set while a control transfer is past its SETUP packet.
    pub control_in_progress: bool,
    /// Whether the next finished URB goes to the enumeration.
    pub internal_sink: bool,
    /// Finished URBs that the enumeration has not collected yet.
    pub internal_completed: Seq<UrbView>,
    /// Finished URBs on their way to the wire, oldest first.
    pub completed: Seq<UrbView>,
}

/// Whether an endpoint may take this URB now: it is addressed to the
/// endpoint, and it is no SETUP while another control transfer is under way.
pub open spec fn takeable(u: UrbView, ep: EndpointAddress, latch: bool) -> bool {
    u.ep == ep && !(latch && u.in_state(ControlState::Setup))
}

/// The place in the queue of the first URB that the endpoint may take, or
/// the length of the queue where there is none.
pub open spec fn next_index(queue: Seq<UrbView>, ep: EndpointAddress, latch: bool) -> int
    decreases queue.len(),
{
    if queue.len() == 0 {
        0
    } else if takeable(queue.first(), ep, latch) {
        0
    } else {
        1 + next_index(queue.drop_first(), ep, latch)
    }
}

/// `next_index` by what it means: no URB before it can be taken, and the URB
/// at it can, unless it is the end of the queue.
pub proof fn lemma_next_index(queue: Seq<UrbView>, ep: EndpointAddress, latch: bool)
    ensures
        0 <= next_index(queue, ep, latch) <= queue.len(),
        forall|j: int| 0 <= j < next_index(queue, ep, latch) ==> !takeable(queue[j], ep, latch),
        next_index(queue, ep, latch) < queue.len() ==> takeable(
            queue[next_index(queue, ep, latch)],
            ep,
            latch,
        ),
    decreases queue.len(),
{
    if queue.len() > 0 && !takeable(queue.first(), ep, latch) {
        let rest = queue.drop_first();
        lemma_next_index(rest, ep, latch);
        assert forall|j: int| 0 <= j < next_index(queue, ep, latch) implies !takeable(
            queue[j],
            ep,
            latch,
        ) by {
            if j > 0 {
                assert(queue[j] == rest[j - 1]);
            }
        }
        if next_index(queue, ep, latch) < queue.len() {
            assert(queue[next_index(queue, ep, latch)] == rest[next_index(rest, ep, latch)]);
        }
    }
}

/// The first place that can be taken is `next_index`.
pub proof fn lemma_next_index_is(queue: Seq<UrbView>, ep: EndpointAddress, latch: bool, i: int)
    requires
        0 <= i <= queue.len(),
        forall|j: int| 0 <= j < i ==> !takeable(queue[j], ep, latch),
        i < queue.len() ==> takeable(queue[i], ep, latch),
    ensures
        next_index(queue, ep, latch) == i,
{
    lemma_next_index(queue, ep, latch);
}

/// The URBs of a queue whose sequence number is not `seqnum`, in their order.
pub open spec fn without(queue: Seq<UrbView>, seqnum: u32) -> Seq<UrbView>
    decreases queue.len(),
{
    if queue.len() == 0 {
        Seq::empty()
    } else if queue.last().seqnum == seqnum {
        without(queue.drop_last(), seqnum)
    } else {
        without(queue.drop_last(), seqnum).push(queue.last())
    }
}

/// What `without` keeps: URBs of the queue, none of them with the sequence
/// number that was to leave.
pub proof fn lemma_without(queue: Seq<UrbView>, seqnum: u32)
    ensures
        without(queue, seqnum).len() <= queue.len(),
        forall|i: int|
            0 <= i < without(queue, seqnum).len() ==> (#[trigger] without(queue, seqnum)[i]).seqnum
                != seqnum && queue.contains(without(queue, seqnum)[i]),
        forall|i: int|
            0 <= i < queue.len() && (#[trigger] queue[i]).seqnum != seqnum ==> without(
                queue,
                seqnum,
            ).contains(queue[i]),
    decreases queue.len(),
{
    if queue.len() > 0 {
        let head = queue.drop_last();
        let kept = without(queue, seqnum);
        lemma_without(head, seqnum);
        assert forall|i: int| 0 <= i < kept.len() implies (#[trigger] kept[i]).seqnum != seqnum
            && queue.contains(kept[i]) by {
            if i < without(head, seqnum).len() {
                let u = without(head, seqnum)[i];
                assert(head.contains(u));
                let j = choose|j: int| 0 <= j < head.len() && head[j] == u;
                assert(queue[j] == u);
            } else {
                assert(kept[i] == queue[queue.len() - 1]);
            }
        }
        assert forall|i: int| 0 <= i < queue.len() && (#[trigger] queue[i]).seqnum
            != seqnum implies kept.contains(queue[i]) by {
            if i < head.len() {
                assert(head[i] == queue[i]);
                assert(without(head, seqnum).contains(queue[i]));
                let j = choose|j: int|
                    0 <= j < without(head, seqnum).len() && without(head, seqnum)[j] == queue[i];
                assert(kept[j] == queue[i]);
            } else {
                assert(kept[kept.len() - 1] == queue[i]);
            }
        }
    }
}

impl ChannelView {
    /// The channel with nothing pending, nothing finished, the latch
    /// released and no enumeration waiting.
    pub open spec fn empty() -> ChannelView {
        ChannelView {
            queue: Seq::empty(),
            control_in_progress: false,
            internal_sink: false,
            internal_completed: Seq::empty(),
            completed: Seq::empty(),
        }
    }

    /// Every pending URB is in flight.
    pub open spec fn wf(self) -> bool {
        forall|i: int| 0 <= i < self.queue.len() ==> (#[trigger] self.queue[i]).in_flight()
    }

    /// The URB that an endpoint gets when it asks for its next one.
    pub open spec fn next_urb(self, ep: EndpointAddress) -> Option<UrbView> {
        let i = next_index(self.queue, ep, self.control_in_progress);
        if i < self.queue.len() {
            Some(self.queue[i])
        } else {
            None
        }
    }

    /// The channel after an endpoint took its next URB: the URB has left the
    /// queue, and a control transfer has set the latch.
    pub open spec fn after_take(self, ep: EndpointAddress) -> ChannelView {
        let i = next_index(self.queue, ep, self.control_in_progress);
        if i < self.queue.len() {
            ChannelView {
                queue: self.queue.remove(i),
                control_in_progress: self.control_in_progress || self.queue[i].control is Some,
                ..self
            }
        } else {
            self
        }
    }

    /// The channel after a finished URB was handed over: to the enumeration
    /// where it waits for one, which ends its wait, else towards the wire.
    pub open spec fn deliver(self, u: UrbView) -> ChannelView {
        if self.internal_sink {
            ChannelView {
                internal_sink: false,
                internal_completed: self.internal_completed.push(u),
                ..self
            }
        } else {
            ChannelView { completed: self.completed.push(u), ..self }
        }
    }

    /// The channel after an endpoint is done with a URB. A control transfer
    /// that enters its data stage goes to the front of the queue for the IN
    /// endpoint; one that enters its status stage goes there for the
    /// endpoint of the status direction; one that is complete releases the
    /// latch and is delivered. Any other URB is delivered.
    pub open spec fn complete(self, u: UrbView) -> ChannelView {
        if u.in_state(ControlState::Data) {
            ChannelView {
                queue: seq![
                    u.on(EndpointAddress { number: u.ep.number, direction: UsbDirection::In }),
                ] + self.queue,
                ..self
            }
        } else if u.in_state(ControlState::Status) {
            ChannelView {
                queue: seq![
                    u.on(EndpointAddress { number: u.ep.number, direction: u.status_direction() }),
                ] + self.queue,
                ..self
            }
        } else if u.in_state(ControlState::Complete) {
            ChannelView { control_in_progress: false, ..self }.deliver(u)
        } else {
            self.deliver(u)
        }
    }

    /// The channel after a URB joined the end of the queue.
    pub open spec fn submit(self, u: UrbView) -> ChannelView {
        ChannelView { queue: self.queue.push(u), ..self }
    }

    /// The channel without the pending URBs of the given sequence number.
    pub open spec fn unlink(self, seqnum: u32) -> ChannelView {
        ChannelView { queue: without(self.queue, seqnum), ..self }
    }

    /// Whether a URB of the given sequence number is pending.
    pub open spec fn has_pending(self, seqnum: u32) -> bool {
        exists|i: int| 0 <= i < self.queue.len() && (#[trigger] self.queue[i]).seqnum == seqnum
    }
}

/// The queue between the wire and the endpoints of one device.
#[derive(Debug)]
pub struct CoreChannel {
    urb_queue: VecDeque<Urb>,
    control_in_progress: bool,
    internal_sink: bool,
    internal_completed: VecDeque<Urb>,
    completed: VecDeque<Urb>,
}

impl View for CoreChannel {
    type V = ChannelView;

    closed spec fn view(&self) -> ChannelView {
        ChannelView {
            queue: urb_views(self.urb_queue@),
            control_in_progress: self.control_in_progress,
            internal_sink: self.internal_sink,
            internal_completed: urb_views(self.internal_completed@),
            completed: urb_views(self.completed@),
        }
    }
}

impl CoreChannel {
    /// An empty channel with the latch released.
    pub fn new() -> (channel: CoreChannel)
        ensures
            channel@ == ChannelView::empty(),
    {
        let channel = CoreChannel {
            urb_queue: VecDeque::new(),
            control_in_progress: false,
            internal_sink: false,
            internal_completed: VecDeque::new(),
            completed: VecDeque::new(),
        };
        assert(channel@.queue =~= Seq::empty());
        assert(channel@.internal_completed =~= Seq::empty());
        assert(channel@.completed =~= Seq::empty());
        channel
    }

    /// Puts a URB at the end of the queue.
    pub fn submit_urb(&mut self, urb: Urb)
        ensures
            final(self)@ == old(self)@.submit(urb@),
    {
        self.urb_queue.push_back(urb);
        assert(urb_views(self.urb_queue@) =~= urb_views(old(self).urb_queue@).push(urb@));
    }

    /// Hands out the first pending URB for the endpoint, if there is one
    /// that may be taken now. A SETUP is passed over while a control
    /// transfer is under way; taking a control transfer sets the latch.
    pub fn take_next_urb(&mut self, ep_addr: EndpointAddress) -> (r: Option<Urb>)
        ensures
            final(self)@ == old(self)@.after_take(ep_addr),
            match r {
                Some(urb) => old(self)@.next_urb(ep_addr) == Some(urb@),
                None => old(self)@.next_urb(ep_addr) is None,
            },
    {
        let ghost queue = urb_views(self.urb_queue@);
        let mut index: usize = 0;
        while index < self.urb_queue.len()
            invariant
                index <= self.urb_queue@.len(),
                *self == *old(self),
                queue == urb_views(self.urb_queue@),
                forall|j: int|
                    0 <= j < index ==> !takeable(queue[j], ep_addr, self.control_in_progress),
            decreases self.urb_queue@.len() - index,
        {
            let urb = &self.urb_queue[index];
            let refused = self.control_in_progress && match &urb.control {
                Some(control) => control.state == ControlState::Setup,
                None => false,
            };
            if urb.ep == ep_addr && !refused {
                proof {
                    assert(takeable(queue[index as int], ep_addr, self.control_in_progress));
                    lemma_next_index_is(queue, ep_addr, self.control_in_progress, index as int);
                }
                let is_control = urb.control.is_some();
                let taken = self.urb_queue.remove(index);
                if is_control {
                    self.control_in_progress = true;
                }
                assert(urb_views(self.urb_queue@) =~= queue.remove(index as int));
                return taken;
            }
            assert(!takeable(queue[index as int], ep_addr, self.control_in_progress));
            index = index + 1;
        }
        proof {
            lemma_next_index_is(queue, ep_addr, self.control_in_progress, queue.len() as int);
        }
        None
    }

    /// Hands a finished URB over (see `ChannelView::deliver`).
    fn deliver(&mut self, urb: Urb)
        ensures
            final(self)@ == old(self)@.deliver(urb@),
    {
        if self.internal_sink {
            self.internal_sink = false;
            self.internal_completed.push_back(urb);
            assert(urb_views(self.internal_completed@) =~= urb_views(
                old(self).internal_completed@,
            ).push(urb@));
        } else {
            self.completed.push_back(urb);
            assert(urb_views(self.completed@) =~= urb_views(old(self).completed@).push(urb@));
        }
    }

    /// Takes a URB back from an endpoint that is done with it for now (see
    /// `ChannelView::complete`). A URB that still waits for its SETUP to be
    /// read is not done with anything, and may not be passed.
    pub fn complete_urb(&mut self, urb: Urb)
        requires
            !urb@.in_state(ControlState::Setup),
        ensures
            final(self)@ == old(self)@.complete(urb@),
    {
        let mut urb = urb;
        let state = match &urb.control {
            Some(control) => Some(control.state),
            None => None,
        };
        match state {
            Some(ControlState::Data) => {
                urb.ep = EndpointAddress::from_parts(urb.ep.number(), UsbDirection::In);
                self.urb_queue.push_front(urb);
                assert(urb_views(self.urb_queue@) =~= seq![urb@] + urb_views(
                    old(self).urb_queue@,
                ));
            },
            Some(ControlState::Status) => {
                let status_dir = if urb.len == 0 {
                    UsbDirection::In
                } else {
                    urb.req_ep.direction().opposite()
                };
                urb.ep = EndpointAddress::from_parts(urb.ep.number(), status_dir);
                self.urb_queue.push_front(urb);
                assert(urb_views(self.urb_queue@) =~= seq![urb@] + urb_views(
                    old(self).urb_queue@,
                ));
            },
            Some(ControlState::Complete) => {
                self.control_in_progress = false;
                self.deliver(urb);
            },
            _ => {
                self.deliver(urb);
            },
        }
    }

    /// Removes the pending URBs of the given sequence number. The result
    /// says whether there was one. A URB that an endpoint has taken already
    /// is beyond reach and completes as usual.
    pub fn unlink_urb(&mut self, seqnum: u32) -> (found: bool)
        ensures
            found == old(self)@.has_pending(seqnum),
            final(self)@ == old(self)@.unlink(seqnum),
    {
        let ghost queue = urb_views(self.urb_queue@);
        let mut kept: VecDeque<Urb> = VecDeque::new();
        let mut found = false;
        let mut done: usize = 0;
        let total = self.urb_queue.len();
        while done < total
            invariant
                done <= total,
                total == queue.len(),
                self.urb_queue@.len() == total - done,
                urb_views(self.urb_queue@) == queue.skip(done as int),
                urb_views(kept@) == without(queue.take(done as int), seqnum),
                found == (exists|i: int| 0 <= i < done && (#[trigger] queue[i]).seqnum == seqnum),
                self.control_in_progress == old(self).control_in_progress,
                self.internal_sink == old(self).internal_sink,
                self.internal_completed == old(self).internal_completed,
                self.completed == old(self).completed,
            decreases total - done,
        {
            let ghost before = urb_views(self.urb_queue@);
            let ghost raw = self.urb_queue@;
            let ghost kept_before = urb_views(kept@);
            let next = self.urb_queue.pop_front();
            match next {
                Some(urb) => {
                    proof {
                        assert(urb@ == before[0]);
                        assert(before[0] == queue[done as int]);
                        assert(queue.take(done + 1).drop_last() =~= queue.take(done as int));
                        assert(queue.take(done + 1).last() == queue[done as int]);
                        assert forall|i: int| 0 <= i < self.urb_queue@.len() implies urb_views(
                            self.urb_queue@,
                        )[i] == queue.skip(done + 1)[i] by {
                            assert(self.urb_queue@[i] == raw[i + 1]);
                            assert(before[i + 1] == raw[i + 1]@);
                            assert(before[i + 1] == queue.skip(done as int)[i + 1]);
                        }
                        assert(urb_views(self.urb_queue@) =~= queue.skip(done + 1));
                    }
                    if urb.seqnum == seqnum {
                        found = true;
                    } else {
                        kept.push_back(urb);
                        assert(urb_views(kept@) =~= kept_before.push(urb@));
                    }
                },
                None => {},
            }
            done = done + 1;
        }
        assert(queue.take(done as int) =~= queue);
        self.urb_queue = kept;
        found
    }

    /// Directs the next finished URB to the enumeration.
    pub fn expect_internal(&mut self)
        ensures
            final(self)@ == (ChannelView { internal_sink: true, ..old(self)@ }),
    {
        self.internal_sink = true;
    }

    /// Ends the wait of the enumeration for a finished URB.
    pub fn cancel_internal(&mut self)
        ensures
            final(self)@ == (ChannelView { internal_sink: false, ..old(self)@ }),
    {
        self.internal_sink = false;
    }

    /// Collects the oldest finished URB that went to the enumeration.
    pub fn take_internal(&mut self) -> (r: Option<Urb>)
        ensures
            match r {
                Some(urb) => old(self)@.internal_completed.len() > 0 && urb@ == old(
                    self,
                )@.internal_completed[0] && final(self)@ == (ChannelView {
                    internal_completed: old(self)@.internal_completed.drop_first(),
                    ..old(self)@
                }),
                None => old(self)@.internal_completed.len() == 0 && final(self)@ == old(self)@,
            },
    {
        let r = self.internal_completed.pop_front();
        assert(r is Some ==> urb_views(self.internal_completed@) =~= urb_views(
            old(self).internal_completed@,
        ).drop_first());
        r
    }

    /// Collects the oldest finished URB that is bound for the wire.
    pub fn take_completed(&mut self) -> (r: Option<Urb>)
        ensures
            match r {
                Some(urb) => old(self)@.completed.len() > 0 && urb@ == old(self)@.completed[0]
                    && final(self)@ == (ChannelView {
                    completed: old(self)@.completed.drop_first(),
                    ..old(self)@
                }),
                None => old(self)@.completed.len() == 0 && final(self)@ == old(self)@,
            },
    {
        let r = self.completed.pop_front();
        assert(r is Some ==> urb_views(self.completed@) =~= urb_views(
            old(self).completed@,
        ).drop_first());
        r
    }

    /// Number of pending URBs.
    pub fn pending(&self) -> (n: usize)
        ensures
            n == self@.queue.len(),
    {
        self.urb_queue.len()
    }

    /// Whether a control transfer is past its SETUP packet.
    pub fn control_in_progress(&self) -> (b: bool)
        ensures
            b == self@.control_in_progress,
    {
        self.control_in_progress
    }
}

} // verus!

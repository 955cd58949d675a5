//! What holds of the way URBs travel: from submission through the queue and
//! the endpoints to completion.

use crate::channel::{lemma_next_index, lemma_without, next_index, takeable, without, ChannelView};
use crate::endpoint::{
    after_last_packet, packet_completes, packet_overflows, read_packet_spec, stalled_urb,
    write_packet_spec, EndpointView,
};
use crate::protocol::SubmitRequestView;
use crate::server::{completion_reply, submitted_urb};
use crate::urb::{ControlState, UrbView};
use crate::usb::{EndpointAddress, OutPacketType, UsbDirection};
use crate::usbcore::UsbCoreView;
use vstd::prelude::*;

verus! {

/// The URB that an endpoint takes is in flight and on that endpoint, and is
/// no SETUP while a control transfer is under way; the URBs that stay in the
/// queue are in flight as before.
pub proof fn take_keeps_wf(ch: ChannelView, ep: EndpointAddress)
    requires
        ch.wf(),
    ensures
        ch.after_take(ep).wf(),
        ch.next_urb(ep) matches Some(u) ==> u.in_flight() && u.ep == ep && !(
        ch.control_in_progress && u.in_state(ControlState::Setup)),
{
    lemma_next_index(ch.queue, ep, ch.control_in_progress);
    let i = next_index(ch.queue, ep, ch.control_in_progress);
    if i < ch.queue.len() {
        assert(ch.queue[i].in_flight());
        let after = ch.after_take(ep);
        assert forall|j: int| 0 <= j < after.queue.len() implies (
        #[trigger] after.queue[j]).in_flight() by {
            if j < i {
                assert(after.queue[j] == ch.queue[j]);
            } else {
                assert(after.queue[j] == ch.queue[j + 1]);
            }
        }
    }
}

/// A URB that goes back to the queue in flight leaves the queue in flight;
/// one that is delivered leaves the queue as it was.
pub proof fn complete_keeps_wf(ch: ChannelView, u: UrbView)
    requires
        ch.wf(),
        u.in_state(ControlState::Data) ==> u.on(
            EndpointAddress { number: u.ep.number, direction: UsbDirection::In },
        ).in_flight(),
        u.in_state(ControlState::Status) ==> u.on(
            EndpointAddress { number: u.ep.number, direction: u.status_direction() },
        ).in_flight(),
    ensures
        ch.complete(u).wf(),
{
    let after = ch.complete(u);
    assert forall|j: int| 0 <= j < after.queue.len() implies (
    #[trigger] after.queue[j]).in_flight() by {
        if u.in_state(ControlState::Data) || u.in_state(ControlState::Status) {
            if j > 0 {
                assert(after.queue[j] == ch.queue[j - 1]);
            }
        } else {
            assert(after.queue[j] == ch.queue[j]);
        }
    }
}

/// A read on an OUT endpoint keeps every URB in flight: those in the queue,
/// and the one that the endpoint serves.
pub proof fn read_keeps_wf(ep: EndpointView, ch: ChannelView, room: nat)
    requires
        ep.wf(),
        ch.wf(),
        ep.address.direction == UsbDirection::Out,
    ensures
        read_packet_spec(ep, ch, room).endpoint.wf(),
        read_packet_spec(ep, ch, room).channel.wf(),
{
    take_keeps_wf(ch, ep.address);
    let pulled = ep.channel_after_pull(ch);
    assert(pulled.wf());
    if room >= ep.max_packet_size {
        if let Some(u) = ep.current(ch) {
            assert(u.in_flight() && u.ep == ep.address);
            if ep.refuses() {
                complete_keeps_wf(pulled, stalled_urb(u));
            } else if u.in_state(ControlState::Setup) {
                if room >= 8 {
                    if u.len > 0 && u.req_ep.direction == UsbDirection::Out {
                    } else if u.len > 0 {
                        complete_keeps_wf(pulled, u.in_phase(ControlState::Data));
                    } else {
                        complete_keeps_wf(pulled, u.in_phase(ControlState::Status));
                    }
                }
            } else if u.in_state(ControlState::Status) {
                complete_keeps_wf(pulled, u.in_phase(ControlState::Complete));
            } else if u.data.len() <= ep.max_packet_size {
                complete_keeps_wf(
                    pulled,
                    u.with_data(Seq::empty()).in_phase(ControlState::Status),
                );
            }
        }
    }
}

/// A write on an IN endpoint keeps every URB in flight: those in the queue,
/// and the one that the endpoint serves.
pub proof fn write_keeps_wf(ep: EndpointView, ch: ChannelView, packet: Seq<u8>)
    requires
        ep.wf(),
        ch.wf(),
        ep.address.direction == UsbDirection::In,
    ensures
        write_packet_spec(ep, ch, packet).endpoint.wf(),
        write_packet_spec(ep, ch, packet).channel.wf(),
{
    take_keeps_wf(ch, ep.address);
    let pulled = ep.channel_after_pull(ch);
    assert(pulled.wf());
    if packet.len() <= ep.max_packet_size {
        if let Some(u) = ep.current(ch) {
            assert(u.in_flight() && u.ep == ep.address);
            if ep.refuses() {
                complete_keeps_wf(pulled, stalled_urb(u));
            } else if u.in_state(ControlState::Setup) {
            } else if packet_overflows(u, packet) {
            } else if packet_completes(u, packet, ep.max_packet_size) {
                complete_keeps_wf(pulled, after_last_packet(u, packet));
            }
        }
    }
}

/// A URB that is in flight joins a queue of URBs in flight.
pub proof fn submit_keeps_wf(ch: ChannelView, u: UrbView)
    requires
        ch.wf(),
        u.in_flight(),
    ensures
        ch.submit(u).wf(),
{
    let after = ch.submit(u);
    assert forall|j: int| 0 <= j < after.queue.len() implies (
    #[trigger] after.queue[j]).in_flight() by {
        if j < ch.queue.len() {
            assert(after.queue[j] == ch.queue[j]);
        }
    }
}

/// What a valid SUBMIT request becomes is a URB in flight that starts anew.
pub proof fn submitted_urb_is_new(req: SubmitRequestView)
    requires
        req.is_valid(),
    ensures
        submitted_urb(req).is_new(),
{
}

/// An unlink leaves in the queue what was in it, less the URBs of the
/// sequence number: none of that number is pending afterwards, every other
/// URB still is, and what stays is in flight as before.
pub proof fn unlink_removes(ch: ChannelView, seqnum: u32)
    ensures
        !ch.unlink(seqnum).has_pending(seqnum),
        forall|other: u32|
            other != seqnum ==> ch.unlink(seqnum).has_pending(other) == ch.has_pending(other),
        ch.unlink(seqnum).completed == ch.completed,
        ch.unlink(seqnum).internal_completed == ch.internal_completed,
        ch.wf() ==> ch.unlink(seqnum).wf(),
{
    lemma_without(ch.queue, seqnum);
    let kept = without(ch.queue, seqnum);
    assert forall|other: u32| other != seqnum implies ch.unlink(seqnum).has_pending(other)
        == ch.has_pending(other) by {
        if ch.has_pending(other) {
            let i = choose|i: int|
                0 <= i < ch.queue.len() && (#[trigger] ch.queue[i]).seqnum == other;
            assert(kept.contains(ch.queue[i]));
            let j = choose|j: int| 0 <= j < kept.len() && kept[j] == ch.queue[i];
            assert(kept[j].seqnum == other);
        }
        if ch.unlink(seqnum).has_pending(other) {
            let j = choose|j: int| 0 <= j < kept.len() && (#[trigger] kept[j]).seqnum == other;
            assert(ch.queue.contains(kept[j]));
            let i = choose|i: int| 0 <= i < ch.queue.len() && ch.queue[i] == kept[j];
            assert(ch.queue[i].seqnum == other);
        }
    }
    if ch.wf() {
        assert forall|j: int| 0 <= j < kept.len() implies (#[trigger] kept[j]).in_flight() by {
            assert(ch.queue.contains(kept[j]));
            let i = choose|i: int| 0 <= i < ch.queue.len() && ch.queue[i] == kept[j];
            assert(ch.queue[i].in_flight());
        }
    }
}

/// The reply to a finished URB names the transfer as its SUBMIT did: where
/// the URB is still the transfer that was submitted, the reply carries the
/// sequence number, the device and the endpoint of the request.
pub proof fn reply_names_request(req: SubmitRequestView, done: UrbView)
    requires
        done.same_transfer(submitted_urb(req)),
    ensures
        completion_reply(done).seqnum == req.seqnum,
        completion_reply(done).devid == req.devid,
        completion_reply(done).ep == req.ep,
{
}

/// Whether a URB is somewhere between submission and collection: served by
/// the endpoint, pending, or finished and not collected.
pub open spec fn holds(ep: EndpointView, ch: ChannelView, u: UrbView) -> bool {
    ||| ep.urb == Some(u)
    ||| ch.queue.contains(u)
    ||| ch.completed.contains(u)
    ||| ch.internal_completed.contains(u)
}

/// Taking, requeueing and delivering move URBs and do not make any.
proof fn lemma_complete_holds(ep: EndpointView, ch: ChannelView, u: UrbView, v: UrbView)
    requires
        holds(ep, ch.complete(u), v),
    ensures
        holds(ep, ch, v) || v.same_transfer(u),
{
    let after = ch.complete(u);
    if after.queue.contains(v) {
        let j = choose|j: int| 0 <= j < after.queue.len() && after.queue[j] == v;
        if u.in_state(ControlState::Data) || u.in_state(ControlState::Status) {
            if j > 0 {
                assert(ch.queue[j - 1] == v);
            }
        } else {
            assert(ch.queue[j] == v);
        }
    } else if after.completed.contains(v) {
        let j = choose|j: int| 0 <= j < after.completed.len() && after.completed[j] == v;
        if j < ch.completed.len() {
            assert(ch.completed[j] == v);
        }
    } else if after.internal_completed.contains(v) {
        let j = choose|j: int|
            0 <= j < after.internal_completed.len() && after.internal_completed[j] == v;
        if j < ch.internal_completed.len() {
            assert(ch.internal_completed[j] == v);
        }
    }
}

/// What is in the queue after a take was in it before, and so was the URB
/// that was taken.
proof fn lemma_take_holds(ch: ChannelView, ep: EndpointAddress, v: UrbView)
    ensures
        ch.after_take(ep).queue.contains(v) ==> ch.queue.contains(v),
        ch.next_urb(ep) == Some(v) ==> ch.queue.contains(v),
        ch.after_take(ep).completed == ch.completed,
        ch.after_take(ep).internal_completed == ch.internal_completed,
{
    lemma_next_index(ch.queue, ep, ch.control_in_progress);
    let i = next_index(ch.queue, ep, ch.control_in_progress);
    let after = ch.after_take(ep);
    if after.queue.contains(v) {
        let j = choose|j: int| 0 <= j < after.queue.len() && after.queue[j] == v;
        if i < ch.queue.len() {
            if j < i {
                assert(ch.queue[j] == v);
            } else {
                assert(ch.queue[j + 1] == v);
            }
        }
    }
    if ch.next_urb(ep) == Some(v) {
        assert(ch.queue[i] == v);
    }
}

/// A read makes no transfer and renames none: every URB that is somewhere
/// after the read is the transfer of a URB that was somewhere before.
pub proof fn read_keeps_transfers(ep: EndpointView, ch: ChannelView, room: nat, v: UrbView)
    requires
        holds(read_packet_spec(ep, ch, room).endpoint, read_packet_spec(ep, ch, room).channel, v),
    ensures
        exists|u: UrbView| holds(ep, ch, u) && v.same_transfer(u),
{
    let outcome = read_packet_spec(ep, ch, room);
    let pulled = ep.channel_after_pull(ch);
    lemma_take_holds(ch, ep.address, v);
    if room < ep.max_packet_size {
        assert(holds(ep, ch, v) && v.same_transfer(v));
    } else {
        match ep.current(ch) {
            None => {
                assert(holds(ep, ch, v) && v.same_transfer(v));
            },
            Some(u) => {
                lemma_take_holds(ch, ep.address, u);
                assert(holds(ep, ch, u));
                let sent = if ep.refuses() {
                    stalled_urb(u)
                } else if u.in_state(ControlState::Setup) {
                    if u.len > 0 {
                        u.in_phase(ControlState::Data)
                    } else {
                        u.in_phase(ControlState::Status)
                    }
                } else if u.in_state(ControlState::Status) {
                    u.in_phase(ControlState::Complete)
                } else {
                    u.with_data(Seq::empty()).in_phase(ControlState::Status)
                };
                assert(sent.same_transfer(u));
                if outcome.endpoint.urb == Some(v) {
                    assert(v.same_transfer(u));
                } else if outcome.channel == pulled {
                    assert(holds(ep, ch, v) && v.same_transfer(v));
                } else {
                    assert(outcome.channel == pulled.complete(sent));
                    lemma_complete_holds(outcome.endpoint, pulled, sent, v);
                    if v.same_transfer(sent) {
                        assert(v.same_transfer(u));
                    } else {
                        assert(holds(ep, ch, v) && v.same_transfer(v));
                    }
                }
            },
        }
    }
}

/// A write makes no transfer and renames none: every URB that is somewhere
/// after the write is the transfer of a URB that was somewhere before.
pub proof fn write_keeps_transfers(ep: EndpointView, ch: ChannelView, packet: Seq<u8>, v: UrbView)
    requires
        holds(
            write_packet_spec(ep, ch, packet).endpoint,
            write_packet_spec(ep, ch, packet).channel,
            v,
        ),
    ensures
        exists|u: UrbView| holds(ep, ch, u) && v.same_transfer(u),
{
    let outcome = write_packet_spec(ep, ch, packet);
    let pulled = ep.channel_after_pull(ch);
    lemma_take_holds(ch, ep.address, v);
    if packet.len() > ep.max_packet_size {
        assert(holds(ep, ch, v) && v.same_transfer(v));
    } else {
        match ep.current(ch) {
            None => {
                assert(holds(ep, ch, v) && v.same_transfer(v));
            },
            Some(u) => {
                lemma_take_holds(ch, ep.address, u);
                assert(holds(ep, ch, u));
                let sent = if ep.refuses() {
                    stalled_urb(u)
                } else {
                    after_last_packet(u, packet)
                };
                assert(sent.same_transfer(u));
                if outcome.endpoint.urb == Some(v) {
                    assert(v.same_transfer(u));
                } else if outcome.channel == pulled {
                    assert(holds(ep, ch, v) && v.same_transfer(v));
                } else {
                    assert(outcome.channel == pulled.complete(sent));
                    lemma_complete_holds(outcome.endpoint, pulled, sent, v);
                    if v.same_transfer(sent) {
                        assert(v.same_transfer(u));
                    } else {
                        assert(holds(ep, ch, v) && v.same_transfer(v));
                    }
                }
            },
        }
    }
}

/// A short packet ends the transfer with what was written. Where an IN
/// endpoint has a URB that is no control transfer, and does not refuse it
/// for a stall, a packet shorter than the packet size that the URB has room
/// for finishes the URB: the write succeeds, the endpoint is free, and the
/// URB is delivered with the packet behind its data, so that its reply
/// reports the length of what was written, however much was asked for.
pub proof fn short_packet_completes(ep: EndpointView, ch: ChannelView, packet: Seq<u8>)
    requires
        ep.current(ch) matches Some(u) && u.control is None && u.data.len() + packet.len()
            <= u.len && u.len <= u32::MAX,
        !ep.refuses(),
        packet.len() < ep.max_packet_size,
    ensures
        ({
            let u = ep.current(ch)->Some_0;
            let outcome = write_packet_spec(ep, ch, packet);
            let done = u.with_data(u.data + packet);
            &&& outcome.result is Ok
            &&& outcome.endpoint.urb is None
            &&& outcome.channel == ep.channel_after_pull(ch).deliver(done)
            &&& u.req_ep.direction == UsbDirection::In ==> completion_reply(done).actual_length
                == u.data.len() + packet.len() && completion_reply(done).data == u.data + packet
            &&& u.data.len() == 0 ==> done.data == packet
        }),
{
    let u = ep.current(ch)->Some_0;
    if u.data.len() == 0 {
        assert(u.data + packet =~= packet);
    }
}

/// URBs for one endpoint are served in the order of their submission: of
/// two pending URBs for an endpoint that are no control transfers, the one
/// behind is not taken while the one in front is pending, and taking the one
/// in front leaves the one behind pending.
pub proof fn fifo_per_endpoint(ch: ChannelView, ep: EndpointAddress, first: int, second: int)
    requires
        0 <= first < second < ch.queue.len(),
        ch.queue[first].ep == ep,
        ch.queue[second].ep == ep,
        ch.queue[first].control is None,
        ch.queue[second].control is None,
    ensures
        next_index(ch.queue, ep, ch.control_in_progress) <= first,
        ch.next_urb(ep) is Some,
        next_index(ch.queue, ep, ch.control_in_progress) == first ==> ch.next_urb(ep) == Some(
            ch.queue[first],
        ) && ch.after_take(ep).queue[second - 1] == ch.queue[second],
{
    lemma_next_index(ch.queue, ep, ch.control_in_progress);
    assert(takeable(ch.queue[first], ep, ch.control_in_progress));
}

/// Finished URBs leave in the order in which they finished: a URB that is
/// delivered towards the wire stands behind all that were delivered before.
pub proof fn completions_in_order(ch: ChannelView, u: UrbView)
    requires
        !ch.internal_sink,
    ensures
        ch.deliver(u).completed == ch.completed.push(u),
        ch.deliver(u).completed.last() == u,
        forall|i: int|
            0 <= i < ch.completed.len() ==> ch.deliver(u).completed[i] == ch.completed[i],
{
}

/// Whether a URB is a control transfer past its SETUP packet.
pub open spec fn past_setup(u: UrbView) -> bool {
    u.control is Some && !u.in_state(ControlState::Setup)
}

/// Whether an endpoint serves a control transfer.
pub open spec fn serves_control(ep: EndpointView) -> bool {
    ep.urb matches Some(u) && u.control is Some
}

/// Number of endpoints that serve a control transfer.
pub open spec fn count_serving(endpoints: Seq<EndpointView>) -> nat
    decreases endpoints.len(),
{
    if endpoints.len() == 0 {
        0
    } else {
        count_serving(endpoints.drop_last()) + (if serves_control(endpoints.last()) {
            1nat
        } else {
            0nat
        })
    }
}

/// Number of pending control transfers that are past their SETUP packet.
pub open spec fn count_past_setup(queue: Seq<UrbView>) -> nat
    decreases queue.len(),
{
    if queue.len() == 0 {
        0
    } else {
        count_past_setup(queue.drop_last()) + (if past_setup(queue.last()) {
            1nat
        } else {
            0nat
        })
    }
}

/// Number of control transfers under way: those that an endpoint serves,
/// and those that wait in the queue for their next stage.
pub open spec fn under_way(core: UsbCoreView, ch: ChannelView) -> nat {
    count_serving(core.endpoints_out) + count_serving(core.endpoints_in) + count_past_setup(
        ch.queue,
    )
}

/// Control transfers take their turns: at most one is under way, and none
/// while the latch is released.
pub open spec fn one_at_a_time(core: UsbCoreView, ch: ChannelView) -> bool {
    &&& under_way(core, ch) <= 1
    &&& !ch.control_in_progress ==> under_way(core, ch) == 0
}

proof fn lemma_count_serving_update(endpoints: Seq<EndpointView>, k: int, ep: EndpointView)
    requires
        0 <= k < endpoints.len(),
    ensures
        count_serving(endpoints.update(k, ep)) + (if serves_control(endpoints[k]) {
            1nat
        } else {
            0nat
        }) == count_serving(endpoints) + (if serves_control(ep) {
            1nat
        } else {
            0nat
        }),
    decreases endpoints.len(),
{
    let after = endpoints.update(k, ep);
    if k == endpoints.len() - 1 {
        assert(after.drop_last() =~= endpoints.drop_last());
    } else {
        assert(after.drop_last() =~= endpoints.drop_last().update(k, ep));
        lemma_count_serving_update(endpoints.drop_last(), k, ep);
    }
}

proof fn lemma_count_remove(queue: Seq<UrbView>, i: int)
    requires
        0 <= i < queue.len(),
    ensures
        count_past_setup(queue.remove(i)) + (if past_setup(queue[i]) {
            1nat
        } else {
            0nat
        }) == count_past_setup(queue),
    decreases queue.len(),
{
    let after = queue.remove(i);
    if i == queue.len() - 1 {
        assert(after =~= queue.drop_last());
    } else {
        assert(after.drop_last() =~= queue.drop_last().remove(i));
        assert(after.last() == queue.last());
        lemma_count_remove(queue.drop_last(), i);
    }
}

proof fn lemma_count_front(queue: Seq<UrbView>, u: UrbView)
    ensures
        count_past_setup(seq![u] + queue) == count_past_setup(queue) + (if past_setup(u) {
            1nat
        } else {
            0nat
        }),
    decreases queue.len(),
{
    let after = seq![u] + queue;
    if queue.len() == 0 {
        assert(after.drop_last() =~= Seq::<UrbView>::empty());
        assert(after.len() == 1);
        assert(after.last() == u);
        assert(count_past_setup(after.drop_last()) == 0);
        assert(count_past_setup(queue) == 0);
    } else {
        assert(after.drop_last() =~= seq![u] + queue.drop_last());
        assert(after.last() == queue.last());
        lemma_count_front(queue.drop_last(), u);
    }
}

proof fn lemma_count_back(queue: Seq<UrbView>, u: UrbView)
    ensures
        count_past_setup(queue.push(u)) == count_past_setup(queue) + (if past_setup(u) {
            1nat
        } else {
            0nat
        }),
{
    assert(queue.push(u).drop_last() =~= queue);
}

/// What taking a URB does to the count of the queue and to the latch.
proof fn lemma_take_count(ch: ChannelView, ep: EndpointAddress)
    ensures
        match ch.next_urb(ep) {
            Some(u) => count_past_setup(ch.after_take(ep).queue) + (if past_setup(u) {
                1nat
            } else {
                0nat
            }) == count_past_setup(ch.queue) && ch.after_take(ep).control_in_progress == (
            ch.control_in_progress || u.control is Some) && !(ch.control_in_progress
                && u.in_state(ControlState::Setup)),
            None => ch.after_take(ep) == ch,
        },
{
    lemma_next_index(ch.queue, ep, ch.control_in_progress);
    let i = next_index(ch.queue, ep, ch.control_in_progress);
    if i < ch.queue.len() {
        lemma_count_remove(ch.queue, i);
    }
}

/// What handing a URB back does to the count of the queue and to the latch.
proof fn lemma_complete_count(ch: ChannelView, u: UrbView)
    ensures
        count_past_setup(ch.complete(u).queue) == count_past_setup(ch.queue) + (if u.in_state(
            ControlState::Data,
        ) || u.in_state(ControlState::Status) {
            1nat
        } else {
            0nat
        }),
        ch.complete(u).control_in_progress == (ch.control_in_progress && !u.in_state(
            ControlState::Complete,
        )),
{
    if u.in_state(ControlState::Data) {
        lemma_count_front(
            ch.queue,
            u.on(EndpointAddress { number: u.ep.number, direction: UsbDirection::In }),
        );
    } else if u.in_state(ControlState::Status) {
        lemma_count_front(
            ch.queue,
            u.on(EndpointAddress { number: u.ep.number, direction: u.status_direction() }),
        );
    }
}

/// A read keeps control transfers to their turns.
pub proof fn read_keeps_turns(core: UsbCoreView, ch: ChannelView, k: int, room: nat)
    requires
        0 <= k < core.endpoints_out.len(),
        one_at_a_time(core, ch),
    ensures
        ({
            let outcome = read_packet_spec(core.endpoints_out[k], ch, room);
            one_at_a_time(
                UsbCoreView {
                    endpoints_out: core.endpoints_out.update(k, outcome.endpoint),
                    ..core
                },
                outcome.channel,
            )
        }),
{
    let ep = core.endpoints_out[k];
    let outcome = read_packet_spec(ep, ch, room);
    let pulled = ep.channel_after_pull(ch);
    lemma_count_serving_update(core.endpoints_out, k, outcome.endpoint);
    lemma_take_count(ch, ep.address);
    if room >= ep.max_packet_size {
        if let Some(u) = ep.current(ch) {
            if ep.refuses() {
                lemma_complete_count(pulled, stalled_urb(u));
            } else if u.in_state(ControlState::Setup) {
                if room >= 8 {
                    if u.len > 0 && u.req_ep.direction == UsbDirection::Out {
                    } else if u.len > 0 {
                        lemma_complete_count(pulled, u.in_phase(ControlState::Data));
                    } else {
                        lemma_complete_count(pulled, u.in_phase(ControlState::Status));
                    }
                }
            } else if u.in_state(ControlState::Status) {
                lemma_complete_count(pulled, u.in_phase(ControlState::Complete));
            } else if u.data.len() <= ep.max_packet_size {
                lemma_complete_count(
                    pulled,
                    u.with_data(Seq::empty()).in_phase(ControlState::Status),
                );
            }
        }
    }
}

/// A write keeps control transfers to their turns.
pub proof fn write_keeps_turns(core: UsbCoreView, ch: ChannelView, k: int, packet: Seq<u8>)
    requires
        0 <= k < core.endpoints_in.len(),
        one_at_a_time(core, ch),
    ensures
        ({
            let outcome = write_packet_spec(core.endpoints_in[k], ch, packet);
            one_at_a_time(
                UsbCoreView {
                    endpoints_in: core.endpoints_in.update(k, outcome.endpoint),
                    ..core
                },
                outcome.channel,
            )
        }),
{
    let ep = core.endpoints_in[k];
    let outcome = write_packet_spec(ep, ch, packet);
    let pulled = ep.channel_after_pull(ch);
    lemma_count_serving_update(core.endpoints_in, k, outcome.endpoint);
    lemma_take_count(ch, ep.address);
    if packet.len() <= ep.max_packet_size {
        if let Some(u) = ep.current(ch) {
            if ep.refuses() {
                lemma_complete_count(pulled, stalled_urb(u));
            } else if u.in_state(ControlState::Setup) {
            } else if packet_overflows(u, packet) {
            } else if packet_completes(u, packet, ep.max_packet_size) {
                lemma_complete_count(pulled, after_last_packet(u, packet));
            }
        }
    }
}

/// A new URB joins the queue without a turn of its own: a control transfer
/// that is submitted waits for its SETUP to be read.
pub proof fn submit_keeps_turns(core: UsbCoreView, ch: ChannelView, u: UrbView)
    requires
        one_at_a_time(core, ch),
        u.is_new(),
    ensures
        one_at_a_time(core, ch.submit(u)),
{
    lemma_count_back(ch.queue, u);
}

/// An unlink takes URBs away and starts none: control transfers keep to
/// their turns.
pub proof fn unlink_keeps_turns(core: UsbCoreView, ch: ChannelView, seqnum: u32)
    requires
        one_at_a_time(core, ch),
    ensures
        one_at_a_time(core, ch.unlink(seqnum)),
{
    lemma_count_without(ch.queue, seqnum);
}

proof fn lemma_count_without(queue: Seq<UrbView>, seqnum: u32)
    ensures
        count_past_setup(without(queue, seqnum)) <= count_past_setup(queue),
    decreases queue.len(),
{
    if queue.len() > 0 {
        lemma_count_without(queue.drop_last(), seqnum);
        if queue.last().seqnum != seqnum {
            lemma_count_back(without(queue.drop_last(), seqnum), queue.last());
        }
    }
}

/// A peripheral without endpoints and an empty channel: no control transfer
/// is under way.
pub proof fn turns_at_start()
    ensures
        one_at_a_time(
            UsbCoreView { endpoints_out: Seq::empty(), endpoints_in: Seq::empty() },
            ChannelView::empty(),
        ),
{
}

/// An endpoint that serves nothing joins the peripheral without a turn.
pub proof fn new_endpoint_keeps_turns(core: UsbCoreView, ch: ChannelView, ep: EndpointView)
    requires
        one_at_a_time(core, ch),
        ep.urb is None,
    ensures
        one_at_a_time(UsbCoreView { endpoints_out: core.endpoints_out.push(ep), ..core }, ch),
        one_at_a_time(UsbCoreView { endpoints_in: core.endpoints_in.push(ep), ..core }, ch),
{
    assert(core.endpoints_out.push(ep).drop_last() =~= core.endpoints_out);
    assert(core.endpoints_in.push(ep).drop_last() =~= core.endpoints_in);
}

/// While a control transfer is under way, a SETUP that is pending stays
/// pending through every read: the second transfer does not start before
/// the first has released the latch.
pub proof fn setup_waits_through_read(ep: EndpointView, ch: ChannelView, room: nat, i: int)
    requires
        ch.control_in_progress,
        0 <= i < ch.queue.len(),
        ch.queue[i].in_state(ControlState::Setup),
    ensures
        read_packet_spec(ep, ch, room).channel.queue.contains(ch.queue[i]),
        read_packet_spec(ep, ch, room).result matches Ok((_, kind)) && kind
            == OutPacketType::Setup ==> ep.urb is Some,
{
    let outcome = read_packet_spec(ep, ch, room);
    let pulled = ep.channel_after_pull(ch);
    lemma_setup_stays(ep, ch, i);
    lemma_take_count(ch, ep.address);
    if outcome.channel != pulled && outcome.channel != ch {
        let j = choose|j: int| 0 <= j < pulled.queue.len() && pulled.queue[j] == ch.queue[i];
        lemma_requeue_keeps(pulled, outcome.channel, j);
    }
}

/// While a control transfer is under way, a SETUP that is pending stays
/// pending through every write.
pub proof fn setup_waits_through_write(ep: EndpointView, ch: ChannelView, packet: Seq<u8>, i: int)
    requires
        ch.control_in_progress,
        0 <= i < ch.queue.len(),
        ch.queue[i].in_state(ControlState::Setup),
    ensures
        write_packet_spec(ep, ch, packet).channel.queue.contains(ch.queue[i]),
{
    let outcome = write_packet_spec(ep, ch, packet);
    let pulled = ep.channel_after_pull(ch);
    lemma_setup_stays(ep, ch, i);
    if outcome.channel != pulled && outcome.channel != ch {
        let j = choose|j: int| 0 <= j < pulled.queue.len() && pulled.queue[j] == ch.queue[i];
        lemma_requeue_keeps(pulled, outcome.channel, j);
    }
}

/// A SETUP that may not be taken is still in the queue after a take.
proof fn lemma_setup_stays(ep: EndpointView, ch: ChannelView, i: int)
    requires
        ch.control_in_progress,
        0 <= i < ch.queue.len(),
        ch.queue[i].in_state(ControlState::Setup),
    ensures
        ep.channel_after_pull(ch).queue.contains(ch.queue[i]),
{
    lemma_next_index(ch.queue, ep.address, ch.control_in_progress);
    let t = next_index(ch.queue, ep.address, ch.control_in_progress);
    let after = ep.channel_after_pull(ch);
    if ep.urb is None && t < ch.queue.len() {
        assert(t != i);
        if i < t {
            assert(after.queue[i] == ch.queue[i]);
        } else {
            assert(after.queue[i - 1] == ch.queue[i]);
        }
    } else {
        assert(after.queue[i] == ch.queue[i]);
    }
}

/// What is in the queue stays in it when a URB is handed back.
proof fn lemma_requeue_keeps(before: ChannelView, after: ChannelView, j: int)
    requires
        0 <= j < before.queue.len(),
        exists|u: UrbView| after == before.complete(u),
    ensures
        after.queue.contains(before.queue[j]),
{
    let u = choose|u: UrbView| after == before.complete(u);
    if u.in_state(ControlState::Data) || u.in_state(ControlState::Status) {
        assert(after.queue[j + 1] == before.queue[j]);
    } else {
        assert(after.queue[j] == before.queue[j]);
    }
}

} // verus!

//! What holds of the wire format as a whole: requests survive the trip over
//! the wire, a request is recognised exactly when its last byte has arrived,
//! and replies have the lengths that the protocol fixes.

use crate::buffer::{buf_bytes, u32_be};
use crate::protocol::{
    all_zero, be_u32, devices_wire, interfaces_wire, padded, parse_request, parse_submit,
    parse_urb_header, urb_header_wire, DeviceInfo, DeviceInterfaceInfo, InterfaceInfo, Parsed,
    ProtocolError, RequestView, Response, SubmitRequestView, UnlinkRequest, OP_CMD_SUBMIT,
    OP_CMD_UNLINK, OP_REQ_DEVLIST, OP_REQ_IMPORT,
};
use crate::text::{all_ascii, ascii_text, lossy_text, trim_end};
use crate::usb::{EndpointAddress, UsbDirection};
use vstd::prelude::*;
use vstd::utf8::{char_is_scalar, encode_utf8, is_ascii_chars, is_ascii_chars_encode_utf8};

verus! {

/// A name that a 32-byte NUL-padded field can carry and give back: ASCII, at
/// most 32 characters, and no NUL at its end.
pub open spec fn is_bus_name(name: Seq<char>) -> bool {
    &&& name.len() <= 32
    &&& is_ascii_chars(name)
    &&& name.len() > 0 ==> name.last() != '\0'
}

impl SubmitRequestView {
    /// The endpoint number is in range, a SETUP packet has eight bytes that
    /// are not all zero, and the payload is what the direction calls for.
    pub open spec fn is_valid(self) -> bool {
        &&& self.ep.is_valid()
        &&& self.setup matches Some(setup) ==> setup.len() == 8 && !all_zero(setup)
        &&& self.ep.direction == UsbDirection::Out ==> self.data.len()
            == self.transfer_buffer_length
        &&& self.ep.direction == UsbDirection::In ==> self.data.len() == 0
    }

    /// The eight bytes of the SETUP field: zeroes where there is no SETUP.
    pub open spec fn setup_wire(self) -> Seq<u8> {
        match self.setup {
            Some(setup) => setup,
            None => Seq::new(8, |i: int| 0u8),
        }
    }

    /// CMD_SUBMIT on the wire.
    pub open spec fn wire(self) -> Seq<u8> {
        u32_be(OP_CMD_SUBMIT) + urb_header_wire(self.seqnum, self.devid, self.ep) + u32_be(
            self.transfer_flags,
        ) + u32_be(self.transfer_buffer_length) + u32_be(self.start_frame) + u32_be(
            self.number_of_packets,
        ) + u32_be(self.interval) + self.setup_wire() + self.data
    }
}

impl RequestView {
    /// The requests that the wire format can carry.
    pub open spec fn is_valid(self) -> bool {
        match self {
            RequestView::DevList => true,
            RequestView::Import(name) => is_bus_name(name),
            RequestView::Submit(req) => req.is_valid(),
            RequestView::Unlink(req) => req.ep.is_valid(),
        }
    }

    /// The request on the wire.
    pub open spec fn wire(self) -> Seq<u8> {
        match self {
            RequestView::DevList => u32_be(OP_REQ_DEVLIST) + u32_be(0),
            RequestView::Import(name) => u32_be(OP_REQ_IMPORT) + u32_be(0) + padded(
                encode_utf8(name),
                32,
            ),
            RequestView::Submit(req) => req.wire(),
            RequestView::Unlink(req) => padded(
                u32_be(OP_CMD_UNLINK) + urb_header_wire(req.seqnum, req.devid, req.ep) + u32_be(
                    req.unlink_seqnum,
                ),
                48,
            ),
        }
    }
}

/// Reading the four bytes of `u32_be(v)` gives `v`.
pub proof fn lemma_word_reads_back(v: u32)
    ensures
        u32_be(v).len() == 4,
        be_u32(u32_be(v), 0) == v,
{
}

/// What follows a byte string does not change the words inside it.
proof fn lemma_words_of_prefix(s: Seq<u8>, t: Seq<u8>)
    ensures
        forall|at: int|
            0 <= at && at + 4 <= s.len() ==> #[trigger] be_u32(s + t, at) == be_u32(s, at),
{
}

/// A word of the second part of a byte string, read through the whole.
proof fn lemma_word_of_suffix(s: Seq<u8>, t: Seq<u8>, at: int)
    requires
        0 <= at,
        at + 4 <= t.len(),
    ensures
        be_u32(s + t, s.len() + at) == be_u32(t, at),
{
}

/// The four words of the header that SUBMIT and UNLINK share.
proof fn lemma_header_words(seqnum: u32, devid: u32, ep: EndpointAddress)
    ensures
        ({
            let h = urb_header_wire(seqnum, devid, ep);
            &&& h.len() == 16
            &&& be_u32(h, 0) == seqnum
            &&& be_u32(h, 4) == devid
            &&& be_u32(h, 8) == (if ep.direction == UsbDirection::Out {
                0u32
            } else {
                1u32
            })
            &&& be_u32(h, 12) == ep.number as u32
        }),
{
    let dir: u32 = if ep.direction == UsbDirection::Out {
        0
    } else {
        1
    };
    let a = u32_be(seqnum);
    let ab = a + u32_be(devid);
    let abc = ab + u32_be(dir);
    lemma_word_reads_back(seqnum);
    lemma_word_reads_back(devid);
    lemma_word_reads_back(dir);
    lemma_word_reads_back(ep.number as u32);
    lemma_words_of_prefix(a, u32_be(devid));
    lemma_words_of_prefix(ab, u32_be(dir));
    lemma_words_of_prefix(abc, u32_be(ep.number as u32));
    lemma_word_of_suffix(a, u32_be(devid), 0);
    lemma_word_of_suffix(ab, u32_be(dir), 0);
    lemma_word_of_suffix(abc, u32_be(ep.number as u32), 0);
}

/// Trimming NULs from a name that is followed by NULs alone gives the name.
proof fn lemma_trim_padding(name: Seq<char>, pad: nat)
    requires
        name.len() > 0 ==> name.last() != '\0',
    ensures
        trim_end(name + Seq::new(pad, |i: int| '\0'), '\0') == name,
    decreases pad,
{
    let text = name + Seq::new(pad, |i: int| '\0');
    if pad == 0 {
        assert(text =~= name);
    } else {
        assert(text.last() == '\0');
        assert(text.drop_last() =~= name + Seq::new((pad - 1) as nat, |i: int| '\0'));
        lemma_trim_padding(name, (pad - 1) as nat);
    }
}

/// A bus name read back from its padded field.
proof fn lemma_name_field(name: Seq<char>)
    requires
        is_bus_name(name),
    ensures
        padded(encode_utf8(name), 32).len() == 32,
        trim_end(lossy_text(padded(encode_utf8(name), 32)), '\0') == name,
{
    is_ascii_chars_encode_utf8(name);
    let field = padded(encode_utf8(name), 32);
    let pad = (32 - name.len()) as nat;
    let text = name + Seq::new(pad, |i: int| '\0');
    assert(field.len() == 32);
    assert(text.len() == 32);
    assert forall|i: int| 0 <= i < 32 implies (#[trigger] field[i]) < 0x80 && (field[i] as char)
        == text[i] by {
        if i < name.len() {
            let c = name[i];
            char_is_scalar(c);
            assert('\0' <= c <= '\u{7f}');
            assert(field[i] == c as u8);
            assert(text[i] == c);
        } else {
            assert(field[i] == 0);
            assert(text[i] == '\0');
        }
    }
    assert(all_ascii(field));
    assert(ascii_text(field) =~= text);
    lemma_trim_padding(name, pad);
}

proof fn lemma_devlist_round_trip()
    ensures
        parse_request(RequestView::DevList.wire()) == (Parsed::Frame {
            request: RequestView::DevList,
            consumed: RequestView::DevList.wire().len(),
        }),
{
    lemma_word_reads_back(OP_REQ_DEVLIST);
    lemma_word_reads_back(0);
    lemma_words_of_prefix(u32_be(OP_REQ_DEVLIST), u32_be(0));
}

proof fn lemma_import_round_trip(name: Seq<char>)
    requires
        is_bus_name(name),
    ensures
        parse_request(RequestView::Import(name).wire()) == (Parsed::Frame {
            request: RequestView::Import(name),
            consumed: RequestView::Import(name).wire().len(),
        }),
{
    let w = RequestView::Import(name).wire();
    let field = padded(encode_utf8(name), 32);
    let p0 = u32_be(OP_REQ_IMPORT);
    let p1 = p0 + u32_be(0);
    lemma_name_field(name);
    lemma_word_reads_back(OP_REQ_IMPORT);
    lemma_word_reads_back(0);
    lemma_words_of_prefix(p0, u32_be(0));
    lemma_words_of_prefix(p1, field);
    assert(w == p1 + field);
    assert(w.len() == 40);
    assert(w.subrange(8, 40) =~= field);
}

proof fn lemma_unlink_round_trip(req: UnlinkRequest)
    requires
        req.ep.is_valid(),
    ensures
        parse_request(RequestView::Unlink(req).wire()) == (Parsed::Frame {
            request: RequestView::Unlink(req),
            consumed: RequestView::Unlink(req).wire().len(),
        }),
{
    let w = RequestView::Unlink(req).wire();
    let h = urb_header_wire(req.seqnum, req.devid, req.ep);
    let p0 = u32_be(OP_CMD_UNLINK);
    let p1 = p0 + h;
    let p2 = p1 + u32_be(req.unlink_seqnum);
    let zeros = Seq::new(24, |i: int| 0u8);
    lemma_word_reads_back(OP_CMD_UNLINK);
    lemma_word_reads_back(req.unlink_seqnum);
    lemma_header_words(req.seqnum, req.devid, req.ep);
    assert(p2.len() == 24);
    assert(w == p2 + zeros);
    assert(w.len() == 48);
    lemma_words_of_prefix(p2, zeros);
    lemma_words_of_prefix(p1, u32_be(req.unlink_seqnum));
    lemma_words_of_prefix(p0, h);
    lemma_word_of_suffix(p0, h, 0);
    lemma_word_of_suffix(p0, h, 4);
    lemma_word_of_suffix(p0, h, 8);
    lemma_word_of_suffix(p0, h, 12);
    lemma_word_of_suffix(p1, u32_be(req.unlink_seqnum), 0);
    assert(be_u32(w, 0) == OP_CMD_UNLINK);
    assert(be_u32(w, 4) == req.seqnum);
    assert(be_u32(w, 8) == req.devid);
    assert(be_u32(w, 16) == req.ep.number as u32);
    assert(be_u32(w, 20) == req.unlink_seqnum);
}

/// The words of a SUBMIT request read back from its wire form.
proof fn lemma_submit_words(req: SubmitRequestView)
    requires
        req.is_valid(),
    ensures
        ({
            let w = req.wire();
            &&& w.len() == 48 + req.data.len()
            &&& be_u32(w, 0) == OP_CMD_SUBMIT
            &&& be_u32(w, 4) == req.seqnum
            &&& be_u32(w, 8) == req.devid
            &&& be_u32(w, 12) == (if req.ep.direction == UsbDirection::Out {
                0u32
            } else {
                1u32
            })
            &&& be_u32(w, 16) == req.ep.number as u32
            &&& be_u32(w, 20) == req.transfer_flags
            &&& be_u32(w, 24) == req.transfer_buffer_length
            &&& be_u32(w, 28) == req.start_frame
            &&& be_u32(w, 32) == req.number_of_packets
            &&& be_u32(w, 36) == req.interval
            &&& w.subrange(40, 48) == req.setup_wire()
            &&& w.subrange(48, 48 + req.data.len() as int) == req.data
        }),
{
    let w = req.wire();
    let h = urb_header_wire(req.seqnum, req.devid, req.ep);
    let p0 = u32_be(OP_CMD_SUBMIT);
    let p1 = p0 + h;
    let p2 = p1 + u32_be(req.transfer_flags);
    let p3 = p2 + u32_be(req.transfer_buffer_length);
    let p4 = p3 + u32_be(req.start_frame);
    let p5 = p4 + u32_be(req.number_of_packets);
    let p6 = p5 + u32_be(req.interval);
    let p7 = p6 + req.setup_wire();
    lemma_word_reads_back(OP_CMD_SUBMIT);
    lemma_word_reads_back(req.transfer_flags);
    lemma_word_reads_back(req.transfer_buffer_length);
    lemma_word_reads_back(req.start_frame);
    lemma_word_reads_back(req.number_of_packets);
    lemma_word_reads_back(req.interval);
    lemma_header_words(req.seqnum, req.devid, req.ep);
    assert(req.setup_wire().len() == 8);
    assert(p7.len() == 48);
    assert(w == p7 + req.data);
    lemma_words_of_prefix(p7, req.data);
    lemma_words_of_prefix(p6, req.setup_wire());
    lemma_words_of_prefix(p5, u32_be(req.interval));
    lemma_words_of_prefix(p4, u32_be(req.number_of_packets));
    lemma_words_of_prefix(p3, u32_be(req.start_frame));
    lemma_words_of_prefix(p2, u32_be(req.transfer_buffer_length));
    lemma_words_of_prefix(p1, u32_be(req.transfer_flags));
    lemma_words_of_prefix(p0, h);
    lemma_word_of_suffix(p0, h, 0);
    lemma_word_of_suffix(p0, h, 4);
    lemma_word_of_suffix(p0, h, 8);
    lemma_word_of_suffix(p0, h, 12);
    lemma_word_of_suffix(p1, u32_be(req.transfer_flags), 0);
    lemma_word_of_suffix(p2, u32_be(req.transfer_buffer_length), 0);
    lemma_word_of_suffix(p3, u32_be(req.start_frame), 0);
    lemma_word_of_suffix(p4, u32_be(req.number_of_packets), 0);
    lemma_word_of_suffix(p5, u32_be(req.interval), 0);
    assert(w.subrange(40, 48) =~= req.setup_wire());
    assert(w.subrange(48, 48 + req.data.len() as int) =~= req.data);
}

/// A SUBMIT request read back from its wire form.
proof fn lemma_submit_round_trip(req: SubmitRequestView)
    requires
        req.is_valid(),
    ensures
        parse_request(req.wire()) == (Parsed::Frame {
            request: RequestView::Submit(req),
            consumed: req.wire().len(),
        }),
{
    lemma_submit_words(req);
    let w = req.wire();
    let field = w.subrange(40, 48);
    match req.setup {
        Some(setup) => {
            assert(!all_zero(field));
        },
        None => {
            assert(all_zero(field));
        },
    }
    let parsed = parse_submit(w);
    assert(parse_urb_header(w) == Ok::<(u32, u32, EndpointAddress), ProtocolError>(
        (req.seqnum, req.devid, req.ep),
    ));
}

/// A request that is written to the wire and read again is the same request,
/// and reading it takes exactly the bytes that were written.
pub proof fn request_round_trip(request: RequestView)
    requires
        request.is_valid(),
    ensures
        parse_request(request.wire()) == (Parsed::Frame {
            request,
            consumed: request.wire().len(),
        }),
{
    match request {
        RequestView::DevList => {
            lemma_devlist_round_trip();
        },
        RequestView::Import(name) => {
            lemma_import_round_trip(name);
        },
        RequestView::Submit(req) => {
            lemma_submit_round_trip(req);
        },
        RequestView::Unlink(req) => {
            lemma_unlink_round_trip(req);
        },
    }
}

/// A request takes no more bytes than there are.
pub proof fn lemma_consumed_in_bounds(s: Seq<u8>)
    ensures
        parse_request(s) matches Parsed::Frame { consumed, .. } ==> 8 <= consumed <= s.len(),
{
}

/// Once the beginning of a byte string is a whole request or a violation,
/// more bytes change nothing: the string as a whole is the same.
pub proof fn lemma_prefix_decides(s: Seq<u8>, k: int)
    requires
        0 <= k <= s.len(),
        !(parse_request(s.take(k)) is Incomplete),
    ensures
        parse_request(s) == parse_request(s.take(k)),
{
    let p = s.take(k);
    assert(p.len() == k);
    assert(k >= 4);
    assert(be_u32(p, 0) == be_u32(s, 0));
    let op = be_u32(s, 0);
    if op == OP_REQ_IMPORT {
        assert(p.subrange(8, 40) =~= s.subrange(8, 40));
    } else if op == OP_CMD_SUBMIT {
        assert(k >= 48);
        assert(parse_urb_header(p) == parse_urb_header(s));
        assert(be_u32(p, 24) == be_u32(s, 24));
        if let Ok((seqnum, devid, ep)) = parse_urb_header(s) {
            let payload: int = if ep.direction == UsbDirection::Out {
                be_u32(s, 24) as int
            } else {
                0
            };
            assert(k >= 48 + payload);
            assert(p.subrange(40, 48) =~= s.subrange(40, 48));
            assert(p.subrange(48, 48 + payload) =~= s.subrange(48, 48 + payload));
        }
    } else if op == OP_CMD_UNLINK {
        assert(k >= 48);
        assert(parse_urb_header(p) == parse_urb_header(s));
    }
}

/// The bytes of a request alone are that request.
pub proof fn lemma_frame_alone(s: Seq<u8>)
    requires
        parse_request(s) is Frame,
    ensures
        parse_request(s.take(parse_request(s)->consumed as int)) == parse_request(s),
{
    lemma_consumed_in_bounds(s);
    let n = parse_request(s)->consumed as int;
    let p = s.take(n);
    assert(p.len() == n);
    assert(be_u32(p, 0) == be_u32(s, 0));
    let op = be_u32(s, 0);
    if op == OP_REQ_IMPORT {
        assert(p.subrange(8, 40) =~= s.subrange(8, 40));
    } else if op == OP_CMD_SUBMIT {
        assert(parse_urb_header(p) == parse_urb_header(s));
        assert(be_u32(p, 24) == be_u32(s, 24));
        if let Ok((seqnum, devid, ep)) = parse_urb_header(s) {
            let payload: int = if ep.direction == UsbDirection::Out {
                be_u32(s, 24) as int
            } else {
                0
            };
            assert(n == 48 + payload);
            assert(p.subrange(40, 48) =~= s.subrange(40, 48));
            assert(p.subrange(48, 48 + payload) =~= s.subrange(48, 48 + payload));
        }
    } else if op == OP_CMD_UNLINK {
        assert(parse_urb_header(p) == parse_urb_header(s));
    }
}

/// Where a byte string starts with a whole request, every cut before the
/// request's last byte leaves the beginning of a request and nothing else,
/// and every cut at or after it leaves the same request.
pub proof fn frame_boundary(s: Seq<u8>, k: int)
    requires
        parse_request(s) is Frame,
        0 <= k <= s.len(),
    ensures
        k < parse_request(s)->consumed ==> parse_request(s.take(k)) == Parsed::Incomplete,
        k >= parse_request(s)->consumed ==> parse_request(s.take(k)) == parse_request(s),
{
    let n = parse_request(s)->consumed as int;
    lemma_consumed_in_bounds(s);
    if k < n {
        if !(parse_request(s.take(k)) is Incomplete) {
            lemma_prefix_decides(s, k);
            lemma_consumed_in_bounds(s.take(k));
        }
    } else {
        lemma_frame_alone(s);
        assert(s.take(k).take(n) =~= s.take(n));
        lemma_prefix_decides(s.take(k), n);
    }
}

/// A request is read the same whatever follows it on the stream, so the two
/// halves of a request that was cut anywhere give the request once joined.
pub proof fn frame_ignores_rest(frame: Seq<u8>, rest: Seq<u8>)
    requires
        parse_request(frame) is Frame,
    ensures
        parse_request(frame + rest) == parse_request(frame),
{
    assert((frame + rest).take(frame.len() as int) =~= frame);
    lemma_prefix_decides(frame + rest, frame.len() as int);
}

/// What is read off the wire as a SUBMIT or an UNLINK is a valid request:
/// its endpoint is in range, its SETUP packet, if it has one, is not all
/// zero, and its payload is what its direction calls for.
pub proof fn parsed_transfer_is_valid(s: Seq<u8>)
    ensures
        parse_request(s) matches Parsed::Frame { request: RequestView::Submit(req), .. }
            ==> req.is_valid(),
        parse_request(s) matches Parsed::Frame { request: RequestView::Unlink(req), .. }
            ==> req.ep.is_valid(),
{
}

/// The length of a run of interface records: four bytes each.
pub proof fn lemma_interfaces_length(interfaces: Seq<InterfaceInfo>)
    ensures
        interfaces_wire(interfaces).len() == 4 * interfaces.len(),
    decreases interfaces.len(),
{
    if interfaces.len() > 0 {
        lemma_interfaces_length(interfaces.drop_last());
    }
}

/// The length of a device block.
pub proof fn lemma_device_length(device: DeviceInfo)
    requires
        device.is_valid(),
    ensures
        device.wire().len() == 312,
{
}

/// The bytes that the entries of a device list take: a device block and four
/// bytes for each interface.
pub open spec fn devices_length(devices: Seq<DeviceInterfaceInfo>) -> nat
    decreases devices.len(),
{
    if devices.len() == 0 {
        0
    } else {
        devices_length(devices.drop_last()) + 312 + 4 * devices.last().interfaces@.len()
    }
}

proof fn lemma_devices_length(devices: Seq<DeviceInterfaceInfo>)
    requires
        forall|i: int| 0 <= i < devices.len() ==> (#[trigger] devices[i]).is_valid(),
    ensures
        devices_wire(devices).len() == devices_length(devices),
    decreases devices.len(),
{
    if devices.len() > 0 {
        let head = devices.drop_last();
        assert forall|i: int| 0 <= i < head.len() implies (#[trigger] head[i]).is_valid() by {
            assert(head[i] == devices[i]);
        }
        lemma_devices_length(head);
        assert(devices.last() == devices[devices.len() - 1]);
        lemma_device_length(devices.last().device);
        lemma_interfaces_length(devices.last().interfaces@);
    }
}

/// The length of every reply: 48 bytes and the payload for RET_SUBMIT, 48
/// bytes for RET_UNLINK, 8 bytes and the device block for an import reply, 12
/// bytes and the entries for a device list.
pub proof fn response_length(msg: Response)
    requires
        msg.is_valid(),
    ensures
        match msg {
            Response::DevList(devices) => msg.wire().len() == 12 + devices_length(devices@),
            Response::Import(res) => msg.wire().len() == 8 + (if res.device is Some {
                312nat
            } else {
                0nat
            }),
            Response::Submit(res) => msg.wire().len() == 48 + buf_bytes(res.data).len(),
            Response::Unlink(res) => msg.wire().len() == 48,
        },
{
    match msg {
        Response::DevList(devices) => {
            lemma_devices_length(devices@);
        },
        Response::Import(res) => {
            if let Some(device) = res.device {
                lemma_device_length(device);
            }
        },
        Response::Submit(res) => {},
        Response::Unlink(res) => {},
    }
}

} // verus!

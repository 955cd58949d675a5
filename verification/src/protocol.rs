//! The USB/IP wire format: requests read from the stream, replies written to it.
//!
//! Every integer on the wire is big-endian. A request is recognised by its
//! first four bytes; `parse_request` says, for any byte string, whether it
//! starts with a whole request, with the beginning of one, or with neither.

use crate::buffer::{
    buf_advance, buf_as_slice, buf_bytes, buf_extend_from_slice, buf_new, buf_put_u16, buf_put_u32,
    buf_put_u64, buf_put_u8, buf_split_to, u16_be, u32_be, u64_be,
};
use crate::text::{lossy_text, str_trim_end_matches, string_from_utf8_lossy, trim_end};
use crate::usb::{EndpointAddress, UsbDirection};
use bytes::BytesMut;
use vstd::prelude::*;
use vstd::slice::slice_subrange;
use vstd::utf8::encode_utf8;

verus! {

pub const OP_REQ_DEVLIST: u32 = 0x0111_8005;

pub const OP_REP_DEVLIST: u32 = 0x0111_0005;

pub const OP_REQ_IMPORT: u32 = 0x0111_8003;

pub const OP_REP_IMPORT: u32 = 0x0111_0003;

pub const OP_CMD_SUBMIT: u32 = 0x0000_0001;

pub const OP_RET_SUBMIT: u32 = 0x0000_0003;

pub const OP_CMD_UNLINK: u32 = 0x0000_0002;

pub const OP_RET_UNLINK: u32 = 0x0000_0004;

/// Length of the path field of a device block.
pub const PATH_SIZE: usize = 256;

/// Length of a bus id field.
pub const BUSID_SIZE: usize = 32;

/// Length of a device block: path, bus id, three words, three half-words, six bytes.
pub const DEVICE_INFO_SIZE: usize = 312;

/// Length of an interface record.
pub const INTERFACE_INFO_SIZE: usize = 4;

/// Length of the header that SUBMIT and UNLINK share, after the opcode.
pub const URB_HEADER_SIZE: usize = 16;

/// Length of a SUBMIT or UNLINK message without payload.
pub const PDU_LENGTH: usize = 48;

/// A message from the remote host.
#[derive(Debug, PartialEq, Eq)]
pub enum Request {
    DevList,
    Import(String),
    Submit(SubmitRequest),
    Unlink(UnlinkRequest),
}

/// A message to the remote host.
#[derive(Debug, PartialEq, Eq)]
pub enum Response {
    DevList(Vec<DeviceInterfaceInfo>),
    Import(ImportResponse),
    Submit(SubmitResponse),
    Unlink(UnlinkResponse),
}

/// A device with its interfaces, as the device list reports it.
#[derive(Debug, PartialEq, Eq)]
pub struct DeviceInterfaceInfo {
    pub device: DeviceInfo,
    pub interfaces: Vec<InterfaceInfo>,
}

#[derive(Debug, PartialEq, Eq)]
pub struct DeviceInfo {
    pub path: String,
    pub busid: String,
    pub busnum: u32,
    pub devnum: u32,
    pub speed: u32,
    pub id_vendor: u16,
    pub id_product: u16,
    pub bcd_device: u16,
    pub device_class: u8,
    pub device_subclass: u8,
    pub device_protocol: u8,
    pub configuration_value: u8,
    pub num_configuration: u8,
    pub num_interfaces: u8,
}

#[derive(Clone, Copy, Debug, PartialEq, Eq, Structural)]
pub struct InterfaceInfo {
    pub interface_class: u8,
    pub interface_subclass: u8,
    pub interface_protocol: u8,
}

#[derive(Debug, PartialEq, Eq)]
pub struct ImportResponse {
    pub status: u32,
    pub device: Option<DeviceInfo>,
}

#[derive(Debug, PartialEq, Eq)]
pub struct SubmitRequest {
    pub seqnum: u32,
    pub devid: u32,
    pub ep: EndpointAddress,
    pub transfer_flags: u32,
    pub transfer_buffer_length: u32,
    pub start_frame: u32,
    pub number_of_packets: u32,
    pub interval: u32,
    pub setup: Option<[u8; 8]>,
    pub data: BytesMut,
}

#[derive(Debug, PartialEq, Eq)]
pub struct SubmitResponse {
    pub seqnum: u32,
    pub devid: u32,
    pub ep: EndpointAddress,
    pub status: u32,
    pub actual_length: u32,
    pub actual_start_frame: u32,
    pub number_of_packets: u32,
    pub error_count: u32,
    pub setup: Option<[u8; 8]>,
    pub data: BytesMut,
}

#[derive(Clone, Copy, Debug, PartialEq, Eq, Structural)]
pub struct UnlinkRequest {
    pub seqnum: u32,
    pub devid: u32,
    pub ep: EndpointAddress,
    pub unlink_seqnum: u32,
}

#[derive(Clone, Copy, Debug, PartialEq, Eq, Structural)]
pub struct UnlinkResponse {
    pub seqnum: u32,
    pub devid: u32,
    pub ep: EndpointAddress,
    pub status: u32,
    pub unlink_seqnum: u32,
}

/// Why a byte string is no request.
#[derive(Clone, Copy, Debug, PartialEq, Eq, Structural)]
pub enum ProtocolError {
    /// The first four bytes are no known request opcode.
    UnknownOpcode,
    /// The direction field is neither 0 nor 1.
    InvalidDirection,
    /// The endpoint number is above 15.
    InvalidEndpoint,
}

/// A SUBMIT request as a mathematical value.
pub struct SubmitRequestView {
    pub seqnum: u32,
    pub devid: u32,
    pub ep: EndpointAddress,
    pub transfer_flags: u32,
    pub transfer_buffer_length: u32,
    pub start_frame: u32,
    pub number_of_packets: u32,
    pub interval: u32,
    pub setup: Option<Seq<u8>>,
    pub data: Seq<u8>,
}

/// A request as a mathematical value.
pub enum RequestView {
    DevList,
    Import(Seq<char>),
    Submit(SubmitRequestView),
    Unlink(UnlinkRequest),
}

impl View for SubmitRequest {
    type V = SubmitRequestView;

    open spec fn view(&self) -> SubmitRequestView {
        SubmitRequestView {
            seqnum: self.seqnum,
            devid: self.devid,
            ep: self.ep,
            transfer_flags: self.transfer_flags,
            transfer_buffer_length: self.transfer_buffer_length,
            start_frame: self.start_frame,
            number_of_packets: self.number_of_packets,
            interval: self.interval,
            setup: match self.setup {
                Some(a) => Some(a@),
                None => None,
            },
            data: buf_bytes(self.data),
        }
    }
}

impl View for Request {
    type V = RequestView;

    open spec fn view(&self) -> RequestView {
        match self {
            Request::DevList => RequestView::DevList,
            Request::Import(name) => RequestView::Import(name@),
            Request::Submit(req) => RequestView::Submit(req@),
            Request::Unlink(req) => RequestView::Unlink(*req),
        }
    }
}

/// A device block as a mathematical value.
pub struct DeviceInfoView {
    pub path: Seq<char>,
    pub busid: Seq<char>,
    pub busnum: u32,
    pub devnum: u32,
    pub speed: u32,
    pub id_vendor: u16,
    pub id_product: u16,
    pub bcd_device: u16,
    pub device_class: u8,
    pub device_subclass: u8,
    pub device_protocol: u8,
    pub configuration_value: u8,
    pub num_configuration: u8,
    pub num_interfaces: u8,
}

impl View for DeviceInfo {
    type V = DeviceInfoView;

    open spec fn view(&self) -> DeviceInfoView {
        DeviceInfoView {
            path: self.path@,
            busid: self.busid@,
            busnum: self.busnum,
            devnum: self.devnum,
            speed: self.speed,
            id_vendor: self.id_vendor,
            id_product: self.id_product,
            bcd_device: self.bcd_device,
            device_class: self.device_class,
            device_subclass: self.device_subclass,
            device_protocol: self.device_protocol,
            configuration_value: self.configuration_value,
            num_configuration: self.num_configuration,
            num_interfaces: self.num_interfaces,
        }
    }
}

/// A device with its interfaces as a mathematical value.
pub struct DeviceInterfaceInfoView {
    pub device: DeviceInfoView,
    pub interfaces: Seq<InterfaceInfo>,
}

impl View for DeviceInterfaceInfo {
    type V = DeviceInterfaceInfoView;

    open spec fn view(&self) -> DeviceInterfaceInfoView {
        DeviceInterfaceInfoView { device: self.device@, interfaces: self.interfaces@ }
    }
}

/// The views of a run of devices.
pub open spec fn device_views(devices: Seq<DeviceInterfaceInfo>) -> Seq<DeviceInterfaceInfoView> {
    Seq::new(devices.len(), |i: int| devices[i]@)
}

/// A RET_SUBMIT as a mathematical value.
pub struct SubmitResponseView {
    pub seqnum: u32,
    pub devid: u32,
    pub ep: EndpointAddress,
    pub status: u32,
    pub actual_length: u32,
    pub actual_start_frame: u32,
    pub number_of_packets: u32,
    pub error_count: u32,
    pub setup: Option<Seq<u8>>,
    pub data: Seq<u8>,
}

impl View for SubmitResponse {
    type V = SubmitResponseView;

    open spec fn view(&self) -> SubmitResponseView {
        SubmitResponseView {
            seqnum: self.seqnum,
            devid: self.devid,
            ep: self.ep,
            status: self.status,
            actual_length: self.actual_length,
            actual_start_frame: self.actual_start_frame,
            number_of_packets: self.number_of_packets,
            error_count: self.error_count,
            setup: match self.setup {
                Some(a) => Some(a@),
                None => None,
            },
            data: buf_bytes(self.data),
        }
    }
}

/// A reply as a mathematical value.
pub enum ResponseView {
    DevList(Seq<DeviceInterfaceInfoView>),
    Import { status: u32, device: Option<DeviceInfoView> },
    Submit(SubmitResponseView),
    Unlink(UnlinkResponse),
}

impl View for Response {
    type V = ResponseView;

    open spec fn view(&self) -> ResponseView {
        match self {
            Response::DevList(devices) => ResponseView::DevList(device_views(devices@)),
            Response::Import(res) => ResponseView::Import {
                status: res.status,
                device: match res.device {
                    Some(device) => Some(device@),
                    None => None,
                },
            },
            Response::Submit(res) => ResponseView::Submit(res@),
            Response::Unlink(res) => ResponseView::Unlink(*res),
        }
    }
}

impl DeviceInfo {
    /// A copy of the device block.
    pub fn duplicate(&self) -> (copy: DeviceInfo)
        ensures
            copy@ == self@,
    {
        DeviceInfo {
            path: self.path.clone(),
            busid: self.busid.clone(),
            busnum: self.busnum,
            devnum: self.devnum,
            speed: self.speed,
            id_vendor: self.id_vendor,
            id_product: self.id_product,
            bcd_device: self.bcd_device,
            device_class: self.device_class,
            device_subclass: self.device_subclass,
            device_protocol: self.device_protocol,
            configuration_value: self.configuration_value,
            num_configuration: self.num_configuration,
            num_interfaces: self.num_interfaces,
        }
    }
}

impl DeviceInterfaceInfo {
    /// A copy of the device and its interfaces.
    pub fn duplicate(&self) -> (copy: DeviceInterfaceInfo)
        ensures
            copy@ == self@,
    {
        let mut interfaces: Vec<InterfaceInfo> = Vec::new();
        let mut i: usize = 0;
        while i < self.interfaces.len()
            invariant
                i <= self.interfaces@.len(),
                interfaces@ == self.interfaces@.take(i as int),
            decreases self.interfaces@.len() - i,
        {
            interfaces.push(self.interfaces[i]);
            i = i + 1;
            assert(interfaces@ =~= self.interfaces@.take(i as int));
        }
        assert(self.interfaces@.take(i as int) =~= self.interfaces@);
        DeviceInterfaceInfo { device: self.device.duplicate(), interfaces }
    }
}

/// The big-endian word that starts at offset `at` of `s`.
pub open spec fn be_u32(s: Seq<u8>, at: int) -> u32 {
    (s[at] as int * 0x100_0000 + s[at + 1] as int * 0x1_0000 + s[at + 2] as int * 0x100 + s[at
        + 3] as int) as u32
}

/// Whether all bytes of `s` are zero.
pub open spec fn all_zero(s: Seq<u8>) -> bool {
    forall|i: int| 0 <= i < s.len() ==> s[i] == 0
}

/// What a byte string is at its start.
pub enum Parsed {
    /// The beginning of a request; more bytes are needed.
    Incomplete,
    /// No request starts like this.
    Invalid(ProtocolError),
    /// A whole request, held in the first `consumed` bytes.
    Frame { request: RequestView, consumed: nat },
}

/// The header shared by SUBMIT and UNLINK: sequence number, device, endpoint.
pub open spec fn parse_urb_header(s: Seq<u8>) -> Result<
    (u32, u32, EndpointAddress),
    ProtocolError,
> {
    let direction = be_u32(s, 12);
    let ep = be_u32(s, 16);
    if direction > 1 {
        Err(ProtocolError::InvalidDirection)
    } else if ep > 15 {
        Err(ProtocolError::InvalidEndpoint)
    } else {
        Ok(
            (
                be_u32(s, 4),
                be_u32(s, 8),
                EndpointAddress {
                    number: ep as u8,
                    direction: if direction == 0 {
                        UsbDirection::Out
                    } else {
                        UsbDirection::In
                    },
                },
            ),
        )
    }
}

/// A byte string that starts with the SUBMIT opcode and holds at least four bytes.
pub open spec fn parse_submit(s: Seq<u8>) -> Parsed {
    if s.len() < 48 {
        Parsed::Incomplete
    } else {
        match parse_urb_header(s) {
            Err(e) => Parsed::Invalid(e),
            Ok((seqnum, devid, ep)) => {
                let length = be_u32(s, 24);
                let payload: int = if ep.direction == UsbDirection::Out {
                    length as int
                } else {
                    0
                };
                if s.len() < 48 + payload {
                    Parsed::Incomplete
                } else {
                    Parsed::Frame {
                        request: RequestView::Submit(
                            SubmitRequestView {
                                seqnum,
                                devid,
                                ep,
                                transfer_flags: be_u32(s, 20),
                                transfer_buffer_length: length,
                                start_frame: be_u32(s, 28),
                                number_of_packets: be_u32(s, 32),
                                interval: be_u32(s, 36),
                                setup: if all_zero(s.subrange(40, 48)) {
                                    None
                                } else {
                                    Some(s.subrange(40, 48))
                                },
                                data: s.subrange(48, 48 + payload),
                            },
                        ),
                        consumed: (48 + payload) as nat,
                    }
                }
            },
        }
    }
}

/// A byte string that starts with the UNLINK opcode and holds at least four bytes.
pub open spec fn parse_unlink(s: Seq<u8>) -> Parsed {
    if s.len() < 48 {
        Parsed::Incomplete
    } else {
        match parse_urb_header(s) {
            Err(e) => Parsed::Invalid(e),
            Ok((seqnum, devid, ep)) => Parsed::Frame {
                request: RequestView::Unlink(
                    UnlinkRequest { seqnum, devid, ep, unlink_seqnum: be_u32(s, 20) },
                ),
                consumed: 48,
            },
        }
    }
}

/// What the byte string `s` is at its start: a whole request with its length,
/// the beginning of one, or a protocol violation.
pub open spec fn parse_request(s: Seq<u8>) -> Parsed {
    if s.len() < 4 {
        Parsed::Incomplete
    } else {
        let op = be_u32(s, 0);
        if op == OP_REQ_DEVLIST {
            if s.len() < 8 {
                Parsed::Incomplete
            } else {
                Parsed::Frame { request: RequestView::DevList, consumed: 8 }
            }
        } else if op == OP_REQ_IMPORT {
            if s.len() < 40 {
                Parsed::Incomplete
            } else {
                Parsed::Frame {
                    request: RequestView::Import(trim_end(lossy_text(s.subrange(8, 40)), '\0')),
                    consumed: 40,
                }
            }
        } else if op == OP_CMD_SUBMIT {
            parse_submit(s)
        } else if op == OP_CMD_UNLINK {
            parse_unlink(s)
        } else {
            Parsed::Invalid(ProtocolError::UnknownOpcode)
        }
    }
}

/// `bytes` followed by as many zero bytes as it takes to fill `width`.
pub open spec fn padded(bytes: Seq<u8>, width: nat) -> Seq<u8> {
    if bytes.len() <= width {
        bytes + Seq::new((width - bytes.len()) as nat, |i: int| 0u8)
    } else {
        bytes
    }
}

impl DeviceInfoView {
    /// The path and the bus id fit their fields.
    pub open spec fn is_valid(self) -> bool {
        &&& encode_utf8(self.path).len() <= 256
        &&& encode_utf8(self.busid).len() <= 32
    }
}

impl DeviceInterfaceInfoView {
    pub open spec fn is_valid(self) -> bool {
        self.device.is_valid()
    }
}

impl DeviceInfo {
    /// The path and the bus id fit their fields.
    pub open spec fn is_valid(&self) -> bool {
        self@.is_valid()
    }

    /// The device block on the wire: 312 bytes.
    pub open spec fn wire(&self) -> Seq<u8> {
        padded(encode_utf8(self.path@), 256) + padded(encode_utf8(self.busid@), 32) + u32_be(
            self.busnum,
        ) + u32_be(self.devnum) + u32_be(self.speed) + u16_be(self.id_vendor) + u16_be(
            self.id_product,
        ) + u16_be(self.bcd_device) + seq![
            self.device_class,
            self.device_subclass,
            self.device_protocol,
            self.configuration_value,
            self.num_configuration,
            self.num_interfaces,
        ]
    }
}

impl InterfaceInfo {
    /// The interface record on the wire: three bytes and one of padding.
    pub open spec fn wire(&self) -> Seq<u8> {
        seq![self.interface_class, self.interface_subclass, self.interface_protocol, 0u8]
    }
}

/// The records of a run of interfaces, one after the other.
pub open spec fn interfaces_wire(interfaces: Seq<InterfaceInfo>) -> Seq<u8>
    decreases interfaces.len(),
{
    if interfaces.len() == 0 {
        Seq::empty()
    } else {
        interfaces_wire(interfaces.drop_last()) + interfaces.last().wire()
    }
}

impl DeviceInterfaceInfo {
    pub open spec fn is_valid(&self) -> bool {
        self@.is_valid()
    }

    /// The device block followed by the interface records.
    pub open spec fn wire(&self) -> Seq<u8> {
        self.device.wire() + interfaces_wire(self.interfaces@)
    }
}

/// The entries of a device list, one after the other.
pub open spec fn devices_wire(devices: Seq<DeviceInterfaceInfo>) -> Seq<u8>
    decreases devices.len(),
{
    if devices.len() == 0 {
        Seq::empty()
    } else {
        devices_wire(devices.drop_last()) + devices.last().wire()
    }
}

/// The header shared by RET_SUBMIT and RET_UNLINK, after the opcode.
pub open spec fn urb_header_wire(seqnum: u32, devid: u32, ep: EndpointAddress) -> Seq<u8> {
    u32_be(seqnum) + u32_be(devid) + u32_be(
        if ep.direction == UsbDirection::Out {
            0u32
        } else {
            1u32
        },
    ) + u32_be(ep.number as u32)
}

impl SubmitResponse {
    /// The payload is as long as `actual_length` says, and only a transfer
    /// towards the host carries one.
    pub open spec fn is_valid(&self) -> bool {
        &&& buf_bytes(self.data).len() <= u32::MAX
        &&& self.ep.direction == UsbDirection::In ==> buf_bytes(self.data).len()
            == self.actual_length
        &&& self.ep.direction == UsbDirection::Out ==> buf_bytes(self.data).len() == 0
    }

    /// RET_SUBMIT on the wire: 48 bytes and the payload.
    pub open spec fn wire(&self) -> Seq<u8> {
        u32_be(OP_RET_SUBMIT) + urb_header_wire(self.seqnum, self.devid, self.ep) + u32_be(
            self.status,
        ) + u32_be(self.actual_length) + u32_be(self.actual_start_frame) + u32_be(
            self.number_of_packets,
        ) + u32_be(self.error_count) + u64_be(0) + buf_bytes(self.data)
    }
}

impl UnlinkResponse {
    /// RET_UNLINK on the wire: 48 bytes.
    pub open spec fn wire(&self) -> Seq<u8> {
        padded(
            u32_be(OP_RET_UNLINK) + urb_header_wire(self.seqnum, self.devid, self.ep) + u32_be(
                self.status,
            ),
            48,
        )
    }
}

impl ImportResponse {
    pub open spec fn is_valid(&self) -> bool {
        self.device matches Some(device) ==> device.is_valid()
    }

    /// The import reply on the wire: eight bytes, and the device block if
    /// there is a device.
    pub open spec fn wire(&self) -> Seq<u8> {
        u32_be(OP_REP_IMPORT) + u32_be(self.status) + match self.device {
            Some(device) => device.wire(),
            None => Seq::empty(),
        }
    }
}

impl Response {
    /// What the encoder asks of a reply: names fit their fields, counts fit
    /// their words, and a payload goes with its length.
    pub open spec fn is_valid(&self) -> bool {
        match self {
            Response::DevList(devices) => {
                &&& devices@.len() <= u32::MAX
                &&& forall|i: int| 0 <= i < devices@.len() ==> (#[trigger] devices@[i]).is_valid()
            },
            Response::Import(res) => res.is_valid(),
            Response::Submit(res) => res.is_valid(),
            Response::Unlink(_) => true,
        }
    }

    /// The reply on the wire.
    pub open spec fn wire(&self) -> Seq<u8> {
        match self {
            Response::DevList(devices) => u32_be(OP_REP_DEVLIST) + u32_be(0) + u32_be(
                devices@.len() as u32,
            ) + devices_wire(devices@),
            Response::Import(res) => res.wire(),
            Response::Submit(res) => res.wire(),
            Response::Unlink(res) => res.wire(),
        }
    }
}

/// Reads the big-endian word at offset `at`.
fn read_u32(s: &[u8], at: usize) -> (v: u32)
    requires
        at + 4 <= s@.len(),
    ensures
        v == be_u32(s@, at as int),
{
    let b0: u32 = s[at] as u32;
    let b1: u32 = s[at + 1] as u32;
    let b2: u32 = s[at + 2] as u32;
    let b3: u32 = s[at + 3] as u32;
    b0 * 0x100_0000 + b1 * 0x1_0000 + b2 * 0x100 + b3
}

/// The USB/IP codec. It keeps no state between messages.
#[derive(Debug)]
pub struct UsbIpCodec;

impl UsbIpCodec {
    pub fn new() -> (codec: Self) {
        UsbIpCodec
    }

    /// Reads the header shared by SUBMIT and UNLINK from a message of at least
    /// 20 bytes.
    fn decode_urb_header(s: &[u8]) -> (r: Result<(u32, u32, EndpointAddress), ProtocolError>)
        requires
            s@.len() >= 20,
        ensures
            r == parse_urb_header(s@),
    {
        let seqnum = read_u32(s, 4);
        let devid = read_u32(s, 8);
        let direction = read_u32(s, 12);
        if direction > 1 {
            return Err(ProtocolError::InvalidDirection);
        }
        let ep = read_u32(s, 16);
        if ep > 15 {
            return Err(ProtocolError::InvalidEndpoint);
        }
        let direction = if direction == 0 {
            UsbDirection::Out
        } else {
            UsbDirection::In
        };
        Ok((seqnum, devid, EndpointAddress::from_parts(ep as u8, direction)))
    }

    /// Appends `bytes` and then zero bytes up to `width` in all.
    fn put_padded(bytes: &[u8], width: usize, buf: &mut BytesMut)
        requires
            bytes@.len() <= width,
        ensures
            buf_bytes(*final(buf)) == buf_bytes(*old(buf)) + padded(bytes@, width as nat),
    {
        buf_extend_from_slice(buf, bytes);
        let mut filled: usize = bytes.len();
        while filled < width
            invariant
                bytes@.len() <= filled <= width,
                buf_bytes(*buf) == buf_bytes(*old(buf)) + bytes@ + Seq::new(
                    (filled - bytes@.len()) as nat,
                    |i: int| 0u8,
                ),
            decreases width - filled,
        {
            buf_put_u8(buf, 0);
            filled = filled + 1;
            assert(buf_bytes(*buf) =~= buf_bytes(*old(buf)) + bytes@ + Seq::new(
                (filled - bytes@.len()) as nat,
                |i: int| 0u8,
            ));
        }
        assert(buf_bytes(*buf) =~= buf_bytes(*old(buf)) + padded(bytes@, width as nat));
    }

    fn encode_device_info(dev: &DeviceInfo, buf: &mut BytesMut)
        requires
            dev.is_valid(),
        ensures
            buf_bytes(*final(buf)) == buf_bytes(*old(buf)) + dev.wire(),
    {
        Self::put_padded(dev.path.as_str().as_bytes(), PATH_SIZE, buf);
        Self::put_padded(dev.busid.as_str().as_bytes(), BUSID_SIZE, buf);
        buf_put_u32(buf, dev.busnum);
        buf_put_u32(buf, dev.devnum);
        buf_put_u32(buf, dev.speed);
        buf_put_u16(buf, dev.id_vendor);
        buf_put_u16(buf, dev.id_product);
        buf_put_u16(buf, dev.bcd_device);
        buf_put_u8(buf, dev.device_class);
        buf_put_u8(buf, dev.device_subclass);
        buf_put_u8(buf, dev.device_protocol);
        buf_put_u8(buf, dev.configuration_value);
        buf_put_u8(buf, dev.num_configuration);
        buf_put_u8(buf, dev.num_interfaces);
        assert(buf_bytes(*buf) =~= buf_bytes(*old(buf)) + dev.wire());
    }

    fn encode_interface_info(iface: &InterfaceInfo, buf: &mut BytesMut)
        ensures
            buf_bytes(*final(buf)) == buf_bytes(*old(buf)) + iface.wire(),
    {
        buf_put_u8(buf, iface.interface_class);
        buf_put_u8(buf, iface.interface_subclass);
        buf_put_u8(buf, iface.interface_protocol);
        buf_put_u8(buf, 0);
        assert(buf_bytes(*buf) =~= buf_bytes(*old(buf)) + iface.wire());
    }

    fn encode_urb_header(seqnum: u32, devnum: u32, ep: EndpointAddress, buf: &mut BytesMut)
        ensures
            buf_bytes(*final(buf)) == buf_bytes(*old(buf)) + urb_header_wire(seqnum, devnum, ep),
    {
        buf_put_u32(buf, seqnum);
        buf_put_u32(buf, devnum);
        buf_put_u32(
            buf,
            if ep.is_out() {
                0
            } else {
                1
            },
        );
        buf_put_u32(buf, ep.number() as u32);
        assert(buf_bytes(*buf) =~= buf_bytes(*old(buf)) + urb_header_wire(seqnum, devnum, ep));
    }

    /// Appends the wire form of a reply to `buf`.
    pub fn encode(&mut self, msg: Response, buf: &mut BytesMut) -> (r: Result<(), ProtocolError>)
        requires
            msg.is_valid(),
        ensures
            r is Ok,
            buf_bytes(*final(buf)) == buf_bytes(*old(buf)) + msg.wire(),
    {
        match msg {
            Response::DevList(devices) => {
                buf_put_u32(buf, OP_REP_DEVLIST);
                buf_put_u32(buf, 0);
                buf_put_u32(buf, devices.len() as u32);
                let ghost head = buf_bytes(*buf);
                let mut i: usize = 0;
                while i < devices.len()
                    invariant
                        i <= devices@.len(),
                        forall|k: int|
                            0 <= k < devices@.len() ==> (#[trigger] devices@[k]).is_valid(),
                        buf_bytes(*buf) == head + devices_wire(devices@.take(i as int)),
                    decreases devices@.len() - i,
                {
                    let dev = &devices[i];
                    let ghost before = buf_bytes(*buf);
                    Self::encode_device_info(&dev.device, buf);
                    let mut j: usize = 0;
                    while j < dev.interfaces.len()
                        invariant
                            j <= dev.interfaces@.len(),
                            buf_bytes(*buf) == before + dev.device.wire() + interfaces_wire(
                                dev.interfaces@.take(j as int),
                            ),
                        decreases dev.interfaces@.len() - j,
                    {
                        Self::encode_interface_info(&dev.interfaces[j], buf);
                        proof {
                            let next = dev.interfaces@.take(j + 1);
                            assert(next.drop_last() =~= dev.interfaces@.take(j as int));
                            assert(buf_bytes(*buf) =~= before + dev.device.wire()
                                + interfaces_wire(next));
                        }
                        j = j + 1;
                    }
                    proof {
                        assert(dev.interfaces@.take(j as int) =~= dev.interfaces@);
                        let next = devices@.take(i + 1);
                        assert(next.drop_last() =~= devices@.take(i as int));
                        assert(buf_bytes(*buf) =~= head + devices_wire(next));
                    }
                    i = i + 1;
                }
                proof {
                    assert(devices@.take(i as int) =~= devices@);
                    assert(buf_bytes(*buf) =~= buf_bytes(*old(buf)) + msg.wire());
                }
            },
            Response::Import(res) => {
                buf_put_u32(buf, OP_REP_IMPORT);
                buf_put_u32(buf, res.status);
                match &res.device {
                    Some(dev) => {
                        Self::encode_device_info(dev, buf);
                    },
                    None => {},
                }
                assert(buf_bytes(*buf) =~= buf_bytes(*old(buf)) + msg.wire());
            },
            Response::Submit(res) => {
                buf_put_u32(buf, OP_RET_SUBMIT);
                Self::encode_urb_header(res.seqnum, res.devid, res.ep, buf);
                buf_put_u32(buf, res.status);
                buf_put_u32(buf, res.actual_length);
                buf_put_u32(buf, res.actual_start_frame);
                buf_put_u32(buf, res.number_of_packets);
                buf_put_u32(buf, res.error_count);
                buf_put_u64(buf, 0);
                buf_extend_from_slice(buf, buf_as_slice(&res.data));
                assert(buf_bytes(*buf) =~= buf_bytes(*old(buf)) + msg.wire());
            },
            Response::Unlink(res) => {
                buf_put_u32(buf, OP_RET_UNLINK);
                Self::encode_urb_header(res.seqnum, res.devid, res.ep, buf);
                buf_put_u32(buf, res.status);
                let mut filled: usize = 24;
                while filled < PDU_LENGTH
                    invariant
                        24 <= filled <= 48,
                        buf_bytes(*buf) == buf_bytes(*old(buf)) + u32_be(OP_RET_UNLINK)
                            + urb_header_wire(res.seqnum, res.devid, res.ep) + u32_be(res.status)
                            + Seq::new((filled - 24) as nat, |i: int| 0u8),
                    decreases 48 - filled,
                {
                    buf_put_u8(buf, 0);
                    filled = filled + 1;
                    assert(buf_bytes(*buf) =~= buf_bytes(*old(buf)) + u32_be(OP_RET_UNLINK)
                        + urb_header_wire(res.seqnum, res.devid, res.ep) + u32_be(res.status)
                        + Seq::new((filled - 24) as nat, |i: int| 0u8));
                }
                assert(buf_bytes(*buf) =~= buf_bytes(*old(buf)) + msg.wire());
            },
        }
        Ok(())
    }

    /// Takes one request off the front of `src`, if a whole one is there.
    ///
    /// While only the beginning of a request has arrived the result is
    /// `Ok(None)` and `src` keeps every byte. A protocol violation is an error
    /// and leaves `src` as it was too. A whole request is returned and its
    /// bytes, payload included, leave `src`.
    pub fn decode(&mut self, src: &mut BytesMut) -> (r: Result<Option<Request>, ProtocolError>)
        ensures
            match parse_request(buf_bytes(*old(src))) {
                Parsed::Incomplete => r matches Ok(None) && buf_bytes(*final(src)) == buf_bytes(
                    *old(src),
                ),
                Parsed::Invalid(e) => r == Err::<Option<Request>, ProtocolError>(e) && buf_bytes(
                    *final(src),
                ) == buf_bytes(*old(src)),
                Parsed::Frame { request, consumed } => (r matches Ok(Some(req)) && req@ == request)
                    && buf_bytes(*final(src)) == buf_bytes(*old(src)).skip(consumed as int),
            },
    {
        let s = buf_as_slice(src);
        let n = s.len();
        if n < 4 {
            return Ok(None);
        }
        let op = read_u32(s, 0);
        if op == OP_REQ_DEVLIST {
            if n < 8 {
                return Ok(None);
            }
            buf_advance(src, 8);
            Ok(Some(Request::DevList))
        } else if op == OP_REQ_IMPORT {
            if n < 40 {
                return Ok(None);
            }
            let text = string_from_utf8_lossy(slice_subrange(s, 8, 40));
            let name = trim_bus_name(text.as_str());
            buf_advance(src, 40);
            Ok(Some(Request::Import(name)))
        } else if op == OP_CMD_SUBMIT {
            if n < PDU_LENGTH {
                return Ok(None);
            }
            let (seqnum, devid, ep) = match Self::decode_urb_header(s) {
                Ok(header) => header,
                Err(e) => {
                    return Err(e);
                },
            };
            let transfer_flags = read_u32(s, 20);
            let transfer_buffer_length = read_u32(s, 24);
            let start_frame = read_u32(s, 28);
            let number_of_packets = read_u32(s, 32);
            let interval = read_u32(s, 36);
            let raw: [u8; 8] = [s[40], s[41], s[42], s[43], s[44], s[45], s[46], s[47]];
            let is_control = raw[0] != 0 || raw[1] != 0 || raw[2] != 0 || raw[3] != 0 || raw[4]
                != 0 || raw[5] != 0 || raw[6] != 0 || raw[7] != 0;
            proof {
                let field = s@.subrange(40, 48);
                assert(raw@ =~= field);
                if !is_control {
                    assert(all_zero(field));
                } else {
                    assert(field[0] != 0 || field[1] != 0 || field[2] != 0 || field[3] != 0
                        || field[4] != 0 || field[5] != 0 || field[6] != 0 || field[7] != 0);
                    assert(!all_zero(field));
                }
            }
            let setup = if is_control {
                Some(raw)
            } else {
                None
            };
            let is_out = ep.is_out();
            if is_out && n - PDU_LENGTH < transfer_buffer_length as usize {
                return Ok(None);
            }
            buf_advance(src, PDU_LENGTH);
            let data = if is_out {
                buf_split_to(src, transfer_buffer_length as usize)
            } else {
                buf_new()
            };
            proof {
                let all = buf_bytes(*old(src));
                if is_out {
                    let len = transfer_buffer_length as int;
                    assert(buf_bytes(data) =~= all.subrange(48, 48 + len));
                    assert(buf_bytes(*src) =~= all.skip(48 + len));
                } else {
                    assert(buf_bytes(data) =~= all.subrange(48, 48));
                }
            }
            Ok(
                Some(
                    Request::Submit(
                        SubmitRequest {
                            seqnum,
                            devid,
                            ep,
                            transfer_flags,
                            transfer_buffer_length,
                            start_frame,
                            number_of_packets,
                            interval,
                            setup,
                            data,
                        },
                    ),
                ),
            )
        } else if op == OP_CMD_UNLINK {
            if n < PDU_LENGTH {
                return Ok(None);
            }
            let (seqnum, devid, ep) = match Self::decode_urb_header(s) {
                Ok(header) => header,
                Err(e) => {
                    return Err(e);
                },
            };
            let unlink_seqnum = read_u32(s, 20);
            buf_advance(src, PDU_LENGTH);
            Ok(Some(Request::Unlink(UnlinkRequest { seqnum, devid, ep, unlink_seqnum })))
        } else {
            Err(ProtocolError::UnknownOpcode)
        }
    }
}

/// The bus id that a NUL-padded field holds, given the text of the field:
/// the text without the NULs at its end.
pub fn trim_bus_name(text: &str) -> (name: String)
    ensures
        name@ == trim_end(text@, '\0'),
{
    str_trim_end_matches(text, '\0').to_owned()
}

} // verus!

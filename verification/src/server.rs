//! One session with a remote host: the devices that are attached, the
//! requests that arrive for them, and the enumeration that finds out what
//! each device is.
//!
//! Nothing here waits. A request is answered at once, or queued for the
//! peripheral, or held back until an enumeration is through; the steps of an
//! enumeration are taken as the completions of its transfers come in.

use crate::buffer::{buf_as_slice, buf_len, buf_new};
use crate::channel::{ChannelView, CoreChannel};
use crate::control::ControlRequest;
use crate::descriptor::{
    configuration_header, configuration_interfaces, device_descriptor, parse_configuration_header,
    parse_device_descriptor, parse_interfaces, ConfigurationHeader, DeviceDescriptor,
    EnumerationError, DESCRIPTOR_CONFIGURATION, DESCRIPTOR_DEVICE,
};
use crate::protocol::{
    device_views, DeviceInfo, DeviceInfoView, DeviceInterfaceInfo, DeviceInterfaceInfoView,
    ImportResponse, InterfaceInfo, Request, RequestView, Response, ResponseView, SubmitRequest,
    SubmitRequestView, SubmitResponse, SubmitResponseView, UnlinkRequest, UnlinkResponse,
    BUSID_SIZE,
};
use crate::urb::{ControlState, Urb, UrbControl, UrbControlView, UrbView, STATUS_ERROR, STATUS_OK};
use crate::usb::{EndpointAddress, UsbDirection};
use crate::usbcore::UsbCore;
use vstd::prelude::*;
use vstd::utf8::{encode_utf8, is_ascii_chars, is_ascii_chars_encode_utf8};

verus! {

/// Bus number that every virtual device reports.
pub const BUS_NUMBER: u32 = 1;

/// Speed that every virtual device reports: full speed.
pub const SPEED_FULL: u32 = 2;

/// Address that the enumeration gives the device.
pub const DEVICE_ADDRESS: u8 = 1;

/// Where an enumeration stands: which completion it waits for, with what it
/// has learnt so far.
#[derive(Clone, Copy, Debug, PartialEq, Eq, Structural)]
pub enum EnumerationStep {
    /// No enumeration is under way.
    Idle,
    /// The device descriptor was asked for.
    Device,
    /// The address was sent.
    Address(DeviceDescriptor),
    /// The first nine bytes of the configuration were asked for.
    Configuration(DeviceDescriptor),
    /// The whole configuration was asked for.
    Interfaces(DeviceDescriptor, ConfigurationHeader),
}

/// The URB that carries a control request of the enumeration: on endpoint 0,
/// for as many bytes as the request names, and marked as internal.
pub open spec fn internal_urb(req: ControlRequest) -> UrbView {
    UrbView {
        seqnum: 0,
        devid: 0,
        ep: EndpointAddress { number: 0, direction: UsbDirection::Out },
        req_ep: EndpointAddress { number: 0, direction: req.direction },
        len: req.length as nat,
        control: Some(
            UrbControlView { setup: req.spec_setup_packet(), state: ControlState::Setup },
        ),
        data: Seq::empty(),
        status: STATUS_OK,
        internal: true,
    }
}

/// The device of one attachment as a mathematical value.
pub struct CoreView {
    pub devid: u32,
    pub bus_id: Seq<char>,
    pub channel: ChannelView,
    /// Whether the peripheral is to be woken.
    pub poll_pending: bool,
    /// What the enumeration found, once it has run.
    pub info: Option<DeviceInterfaceInfoView>,
    pub step: EnumerationStep,
}

impl CoreView {
    /// The device as it is attached: nothing queued, nothing known of it.
    pub open spec fn fresh(devid: u32, bus_id: Seq<char>) -> CoreView {
        CoreView {
            devid,
            bus_id,
            channel: ChannelView::empty(),
            poll_pending: false,
            info: None,
            step: EnumerationStep::Idle,
        }
    }

    /// The core after a URB was queued: the peripheral is to be woken.
    pub open spec fn submit(self, u: UrbView) -> CoreView {
        CoreView { channel: self.channel.submit(u), poll_pending: true, ..self }
    }

    /// The core after a control request of the enumeration was sent: its URB
    /// is queued, and its completion is awaited.
    pub open spec fn transfer(self, req: ControlRequest) -> CoreView {
        let queued = self.submit(internal_urb(req));
        CoreView {
            channel: ChannelView { internal_sink: true, ..queued.channel },
            ..queued
        }
    }

    /// What the device list says of this device, given what was read from it.
    pub open spec fn describe(
        self,
        device: DeviceDescriptor,
        header: ConfigurationHeader,
        interfaces: Seq<InterfaceInfo>,
    ) -> DeviceInterfaceInfoView {
        DeviceInterfaceInfoView {
            device: DeviceInfoView {
                path: "/virtual"@,
                busid: self.bus_id,
                busnum: BUS_NUMBER,
                devnum: self.devid,
                speed: SPEED_FULL,
                id_vendor: device.id_vendor,
                id_product: device.id_product,
                bcd_device: device.bcd_device,
                device_class: device.device_class,
                device_subclass: device.device_subclass,
                device_protocol: device.device_protocol,
                configuration_value: header.configuration_value,
                num_configuration: device.num_configuration,
                num_interfaces: header.num_interfaces,
            },
            interfaces,
        }
    }

    /// The core after its enumeration was given up: a later one starts anew.
    pub open spec fn give_up(self) -> CoreView {
        CoreView { step: EnumerationStep::Idle, ..self }
    }

    /// The core after one step of its enumeration, taken on the completion
    /// `done`, and what the step gives: an error, nothing yet, or what the
    /// enumeration found.
    ///
    /// A failed transfer ends the enumeration, and so does a descriptor that
    /// cannot be read. The device descriptor is followed by the address, the
    /// address by the first nine bytes of the configuration, those by the
    /// whole configuration, and that by the result, which the core keeps.
    pub open spec fn advance(self, done: UrbView) -> (
        CoreView,
        Result<Option<DeviceInterfaceInfoView>, EnumerationError>,
    ) {
        match self.step {
            EnumerationStep::Idle => (self, Err(EnumerationError::Unexpected)),
            _ => if done.status != STATUS_OK {
                (self.give_up(), Err(EnumerationError::TransferFailed))
            } else {
                match self.step {
                    EnumerationStep::Idle => (self, Err(EnumerationError::Unexpected)),
                    EnumerationStep::Device => match device_descriptor(done.data) {
                        Err(e) => (self.give_up(), Err(e)),
                        Ok(device) => (
                            CoreView {
                                step: EnumerationStep::Address(device),
                                ..self.transfer(ControlRequest::spec_set_address(DEVICE_ADDRESS))
                            },
                            Ok(None),
                        ),
                    },
                    EnumerationStep::Address(device) => (
                        CoreView {
                            step: EnumerationStep::Configuration(device),
                            ..self.transfer(
                                ControlRequest::spec_get_descriptor(DESCRIPTOR_CONFIGURATION, 0, 9),
                            )
                        },
                        Ok(None),
                    ),
                    EnumerationStep::Configuration(device) => match configuration_header(
                        done.data,
                    ) {
                        Err(e) => (self.give_up(), Err(e)),
                        Ok(header) => (
                            CoreView {
                                step: EnumerationStep::Interfaces(device, header),
                                ..self.transfer(
                                    ControlRequest::spec_get_descriptor(
                                        DESCRIPTOR_CONFIGURATION,
                                        0,
                                        header.total_length,
                                    ),
                                )
                            },
                            Ok(None),
                        ),
                    },
                    EnumerationStep::Interfaces(device, header) => match configuration_interfaces(
                        done.data,
                    ) {
                        Err(e) => (self.give_up(), Err(e)),
                        Ok(interfaces) => {
                            let info = self.describe(device, header, interfaces);
                            (
                                CoreView { step: EnumerationStep::Idle, info: Some(info), ..self },
                                Ok(Some(info)),
                            )
                        },
                    },
                }
            },
        }
    }

    /// The bus id fits its field on the wire, and so does what is known of
    /// the device.
    pub open spec fn wf(self) -> bool {
        &&& encode_utf8(self.bus_id).len() <= 32
        &&& self.info matches Some(info) ==> info.is_valid()
    }
}

/// The device of one attachment: its queue, and what is known of it.
#[derive(Debug)]
pub struct ClientCore {
    devid: u32,
    bus_id: String,
    channel: CoreChannel,
    poll_pending: bool,
    info: Option<DeviceInterfaceInfo>,
    step: EnumerationStep,
}

impl View for ClientCore {
    type V = CoreView;

    closed spec fn view(&self) -> CoreView {
        CoreView {
            devid: self.devid,
            bus_id: self.bus_id@,
            channel: self.channel@,
            poll_pending: self.poll_pending,
            info: match self.info {
                Some(info) => Some(info@),
                None => None,
            },
            step: self.step,
        }
    }
}

/// The length of the path of every virtual device.
proof fn lemma_virtual_path()
    ensures
        encode_utf8("/virtual"@).len() == 8,
{
    reveal_strlit("/virtual");
    let path = "/virtual"@;
    assert(path.len() == 8);
    assert(is_ascii_chars(path)) by {
        assert forall|i: int| 0 <= i < path.len() implies '\0' <= #[trigger] path[i]
            <= '\u{7f}' by {
            assert(path[0] == '/' && path[1] == 'v' && path[2] == 'i' && path[3] == 'r'
                && path[4] == 't' && path[5] == 'u' && path[6] == 'a' && path[7] == 'l');
        }
    }
    is_ascii_chars_encode_utf8(path);
}

impl ClientCore {
    /// The device `devid` on bus id `bus_id`, with nothing queued and
    /// nothing known of it yet.
    pub fn new(devid: u32, bus_id: &str) -> (core: ClientCore)
        ensures
            core@ == CoreView::fresh(devid, bus_id@),
    {
        ClientCore {
            devid,
            bus_id: bus_id.to_owned(),
            channel: CoreChannel::new(),
            poll_pending: false,
            info: None,
            step: EnumerationStep::Idle,
        }
    }

    /// The queue between the wire and the endpoints of the device, for the
    /// endpoints to work on.
    pub fn channel_mut(&mut self) -> (channel: &mut CoreChannel)
        ensures
            channel@ == old(self)@.channel,
            final(self)@ == (CoreView { channel: final(channel)@, ..old(self)@ }),
    {
        &mut self.channel
    }

    pub fn devid(&self) -> (devid: u32)
        ensures
            devid == self@.devid,
    {
        self.devid
    }

    pub fn bus_id(&self) -> (bus_id: &String)
        ensures
            bus_id@ == self@.bus_id,
    {
        &self.bus_id
    }

    /// Queues a URB and notes that the peripheral is to be woken.
    pub fn submit_urb(&mut self, urb: Urb)
        ensures
            final(self)@ == old(self)@.submit(urb@),
    {
        self.channel.submit_urb(urb);
        self.poll_pending = true;
    }

    /// Removes the pending URBs of the given sequence number, and says
    /// whether there was one.
    pub fn unlink_urb(&mut self, seqnum: u32) -> (found: bool)
        ensures
            found == old(self)@.channel.has_pending(seqnum),
            final(self)@ == (CoreView {
                channel: old(self)@.channel.unlink(seqnum),
                ..old(self)@
            }),
    {
        self.channel.unlink_urb(seqnum)
    }

    /// Says whether the peripheral is to be woken, and forgets it.
    pub fn take_poll_signal(&mut self) -> (pending: bool)
        ensures
            pending == old(self)@.poll_pending,
            final(self)@ == (CoreView { poll_pending: false, ..old(self)@ }),
    {
        let pending = self.poll_pending;
        self.poll_pending = false;
        pending
    }

    /// Sends a control request on behalf of the enumeration: queues its URB
    /// and directs the completion to the enumeration.
    pub fn control_transfer(&mut self, req: ControlRequest)
        ensures
            final(self)@ == old(self)@.transfer(req),
    {
        let setup = req.setup_packet();
        self.submit_urb(
            Urb {
                seqnum: 0,
                devid: 0,
                ep: EndpointAddress::from_parts(0, UsbDirection::Out),
                req_ep: EndpointAddress::from_parts(0, req.direction),
                len: req.length as usize,
                control: Some(UrbControl { setup, state: ControlState::Setup }),
                data: buf_new(),
                status: STATUS_OK,
                internal: true,
            },
        );
        self.channel.expect_internal();
    }

    /// Asks the device for `length` bytes of a descriptor.
    pub fn get_descriptor(&mut self, dtype: u8, dindex: u8, length: u16)
        ensures
            final(self)@ == old(self)@.transfer(
                ControlRequest::spec_get_descriptor(dtype, dindex, length),
            ),
    {
        self.control_transfer(ControlRequest::get_descriptor(dtype, dindex, length));
    }

    /// What is known of the device, or else the start of finding it out.
    ///
    /// Where an enumeration has run, its result is returned. Where none is
    /// under way, one is started by asking for the device descriptor. Its
    /// steps are taken by `enumerate_advance`.
    pub fn enumerate(&mut self) -> (r: Option<DeviceInterfaceInfo>)
        ensures
            match old(self)@.info {
                Some(info) => r matches Some(found) && found@ == info && final(self)@ == old(
                    self,
                )@,
                None => r is None && final(self)@ == (if old(self)@.step
                    == EnumerationStep::Idle {
                    CoreView {
                        step: EnumerationStep::Device,
                        ..old(self)@.transfer(
                            ControlRequest::spec_get_descriptor(DESCRIPTOR_DEVICE, 0, 18),
                        )
                    }
                } else {
                    old(self)@
                }),
            },
    {
        match &self.info {
            Some(info) => {
                return Some(info.duplicate());
            },
            None => {},
        }
        if self.step == EnumerationStep::Idle {
            self.get_descriptor(DESCRIPTOR_DEVICE, 0, 18);
            self.step = EnumerationStep::Device;
        }
        None
    }

    /// Takes one step of the enumeration on the completion of its transfer
    /// (see `CoreView::advance`).
    pub fn enumerate_advance(&mut self, done: Urb) -> (r: Result<
        Option<DeviceInterfaceInfo>,
        EnumerationError,
    >)
        ensures
            final(self)@ == old(self)@.advance(done@).0,
            match old(self)@.advance(done@).1 {
                Err(e) => r matches Err(f) && f == e,
                Ok(None) => r matches Ok(None),
                Ok(Some(info)) => r matches Ok(Some(found)) && found@ == info,
            },
    {
        if self.step == EnumerationStep::Idle {
            return Err(EnumerationError::Unexpected);
        }
        if done.status != STATUS_OK {
            self.step = EnumerationStep::Idle;
            return Err(EnumerationError::TransferFailed);
        }
        let data = buf_as_slice(&done.data);
        match self.step {
            EnumerationStep::Idle => Err(EnumerationError::Unexpected),
            EnumerationStep::Device => match parse_device_descriptor(data) {
                Err(e) => {
                    self.step = EnumerationStep::Idle;
                    Err(e)
                },
                Ok(device) => {
                    self.control_transfer(ControlRequest::set_address(DEVICE_ADDRESS));
                    self.step = EnumerationStep::Address(device);
                    Ok(None)
                },
            },
            EnumerationStep::Address(device) => {
                self.get_descriptor(DESCRIPTOR_CONFIGURATION, 0, 9);
                self.step = EnumerationStep::Configuration(device);
                Ok(None)
            },
            EnumerationStep::Configuration(device) => match parse_configuration_header(data) {
                Err(e) => {
                    self.step = EnumerationStep::Idle;
                    Err(e)
                },
                Ok(header) => {
                    self.get_descriptor(DESCRIPTOR_CONFIGURATION, 0, header.total_length);
                    self.step = EnumerationStep::Interfaces(device, header);
                    Ok(None)
                },
            },
            EnumerationStep::Interfaces(device, header) => match parse_interfaces(data) {
                Err(e) => {
                    self.step = EnumerationStep::Idle;
                    Err(e)
                },
                Ok(interfaces) => {
                    let info = DeviceInterfaceInfo {
                        device: DeviceInfo {
                            path: "/virtual".to_owned(),
                            busid: self.bus_id.clone(),
                            busnum: BUS_NUMBER,
                            devnum: self.devid,
                            speed: SPEED_FULL,
                            id_vendor: device.id_vendor,
                            id_product: device.id_product,
                            bcd_device: device.bcd_device,
                            device_class: device.device_class,
                            device_subclass: device.device_subclass,
                            device_protocol: device.device_protocol,
                            configuration_value: header.configuration_value,
                            num_configuration: device.num_configuration,
                            num_interfaces: header.num_interfaces,
                        },
                        interfaces,
                    };
                    let found = info.duplicate();
                    self.info = Some(info);
                    self.step = EnumerationStep::Idle;
                    Ok(Some(found))
                },
            },
        }
    }
}

/// The views of a run of cores.
pub open spec fn core_views(cores: Seq<ClientCore>) -> Seq<CoreView> {
    Seq::new(cores.len(), |i: int| cores[i]@)
}

/// The place of the first core that `wanted` holds of, or the number of
/// cores where it holds of none.
pub open spec fn core_index(cores: Seq<CoreView>, wanted: spec_fn(CoreView) -> bool) -> int
    decreases cores.len(),
{
    if cores.len() == 0 {
        0
    } else if wanted(cores.first()) {
        0
    } else {
        1 + core_index(cores.drop_first(), wanted)
    }
}

/// `core_index` by what it means.
pub proof fn lemma_core_index(cores: Seq<CoreView>, wanted: spec_fn(CoreView) -> bool, i: int)
    requires
        0 <= i <= cores.len(),
        forall|j: int| 0 <= j < i ==> !wanted(cores[j]),
        i < cores.len() ==> wanted(cores[i]),
    ensures
        core_index(cores, wanted) == i,
    decreases cores.len(),
{
    if cores.len() > 0 && i > 0 {
        let rest = cores.drop_first();
        assert(!wanted(cores[0]));
        assert forall|j: int| 0 <= j < i - 1 implies !wanted(rest[j]) by {
            assert(rest[j] == cores[j + 1]);
        }
        lemma_core_index(rest, wanted, i - 1);
    }
}

/// The URB that a SUBMIT request becomes: a control transfer starts on the
/// OUT side of endpoint 0 with its SETUP packet, any other transfer on the
/// endpoint that was addressed.
pub open spec fn submitted_urb(req: SubmitRequestView) -> UrbView {
    UrbView {
        seqnum: req.seqnum,
        devid: req.devid,
        ep: if req.setup is Some {
            EndpointAddress { number: 0, direction: UsbDirection::Out }
        } else {
            req.ep
        },
        req_ep: req.ep,
        len: req.transfer_buffer_length as nat,
        control: match req.setup {
            Some(setup) => Some(UrbControlView { setup, state: ControlState::Setup }),
            None => None,
        },
        data: req.data,
        status: STATUS_OK,
        internal: false,
    }
}

/// The reply to a SUBMIT for a device that is not attached.
pub open spec fn unknown_device_reply(req: SubmitRequestView) -> SubmitResponseView {
    SubmitResponseView {
        seqnum: req.seqnum,
        devid: req.devid,
        ep: req.ep,
        status: STATUS_ERROR,
        actual_length: 0,
        actual_start_frame: 0,
        number_of_packets: 0,
        error_count: 0,
        setup: None,
        data: Seq::empty(),
    }
}

/// The reply that reports a finished URB: it names the transfer as the
/// remote host did, and carries the data of a transfer towards the host.
pub open spec fn completion_reply(u: UrbView) -> SubmitResponseView {
    let data = if u.req_ep.direction == UsbDirection::In {
        u.data
    } else {
        Seq::empty()
    };
    SubmitResponseView {
        seqnum: u.seqnum,
        devid: u.devid,
        ep: u.req_ep,
        status: u.status,
        actual_length: data.len() as u32,
        actual_start_frame: 0,
        number_of_packets: 0,
        error_count: 0,
        setup: None,
        data,
    }
}

/// What becomes of a finished URB on its way to the wire: a URB of the
/// enumeration is dropped, any other is reported with RET_SUBMIT.
pub fn completion_response(urb: Urb) -> (r: Option<Response>)
    requires
        urb@.data.len() <= u32::MAX,
    ensures
        match r {
            Some(response) => !urb@.internal && response@ == ResponseView::Submit(
                completion_reply(urb@),
            ) && response.is_valid(),
            None => urb@.internal,
        },
{
    if urb.internal {
        return None;
    }
    let data = if urb.req_ep.is_in() {
        urb.data
    } else {
        buf_new()
    };
    Some(
        Response::Submit(
            SubmitResponse {
                seqnum: urb.seqnum,
                devid: urb.devid,
                ep: urb.req_ep,
                status: urb.status,
                actual_length: buf_len(&data) as u32,
                actual_start_frame: 0,
                number_of_packets: 0,
                error_count: 0,
                setup: None,
                data,
            },
        ),
    )
}

/// What the session does with a request.
#[derive(Debug, PartialEq, Eq)]
pub enum Dispatch {
    /// The reply is to be sent.
    Reply(Response),
    /// The transfer was queued for its device; its reply comes when the
    /// peripheral is done with it.
    Queued,
    /// The device must be enumerated before the request can be answered. An
    /// enumeration is under way; once it is through, the request is to be
    /// dispatched again.
    Enumerate { devid: u32, request: Request },
}

/// A session as a mathematical value.
pub struct ClientView {
    pub next_devid: u32,
    pub cores: Seq<CoreView>,
}

impl ClientView {
    /// Devices are numbered from 1 in the order of their attachment, and
    /// each is fit to be sent.
    pub open spec fn wf(self) -> bool {
        &&& self.next_devid == self.cores.len() + 1
        &&& forall|i: int|
            0 <= i < self.cores.len() ==> (#[trigger] self.cores[i]).devid == i + 1
                && self.cores[i].wf()
    }

    /// The place of the device with the given number.
    pub open spec fn index_of_devid(self, devid: u32) -> int {
        core_index(self.cores, |c: CoreView| c.devid == devid)
    }

    /// The place of the first device on the given bus id.
    pub open spec fn index_of_bus_id(self, bus_id: Seq<char>) -> int {
        core_index(self.cores, |c: CoreView| c.bus_id == bus_id)
    }

    /// The place of the first device that has not been enumerated.
    pub open spec fn index_of_unknown(self) -> int {
        core_index(self.cores, |c: CoreView| c.info is None)
    }

    /// The session with the core at `i` replaced.
    pub open spec fn with_core(self, i: int, core: CoreView) -> ClientView {
        ClientView { cores: self.cores.update(i, core), ..self }
    }

    /// What every device is known to be, in the order of attachment.
    pub open spec fn known_devices(self) -> Seq<DeviceInterfaceInfoView> {
        Seq::new(self.cores.len(), |i: int| self.cores[i].info->Some_0)
    }
}

/// The core when an enumeration is asked for: one is started unless one is
/// under way.
pub open spec fn enumeration_started(core: CoreView) -> CoreView {
    if core.step == EnumerationStep::Idle {
        CoreView {
            step: EnumerationStep::Device,
            ..core.transfer(ControlRequest::spec_get_descriptor(DESCRIPTOR_DEVICE, 0, 18))
        }
    } else {
        core
    }
}

/// One session: the devices attached to it.
#[derive(Debug)]
pub struct Client {
    next_devid: u32,
    cores: Vec<ClientCore>,
}

impl View for Client {
    type V = ClientView;

    closed spec fn view(&self) -> ClientView {
        ClientView { next_devid: self.next_devid, cores: core_views(self.cores@) }
    }
}

impl Client {
    /// A session without devices; the first device will be number 1.
    pub fn new() -> (client: Client)
        ensures
            client@.next_devid == 1,
            client@.cores.len() == 0,
            client@.wf(),
    {
        Client { next_devid: 1, cores: Vec::new() }
    }

    /// Attaches a device under the given bus id. The result is the
    /// peripheral for the class to work with and the number of the device.
    /// There is none where the bus id does not fit the 32 bytes of its field,
    /// or where the numbers have run out.
    pub fn attach(&mut self, bus_id: &str) -> (r: Option<(UsbCore, u32)>)
        ensures
            match r {
                Some((usbcore, devid)) => {
                    &&& encode_utf8(bus_id@).len() <= 32
                    &&& old(self)@.next_devid < u32::MAX
                    &&& devid == old(self)@.next_devid
                    &&& final(self)@ == (ClientView {
                        next_devid: (devid + 1) as u32,
                        cores: old(self)@.cores.push(CoreView::fresh(devid, bus_id@)),
                    })
                    &&& usbcore@.endpoints_out.len() == 0
                    &&& usbcore@.endpoints_in.len() == 0
                },
                None => (encode_utf8(bus_id@).len() > 32 || old(self)@.next_devid == u32::MAX)
                    && final(self)@ == old(self)@,
            },
            old(self)@.wf() ==> final(self)@.wf(),
    {
        if bus_id.as_bytes().len() > BUSID_SIZE || self.next_devid == u32::MAX {
            return None;
        }
        let devid = self.next_devid;
        let core = ClientCore::new(devid, bus_id);
        let ghost added = core@;
        assert(added.wf());
        self.cores.push(core);
        self.next_devid = devid + 1;
        proof {
            assert(core_views(self.cores@) =~= core_views(old(self).cores@).push(added));
            if old(self)@.wf() {
                assert forall|i: int| 0 <= i < self@.cores.len() implies (
                #[trigger] self@.cores[i]).devid == i + 1 && self@.cores[i].wf() by {
                    if i < old(self)@.cores.len() {
                        assert(self@.cores[i] == old(self)@.cores[i]);
                    } else {
                        assert(self@.cores[i] == added);
                    }
                }
            }
        }
        Some((UsbCore::new(), devid))
    }

    /// Number of devices attached.
    pub fn device_count(&self) -> (n: usize)
        ensures
            n == self@.cores.len(),
    {
        self.cores.len()
    }

    /// The place of the device with the given number, if it is attached.
    pub fn find_core(&self, devid: u32) -> (r: Option<usize>)
        ensures
            match r {
                Some(i) => i < self@.cores.len() && self@.index_of_devid(devid) == i,
                None => self@.index_of_devid(devid) == self@.cores.len(),
            },
    {
        let ghost wanted = |c: CoreView| c.devid == devid;
        let mut i: usize = 0;
        while i < self.cores.len()
            invariant
                i <= self.cores@.len(),
                wanted == (|c: CoreView| c.devid == devid),
                forall|j: int| 0 <= j < i ==> !wanted(self@.cores[j]),
            decreases self.cores@.len() - i,
        {
            if self.cores[i].devid() == devid {
                proof {
                    lemma_core_index(self@.cores, wanted, i as int);
                }
                return Some(i);
            }
            i = i + 1;
        }
        proof {
            lemma_core_index(self@.cores, wanted, i as int);
        }
        None
    }

    /// The place of the first device on the given bus id, if there is one.
    pub fn find_bus_id(&self, bus_id: &String) -> (r: Option<usize>)
        ensures
            match r {
                Some(i) => i < self@.cores.len() && self@.index_of_bus_id(bus_id@) == i,
                None => self@.index_of_bus_id(bus_id@) == self@.cores.len(),
            },
    {
        let ghost wanted = |c: CoreView| c.bus_id == bus_id@;
        let mut i: usize = 0;
        while i < self.cores.len()
            invariant
                i <= self.cores@.len(),
                wanted == (|c: CoreView| c.bus_id == bus_id@),
                forall|j: int| 0 <= j < i ==> !wanted(self@.cores[j]),
            decreases self.cores@.len() - i,
        {
            if *self.cores[i].bus_id() == *bus_id {
                proof {
                    lemma_core_index(self@.cores, wanted, i as int);
                }
                return Some(i);
            }
            i = i + 1;
        }
        proof {
            lemma_core_index(self@.cores, wanted, i as int);
        }
        None
    }

    /// The device at the given place, to work on.
    pub fn core_at(&mut self, index: usize) -> (core: &mut ClientCore)
        requires
            index < old(self)@.cores.len(),
        ensures
            core@ == old(self)@.cores[index as int],
            final(self)@ == old(self)@.with_core(index as int, final(core)@),
    {
        let ghost before = self.cores@;
        let core = &mut self.cores[index];
        proof {
            assert(core_views(before.update(index as int, *final(core))) =~= core_views(
                before,
            ).update(index as int, final(core)@));
        }
        core
    }

    /// Queues a SUBMIT for its device. For a device that is not attached
    /// nothing is queued, and the result is the reply that says so.
    pub fn handle_submit(&mut self, req: SubmitRequest) -> (r: Option<Response>)
        ensures
            old(self)@.wf() ==> final(self)@.wf(),
            ({
                let i = old(self)@.index_of_devid(req.devid);
                if i == old(self)@.cores.len() {
                    &&& r matches Some(response) && response@ == ResponseView::Submit(
                        unknown_device_reply(req@),
                    ) && response.is_valid()
                    &&& final(self)@ == old(self)@
                } else {
                    &&& r is None
                    &&& final(self)@ == old(self)@.with_core(
                        i,
                        old(self)@.cores[i].submit(submitted_urb(req@)),
                    )
                }
            }),
    {
        match self.find_core(req.devid) {
            Some(i) => {
                let control = match req.setup {
                    Some(setup) => Some(UrbControl { setup, state: ControlState::Setup }),
                    None => None,
                };
                let ep = if control.is_some() {
                    EndpointAddress::from_parts(0, UsbDirection::Out)
                } else {
                    req.ep
                };
                let urb = Urb {
                    seqnum: req.seqnum,
                    devid: req.devid,
                    ep,
                    req_ep: req.ep,
                    control,
                    len: req.transfer_buffer_length as usize,
                    data: req.data,
                    status: STATUS_OK,
                    internal: false,
                };
                let core = self.core_at(i);
                core.submit_urb(urb);
                None
            },
            None => Some(
                Response::Submit(
                    SubmitResponse {
                        seqnum: req.seqnum,
                        devid: req.devid,
                        ep: req.ep,
                        status: STATUS_ERROR,
                        actual_length: 0,
                        actual_start_frame: 0,
                        number_of_packets: 0,
                        error_count: 0,
                        setup: None,
                        data: buf_new(),
                    },
                ),
            ),
        }
    }

    /// Carries out an UNLINK: removes the pending URBs of the sequence
    /// number that it names from the queue of its device. The reply has
    /// status 1 where there was such a URB and status 0 where there was
    /// none, or no such device.
    pub fn handle_unlink(&mut self, req: UnlinkRequest) -> (r: Response)
        ensures
            old(self)@.wf() ==> final(self)@.wf(),
            ({
                let i = old(self)@.index_of_devid(req.devid);
                let found = i < old(self)@.cores.len() && old(self)@.cores[i].channel.has_pending(
                    req.unlink_seqnum,
                );
                &&& r@ == ResponseView::Unlink(
                    UnlinkResponse {
                        seqnum: req.seqnum,
                        devid: req.devid,
                        ep: req.ep,
                        status: if found {
                            1u32
                        } else {
                            0u32
                        },
                        unlink_seqnum: req.unlink_seqnum,
                    },
                )
                &&& r.is_valid()
                &&& final(self)@ == (if i < old(self)@.cores.len() {
                    old(self)@.with_core(
                        i,
                        CoreView {
                            channel: old(self)@.cores[i].channel.unlink(req.unlink_seqnum),
                            ..old(self)@.cores[i]
                        },
                    )
                } else {
                    old(self)@
                })
            }),
    {
        let success = match self.find_core(req.devid) {
            Some(i) => {
                let core = self.core_at(i);
                core.unlink_urb(req.unlink_seqnum)
            },
            None => false,
        };
        Response::Unlink(
            UnlinkResponse {
                seqnum: req.seqnum,
                devid: req.devid,
                ep: req.ep,
                status: if success {
                    1
                } else {
                    0
                },
                unlink_seqnum: req.unlink_seqnum,
            },
        )
    }

    /// Answers an import of the device on the given bus id: status 1 and no
    /// device where there is none on it, status 0 and the device where it
    /// has been enumerated. Where it has not, an enumeration is asked for.
    pub fn handle_import(&mut self, bus_id: String) -> (r: Dispatch)
        ensures
            ({
                let i = old(self)@.index_of_bus_id(bus_id@);
                if i == old(self)@.cores.len() {
                    &&& r matches Dispatch::Reply(response) && response@ == (ResponseView::Import {
                        status: STATUS_ERROR,
                        device: None,
                    }) && response.is_valid()
                    &&& final(self)@ == old(self)@
                } else {
                    match old(self)@.cores[i].info {
                        Some(info) => {
                            &&& r matches Dispatch::Reply(response) && response@
                                == (ResponseView::Import {
                                status: STATUS_OK,
                                device: Some(info.device),
                            }) && (old(self)@.wf() ==> response.is_valid())
                            &&& final(self)@ == old(self)@
                        },
                        None => {
                            &&& r matches Dispatch::Enumerate { devid, request } && devid == old(
                                self,
                            )@.cores[i].devid && request@ == RequestView::Import(bus_id@)
                            &&& final(self)@ == old(self)@.with_core(
                                i,
                                enumeration_started(old(self)@.cores[i]),
                            )
                        },
                    }
                }
            }),
            old(self)@.wf() ==> final(self)@.wf(),
    {
        match self.find_bus_id(&bus_id) {
            Some(i) => {
                let ghost before = self@;
                let core = self.core_at(i);
                let devid = core.devid();
                match core.enumerate() {
                    Some(info) => {
                        proof {
                            assert(before.with_core(i as int, before.cores[i as int]).cores
                                =~= before.cores);
                        }
                        Dispatch::Reply(
                            Response::Import(
                                ImportResponse { status: STATUS_OK, device: Some(info.device) },
                            ),
                        )
                    },
                    None => {
                        proof {
                            if before.wf() {
                                lemma_started_keeps_wf(before, i as int);
                            }
                        }
                        Dispatch::Enumerate { devid, request: Request::Import(bus_id) }
                    },
                }
            },
            None => Dispatch::Reply(
                Response::Import(ImportResponse { status: STATUS_ERROR, device: None }),
            ),
        }
    }

    /// Answers a request for the device list: the devices in the order of
    /// attachment, once every one has been enumerated. Where one has not, an
    /// enumeration of the first such device is asked for.
    pub fn handle_devlist(&mut self) -> (r: Dispatch)
        ensures
            ({
                let i = old(self)@.index_of_unknown();
                if i == old(self)@.cores.len() {
                    &&& r matches Dispatch::Reply(response) && response@ == ResponseView::DevList(
                        old(self)@.known_devices(),
                    ) && (old(self)@.wf() ==> response.is_valid())
                    &&& final(self)@ == old(self)@
                } else {
                    &&& r matches Dispatch::Enumerate { devid, request } && devid == old(
                        self,
                    )@.cores[i].devid && request@ == RequestView::DevList
                    &&& final(self)@ == old(self)@.with_core(
                        i,
                        enumeration_started(old(self)@.cores[i]),
                    )
                }
            }),
            old(self)@.wf() ==> final(self)@.wf(),
    {
        let ghost wanted = |c: CoreView| c.info is None;
        let ghost before = self@;
        let mut devices: Vec<DeviceInterfaceInfo> = Vec::new();
        let mut i: usize = 0;
        while i < self.cores.len()
            invariant
                i <= self.cores@.len(),
                before == old(self)@,
                wanted == (|c: CoreView| c.info is None),
                forall|j: int| 0 <= j < i ==> !wanted(before.cores[j]),
                devices@.len() == i,
                forall|j: int|
                    0 <= j < i ==> (#[trigger] devices@[j])@ == before.cores[j].info->Some_0,
                self@ == before,
            decreases self.cores@.len() - i,
        {
            let core = self.core_at(i);
            let devid = core.devid();
            match core.enumerate() {
                Some(info) => {
                    proof {
                        assert(before.with_core(i as int, before.cores[i as int]).cores
                            =~= before.cores);
                    }
                    devices.push(info);
                },
                None => {
                    proof {
                        lemma_core_index(before.cores, wanted, i as int);
                        if before.wf() {
                            lemma_started_keeps_wf(before, i as int);
                        }
                    }
                    return Dispatch::Enumerate { devid, request: Request::DevList };
                },
            }
            i = i + 1;
        }
        proof {
            lemma_core_index(before.cores, wanted, i as int);
            assert(device_views(devices@) =~= before.known_devices());
            if before.wf() {
                assert(before.cores.len() < u32::MAX);
                assert forall|j: int| 0 <= j < devices@.len() implies (
                #[trigger] devices@[j]).is_valid() by {
                    assert(before.cores[j].wf());
                }
            }
        }
        Dispatch::Reply(Response::DevList(devices))
    }

    /// Does what a request asks for (see `handle_devlist`, `handle_import`,
    /// `handle_submit` and `handle_unlink`).
    pub fn dispatch(&mut self, req: Request) -> (r: Dispatch)
        ensures
            old(self)@.wf() ==> final(self)@.wf(),
            old(self)@.wf() ==> (r matches Dispatch::Reply(response) ==> response.is_valid()),
            match req {
                Request::DevList => {
                    let i = old(self)@.index_of_unknown();
                    if i == old(self)@.cores.len() {
                        &&& r matches Dispatch::Reply(response) && response@
                            == ResponseView::DevList(old(self)@.known_devices())
                        &&& final(self)@ == old(self)@
                    } else {
                        &&& r matches Dispatch::Enumerate { devid, request } && devid == old(
                            self,
                        )@.cores[i].devid && request@ == RequestView::DevList
                        &&& final(self)@ == old(self)@.with_core(
                            i,
                            enumeration_started(old(self)@.cores[i]),
                        )
                    }
                },
                Request::Import(bus_id) => {
                    let i = old(self)@.index_of_bus_id(bus_id@);
                    if i == old(self)@.cores.len() {
                        &&& r matches Dispatch::Reply(response) && response@
                            == (ResponseView::Import { status: STATUS_ERROR, device: None })
                        &&& final(self)@ == old(self)@
                    } else {
                        match old(self)@.cores[i].info {
                            Some(info) => {
                                &&& r matches Dispatch::Reply(response) && response@
                                    == (ResponseView::Import {
                                    status: STATUS_OK,
                                    device: Some(info.device),
                                })
                                &&& final(self)@ == old(self)@
                            },
                            None => {
                                &&& r matches Dispatch::Enumerate { devid, request } && devid
                                    == old(self)@.cores[i].devid && request@
                                    == RequestView::Import(bus_id@)
                                &&& final(self)@ == old(self)@.with_core(
                                    i,
                                    enumeration_started(old(self)@.cores[i]),
                                )
                            },
                        }
                    }
                },
                Request::Submit(submit) => {
                    let i = old(self)@.index_of_devid(submit.devid);
                    if i == old(self)@.cores.len() {
                        &&& r matches Dispatch::Reply(response) && response@
                            == ResponseView::Submit(unknown_device_reply(submit@))
                        &&& final(self)@ == old(self)@
                    } else {
                        &&& r is Queued
                        &&& final(self)@ == old(self)@.with_core(
                            i,
                            old(self)@.cores[i].submit(submitted_urb(submit@)),
                        )
                    }
                },
                Request::Unlink(unlink) => {
                    let i = old(self)@.index_of_devid(unlink.devid);
                    let found = i < old(self)@.cores.len() && old(
                        self,
                    )@.cores[i].channel.has_pending(unlink.unlink_seqnum);
                    &&& r matches Dispatch::Reply(response) && response@ == ResponseView::Unlink(
                        UnlinkResponse {
                            seqnum: unlink.seqnum,
                            devid: unlink.devid,
                            ep: unlink.ep,
                            status: if found {
                                1u32
                            } else {
                                0u32
                            },
                            unlink_seqnum: unlink.unlink_seqnum,
                        },
                    )
                    &&& final(self)@ == (if i < old(self)@.cores.len() {
                        old(self)@.with_core(
                            i,
                            CoreView {
                                channel: old(self)@.cores[i].channel.unlink(unlink.unlink_seqnum),
                                ..old(self)@.cores[i]
                            },
                        )
                    } else {
                        old(self)@
                    })
                },
            },
    {
        match req {
            Request::DevList => self.handle_devlist(),
            Request::Import(bus_id) => self.handle_import(bus_id),
            Request::Submit(submit) => match self.handle_submit(submit) {
                Some(response) => Dispatch::Reply(response),
                None => Dispatch::Queued,
            },
            Request::Unlink(unlink) => Dispatch::Reply(self.handle_unlink(unlink)),
        }
    }
}

/// Starting an enumeration leaves the session as it should be.
proof fn lemma_started_keeps_wf(client: ClientView, i: int)
    requires
        client.wf(),
        0 <= i < client.cores.len(),
    ensures
        client.with_core(i, enumeration_started(client.cores[i])).wf(),
{
    let after = client.with_core(i, enumeration_started(client.cores[i]));
    assert forall|j: int| 0 <= j < after.cores.len() implies (#[trigger] after.cores[j]).devid
        == j + 1 && after.cores[j].wf() by {
        assert(client.cores[j].wf());
    }
}

/// A step of the enumeration leaves the core fit to be sent, and what it
/// finds is fit too.
pub proof fn lemma_advance_keeps_wf(core: CoreView, done: UrbView)
    requires
        core.wf(),
    ensures
        core.advance(done).0.wf(),
        core.advance(done).1 matches Ok(Some(info)) ==> info.is_valid(),
{
    lemma_virtual_path();
}

} // verus!

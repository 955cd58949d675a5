use bytes::BytesMut;
use usbip_usbd::descriptor::EnumerationError;
use usbip_usbd::endpoint::{EndpointIn, EndpointOut};
use usbip_usbd::protocol::{
    DeviceInfo, DeviceInterfaceInfo, ImportResponse, InterfaceInfo, Request, Response,
    SubmitRequest, SubmitResponse, UnlinkRequest, UnlinkResponse, UsbIpCodec,
};
use usbip_usbd::server::{completion_response, Client, ClientCore, Dispatch};
use usbip_usbd::urb::{ControlState, Urb, STATUS_OK, STATUS_STALLED};
use usbip_usbd::usb::{
    EndpointAddress, EndpointDescriptor, EndpointType, OutPacketType, UsbDirection, UsbError,
};

fn addr(number: u8, direction: UsbDirection) -> EndpointAddress {
    EndpointAddress::from_parts(number, direction)
}

fn control_pipe(max_packet_size: u16) -> (EndpointOut, EndpointIn) {
    (
        EndpointOut::new(EndpointDescriptor {
            address: addr(0, UsbDirection::Out),
            ep_type: EndpointType::Control,
            max_packet_size,
            interval: 0,
        }),
        EndpointIn::new(EndpointDescriptor {
            address: addr(0, UsbDirection::In),
            ep_type: EndpointType::Control,
            max_packet_size,
            interval: 0,
        }),
    )
}

fn submit(seqnum: u32, devid: u32, ep: EndpointAddress, length: u32, setup: Option<[u8; 8]>, data: &[u8]) -> SubmitRequest {
    SubmitRequest {
        seqnum,
        devid,
        ep,
        transfer_flags: 0,
        transfer_buffer_length: length,
        start_frame: 0,
        number_of_packets: 0,
        interval: 0,
        setup,
        data: BytesMut::from(data),
    }
}

const DEVICE: [u8; 18] = [18, 1, 0x00, 0x02, 2, 3, 4, 64, 0xc0, 0x16, 0xdd, 0x27, 0x10, 0x00, 1, 2, 3, 1];

fn configuration() -> Vec<u8> {
    let mut bytes = vec![9, 2, 25, 0, 1, 7, 0, 0x80, 50];
    bytes.extend_from_slice(&[9, 4, 0, 0, 1, 3, 1, 2, 0]);
    bytes.extend_from_slice(&[7, 5, 0x81, 3, 8, 0, 10]);
    bytes
}

/// Plays the device for one control transfer towards the host: reads the
/// SETUP packet, answers with `answer` cut to the length asked for, and
/// reads the status packet.
fn serve_control_in(core: &mut ClientCore, answer: &[u8]) -> [u8; 8] {
    let (mut ep_out, mut ep_in) = control_pipe(64);
    let mut buf = [0u8; 64];
    let got = ep_out.read_packet(core.channel_mut(), &mut buf);
    assert_eq!(got, Ok((8, OutPacketType::Setup)));
    let mut setup = [0u8; 8];
    setup.copy_from_slice(&buf[..8]);
    let wanted = usize::from(setup[6]) | (usize::from(setup[7]) << 8);
    let cut = &answer[..answer.len().min(wanted)];
    for packet in cut.chunks(64) {
        assert_eq!(ep_in.write_packet(core.channel_mut(), packet), Ok(()));
    }
    if cut.len() % 64 == 0 && cut.len() < wanted {
        assert_eq!(ep_in.write_packet(core.channel_mut(), &[]), Ok(()));
    }
    assert_eq!(ep_out.read_packet(core.channel_mut(), &mut buf), Ok((0, OutPacketType::Data)));
    setup
}

/// Plays the device for one control transfer without data.
fn serve_control_none(core: &mut ClientCore) -> [u8; 8] {
    let (mut ep_out, mut ep_in) = control_pipe(64);
    let mut buf = [0u8; 64];
    assert_eq!(ep_out.read_packet(core.channel_mut(), &mut buf), Ok((8, OutPacketType::Setup)));
    let mut setup = [0u8; 8];
    setup.copy_from_slice(&buf[..8]);
    assert_eq!(ep_in.write_packet(core.channel_mut(), &[]), Ok(()));
    setup
}

fn enumerate_fully(core: &mut ClientCore) -> DeviceInterfaceInfo {
    assert_eq!(core.enumerate(), None);
    assert_eq!(serve_control_in(core, &DEVICE), [0x80, 6, 0, 1, 0, 0, 18, 0]);
    let done = core.channel_mut().take_internal().unwrap();
    assert_eq!(core.enumerate_advance(done), Ok(None));
    assert_eq!(serve_control_none(core), [0x00, 5, 1, 0, 0, 0, 0, 0]);
    let done = core.channel_mut().take_internal().unwrap();
    assert_eq!(core.enumerate_advance(done), Ok(None));
    assert_eq!(serve_control_in(core, &configuration()), [0x80, 6, 0, 2, 0, 0, 9, 0]);
    let done = core.channel_mut().take_internal().unwrap();
    assert_eq!(done.data.len(), 9);
    assert_eq!(core.enumerate_advance(done), Ok(None));
    assert_eq!(serve_control_in(core, &configuration()), [0x80, 6, 0, 2, 0, 0, 25, 0]);
    let done = core.channel_mut().take_internal().unwrap();
    let found = core.enumerate_advance(done).unwrap().unwrap();
    assert!(core.channel_mut().take_completed().is_none());
    found
}

fn expected_info(bus_id: &str, devid: u32) -> DeviceInterfaceInfo {
    DeviceInterfaceInfo {
        device: DeviceInfo {
            path: String::from("/virtual"),
            busid: String::from(bus_id),
            busnum: 1,
            devnum: devid,
            speed: 2,
            id_vendor: 0x16c0,
            id_product: 0x27dd,
            bcd_device: 0x0010,
            device_class: 2,
            device_subclass: 3,
            device_protocol: 4,
            configuration_value: 7,
            num_configuration: 1,
            num_interfaces: 1,
        },
        interfaces: vec![InterfaceInfo {
            interface_class: 3,
            interface_subclass: 1,
            interface_protocol: 2,
        }],
    }
}

#[test]
fn attach_numbers_devices_from_one() {
    let mut client = Client::new();
    assert_eq!(client.device_count(), 0);
    let (_, first) = client.attach("1-1").unwrap();
    let (_, second) = client.attach("1-2").unwrap();
    assert_eq!((first, second), (1, 2));
    assert_eq!(client.device_count(), 2);
    assert_eq!(client.find_core(1), Some(0));
    assert_eq!(client.find_core(2), Some(1));
    assert_eq!(client.find_core(3), None);
    assert_eq!(client.find_core(0), None);
    assert_eq!(client.find_bus_id(&String::from("1-2")), Some(1));
    assert_eq!(client.find_bus_id(&String::from("1-3")), None);
    assert_eq!(client.core_at(1).devid(), 2);
    assert_eq!(client.core_at(1).bus_id(), "1-2");
}

#[test]
fn attach_rejects_a_bus_id_that_does_not_fit() {
    let mut client = Client::new();
    assert!(client.attach(&"x".repeat(33)).is_none());
    assert_eq!(client.device_count(), 0);
    let (_, devid) = client.attach(&"x".repeat(32)).unwrap();
    assert_eq!(devid, 1);
}

#[test]
fn submit_in_is_queued_on_its_endpoint() {
    let frame = [
        0x00, 0x00, 0x00, 0x01, 0x00, 0x00, 0x00, 0x05, 0x00, 0x00, 0x00, 0x01, 0x00, 0x00, 0x00,
        0x01, 0x00, 0x00, 0x00, 0x01, 0x00, 0x00, 0x00, 0x00, 0x00, 0x00, 0x00, 0x40, 0x00, 0x00,
        0x00, 0x00, 0x00, 0x00, 0x00, 0x00, 0x00, 0x00, 0x00, 0x00, 0x00, 0x00, 0x00, 0x00, 0x00,
        0x00, 0x00, 0x00,
    ];
    let mut src = BytesMut::from(&frame[..]);
    let request = UsbIpCodec::new().decode(&mut src).unwrap().unwrap();
    let mut client = Client::new();
    client.attach("1-1").unwrap();
    assert_eq!(client.dispatch(request), Dispatch::Queued);
    let core = client.core_at(0);
    assert!(core.take_poll_signal());
    assert!(!core.take_poll_signal());
    assert_eq!(core.channel_mut().pending(), 1);
    assert!(core.channel_mut().take_next_urb(addr(1, UsbDirection::Out)).is_none());
    let urb = core.channel_mut().take_next_urb(addr(1, UsbDirection::In)).unwrap();
    assert_eq!(urb.seqnum, 5);
    assert_eq!(urb.ep, addr(1, UsbDirection::In));
    assert_eq!(urb.req_ep, addr(1, UsbDirection::In));
    assert_eq!(urb.len, 64);
    assert_eq!(urb.control, None);
    assert!(urb.data.is_empty());
    assert!(!urb.internal);
    assert_eq!(urb.status, STATUS_OK);
}

#[test]
fn submit_out_carries_its_payload() {
    let mut client = Client::new();
    client.attach("1-1").unwrap();
    let req = submit(6, 1, addr(2, UsbDirection::Out), 3, None, &[1, 2, 3]);
    assert_eq!(client.handle_submit(req), None);
    let urb = client.core_at(0).channel_mut().take_next_urb(addr(2, UsbDirection::Out)).unwrap();
    assert_eq!(&urb.data[..], &[1, 2, 3]);
    assert_eq!(urb.len, 3);
}

#[test]
fn submit_for_unknown_device_is_answered_with_an_error() {
    let mut client = Client::new();
    client.attach("1-1").unwrap();
    let req = submit(6, 65537, addr(2, UsbDirection::In), 8, None, &[]);
    let reply = client.dispatch(Request::Submit(req));
    assert_eq!(
        reply,
        Dispatch::Reply(Response::Submit(SubmitResponse {
            seqnum: 6,
            devid: 65537,
            ep: addr(2, UsbDirection::In),
            status: 1,
            actual_length: 0,
            actual_start_frame: 0,
            number_of_packets: 0,
            error_count: 0,
            setup: None,
            data: BytesMut::new(),
        }))
    );
    assert_eq!(client.core_at(0).channel_mut().pending(), 0);
    assert!(!client.core_at(0).take_poll_signal());
}

#[test]
fn get_descriptor_device_over_the_wire() {
    let setup = [0x80, 0x06, 0x00, 0x01, 0x00, 0x00, 0x12, 0x00];
    let mut client = Client::new();
    client.attach("1-1").unwrap();
    let req = submit(77, 1, addr(0, UsbDirection::In), 18, Some(setup), &[]);
    assert_eq!(client.dispatch(Request::Submit(req)), Dispatch::Queued);

    let core = client.core_at(0);
    let (mut ep_out, mut ep_in) = control_pipe(64);
    let mut buf = [0u8; 64];
    assert!(core.channel_mut().take_next_urb(addr(0, UsbDirection::In)).is_none());
    assert_eq!(ep_out.read_packet(core.channel_mut(), &mut buf), Ok((8, OutPacketType::Setup)));
    assert_eq!(&buf[..8], &setup);
    let routed = core.channel_mut().take_next_urb(addr(0, UsbDirection::In)).unwrap();
    assert_eq!(routed.control.unwrap().state, ControlState::Data);
    core.channel_mut().complete_urb(routed);

    assert_eq!(ep_in.write_packet(core.channel_mut(), &DEVICE), Ok(()));
    let waiting = core.channel_mut().take_next_urb(addr(0, UsbDirection::Out)).unwrap();
    assert_eq!(waiting.data.len(), 18);
    assert_eq!(waiting.control.unwrap().state, ControlState::Status);
    core.channel_mut().complete_urb(waiting);

    assert_eq!(ep_out.read_packet(core.channel_mut(), &mut buf), Ok((0, OutPacketType::Data)));
    let done = core.channel_mut().take_completed().unwrap();
    let reply = completion_response(done).unwrap();
    assert_eq!(
        reply,
        Response::Submit(SubmitResponse {
            seqnum: 77,
            devid: 1,
            ep: addr(0, UsbDirection::In),
            status: 0,
            actual_length: 18,
            actual_start_frame: 0,
            number_of_packets: 0,
            error_count: 0,
            setup: None,
            data: BytesMut::from(&DEVICE[..]),
        })
    );
    let mut wire = BytesMut::new();
    UsbIpCodec::new().encode(reply, &mut wire).unwrap();
    assert_eq!(wire.len(), 48 + 18);
    assert_eq!(&wire[..4], &[0, 0, 0, 3]);
    assert_eq!(&wire[4..8], &[0, 0, 0, 77]);
    assert_eq!(&wire[12..16], &[0, 0, 0, 1]);
    assert_eq!(&wire[20..24], &[0, 0, 0, 0]);
    assert_eq!(&wire[24..28], &[0, 0, 0, 18]);
    assert_eq!(&wire[48..], &DEVICE);
}

#[test]
fn unlink_hit() {
    let mut client = Client::new();
    client.attach("1-1").unwrap();
    let req = submit(9, 1, addr(1, UsbDirection::In), 8, None, &[]);
    assert_eq!(client.dispatch(Request::Submit(req)), Dispatch::Queued);
    let unlink = UnlinkRequest { seqnum: 10, devid: 1, ep: addr(1, UsbDirection::In), unlink_seqnum: 9 };
    assert_eq!(
        client.dispatch(Request::Unlink(unlink)),
        Dispatch::Reply(Response::Unlink(UnlinkResponse {
            seqnum: 10,
            devid: 1,
            ep: addr(1, UsbDirection::In),
            status: 1,
            unlink_seqnum: 9,
        }))
    );
    let core = client.core_at(0);
    assert_eq!(core.channel_mut().pending(), 0);
    let mut ep = EndpointIn::new(EndpointDescriptor {
        address: addr(1, UsbDirection::In),
        ep_type: EndpointType::Bulk,
        max_packet_size: 8,
        interval: 0,
    });
    assert_eq!(ep.write_packet(core.channel_mut(), &[1]), Err(UsbError::WouldBlock));
    assert!(core.channel_mut().take_completed().is_none());
}

#[test]
fn unlink_miss() {
    let mut client = Client::new();
    client.attach("1-1").unwrap();
    let unlink = UnlinkRequest { seqnum: 10, devid: 1, ep: addr(1, UsbDirection::In), unlink_seqnum: 777 };
    assert_eq!(
        client.handle_unlink(unlink),
        Response::Unlink(UnlinkResponse {
            seqnum: 10,
            devid: 1,
            ep: addr(1, UsbDirection::In),
            status: 0,
            unlink_seqnum: 777,
        })
    );
}

#[test]
fn unlink_for_unknown_device_misses() {
    let mut client = Client::new();
    client.attach("1-1").unwrap();
    let req = submit(9, 1, addr(1, UsbDirection::In), 8, None, &[]);
    client.handle_submit(req);
    let unlink = UnlinkRequest { seqnum: 10, devid: 2, ep: addr(1, UsbDirection::In), unlink_seqnum: 9 };
    match client.handle_unlink(unlink) {
        Response::Unlink(res) => assert_eq!(res.status, 0),
        other => panic!("unexpected {:?}", other),
    }
    assert_eq!(client.core_at(0).channel_mut().pending(), 1);
}

#[test]
fn reply_carries_the_identity_of_the_request() {
    let mut client = Client::new();
    client.attach("1-1").unwrap();
    let req = submit(0xabcd, 1, addr(3, UsbDirection::In), 100, None, &[]);
    client.handle_submit(req);
    let core = client.core_at(0);
    let mut ep = EndpointIn::new(EndpointDescriptor {
        address: addr(3, UsbDirection::In),
        ep_type: EndpointType::Bulk,
        max_packet_size: 64,
        interval: 0,
    });
    assert_eq!(ep.write_packet(core.channel_mut(), &[1, 2, 3, 4, 5]), Ok(()));
    let done = core.channel_mut().take_completed().unwrap();
    match completion_response(done).unwrap() {
        Response::Submit(res) => {
            assert_eq!(res.seqnum, 0xabcd);
            assert_eq!(res.devid, 1);
            assert_eq!(res.ep, addr(3, UsbDirection::In));
            assert_eq!(res.actual_length, 5);
            assert_eq!(&res.data[..], &[1, 2, 3, 4, 5]);
            assert_eq!(res.status, 0);
        }
        other => panic!("unexpected {:?}", other),
    }
}

#[test]
fn completion_of_out_transfer_has_no_payload() {
    let urb = Urb {
        seqnum: 4,
        devid: 1,
        ep: addr(1, UsbDirection::Out),
        req_ep: addr(1, UsbDirection::Out),
        len: 3,
        control: None,
        data: BytesMut::from(&[1, 2, 3][..]),
        status: STATUS_STALLED,
        internal: false,
    };
    match completion_response(urb).unwrap() {
        Response::Submit(res) => {
            assert_eq!(res.actual_length, 0);
            assert!(res.data.is_empty());
            assert_eq!(res.status, STATUS_STALLED);
        }
        other => panic!("unexpected {:?}", other),
    }
}

#[test]
fn internal_completion_is_not_sent() {
    let urb = Urb {
        seqnum: 0,
        devid: 0,
        ep: addr(0, UsbDirection::Out),
        req_ep: addr(0, UsbDirection::In),
        len: 18,
        control: None,
        data: BytesMut::new(),
        status: STATUS_OK,
        internal: true,
    };
    assert_eq!(completion_response(urb), None);
}

#[test]
fn enumeration_reads_the_device() {
    let mut core = ClientCore::new(3, "2-4");
    let found = enumerate_fully(&mut core);
    assert_eq!(found, expected_info("2-4", 3));
    assert_eq!(core.enumerate(), Some(expected_info("2-4", 3)));
    assert_eq!(core.channel_mut().pending(), 0);
}

#[test]
fn enumeration_is_started_once() {
    let mut core = ClientCore::new(3, "2-4");
    assert_eq!(core.enumerate(), None);
    assert_eq!(core.enumerate(), None);
    assert_eq!(core.channel_mut().pending(), 1);
    assert!(core.take_poll_signal());
}

#[test]
fn enumeration_fails_on_a_bad_descriptor_and_starts_anew() {
    let mut core = ClientCore::new(3, "2-4");
    assert_eq!(core.enumerate(), None);
    let mut bad = DEVICE;
    bad[1] = 9;
    serve_control_in(&mut core, &bad);
    let done = core.channel_mut().take_internal().unwrap();
    assert_eq!(core.enumerate_advance(done), Err(EnumerationError::DeviceWrongType));
    assert_eq!(core.channel_mut().pending(), 0);
    assert_eq!(enumerate_fully(&mut core), expected_info("2-4", 3));
}

#[test]
fn enumeration_fails_on_a_short_answer() {
    let mut core = ClientCore::new(3, "2-4");
    assert_eq!(core.enumerate(), None);
    serve_control_in(&mut core, &DEVICE[..8]);
    let done = core.channel_mut().take_internal().unwrap();
    assert_eq!(core.enumerate_advance(done), Err(EnumerationError::DataTooShort(1)));
}

#[test]
fn enumeration_fails_on_a_failed_transfer() {
    let mut core = ClientCore::new(3, "2-4");
    assert_eq!(core.enumerate(), None);
    let (mut ep_out, _) = control_pipe(64);
    ep_out.set_stalled(true).unwrap();
    let mut buf = [0u8; 64];
    assert_eq!(ep_out.read_packet(core.channel_mut(), &mut buf), Err(UsbError::WouldBlock));
    let done = core.channel_mut().take_internal().unwrap();
    assert_eq!(core.enumerate_advance(done), Err(EnumerationError::TransferFailed));
    assert_eq!(core.enumerate(), None);
    assert_eq!(core.channel_mut().pending(), 1);
}

#[test]
fn enumeration_fails_on_a_configuration_of_another_length() {
    let mut core = ClientCore::new(3, "2-4");
    assert_eq!(core.enumerate(), None);
    serve_control_in(&mut core, &DEVICE);
    let done = core.channel_mut().take_internal().unwrap();
    assert_eq!(core.enumerate_advance(done), Ok(None));
    serve_control_none(&mut core);
    let done = core.channel_mut().take_internal().unwrap();
    assert_eq!(core.enumerate_advance(done), Ok(None));
    serve_control_in(&mut core, &configuration());
    let done = core.channel_mut().take_internal().unwrap();
    assert_eq!(core.enumerate_advance(done), Ok(None));
    serve_control_in(&mut core, &configuration()[..20]);
    let done = core.channel_mut().take_internal().unwrap();
    assert_eq!(core.enumerate_advance(done), Err(EnumerationError::TotalLengthMismatch));
}

#[test]
fn completion_without_enumeration_is_unexpected() {
    let mut core = ClientCore::new(3, "2-4");
    let urb = Urb {
        seqnum: 0,
        devid: 0,
        ep: addr(0, UsbDirection::Out),
        req_ep: addr(0, UsbDirection::In),
        len: 18,
        control: None,
        data: BytesMut::from(&DEVICE[..]),
        status: STATUS_OK,
        internal: true,
    };
    assert_eq!(core.enumerate_advance(urb), Err(EnumerationError::Unexpected));
}

#[test]
fn import_of_unknown_bus_id_fails() {
    let mut client = Client::new();
    client.attach("1-1").unwrap();
    assert_eq!(
        client.dispatch(Request::Import(String::from("9-9"))),
        Dispatch::Reply(Response::Import(ImportResponse { status: 1, device: None }))
    );
}

#[test]
fn import_enumerates_first() {
    let mut client = Client::new();
    client.attach("1-1").unwrap();
    let step = client.dispatch(Request::Import(String::from("1-1")));
    assert_eq!(
        step,
        Dispatch::Enumerate { devid: 1, request: Request::Import(String::from("1-1")) }
    );
    let core = client.core_at(0);
    assert_eq!(serve_control_in(core, &DEVICE), [0x80, 6, 0, 1, 0, 0, 18, 0]);
    let done = core.channel_mut().take_internal().unwrap();
    assert_eq!(core.enumerate_advance(done), Ok(None));
    serve_control_none(core);
    let done = core.channel_mut().take_internal().unwrap();
    assert_eq!(core.enumerate_advance(done), Ok(None));
    serve_control_in(core, &configuration());
    let done = core.channel_mut().take_internal().unwrap();
    assert_eq!(core.enumerate_advance(done), Ok(None));
    serve_control_in(core, &configuration());
    let done = core.channel_mut().take_internal().unwrap();
    assert!(core.enumerate_advance(done).unwrap().is_some());
    assert_eq!(
        client.dispatch(Request::Import(String::from("1-1"))),
        Dispatch::Reply(Response::Import(ImportResponse {
            status: 0,
            device: Some(expected_info("1-1", 1).device),
        }))
    );
}

#[test]
fn device_list_names_every_device() {
    let mut client = Client::new();
    assert_eq!(client.dispatch(Request::DevList), Dispatch::Reply(Response::DevList(vec![])));
    client.attach("1-1").unwrap();
    client.attach("1-2").unwrap();
    assert_eq!(
        client.dispatch(Request::DevList),
        Dispatch::Enumerate { devid: 1, request: Request::DevList }
    );
    enumerate_rest(client.core_at(0));
    assert_eq!(
        client.handle_devlist(),
        Dispatch::Enumerate { devid: 2, request: Request::DevList }
    );
    enumerate_rest(client.core_at(1));
    assert_eq!(
        client.dispatch(Request::DevList),
        Dispatch::Reply(Response::DevList(vec![expected_info("1-1", 1), expected_info("1-2", 2)]))
    );
}

/// Carries an enumeration that was started through to its end.
fn enumerate_rest(core: &mut ClientCore) {
    serve_control_in(core, &DEVICE);
    let done = core.channel_mut().take_internal().unwrap();
    assert_eq!(core.enumerate_advance(done), Ok(None));
    serve_control_none(core);
    let done = core.channel_mut().take_internal().unwrap();
    assert_eq!(core.enumerate_advance(done), Ok(None));
    serve_control_in(core, &configuration());
    let done = core.channel_mut().take_internal().unwrap();
    assert_eq!(core.enumerate_advance(done), Ok(None));
    serve_control_in(core, &configuration());
    let done = core.channel_mut().take_internal().unwrap();
    assert!(core.enumerate_advance(done).unwrap().is_some());
}

#[test]
fn control_transfer_queues_an_internal_urb() {
    let mut core = ClientCore::new(1, "1-1");
    core.get_descriptor(2, 0, 9);
    let urb = core.channel_mut().take_next_urb(addr(0, UsbDirection::Out)).unwrap();
    assert!(urb.internal);
    assert_eq!(urb.req_ep, addr(0, UsbDirection::In));
    assert_eq!(urb.len, 9);
    assert_eq!(urb.control.unwrap().setup, [0x80, 6, 0, 2, 0, 0, 9, 0]);
    assert_eq!(urb.control.unwrap().state, ControlState::Setup);
}

#[test]
fn core_unlink_and_submit() {
    let mut core = ClientCore::new(1, "1-1");
    assert!(!core.unlink_urb(1));
    core.submit_urb(Urb {
        seqnum: 1,
        devid: 1,
        ep: addr(1, UsbDirection::In),
        req_ep: addr(1, UsbDirection::In),
        len: 1,
        control: None,
        data: BytesMut::new(),
        status: STATUS_OK,
        internal: false,
    });
    assert!(core.take_poll_signal());
    assert!(core.unlink_urb(1));
    assert_eq!(core.channel_mut().pending(), 0);
}

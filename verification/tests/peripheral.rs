use bytes::BytesMut;
use usbip_usbd::bus::UsbBus;
use usbip_usbd::channel::CoreChannel;
use usbip_usbd::control::{ControlRequest, Recipient, RequestType};
use usbip_usbd::descriptor::{
    parse_configuration_header, parse_device_descriptor, parse_interfaces, ConfigurationHeader,
    DeviceDescriptor, EnumerationError,
};
use usbip_usbd::device::Device;
use usbip_usbd::protocol::InterfaceInfo;
use usbip_usbd::urb::{Urb, STATUS_OK};
use usbip_usbd::usb::{
    EndpointAddress, EndpointConfig, EndpointType, OutPacketType, PollResult, UsbDirection,
    UsbError,
};
use usbip_usbd::usbcore::{EndpointAllocator, UsbCore};

fn config(number: Option<u8>) -> EndpointConfig {
    EndpointConfig { number, ep_type: EndpointType::Bulk, max_packet_size: 64, interval: 0 }
}

fn addr(number: u8, direction: UsbDirection) -> EndpointAddress {
    EndpointAddress::from_parts(number, direction)
}

fn bulk_urb(seqnum: u32, ep: EndpointAddress, len: usize, data: &[u8]) -> Urb {
    Urb {
        seqnum,
        devid: 1,
        ep,
        req_ep: ep,
        len,
        control: None,
        data: BytesMut::from(data),
        status: STATUS_OK,
        internal: false,
    }
}

#[test]
fn allocator_counts_from_one() {
    let mut alloc = EndpointAllocator::new();
    let first = alloc.alloc_ep(UsbDirection::Out, &config(None)).unwrap();
    assert_eq!(first.address, addr(1, UsbDirection::Out));
    assert_eq!(first.max_packet_size, 64);
    assert_eq!(first.ep_type, EndpointType::Bulk);
    let second = alloc.alloc_ep(UsbDirection::In, &config(None)).unwrap();
    assert_eq!(second.address, addr(2, UsbDirection::In));
}

#[test]
fn allocator_takes_each_address_once_per_direction() {
    let mut alloc = EndpointAllocator::new();
    assert!(alloc.alloc_ep(UsbDirection::Out, &config(Some(0))).is_ok());
    assert!(alloc.alloc_ep(UsbDirection::In, &config(Some(0))).is_ok());
    assert_eq!(
        alloc.alloc_ep(UsbDirection::Out, &config(Some(0))),
        Err(UsbError::InvalidEndpoint)
    );
    assert_eq!(alloc.alloc_ep(UsbDirection::In, &config(Some(0))), Err(UsbError::InvalidEndpoint));
    assert!(alloc.alloc_ep(UsbDirection::In, &config(Some(15))).is_ok());
}

#[test]
fn allocator_rejects_numbers_from_sixteen() {
    let mut alloc = EndpointAllocator::new();
    assert_eq!(
        alloc.alloc_ep(UsbDirection::Out, &config(Some(16))),
        Err(UsbError::EndpointOverflow)
    );
    assert_eq!(
        alloc.alloc_ep(UsbDirection::In, &config(Some(255))),
        Err(UsbError::EndpointOverflow)
    );
    for number in 1..16u8 {
        let got = alloc.alloc_ep(UsbDirection::In, &config(None)).unwrap();
        assert_eq!(got.address.number, number);
    }
    assert_eq!(alloc.alloc_ep(UsbDirection::In, &config(None)), Err(UsbError::EndpointOverflow));
    assert_eq!(alloc.alloc_ep(UsbDirection::Out, &config(None)), Err(UsbError::EndpointOverflow));
}

#[test]
fn automatic_number_collides_with_a_taken_one() {
    let mut alloc = EndpointAllocator::new();
    assert!(alloc.alloc_ep(UsbDirection::Out, &config(Some(1))).is_ok());
    assert_eq!(alloc.alloc_ep(UsbDirection::Out, &config(None)), Err(UsbError::InvalidEndpoint));
    let got = alloc.alloc_ep(UsbDirection::In, &config(None)).unwrap();
    assert_eq!(got.address, addr(1, UsbDirection::In));
    let got = alloc.alloc_ep(UsbDirection::Out, &config(None)).unwrap();
    assert_eq!(got.address, addr(2, UsbDirection::Out));
}

#[test]
fn fixed_number_leaves_the_counter() {
    let mut alloc = EndpointAllocator::new();
    assert!(alloc.alloc_ep(UsbDirection::Out, &config(Some(5))).is_ok());
    let got = alloc.alloc_ep(UsbDirection::Out, &config(None)).unwrap();
    assert_eq!(got.address.number, 1);
}

#[test]
fn allocator_makes_adapters() {
    let mut alloc = EndpointAllocator::new();
    let ep_out = alloc.alloc_out(&config(Some(3))).unwrap();
    assert_eq!(ep_out.address(), addr(3, UsbDirection::Out));
    assert_eq!(ep_out.max_packet_size(), 64);
    assert_eq!(ep_out.is_stalled(), Ok(false));
    let ep_in = alloc.alloc_in(&config(Some(3))).unwrap();
    assert_eq!(ep_in.address(), addr(3, UsbDirection::In));
    assert_eq!(alloc.alloc_out(&config(Some(3))).err(), Some(UsbError::InvalidEndpoint));
    assert_eq!(alloc.alloc_in(&config(Some(16))).err(), Some(UsbError::EndpointOverflow));
    assert_eq!(alloc.begin_interface(), Ok(()));
    assert_eq!(alloc.next_alt_setting(), Ok(()));
}

#[test]
fn core_polls_everything_ready() {
    let mut core = UsbCore::new();
    assert_eq!(
        core.poll(),
        Ok(PollResult::Data { ep_out: 0xffff, ep_in_complete: 0xffff, ep_setup: 0 })
    );
    assert_eq!(core.reset(), Ok(()));
    assert_eq!(core.set_device_address(5), Ok(()));
    assert_eq!(core.suspend(), Ok(()));
    assert_eq!(core.resume(), Ok(()));
    assert_eq!(core.force_reset(), Err(UsbError::Unsupported));
    let alloc = core.create_allocator();
    assert_eq!(core.enable(alloc), Ok(()));
}

#[test]
fn core_keeps_stall_in_the_endpoint() {
    let mut core = UsbCore::new();
    let mut alloc = core.create_allocator();
    core.add_out(alloc.alloc_out(&config(Some(1))).unwrap());
    core.add_in(alloc.alloc_in(&config(Some(1))).unwrap());
    assert_eq!(core.is_stalled(addr(1, UsbDirection::In)), Ok(false));
    assert_eq!(core.set_stalled(addr(1, UsbDirection::In), true), Ok(()));
    assert_eq!(core.is_stalled(addr(1, UsbDirection::In)), Ok(true));
    assert_eq!(core.is_stalled(addr(1, UsbDirection::Out)), Ok(false));
    assert_eq!(core.set_stalled(addr(2, UsbDirection::In), true), Err(UsbError::InvalidEndpoint));
    assert_eq!(core.is_stalled(addr(2, UsbDirection::Out)), Err(UsbError::InvalidEndpoint));
    assert_eq!(core.set_stalled(addr(1, UsbDirection::In), false), Ok(()));
    assert_eq!(core.is_stalled(addr(1, UsbDirection::In)), Ok(false));
}

#[test]
fn core_reaches_endpoints_by_address() {
    let mut core = UsbCore::new();
    let mut alloc = core.create_allocator();
    core.add_out(alloc.alloc_out(&config(Some(1))).unwrap());
    core.add_in(alloc.alloc_in(&config(Some(2))).unwrap());
    let mut channel = CoreChannel::new();
    channel.submit_urb(bulk_urb(1, addr(1, UsbDirection::Out), 2, &[8, 9]));
    channel.submit_urb(bulk_urb(2, addr(2, UsbDirection::In), 8, &[]));
    let mut buf = [0u8; 64];
    assert_eq!(
        core.read_packet(addr(2, UsbDirection::Out), &mut channel, &mut buf),
        Err(UsbError::InvalidEndpoint)
    );
    assert_eq!(
        core.read_packet(addr(1, UsbDirection::In), &mut channel, &mut buf),
        Err(UsbError::InvalidEndpoint)
    );
    assert_eq!(
        core.read_packet(addr(1, UsbDirection::Out), &mut channel, &mut buf),
        Ok((2, OutPacketType::Data))
    );
    assert_eq!(&buf[..2], &[8, 9]);
    assert_eq!(
        core.write_packet(addr(1, UsbDirection::In), &mut channel, &[1]),
        Err(UsbError::InvalidEndpoint)
    );
    assert_eq!(core.write_packet(addr(2, UsbDirection::In), &mut channel, &[1]), Ok(()));
    assert_eq!(channel.take_completed().unwrap().seqnum, 1);
    assert_eq!(channel.take_completed().unwrap().seqnum, 2);
}

#[test]
fn bus_allocates_and_transfers() {
    let mut bus = UsbBus::new();
    let out = bus.alloc_ep(UsbDirection::Out, None, EndpointType::Bulk, 8, 0);
    assert_eq!(out, Ok(addr(1, UsbDirection::Out)));
    let inn = bus.alloc_ep(UsbDirection::In, Some(addr(1, UsbDirection::In)), EndpointType::Bulk, 8, 0);
    assert_eq!(inn, Ok(addr(1, UsbDirection::In)));
    assert_eq!(
        bus.alloc_ep(UsbDirection::In, Some(addr(1, UsbDirection::In)), EndpointType::Bulk, 8, 0),
        Err(UsbError::InvalidEndpoint)
    );
    assert_eq!(
        bus.alloc_ep(UsbDirection::In, Some(addr(16, UsbDirection::In)), EndpointType::Bulk, 8, 0),
        Err(UsbError::EndpointOverflow)
    );
    bus.enable();
    bus.reset();
    bus.set_device_address(1);
    bus.suspend();
    bus.resume();
    assert_eq!(bus.force_reset(), Err(UsbError::Unsupported));
    assert_eq!(
        bus.poll(),
        PollResult::Data { ep_out: 0xffff, ep_in_complete: 0xffff, ep_setup: 1 }
    );
    let mut channel = CoreChannel::new();
    channel.submit_urb(bulk_urb(1, addr(1, UsbDirection::Out), 3, &[1, 2, 3]));
    channel.submit_urb(bulk_urb(2, addr(1, UsbDirection::In), 8, &[]));
    let mut buf = [0u8; 8];
    assert_eq!(
        bus.read(addr(1, UsbDirection::Out), &mut channel, &mut buf),
        Ok((3, OutPacketType::Data))
    );
    assert_eq!(bus.write(addr(1, UsbDirection::In), &mut channel, &[4, 5]), Ok(2));
    assert_eq!(
        bus.write(addr(3, UsbDirection::In), &mut channel, &[4, 5]),
        Err(UsbError::InvalidEndpoint)
    );
    assert!(!bus.is_stalled(addr(1, UsbDirection::In)));
    bus.set_stalled(addr(1, UsbDirection::In), true);
    assert!(bus.is_stalled(addr(1, UsbDirection::In)));
    assert!(!bus.is_stalled(addr(9, UsbDirection::In)));
    bus.set_stalled(addr(9, UsbDirection::In), true);
    assert!(!bus.is_stalled(addr(9, UsbDirection::In)));
}

#[test]
fn device_starts_suspended() {
    assert_eq!(Device::new(), Device { enumerated: false, suspended: true });
}

#[test]
fn setup_packet_of_get_descriptor() {
    let req = ControlRequest::get_descriptor(1, 0, 18);
    assert_eq!(req.setup_packet(), [0x80, 0x06, 0x00, 0x01, 0x00, 0x00, 0x12, 0x00]);
    let req = ControlRequest::get_descriptor(2, 3, 0x1234);
    assert_eq!(req.setup_packet(), [0x80, 0x06, 0x03, 0x02, 0x00, 0x00, 0x34, 0x12]);
}

#[test]
fn setup_packet_of_set_address() {
    assert_eq!(ControlRequest::set_address(1).setup_packet(), [0x00, 0x05, 1, 0, 0, 0, 0, 0]);
}

#[test]
fn setup_packet_packs_the_request_type() {
    let req = ControlRequest {
        direction: UsbDirection::In,
        request_type: RequestType::Vendor,
        recipient: Recipient::Other,
        request: 0xab,
        value: 0x0102,
        index: 0x0304,
        length: 0x0506,
    };
    assert_eq!(req.setup_packet(), [0xc3, 0xab, 0x02, 0x01, 0x04, 0x03, 0x06, 0x05]);
    let req = ControlRequest {
        direction: UsbDirection::Out,
        request_type: RequestType::Class,
        recipient: Recipient::Interface,
        request: 0x20,
        value: 0,
        index: 0,
        length: 7,
    };
    assert_eq!(req.setup_packet()[0], 0x21);
    assert_eq!(RequestType::Reserved.code(), 3);
    assert_eq!(Recipient::Reserved.code(), 4);
    assert_eq!(Recipient::Endpoint.code(), 2);
    assert_eq!(RequestType::Standard.code(), 0);
    assert_eq!(Recipient::Device.code(), 0);
}

const DEVICE: [u8; 18] = [18, 1, 0x00, 0x02, 2, 3, 4, 64, 0xc0, 0x16, 0xdd, 0x27, 0x10, 0x00, 1, 2, 3, 5];

#[test]
fn device_descriptor_fields() {
    assert_eq!(
        parse_device_descriptor(&DEVICE),
        Ok(DeviceDescriptor {
            device_class: 2,
            device_subclass: 3,
            device_protocol: 4,
            id_vendor: 0x16c0,
            id_product: 0x27dd,
            bcd_device: 0x0010,
            num_configuration: 5,
        })
    );
}

#[test]
fn device_descriptor_errors() {
    assert_eq!(parse_device_descriptor(&DEVICE[..17]), Err(EnumerationError::DataTooShort(1)));
    assert_eq!(parse_device_descriptor(&[]), Err(EnumerationError::DataTooShort(1)));
    let mut bad = DEVICE;
    bad[0] = 17;
    assert_eq!(parse_device_descriptor(&bad), Err(EnumerationError::DeviceLengthTooSmall));
    let mut bad = DEVICE;
    bad[1] = 2;
    assert_eq!(parse_device_descriptor(&bad), Err(EnumerationError::DeviceWrongType));
}

fn configuration() -> Vec<u8> {
    let mut bytes = vec![9, 2, 0, 0, 2, 1, 0, 0x80, 50];
    bytes.extend_from_slice(&[9, 4, 0, 0, 1, 2, 2, 1, 0]);
    bytes.extend_from_slice(&[5, 0x24, 0, 0x10, 1]);
    bytes.extend_from_slice(&[7, 5, 0x82, 3, 8, 0, 255]);
    bytes.extend_from_slice(&[9, 4, 1, 0, 2, 10, 0, 0, 0]);
    bytes.extend_from_slice(&[7, 5, 0x81, 2, 64, 0, 0]);
    let total = bytes.len() as u16;
    bytes[2] = (total & 0xff) as u8;
    bytes[3] = (total >> 8) as u8;
    bytes
}

#[test]
fn configuration_header_fields() {
    let bytes = configuration();
    assert_eq!(
        parse_configuration_header(&bytes[..9]),
        Ok(ConfigurationHeader { total_length: 46, num_interfaces: 2, configuration_value: 1 })
    );
    let mut long = bytes.clone();
    long[2] = 0x34;
    long[3] = 0x12;
    assert_eq!(parse_configuration_header(&long).unwrap().total_length, 0x1234);
}

#[test]
fn configuration_header_errors() {
    let bytes = configuration();
    assert_eq!(parse_configuration_header(&bytes[..8]), Err(EnumerationError::DataTooShort(2)));
    let mut bad = bytes.clone();
    bad[0] = 8;
    assert_eq!(
        parse_configuration_header(&bad),
        Err(EnumerationError::ConfigurationLengthTooSmall)
    );
    let mut bad = bytes.clone();
    bad[1] = 1;
    assert_eq!(parse_configuration_header(&bad), Err(EnumerationError::ConfigurationWrongType));
}

#[test]
fn interfaces_of_a_configuration() {
    assert_eq!(
        parse_interfaces(&configuration()),
        Ok(vec![
            InterfaceInfo { interface_class: 2, interface_subclass: 2, interface_protocol: 1 },
            InterfaceInfo { interface_class: 10, interface_subclass: 0, interface_protocol: 0 },
        ])
    );
    let alone = [9, 2, 9, 0, 0, 1, 0, 0x80, 50];
    assert_eq!(parse_interfaces(&alone), Ok(vec![]));
}

#[test]
fn interfaces_errors() {
    let bytes = configuration();
    assert_eq!(parse_interfaces(&bytes[..45]), Err(EnumerationError::TotalLengthMismatch));
    assert_eq!(parse_interfaces(&bytes[..5]), Err(EnumerationError::DataTooShort(2)));

    let mut one_left = bytes.clone();
    one_left.push(3);
    one_left[2] = 47;
    assert_eq!(parse_interfaces(&one_left), Err(EnumerationError::Truncated));

    let mut runs_over = bytes.clone();
    runs_over[39] = 8;
    assert_eq!(parse_interfaces(&runs_over), Err(EnumerationError::Truncated));

    let mut no_header = bytes.clone();
    no_header[18] = 1;
    assert_eq!(parse_interfaces(&no_header), Err(EnumerationError::Truncated));

    let mut short_interface = vec![9, 2, 17, 0, 1, 1, 0, 0x80, 50];
    short_interface.extend_from_slice(&[8, 4, 0, 0, 1, 2, 2, 1]);
    assert_eq!(parse_interfaces(&short_interface), Err(EnumerationError::InterfaceTooShort));

    let mut wrong_type = bytes.clone();
    wrong_type[1] = 4;
    assert_eq!(parse_interfaces(&wrong_type), Err(EnumerationError::ConfigurationWrongType));
}

use bytes::BytesMut;
use usbip_usbd::protocol::{
    DeviceInfo, DeviceInterfaceInfo, ImportResponse, InterfaceInfo, ProtocolError, Request,
    Response, SubmitRequest, SubmitResponse, UnlinkRequest, UnlinkResponse, UsbIpCodec,
    trim_bus_name,
};
use usbip_usbd::usb::{EndpointAddress, UsbDirection};

fn buffer(bytes: &[u8]) -> BytesMut {
    BytesMut::from(bytes)
}

fn submit_frame(direction: u32, ep: u32, length: u32, setup: [u8; 8], payload: &[u8]) -> Vec<u8> {
    let mut frame: Vec<u8> = Vec::new();
    frame.extend_from_slice(&1u32.to_be_bytes());
    frame.extend_from_slice(&5u32.to_be_bytes());
    frame.extend_from_slice(&0x0001_0001u32.to_be_bytes());
    frame.extend_from_slice(&direction.to_be_bytes());
    frame.extend_from_slice(&ep.to_be_bytes());
    frame.extend_from_slice(&0x0000_0200u32.to_be_bytes());
    frame.extend_from_slice(&length.to_be_bytes());
    frame.extend_from_slice(&7u32.to_be_bytes());
    frame.extend_from_slice(&0u32.to_be_bytes());
    frame.extend_from_slice(&9u32.to_be_bytes());
    frame.extend_from_slice(&setup);
    frame.extend_from_slice(payload);
    frame
}

fn sample_device() -> DeviceInfo {
    DeviceInfo {
        path: String::from("/virtual"),
        busid: String::from("1-1"),
        busnum: 1,
        devnum: 2,
        speed: 2,
        id_vendor: 0x16c0,
        id_product: 0x27dd,
        bcd_device: 0x0010,
        device_class: 2,
        device_subclass: 3,
        device_protocol: 4,
        configuration_value: 1,
        num_configuration: 1,
        num_interfaces: 2,
    }
}

fn device_block() -> Vec<u8> {
    let mut block = vec![0u8; 312];
    block[..8].copy_from_slice(b"/virtual");
    block[256..259].copy_from_slice(b"1-1");
    block[288..292].copy_from_slice(&[0, 0, 0, 1]);
    block[292..296].copy_from_slice(&[0, 0, 0, 2]);
    block[296..300].copy_from_slice(&[0, 0, 0, 2]);
    block[300..302].copy_from_slice(&[0x16, 0xc0]);
    block[302..304].copy_from_slice(&[0x27, 0xdd]);
    block[304..306].copy_from_slice(&[0x00, 0x10]);
    block[306..312].copy_from_slice(&[2, 3, 4, 1, 1, 2]);
    block
}

#[test]
fn decode_devlist_request() {
    let mut src = buffer(&[0x01, 0x11, 0x80, 0x05, 0, 0, 0, 0]);
    let got = UsbIpCodec::new().decode(&mut src);
    assert_eq!(got, Ok(Some(Request::DevList)));
    assert!(src.is_empty());
}

#[test]
fn decode_import_request() {
    let mut bytes = vec![0x01, 0x11, 0x80, 0x03, 0, 0, 0, 0, 0x31, 0x2d, 0x31, 0x00];
    bytes.extend_from_slice(&[0u8; 28]);
    let mut src = buffer(&bytes);
    let got = UsbIpCodec::new().decode(&mut src);
    assert_eq!(got, Ok(Some(Request::Import(String::from("1-1")))));
    assert!(src.is_empty());
}

#[test]
fn decode_import_keeps_inner_nul_and_replaces_bad_bytes() {
    let mut bytes = vec![0x01, 0x11, 0x80, 0x03, 0, 0, 0, 0];
    let mut field = [0u8; 32];
    field[0] = b'a';
    field[1] = 0;
    field[2] = 0xff;
    field[3] = b'b';
    bytes.extend_from_slice(&field);
    let mut src = buffer(&bytes);
    let got = UsbIpCodec::new().decode(&mut src);
    assert_eq!(got, Ok(Some(Request::Import(String::from("a\0\u{fffd}b")))));
}

#[test]
fn trim_bus_name_drops_trailing_nuls_only() {
    assert_eq!(trim_bus_name("1-1\0\0\0"), "1-1");
    assert_eq!(trim_bus_name("\0a\0"), "\0a");
    assert_eq!(trim_bus_name("\0\0"), "");
    assert_eq!(trim_bus_name("plain"), "plain");
}

#[test]
fn decode_minimal_submit_in() {
    let frame = [
        0x00, 0x00, 0x00, 0x01, 0x00, 0x00, 0x00, 0x05, 0x00, 0x01, 0x00, 0x01, 0x00, 0x00, 0x00,
        0x01, 0x00, 0x00, 0x00, 0x01, 0x00, 0x00, 0x00, 0x00, 0x00, 0x00, 0x00, 0x40, 0x00, 0x00,
        0x00, 0x00, 0x00, 0x00, 0x00, 0x00, 0x00, 0x00, 0x00, 0x00, 0x00, 0x00, 0x00, 0x00, 0x00,
        0x00, 0x00, 0x00,
    ];
    let mut src = buffer(&frame);
    let got = UsbIpCodec::new().decode(&mut src);
    assert_eq!(
        got,
        Ok(Some(Request::Submit(SubmitRequest {
            seqnum: 5,
            devid: 0x0001_0001,
            ep: EndpointAddress::from_parts(1, UsbDirection::In),
            transfer_flags: 0,
            transfer_buffer_length: 64,
            start_frame: 0,
            number_of_packets: 0,
            interval: 0,
            setup: None,
            data: BytesMut::new(),
        })))
    );
    assert!(src.is_empty());
}

#[test]
fn decode_submit_out_takes_payload() {
    let mut bytes = submit_frame(0, 2, 3, [0; 8], &[0xaa, 0xbb, 0xcc]);
    bytes.extend_from_slice(&[0x01, 0x11]);
    let mut src = buffer(&bytes);
    let got = UsbIpCodec::new().decode(&mut src);
    assert_eq!(
        got,
        Ok(Some(Request::Submit(SubmitRequest {
            seqnum: 5,
            devid: 0x0001_0001,
            ep: EndpointAddress::from_parts(2, UsbDirection::Out),
            transfer_flags: 0x200,
            transfer_buffer_length: 3,
            start_frame: 7,
            number_of_packets: 0,
            interval: 9,
            setup: None,
            data: BytesMut::from(&[0xaa, 0xbb, 0xcc][..]),
        })))
    );
    assert_eq!(&src[..], &[0x01, 0x11]);
}

#[test]
fn decode_submit_out_waits_for_payload() {
    let bytes = submit_frame(0, 2, 3, [0; 8], &[0xaa, 0xbb]);
    let mut src = buffer(&bytes);
    let got = UsbIpCodec::new().decode(&mut src);
    assert_eq!(got, Ok(None));
    assert_eq!(&src[..], &bytes[..]);
    src.extend_from_slice(&[0xcc]);
    match UsbIpCodec::new().decode(&mut src) {
        Ok(Some(Request::Submit(req))) => assert_eq!(&req.data[..], &[0xaa, 0xbb, 0xcc]),
        other => panic!("unexpected {:?}", other),
    }
    assert!(src.is_empty());
}

#[test]
fn decode_submit_in_leaves_following_bytes() {
    let mut bytes = submit_frame(1, 1, 64, [0; 8], &[]);
    bytes.extend_from_slice(&[1, 2, 3]);
    let mut src = buffer(&bytes);
    match UsbIpCodec::new().decode(&mut src) {
        Ok(Some(Request::Submit(req))) => {
            assert!(req.data.is_empty());
            assert_eq!(req.transfer_buffer_length, 64);
        }
        other => panic!("unexpected {:?}", other),
    }
    assert_eq!(&src[..], &[1, 2, 3]);
}

#[test]
fn decode_submit_with_setup_is_control() {
    let setup = [0x80, 0x06, 0x00, 0x01, 0x00, 0x00, 0x12, 0x00];
    let bytes = submit_frame(1, 0, 18, setup, &[]);
    let mut src = buffer(&bytes);
    match UsbIpCodec::new().decode(&mut src) {
        Ok(Some(Request::Submit(req))) => assert_eq!(req.setup, Some(setup)),
        other => panic!("unexpected {:?}", other),
    }
}

#[test]
fn decode_submit_with_one_nonzero_setup_byte_is_control() {
    let setup = [0, 0, 0, 0, 0, 0, 0, 1];
    let bytes = submit_frame(1, 0, 0, setup, &[]);
    let mut src = buffer(&bytes);
    match UsbIpCodec::new().decode(&mut src) {
        Ok(Some(Request::Submit(req))) => assert_eq!(req.setup, Some(setup)),
        other => panic!("unexpected {:?}", other),
    }
}

#[test]
fn decode_unlink_request() {
    let mut bytes: Vec<u8> = Vec::new();
    bytes.extend_from_slice(&2u32.to_be_bytes());
    bytes.extend_from_slice(&10u32.to_be_bytes());
    bytes.extend_from_slice(&1u32.to_be_bytes());
    bytes.extend_from_slice(&1u32.to_be_bytes());
    bytes.extend_from_slice(&15u32.to_be_bytes());
    bytes.extend_from_slice(&9u32.to_be_bytes());
    bytes.extend_from_slice(&[0u8; 24]);
    let mut src = buffer(&bytes);
    let got = UsbIpCodec::new().decode(&mut src);
    assert_eq!(
        got,
        Ok(Some(Request::Unlink(UnlinkRequest {
            seqnum: 10,
            devid: 1,
            ep: EndpointAddress::from_parts(15, UsbDirection::In),
            unlink_seqnum: 9,
        })))
    );
    assert!(src.is_empty());
}

#[test]
fn decode_rejects_unknown_opcode() {
    let bytes = [0x00, 0x00, 0x00, 0x07, 1, 2, 3, 4];
    let mut src = buffer(&bytes);
    assert_eq!(UsbIpCodec::new().decode(&mut src), Err(ProtocolError::UnknownOpcode));
    assert_eq!(&src[..], &bytes[..]);
}

#[test]
fn decode_rejects_reply_opcode() {
    let mut src = buffer(&[0x01, 0x11, 0x00, 0x05, 0, 0, 0, 0]);
    assert_eq!(UsbIpCodec::new().decode(&mut src), Err(ProtocolError::UnknownOpcode));
}

#[test]
fn decode_rejects_bad_direction() {
    let bytes = submit_frame(2, 1, 0, [0; 8], &[]);
    let mut src = buffer(&bytes);
    assert_eq!(UsbIpCodec::new().decode(&mut src), Err(ProtocolError::InvalidDirection));
    assert_eq!(src.len(), 48);
}

#[test]
fn decode_rejects_bad_endpoint() {
    let bytes = submit_frame(1, 16, 0, [0; 8], &[]);
    let mut src = buffer(&bytes);
    assert_eq!(UsbIpCodec::new().decode(&mut src), Err(ProtocolError::InvalidEndpoint));
}

#[test]
fn decode_short_header_is_incomplete_even_if_invalid() {
    let bytes = submit_frame(2, 16, 0, [0; 8], &[]);
    let mut src = buffer(&bytes[..47]);
    assert_eq!(UsbIpCodec::new().decode(&mut src), Ok(None));
    assert_eq!(src.len(), 47);
}

#[test]
fn decode_returns_none_until_the_last_byte() {
    let frames: Vec<Vec<u8>> = vec![
        vec![0x01, 0x11, 0x80, 0x05, 0, 0, 0, 0],
        {
            let mut f = vec![0x01, 0x11, 0x80, 0x03, 0, 0, 0, 0, b'2', b'-', b'7'];
            f.extend_from_slice(&[0u8; 29]);
            f
        },
        submit_frame(0, 3, 5, [0; 8], &[1, 2, 3, 4, 5]),
        submit_frame(1, 3, 5, [1, 2, 3, 4, 5, 6, 7, 8], &[]),
    ];
    for frame in frames {
        let mut whole = buffer(&frame);
        let expected = UsbIpCodec::new().decode(&mut whole).unwrap().unwrap();
        for cut in 0..frame.len() {
            let mut src = buffer(&frame[..cut]);
            assert_eq!(UsbIpCodec::new().decode(&mut src), Ok(None), "cut at {}", cut);
            assert_eq!(&src[..], &frame[..cut]);
            src.extend_from_slice(&frame[cut..]);
            let got = UsbIpCodec::new().decode(&mut src).unwrap().unwrap();
            assert_eq!(got, expected);
            assert!(src.is_empty());
        }
    }
}

#[test]
fn decode_two_requests_in_a_row() {
    let mut bytes = vec![0x01, 0x11, 0x80, 0x05, 0, 0, 0, 0];
    bytes.extend_from_slice(&submit_frame(1, 1, 8, [0; 8], &[]));
    let mut src = buffer(&bytes);
    let mut codec = UsbIpCodec::new();
    assert_eq!(codec.decode(&mut src), Ok(Some(Request::DevList)));
    assert!(matches!(codec.decode(&mut src), Ok(Some(Request::Submit(_)))));
    assert_eq!(codec.decode(&mut src), Ok(None));
}

#[test]
fn encode_ret_submit_in() {
    let mut out = BytesMut::new();
    let res = SubmitResponse {
        seqnum: 0x0102_0304,
        devid: 0x0001_0002,
        ep: EndpointAddress::from_parts(3, UsbDirection::In),
        status: 0,
        actual_length: 2,
        actual_start_frame: 0x11,
        number_of_packets: 0x22,
        error_count: 0x33,
        setup: None,
        data: BytesMut::from(&[0xde, 0xad][..]),
    };
    assert_eq!(UsbIpCodec::new().encode(Response::Submit(res), &mut out), Ok(()));
    let expected: Vec<u8> = vec![
        0, 0, 0, 3, 1, 2, 3, 4, 0, 1, 0, 2, 0, 0, 0, 1, 0, 0, 0, 3, 0, 0, 0, 0, 0, 0, 0, 2, 0, 0,
        0, 0x11, 0, 0, 0, 0x22, 0, 0, 0, 0x33, 0, 0, 0, 0, 0, 0, 0, 0, 0xde, 0xad,
    ];
    assert_eq!(&out[..], &expected[..]);
    assert_eq!(out.len(), 48 + 2);
}

#[test]
fn encode_ret_submit_out_has_no_payload() {
    let mut out = BytesMut::new();
    let res = SubmitResponse {
        seqnum: 1,
        devid: 1,
        ep: EndpointAddress::from_parts(2, UsbDirection::Out),
        status: 1,
        actual_length: 0,
        actual_start_frame: 0,
        number_of_packets: 0,
        error_count: 0,
        setup: None,
        data: BytesMut::new(),
    };
    UsbIpCodec::new().encode(Response::Submit(res), &mut out).unwrap();
    assert_eq!(out.len(), 48);
    assert_eq!(&out[12..16], &[0, 0, 0, 0]);
    assert_eq!(&out[20..24], &[0, 0, 0, 1]);
}

#[test]
fn encode_ret_unlink_is_48_bytes() {
    let mut out = BytesMut::from(&[0xee][..]);
    let res = UnlinkResponse {
        seqnum: 7,
        devid: 1,
        ep: EndpointAddress::from_parts(1, UsbDirection::Out),
        status: 1,
        unlink_seqnum: 9,
    };
    UsbIpCodec::new().encode(Response::Unlink(res), &mut out).unwrap();
    let mut expected: Vec<u8> = vec![
        0xee, 0, 0, 0, 4, 0, 0, 0, 7, 0, 0, 0, 1, 0, 0, 0, 0, 0, 0, 0, 1, 0, 0, 0, 1,
    ];
    expected.extend_from_slice(&[0u8; 24]);
    assert_eq!(&out[..], &expected[..]);
    assert_eq!(out.len(), 1 + 48);
}

#[test]
fn encode_import_reply_with_device() {
    let mut out = BytesMut::new();
    let res = ImportResponse { status: 0, device: Some(sample_device()) };
    UsbIpCodec::new().encode(Response::Import(res), &mut out).unwrap();
    let mut expected: Vec<u8> = vec![0x01, 0x11, 0x00, 0x03, 0, 0, 0, 0];
    expected.extend_from_slice(&device_block());
    assert_eq!(&out[..], &expected[..]);
    assert_eq!(out.len(), 8 + 312);
}

#[test]
fn encode_import_reply_without_device() {
    let mut out = BytesMut::new();
    let res = ImportResponse { status: 1, device: None };
    UsbIpCodec::new().encode(Response::Import(res), &mut out).unwrap();
    assert_eq!(&out[..], &[0x01, 0x11, 0x00, 0x03, 0, 0, 0, 1]);
}

#[test]
fn encode_device_list() {
    let mut out = BytesMut::new();
    let first = DeviceInterfaceInfo {
        device: sample_device(),
        interfaces: vec![
            InterfaceInfo { interface_class: 2, interface_subclass: 2, interface_protocol: 1 },
            InterfaceInfo { interface_class: 10, interface_subclass: 0, interface_protocol: 0 },
        ],
    };
    let second = DeviceInterfaceInfo { device: sample_device(), interfaces: vec![] };
    UsbIpCodec::new().encode(Response::DevList(vec![first, second]), &mut out).unwrap();
    let mut expected: Vec<u8> = vec![0x01, 0x11, 0x00, 0x05, 0, 0, 0, 0, 0, 0, 0, 2];
    expected.extend_from_slice(&device_block());
    expected.extend_from_slice(&[2, 2, 1, 0, 10, 0, 0, 0]);
    expected.extend_from_slice(&device_block());
    assert_eq!(&out[..], &expected[..]);
    assert_eq!(out.len(), 12 + 312 + 8 + 312);
}

#[test]
fn encode_empty_device_list() {
    let mut out = BytesMut::new();
    UsbIpCodec::new().encode(Response::DevList(vec![]), &mut out).unwrap();
    assert_eq!(&out[..], &[0x01, 0x11, 0x00, 0x05, 0, 0, 0, 0, 0, 0, 0, 0]);
}

#[test]
fn encode_fills_path_and_busid_to_the_brim() {
    let mut device = sample_device();
    device.path = "p".repeat(256);
    device.busid = "b".repeat(32);
    let mut out = BytesMut::new();
    let res = ImportResponse { status: 0, device: Some(device) };
    UsbIpCodec::new().encode(Response::Import(res), &mut out).unwrap();
    assert_eq!(out.len(), 8 + 312);
    assert!(out[8..264].iter().all(|&b| b == b'p'));
    assert!(out[264..296].iter().all(|&b| b == b'b'));
    assert_eq!(&out[296..300], &[0, 0, 0, 1]);
}

#[test]
fn duplicates_are_equal() {
    let info = DeviceInterfaceInfo {
        device: sample_device(),
        interfaces: vec![InterfaceInfo {
            interface_class: 3,
            interface_subclass: 1,
            interface_protocol: 2,
        }],
    };
    assert_eq!(info.duplicate(), info);
    assert_eq!(info.device.duplicate(), info.device);
}

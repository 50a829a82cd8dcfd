use weblite::websocket::{
    sec_websocket_accept_val, Receive, Websocket, WebsocketError, WebsocketFrame,
};

fn frame(opcode: u8, len: usize, mask: Option<[u8; 4]>) -> WebsocketFrame {
    WebsocketFrame { opcode, len, fin: true, masked: mask.is_some(), mask }
}

fn encoded(f: &WebsocketFrame) -> Vec<u8> {
    let mut dest = [0u8; 14];
    let n = f.encode(&mut dest).unwrap();
    dest[..n].to_vec()
}

#[test]
fn the_accept_token_of_the_reference_key() {
    assert_eq!(
        sec_websocket_accept_val("dGhlIHNhbXBsZSBub25jZQ=="),
        Ok(*b"s3pPLMBiTxaQ9kYGzzhZRbK+xOo=")
    );
}

#[test]
fn the_accept_token_depends_on_the_key() {
    // SHA-1 of the bare protocol text, in Base64
    assert_eq!(sec_websocket_accept_val(""), Ok(*b"Kfh9QIsMVZcl6xEPYxPHzW8SZ8w="));
    assert_eq!(
        sec_websocket_accept_val("x3JJHMbDL1EzLkh9GBhXDw=="),
        Ok(*b"HSmrc0sMlYUkAGmm5OPpG2HaGWk=")
    );
}

#[test]
fn a_masked_frame_of_five_bytes_needs_six_header_bytes() {
    let header = [0x81u8, 0x85, 0x37, 0xfa, 0x21, 0x3d];
    assert_eq!(WebsocketFrame::decode(&[]).unwrap_err(), WebsocketError::InsufficientData(2));
    assert_eq!(
        WebsocketFrame::decode(&header[..1]).unwrap_err(),
        WebsocketError::InsufficientData(1)
    );
    assert_eq!(
        WebsocketFrame::decode(&header[..2]).unwrap_err(),
        WebsocketError::InsufficientData(4)
    );
    assert_eq!(
        WebsocketFrame::decode(&header[..5]).unwrap_err(),
        WebsocketError::InsufficientData(1)
    );
    let f = WebsocketFrame::decode(&header).unwrap();
    assert_eq!(f.opcode, 1);
    assert_eq!(f.len, 5);
    assert!(f.fin);
    assert!(f.masked);
    assert_eq!(f.mask, Some([0x37, 0xfa, 0x21, 0x3d]));
}

#[test]
fn masking_twice_gives_the_payload_back() {
    let f = frame(1, 5, Some([0x37, 0xfa, 0x21, 0x3d]));
    let mut payload = [0x7fu8, 0x9f, 0x4d, 0x51, 0x58];
    f.apply_mask(&mut payload);
    assert_eq!(&payload, b"Hello");
    f.apply_mask(&mut payload);
    assert_eq!(payload, [0x7f, 0x9f, 0x4d, 0x51, 0x58]);
}

#[test]
fn masking_leaves_what_lies_behind_the_payload() {
    let f = frame(2, 3, Some([1, 2, 3, 4]));
    let mut buffer = [0u8, 0, 0, 0, 0, 9];
    f.apply_mask(&mut buffer);
    assert_eq!(buffer, [1, 2, 3, 0, 0, 9]);
    let unmasked = frame(2, 3, None);
    unmasked.apply_mask(&mut buffer);
    assert_eq!(buffer, [1, 2, 3, 0, 0, 9]);
}

#[test]
fn encode_then_decode_at_the_tier_boundaries() {
    for len in [0usize, 1, 125, 126, 127, 128, 65535, 65536, 65537, 1 << 24, u32::MAX as usize] {
        for mask in [None, Some([9u8, 8, 7, 6])] {
            for opcode in [1u8, 2, 8, 9, 10, 15] {
                let f = frame(opcode, len, mask);
                let bytes = encoded(&f);
                let back = WebsocketFrame::decode(&bytes).unwrap();
                assert_eq!(back.opcode, opcode);
                assert_eq!(back.len, len);
                assert!(back.fin);
                assert_eq!(back.masked, mask.is_some());
                assert_eq!(back.mask, mask);
            }
        }
    }
}

#[test]
fn the_header_has_three_forms() {
    assert_eq!(encoded(&frame(2, 0, None)), [0x82, 0x00]);
    assert_eq!(encoded(&frame(2, 125, None)), [0x82, 0x7d]);
    assert_eq!(encoded(&frame(2, 126, None)), [0x82, 0x7e, 0x00, 0x7e]);
    assert_eq!(encoded(&frame(2, 65535, None)), [0x82, 0x7e, 0xff, 0xff]);
    assert_eq!(encoded(&frame(2, 65536, None)), [0x82, 0x7f, 0, 0, 0, 0, 0, 1, 0, 0]);
    assert_eq!(
        encoded(&frame(1, 0x0102_0304, Some([0xaa, 0xbb, 0xcc, 0xdd]))),
        [0x81, 0xff, 0, 0, 0, 0, 1, 2, 3, 4, 0xaa, 0xbb, 0xcc, 0xdd]
    );
    assert_eq!(encoded(&frame(0x1f, 5, None)), [0x8f, 0x05]);
    let not_final = WebsocketFrame { opcode: 1, len: 1, fin: false, masked: false, mask: None };
    assert_eq!(encoded(&not_final), [0x01, 0x01]);
}

#[test]
fn encode_overwrites_and_leaves_the_rest() {
    let mut dest = [0xffu8; 6];
    assert_eq!(frame(2, 300, None).encode(&mut dest), Ok(4));
    assert_eq!(dest, [0x82, 0x7e, 0x01, 0x2c, 0xff, 0xff]);
}

#[test]
fn encode_refuses_a_buffer_that_is_too_short() {
    let mut one = [7u8; 1];
    assert_eq!(
        frame(2, 0, None).encode(&mut one),
        Err(WebsocketError::Unsupported("encode buffer requires at least 6 bytes"))
    );
    assert_eq!(one, [7]);
    let mut three = [7u8; 3];
    assert_eq!(
        frame(2, 126, None).encode(&mut three),
        Err(WebsocketError::Unsupported(
            "encode buffer requires at least 8 bytes for given payload lenght"
        ))
    );
    assert_eq!(three, [7, 7, 7]);
    let mut nine = [7u8; 9];
    assert_eq!(
        frame(2, 65536, None).encode(&mut nine),
        Err(WebsocketError::Unsupported(
            "encode buffer requires at least 14 bytes for given payload lenght"
        ))
    );
    assert_eq!(nine, [7u8; 9]);
    let mut five = [7u8; 5];
    assert_eq!(
        frame(2, 1, Some([1, 2, 3, 4])).encode(&mut five),
        Err(WebsocketError::Unsupported(
            "encode buffer requires at least 6 bytes for given payload lenght"
        ))
    );
    assert_eq!(five, [7u8; 5]);
    let mut two = [7u8; 2];
    assert_eq!(frame(2, 125, None).encode(&mut two), Ok(2));
}

#[test]
fn decode_asks_for_the_next_field_only() {
    // 64-bit length and a mask: the length first, then the mask
    let header = [0x82u8, 0xff, 0, 0, 0, 0, 0, 0, 1, 0, 1, 2, 3, 4];
    assert_eq!(
        WebsocketFrame::decode(&header[..6]).unwrap_err(),
        WebsocketError::InsufficientData(4)
    );
    assert_eq!(
        WebsocketFrame::decode(&header[..10]).unwrap_err(),
        WebsocketError::InsufficientData(4)
    );
    let f = WebsocketFrame::decode(&header).unwrap();
    assert_eq!(f.len, 256);
    assert_eq!(f.mask, Some([1, 2, 3, 4]));
    // 16-bit length and a mask
    let header = [0x82u8, 0xfe, 0x01, 0x00, 1, 2, 3, 4];
    assert_eq!(
        WebsocketFrame::decode(&header[..3]).unwrap_err(),
        WebsocketError::InsufficientData(1)
    );
    assert_eq!(
        WebsocketFrame::decode(&header[..6]).unwrap_err(),
        WebsocketError::InsufficientData(2)
    );
    assert_eq!(WebsocketFrame::decode(&header).unwrap().len, 256);
}

#[test]
fn a_16_bit_length_of_127_is_a_length() {
    let f = WebsocketFrame::decode(&[0x82, 0x7e, 0x00, 0x7f]).unwrap();
    assert_eq!(f.len, 127);
    assert!(!f.masked);
    assert_eq!(f.mask, None);
}

#[test]
fn fragments_are_not_supported() {
    assert_eq!(
        WebsocketFrame::decode(&[0x01, 0x00]).unwrap_err(),
        WebsocketError::Unsupported("payload fragmentation not supported")
    );
    assert_eq!(
        WebsocketFrame::decode(&[0x80, 0x00]).unwrap_err(),
        WebsocketError::Unsupported("payload fragmentation not supported")
    );
    assert_eq!(
        WebsocketFrame::decode(&[0x00, 0xff]).unwrap_err(),
        WebsocketError::Unsupported("payload fragmentation not supported")
    );
}

#[test]
fn decode_ignores_what_follows_the_header() {
    let f = WebsocketFrame::decode(&[0x8a, 0x02, 0xde, 0xad, 0xbe, 0xef]).unwrap();
    assert_eq!(f.opcode, 10);
    assert_eq!(f.len, 2);
    assert_eq!(f.mask, None);
}

#[test]
fn send_frames_the_data() {
    let session = Websocket::new();
    assert_eq!(session.send(b"pong"), Ok(vec![0x82, 0x04, b'p', b'o', b'n', b'g']));
    assert_eq!(session.send(b""), Ok(vec![0x82, 0x00]));
    let long = vec![0x55u8; 300];
    let sent = session.send(&long).unwrap();
    assert_eq!(&sent[..4], [0x82, 0x7e, 0x01, 0x2c]);
    assert_eq!(&sent[4..], &long[..]);
    let longer = vec![0u8; 70000];
    let sent = session.send(&longer).unwrap();
    assert_eq!(&sent[..10], [0x82, 0x7f, 0, 0, 0, 0, 0, 1, 0x11, 0x70]);
    assert_eq!(sent.len(), 70010);
}

#[test]
fn receive_goes_step_by_step() {
    let mut session = Websocket::new();
    assert!(matches!(session.receive(&[], 1024), Ok(Receive::Header(2))));
    assert!(matches!(session.receive(&[0x81, 0x85], 1024), Ok(Receive::Header(4))));
    match session.receive(&[0x37, 0xfa, 0x21, 0x3d], 1024) {
        Ok(Receive::Payload(f)) => {
            assert_eq!(f.opcode, 1);
            assert_eq!(f.len, 5);
            let mut buffer = [0x7fu8, 0x9f, 0x4d, 0x51, 0x58, 0, 0];
            f.apply_mask(&mut buffer);
            assert_eq!(&buffer[..f.len], b"Hello");
        }
        other => panic!("{:?}", other),
    }
    // the session is ready for the next frame
    assert!(matches!(session.receive(&[], 1024), Ok(Receive::Header(2))));
    assert!(matches!(session.receive(&[0x82, 0xff], 1024), Ok(Receive::Header(8))));
    assert!(matches!(
        session.receive(&[0, 0, 0, 0, 0, 0, 1, 0], 1024),
        Ok(Receive::Header(4))
    ));
    match session.receive(&[1, 2, 3, 4], 1024) {
        Ok(Receive::Payload(f)) => {
            assert_eq!(f.opcode, 2);
            assert_eq!(f.len, 256);
            assert_eq!(f.mask, Some([1, 2, 3, 4]));
        }
        other => panic!("{:?}", other),
    }
}

#[test]
fn receive_refuses_a_payload_that_does_not_fit() {
    let mut session = Websocket::new();
    assert_eq!(
        session.receive(&[0x82, 0x85, 1, 2, 3, 4], 4).err(),
        Some(WebsocketError::Unsupported("payload length exceeds buffer size"))
    );
    assert!(matches!(session.receive(&[0x82, 0x85, 1, 2, 3, 4], 5), Ok(Receive::Payload(_))));
    assert_eq!(
        session.receive(&[0x02, 0x85, 1, 2, 3, 4], 5).err(),
        Some(WebsocketError::Unsupported("payload fragmentation not supported"))
    );
    assert!(matches!(session.receive(&[], 5), Ok(Receive::Header(2))));
}

#[test]
fn an_unmasked_frame_is_received_from_its_two_header_bytes() {
    // the stream holds 0x82 0x02 0xAA 0xBB and nothing more
    let stream = [0x82u8, 0x02, 0xaa, 0xbb];
    let mut buf = [0u8; 16];
    let mut session = Websocket::new();
    let mut at = 0;
    let mut fresh = 0;
    let frame = loop {
        match session.receive(&stream[at - fresh..at], buf.len()) {
            Ok(Receive::Header(n)) => {
                assert!(at + n <= stream.len(), "the header asks for a byte of the payload");
                fresh = n;
                at += n;
            }
            Ok(Receive::Payload(f)) => break f,
            Err(e) => panic!("{:?}", e),
        }
    };
    assert_eq!(at, 2);
    assert_eq!(frame.opcode, 2);
    assert_eq!(frame.len, 2);
    assert!(!frame.masked);
    assert_eq!(frame.mask, None);
    buf[..frame.len].copy_from_slice(&stream[at..at + frame.len]);
    frame.apply_mask(&mut buf[..frame.len]);
    assert_eq!(buf[..2], [0xaa, 0xbb]);
}

#[test]
fn a_16_bit_length_without_a_mask_takes_two_steps() {
    let mut session = Websocket::new();
    assert!(matches!(session.receive(&[], 1024), Ok(Receive::Header(2))));
    assert!(matches!(session.receive(&[0x81, 0x7e], 1024), Ok(Receive::Header(2))));
    match session.receive(&[0x01, 0x00], 1024) {
        Ok(Receive::Payload(f)) => {
            assert_eq!(f.len, 256);
            assert_eq!(f.mask, None);
        }
        other => panic!("{:?}", other),
    }
}

#[test]
fn without_a_mask_any_buffer_is_left_alone() {
    let f = frame(2, 9, None);
    let mut short = [1u8, 2, 3];
    f.apply_mask(&mut short);
    assert_eq!(short, [1, 2, 3]);
    let mut none: [u8; 0] = [];
    f.apply_mask(&mut none);
}

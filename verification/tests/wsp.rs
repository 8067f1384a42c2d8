use wdc::httpp::{HttpResponseParts, Parsed};
use wdc::wsp::{
    mask_payload, Framing, WebSocketFrame, WebSocketHandshaker, WebSocketMessage, WspError,
    WspSett,
};

#[test]
fn wsp__1() {
    // framing

    let mut wsmsg = WebSocketMessage::new();
    wsmsg.allow_small();
    wsmsg
        .set_message_data(b"Hello", vec![WspSett::TextMsg])
        .expect("set payload data");
    let bytes = wsmsg.to_vec();
    assert_eq!(bytes, vec![0x81, 0x05, 0x48, 0x65, 0x6c, 0x6c, 0x6f]);
}

#[test]
fn wsp__11() {
    // framing

    let mut wsmsg = WebSocketMessage::new();
    wsmsg.allow_small();
    wsmsg
        .set_message_data(b"Hello", vec![WspSett::TextMsg, WspSett::Ping])
        .expect("set payload data");
    let bytes = wsmsg.to_vec();
    assert_eq!(bytes, vec![0x89, 0x05, 0x48, 0x65, 0x6c, 0x6c, 0x6f]);
}

#[test]
fn _111() {
    // framing, masked

    let mut wsmsg = WebSocketMessage::new();
    wsmsg.allow_small();
    wsmsg
        .set_message_data(
            b"Hello",
            vec![WspSett::TextMsg, WspSett::Pong, WspSett::Mask],
        )
        .expect("set payload data");
    let bytes = wsmsg.to_vec();
    assert_eq!(
        bytes,
        vec![0x8a, 0x85, 0x37, 0xfa, 0x21, 0x3d, 0x7f, 0x9f, 0x4d, 0x51, 0x58]
    );
}

#[test]
fn _1111() {
    // get message data

    let mut wsmsg = WebSocketMessage::new();
    wsmsg.allow_small();
    wsmsg
        .set_message_data(b"Hello", vec![WspSett::TextMsg])
        .expect("set payload data");

    assert_eq!(wsmsg.frame_count(), 1);
    assert_eq!(&wsmsg.get_message_data().unwrap(), b"Hello");
}

#[test]
fn _11111() {
    // get message data

    let mut wsmsg = WebSocketMessage::new();
    wsmsg.allow_small();
    wsmsg
        .set_message_data(b"Hello", vec![WspSett::TextMsg, WspSett::MaxFrameLen(1)])
        .expect("set payload data");

    assert_eq!(wsmsg.frame_count(), 5);
    assert_eq!(&wsmsg.get_message_data().unwrap(), b"Hello");
}

#[test]
fn _111111() {
    // get message data, data already unmasked

    let mut wsmsg = WebSocketMessage::new();
    wsmsg.allow_small();
    wsmsg
        .set_message_data(
            b"Hello",
            vec![WspSett::TextMsg, WspSett::MaxFrameLen(2), WspSett::Mask],
        )
        .expect("set payload data");

    assert_eq!(wsmsg.frame_count(), 3);
    assert_eq!(&wsmsg.get_message_data().unwrap(), b"Hello");
}

#[test]
fn _1111111() {
    // frame data, accuracy

    let mut data_buf = vec![0xceu8; 65535];

    data_buf[100] = 0xec;
    data_buf[500] = 0xec;
    data_buf[1000] = 0xec;
    data_buf[5000] = 0xec;
    data_buf[65534] = 0xec;

    let mut wsmsg = WebSocketMessage::new();
    wsmsg.allow_small();
    wsmsg
        .set_message_data(&data_buf, vec![WspSett::TextMsg])
        .expect("set payload data");

    assert_eq!(wsmsg.frame_count(), 525); // 65535/125+1
    let bytes = wsmsg.to_vec(); // each frame is 2+125=127
    assert!(bytes[101] == bytes[103]); // 2+101=103->i is 102
    assert!(bytes[102] != bytes[103]);
    assert!(bytes[101] == 0xce);
    assert!(bytes[102] == 0xec);
}

#[test]
fn _11111111() {
    // get message data, long msg

    let mut data_buf = vec![0xceu8; 65535];

    data_buf[100] = 0xec;
    data_buf[500] = 0xec;
    data_buf[1000] = 0xec;
    data_buf[5000] = 0xec;
    data_buf[65534] = 0xec;

    let mut wsmsg = WebSocketMessage::new();
    wsmsg.allow_small();
    wsmsg
        .set_message_data(&data_buf, vec![WspSett::TextMsg, WspSett::Mask])
        .expect("set payload data");

    assert_eq!(wsmsg.frame_count(), 525);
    let data_got = wsmsg.get_message_data().unwrap();
    assert_eq!(data_got.len(), 65535);
    for i in 0..data_got.len() {
        if i == 100 || i == 500 || i == 1000 || i == 5000 || i == 65534 {
            assert_eq!(data_got[i], 0xec);
        } else {
            assert_eq!(data_got[i], 0xce);
        }
    }
}

#[test]
fn wsp__2() {
    let mut wsmsg = WebSocketMessage::new();
    wsmsg.allow_small();
    wsmsg
        .set_message_data(b"Hello", vec![WspSett::TextMsg, WspSett::Mask])
        .expect("set payload data");
    let bytes = wsmsg.to_vec();
    assert_eq!(
        bytes,
        vec![0x81, 0x85, 0x37, 0xfa, 0x21, 0x3d, 0x7f, 0x9f, 0x4d, 0x51, 0x58]
    );
}

#[test]
fn wsp__3() {
    // customize frame length
    let mut wsmsg = WebSocketMessage::new();
    wsmsg.allow_small();
    if let Err(err) = wsmsg.set_message_data(b"Hello", vec![WspSett::MaxFrameLen(0)]) {
        assert_eq!(err, WspError::InvalidMaxFrameLen);
    } else {
        assert!(false);
    }
}

#[test]
fn _33() {
    // customize frame length
    let mut wsmsg = WebSocketMessage::new();
    wsmsg.allow_small();
    wsmsg
        .set_message_data(b"Hello", vec![WspSett::TextMsg, WspSett::MaxFrameLen(3)])
        .expect("set payload data");
    let bytes = wsmsg.to_vec();
    assert_eq!(
        bytes,
        vec![
            0x01, 0x03, 0x48, 0x65, 0x6c, //
            0x80, 0x02, 0x6c, 0x6f
        ]
    );
}

#[test]
fn _333() {
    // customize frame length
    let mut wsmsg = WebSocketMessage::new();
    wsmsg.allow_small();
    wsmsg
        .set_message_data(b"Hello", vec![WspSett::TextMsg, WspSett::MaxFrameLen(1)])
        .expect("set payload data");
    let bytes = wsmsg.to_vec();
    assert_eq!(
        bytes,
        vec![
            0x01, 0x01, b'H', //
            0x00, 0x01, b'e', //
            0x00, 0x01, b'l', //
            0x00, 0x01, b'l', //
            0x80, 0x01, b'o', //
        ]
    );
}

#[test]
fn wsp__4() {
    // long binary

    let mut bin_buf = Vec::<u8>::new();
    bin_buf.resize(256, 0);
    bin_buf.fill(0xfa);

    let mut wsmsg = WebSocketMessage::new();
    wsmsg.allow_medium();
    wsmsg
        .set_message_data(&bin_buf, vec![])
        .expect("set payload data");
    let bytes = wsmsg.to_vec();
    assert_eq!(&bytes[0..4], vec![0x82, 0x7E, 0x01, 0x00]);
    for b in &bytes[4..] {
        if *b != 0xfa {
            assert!(false);
        }
    }
}

#[test]
fn wsp__44() {
    // long long binary

    let mut bin_buf = Vec::<u8>::new();
    bin_buf.resize(65536, 0);
    bin_buf.fill(0xfa);

    let mut wsmsg = WebSocketMessage::new();
    wsmsg.allow_large();
    wsmsg
        .set_message_data(&bin_buf, vec![])
        .expect("set payload data");
    let bytes = wsmsg.to_vec();
    assert_eq!(
        &bytes[0..10],
        vec![0x82, 0x7F, 0x00, 0x00, 0x00, 0x00, 0x00, 0x01, 0x00, 0x00]
    );
    for b in &bytes[10..] {
        if *b != 0xfa {
            assert!(false);
        }
    }
}

fn frames_of(allow: [bool; 3], len: usize, setts: Vec<WspSett>) -> usize {
    let mut bin_buf = Vec::<u8>::new();
    bin_buf.resize(len, 0);
    bin_buf.fill(0xfa);

    let mut wsmsg = WebSocketMessage::new();
    if allow[0] {
        wsmsg.allow_small();
    }
    if allow[1] {
        wsmsg.allow_medium();
    }
    if allow[2] {
        wsmsg.allow_large();
    }
    wsmsg
        .set_message_data(&bin_buf, setts)
        .expect("set payload data");
    wsmsg.frame_count()
}

#[test]
fn wsp__5() {
    // always smallest size
    assert_eq!(frames_of([true, true, false], 256, vec![]), 3);
}

#[test]
fn wsp__55() {
    // always smallest size
    assert_eq!(frames_of([false, true, false], 256, vec![]), 1);
}

#[test]
fn wsp__555() {
    // defaut is always smallest size, but with user's will
    assert_eq!(
        frames_of([true, true, false], 256, vec![WspSett::MaxFrameLen(256)]),
        1
    );
}

#[test]
fn wsp__5555() {
    // defaut is always smallest size, but with user's will
    assert_eq!(
        frames_of([true, true, false], 256, vec![WspSett::MaxFrameLen(128)]),
        2
    );
}

#[test]
fn _55555() {
    // defaut is always smallest size, but with user's will
    assert_eq!(frames_of([false, false, true], 65536, vec![]), 1);
}

#[test]
fn _555555() {
    // defaut is always smallest size, but with user's will
    assert_eq!(frames_of([false, true, true], 65536, vec![]), 2); // 65536/65535
}

#[test]
fn _5555555() {
    // defaut is always smallest size, but with user's will
    assert_eq!(frames_of([true, true, true], 65536, vec![]), 525); // 65536/125
}

#[test]
fn _55555555() {
    // defaut is always smallest size, but with user's will
    assert_eq!(
        frames_of([true, true, true], 65536, vec![WspSett::MaxFrameLen(100)]),
        656
    ); // 65536/100
}

fn decode(bytes: &[u8]) -> WebSocketMessage {
    match WebSocketMessage::from_bytes(bytes) {
        Framing::Done(m, next) => {
            assert_eq!(next, bytes.len());
            m
        }
        Framing::Need(k) => panic!("need {}", k),
        Framing::Bad(e) => panic!("bad {:?}", e),
    }
}

#[test]
fn wsp__6() {
    // client parse server's message
    let msg = vec![0x81, 0x05, 0x48, 0x65, 0x6c, 0x6c, 0x6f];
    let wsmsg = decode(&msg);
    assert_eq!(wsmsg.frame_count(), 1);
    assert_eq!(wsmsg.frame(0).unwrap().payload(), b"Hello");
}

#[test]
fn _66() {
    let msg = vec![
        0x81, 0x85, 0x37, 0xfa, 0x21, 0x3d, 0x7f, 0x9f, 0x4d, 0x51, 0x58,
    ];
    let wsmsg = decode(&msg);
    assert_eq!(wsmsg.frame_count(), 1);
    assert_eq!(wsmsg.frame(0).unwrap().payload(), b"Hello");
}

#[test]
fn _666() {
    let msg = vec![0x01, 0x03, 0x48, 0x65, 0x6c, 0x80, 0x02, 0x6c, 0x6f];
    let wsmsg = decode(&msg);
    assert_eq!(wsmsg.frame_count(), 2);
    assert_eq!(wsmsg.frame(0).unwrap().payload(), b"Hel");
    assert_eq!(wsmsg.frame(1).unwrap().payload(), b"lo");
}

#[test]
fn _6666() {
    let mut msg = vec![0x82, 0x7E, 0x01, 0x00];
    msg.resize(4 + 256, 0xce);
    let wsmsg = decode(&msg);
    assert_eq!(wsmsg.frame_count(), 1);
    assert_eq!(wsmsg.frame(0).unwrap().plen(), 256);
    assert_eq!(wsmsg.frame(0).unwrap().payload(), &vec![0xce; 256]);
}

#[test]
fn _66666() {
    let mut msg = vec![0x82, 0x7F, 0x00, 0x00, 0x00, 0x00, 0x00, 0x01, 0x00, 0x00];
    msg.resize(10 + 65536, 0xce);
    let wsmsg = decode(&msg);
    assert_eq!(wsmsg.frame_count(), 1);
    assert_eq!(wsmsg.frame(0).unwrap().plen(), 65536);
    assert_eq!(wsmsg.frame(0).unwrap().payload(), &vec![0xce; 65536]);
}

#[test]
fn _666666() {
    let mut msg = WebSocketMessage::new();
    msg.allow_small();
    msg.set_message_data(&vec![0xab; 65536], vec![])
        .expect("set payload data");
    let wsmsg = decode(&msg.to_vec());
    assert_eq!(wsmsg.frame_count(), 525);
    for i in 0..524 {
        assert_eq!(wsmsg.frame(i).unwrap().plen(), 125);
        for b in wsmsg.frame(i).unwrap().payload() {
            assert_eq!(*b, 0xab);
        }
    }
    assert_eq!(wsmsg.frame(524).unwrap().plen(), 36);
    assert!(wsmsg.frame(525).is_none());
}

#[test]
fn wsp__7() {
    // handshake
    let req = WebSocketHandshaker::request("/ws-resource", "127.0.0.1:19222");
    assert_eq!(req.get_req_uri().unwrap(), b"/ws-resource");
    assert_eq!(req.get_connection().unwrap(), b"Upgrade");
    assert_eq!(req.get_upgrade().unwrap(), b"websocket");
    assert_eq!(req.get_host().unwrap(), b"127.0.0.1:19222");
    assert_eq!(req.get_ws_key().unwrap(), b"aG93LXRvLWhhbmRzaGFrZQ==");
    assert_eq!(req.get_ws_ver().unwrap(), b"13");
    assert_eq!(
        req.to_vec(),
        b"GET /ws-resource HTTP/1.1\r\nConnection: Upgrade\r\nUpgrade: websocket\r\nHost: 127.0.0.1:19222\r\nSec-WebSocket-Key: aG93LXRvLWhhbmRzaGFrZQ==\r\nSec-WebSocket-Version: 13\r\n\r\n".to_vec()
    );

    let mut resp = HttpResponseParts::from_scratch();
    resp.http1p1()
        .status(b"101 Switching Protocols")
        .upgrade("websocket")
        .connection("Upgrade")
        .ws_accept("GsCYk86TcY3D9uBDLZuG5FmeV3Y=");
    let answer = match HttpResponseParts::from_bytes(&resp.to_vec(), 0, 0) {
        Parsed::Done(r) => r,
        _ => panic!("answer"),
    };
    WebSocketHandshaker::accept(&answer).expect("handshake");
}

#[test]
fn handshake_refusals() {
    let mut resp = HttpResponseParts::from_scratch();
    resp.http1p1().status(b"200 OK").ws_accept("GsCYk86TcY3D9uBDLZuG5FmeV3Y=");
    assert_eq!(WebSocketHandshaker::accept(&resp), Err(WspError::HandshakeFail1));
    let mut resp = HttpResponseParts::from_scratch();
    resp.http1p1().status(b"101 WebSocket Protocol Handshake").ws_accept("other");
    assert_eq!(WebSocketHandshaker::accept(&resp), Err(WspError::HandshakeFail1));
    let mut resp = HttpResponseParts::from_scratch();
    resp.http1p1().status(b"101 WebSocket Protocol Handshake");
    assert_eq!(WebSocketHandshaker::accept(&resp), Err(WspError::HandshakeFail2));
    resp.ws_accept("GsCYk86TcY3D9uBDLZuG5FmeV3Y=");
    assert_eq!(WebSocketHandshaker::accept(&resp), Ok(()));
}

#[test]
fn masking_twice_gives_the_payload_back() {
    let payloads: [&[u8]; 4] = [b"", b"a", b"Hello", b"0123456789abcdef-"];
    for key in [0u32, 0x37fa213d, 0xffffffff, 0x01020304] {
        for p in payloads {
            let once = mask_payload(p, key);
            assert_eq!(once.len(), p.len());
            assert_eq!(mask_payload(&once, key), p.to_vec());
        }
    }
    assert_eq!(mask_payload(b"Hello", 0x37fa213d), vec![0x7f, 0x9f, 0x4d, 0x51, 0x58]);
}

#[test]
fn fragmentation_law_on_examples() {
    for (len, max) in [(1usize, 1usize), (5, 2), (10, 5), (11, 5), (125, 125), (126, 125), (1000, 7)] {
        let data: Vec<u8> = (0..len).map(|i| (i % 256) as u8).collect();
        let mut msg = WebSocketMessage::new();
        msg.allow_small().allow_medium().allow_large();
        msg.set_message_data(&data, vec![WspSett::BinaryMsg, WspSett::MaxFrameLen(max)])
            .unwrap();
        let count = (len + max - 1) / max;
        assert_eq!(msg.frame_count(), count);
        let wire = msg.to_vec();
        let back = decode(&wire);
        assert_eq!(back.frame_count(), count);
        for i in 0..count {
            let f = back.frame(i).unwrap();
            assert_eq!(f.is_fin(), i == count - 1);
            assert_eq!(f.to_vec()[0] & 0x0f, if i == 0 { 2 } else { 0 });
            assert!(f.payload().len() <= max);
        }
        assert_eq!(back.get_message_data().unwrap(), data);
        assert_eq!(msg.get_message_data().unwrap(), data);
    }
}

#[test]
fn size_classes() {
    let cases: [([bool; 3], usize, Option<u8>); 12] = [
        ([true, true, true], 0, Some(0)),
        ([true, true, true], 125, Some(125)),
        ([true, true, true], 126, Some(126)),
        ([true, true, true], 65535, Some(126)),
        ([true, true, true], 65536, Some(127)),
        ([false, true, true], 5, Some(126)),
        ([false, false, true], 5, Some(127)),
        ([true, false, true], 126, Some(127)),
        ([true, false, false], 126, None),
        ([true, true, false], 65536, None),
        ([false, false, false], 0, None),
        ([false, true, false], 65535, Some(126)),
    ];
    for (kinds, len, second) in cases {
        match (WebSocketFrame::with_size_kinds(kinds, len), second) {
            (Ok(mut f), Some(b)) => {
                f.set_plen(len).unwrap();
                assert_eq!(f.to_vec()[1], b);
            }
            (Err(e), None) => assert_eq!(e, WspError::SizeKindNotFound),
            _ => panic!("{:?} {}", kinds, len),
        }
    }
}

#[test]
fn frame_setters() {
    let mut f = WebSocketFrame::with_size_kinds([true, false, false], 3).unwrap();
    f.set_text_frame().set_fin();
    f.set_payload(b"abc").unwrap().set_plen(3).unwrap();
    assert_eq!(f.to_vec(), vec![0x81, 0x03, b'a', b'b', b'c']);
    f.set_binary_frame();
    assert_eq!(f.to_vec()[0], 0x82);
    f.set_ping();
    assert_eq!(f.to_vec()[0], 0x89);
    f.set_pong();
    assert_eq!(f.to_vec()[0], 0x8a);
    f.set_close();
    assert_eq!(f.to_vec()[0], 0x88);
    f.set_text_frame().set_close();
    assert_eq!(f.to_vec()[0], 0x88);
    f.set_binary_frame().set_close();
    assert_eq!(f.to_vec()[0], 0x88);
    assert!(!f.is_mask());
    f.set_mask();
    assert!(f.is_mask());
    assert_eq!(f.to_vec()[1], 0x83);
    assert_eq!(f.set_plen(126).err(), Some(WspError::InsufficientSize));
    assert_eq!(f.set_payload(&[0u8; 126]).err(), Some(WspError::InsufficientSize));
    let mut m = WebSocketFrame::with_size_kinds([false, true, false], 3).unwrap();
    assert_eq!(m.set_plen(65536).err(), Some(WspError::InsufficientSize));
    m.set_plen(65535).unwrap();
    assert_eq!(m.to_vec(), vec![0x00, 0x7e, 0xff, 0xff]);
    let blank = WebSocketFrame::new();
    assert_eq!(blank.to_vec(), vec![0x00, 0x7f, 0, 0, 0, 0, 0, 0, 0, 0]);
}

#[test]
fn close_on_a_fresh_frame() {
    let mut f = WebSocketFrame::with_size_kinds([true, false, false], 0).unwrap();
    f.set_close();
    assert_eq!(f.to_vec(), vec![0x08, 0x00]);
    f.set_fin();
    assert_eq!(f.to_vec(), vec![0x88, 0x00]);
    let mut g = WebSocketFrame::with_size_kinds([true, false, false], 0).unwrap();
    g.set_fin().set_ping().set_close();
    assert_eq!(g.to_vec(), vec![0x88, 0x00]);
}

#[test]
fn payload_grows_up_to_the_class() {
    let mut f = WebSocketFrame::with_size_kinds([true, false, false], 125).unwrap();
    f.set_payload(&[1u8; 100]).unwrap();
    assert_eq!(f.set_payload(&[2u8; 100]).err(), Some(WspError::InsufficientSize));
    assert_eq!(f.payload(), &[1u8; 100][..]);
    f.set_payload(&[3u8; 25]).unwrap();
    assert_eq!(f.payload().len(), 125);
    assert_eq!(f.payload()[100], 3);
    assert_eq!(f.set_payload(&[4u8; 1]).err(), Some(WspError::InsufficientSize));
    assert_eq!(f.payload().len(), 125);
    f.set_payload(&[]).unwrap();
    assert_eq!(f.payload().len(), 125);
    let mut m = WebSocketFrame::with_size_kinds([false, true, false], 0).unwrap();
    m.set_payload(&[0u8; 65535]).unwrap();
    assert_eq!(m.set_payload(&[0u8; 1]).err(), Some(WspError::InsufficientSize));
    assert_eq!(m.payload().len(), 65535);
    let mut l = WebSocketFrame::with_size_kinds([false, false, true], 0).unwrap();
    l.set_payload(&[0u8; 65536]).unwrap().set_payload(&[0u8; 10]).unwrap();
    assert_eq!(l.payload().len(), 65546);
}

#[test]
fn encoding_refusals() {
    let mut wsmsg = WebSocketMessage::new();
    wsmsg.allow_small();
    assert_eq!(wsmsg.set_message_data(b"", vec![]), Err(WspError::InvalidDataLen));
    assert_eq!(
        wsmsg.set_message_data(&[0u8; 200], vec![WspSett::MaxFrameLen(200)]),
        Err(WspError::SizeKindNotFound)
    );
    assert_eq!(wsmsg.frame_count(), 0);
    let mut none = WebSocketMessage::new();
    assert_eq!(none.set_message_data(b"x", vec![]), Err(WspError::InvalidMaxFrameLen));
    assert_eq!(
        none.set_message_data(b"x", vec![WspSett::MaxFrameLen(5)]),
        Err(WspError::SizeKindNotFound)
    );
}

#[test]
fn decoder_asks_for_what_is_missing() {
    let wire = vec![0x81, 0x85, 0x37, 0xfa, 0x21, 0x3d, 0x7f, 0x9f, 0x4d, 0x51, 0x58];
    assert!(matches!(WebSocketMessage::from_bytes(&wire[..0]), Framing::Need(2)));
    assert!(matches!(WebSocketMessage::from_bytes(&wire[..1]), Framing::Need(1)));
    assert!(matches!(WebSocketMessage::from_bytes(&wire[..2]), Framing::Need(4)));
    assert!(matches!(WebSocketMessage::from_bytes(&wire[..6]), Framing::Need(5)));
    assert!(matches!(WebSocketMessage::from_bytes(&wire[..9]), Framing::Need(2)));
    assert!(matches!(WebSocketMessage::from_bytes(&wire), Framing::Done(_, 11)));
    let two = vec![0x01, 0x01, b'a', 0x80, 0x01];
    assert!(matches!(WebSocketMessage::from_bytes(&two), Framing::Need(1)));
    assert!(matches!(WebSocketFrame::from_bytes(&two), Framing::Done(_, 3)));
    assert!(matches!(WebSocketFrame::from_bytes(&two[3..]), Framing::Need(1)));
}

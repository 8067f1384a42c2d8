use wdc::httpp::{BodySink, HttpError, HttpRequestParts, HttpResponseParts, Parsed};

#[test]
fn httpp__1() {
    let mut req = HttpRequestParts::from_scratch();

    req.http1p1()
        .get("/statusss")
        .host("127.0.0.1:4444")
        .ua("fakecurl/1.1.0")
        .msgbody_from_slice(b"{ capalibities: {} }");

    let reqstr = req.to_vec();

    assert_eq!(
        &reqstr,
        b"GET /statusss HTTP/1.1\r\n\
	     Host: 127.0.0.1:4444\r\n\
	     User-Agent: fakecurl/1.1.0\r\n\
	     Content-Length: 20\r\n\
	     \r\n\
	     { capalibities: {} }"
    );
}

#[test]
fn httpp__11() {
    let mut req = HttpRequestParts::from_scratch();
    req.http1p1()
        .get("/statusss")
        .ua("fakecurl/1.1.0")
        .host("127.0.0.1:4444")
        .msgbody_from_slice(b"{ capalibities: { } }");

    let reqstr = req.to_vec();

    assert_eq!(
        &reqstr,
        b"GET /statusss HTTP/1.1\r\n\
	     User-Agent: fakecurl/1.1.0\r\n\
	     Host: 127.0.0.1:4444\r\n\
	     Content-Length: 21\r\n\
	     \r\n\
	     { capalibities: { } }"
    );
}

fn parse_request(bytes: &[u8]) -> HttpRequestParts {
    match HttpRequestParts::from_bytes(bytes) {
        Parsed::Done(r) => r,
        Parsed::Need(k) => panic!("need {}", k),
        Parsed::Bad(e) => panic!("bad {:?}", e),
    }
}

fn parse_response(bytes: &[u8], head: usize, tail: usize) -> HttpResponseParts {
    match HttpResponseParts::from_bytes(bytes, head, tail) {
        Parsed::Done(r) => r,
        Parsed::Need(k) => panic!("need {}", k),
        Parsed::Bad(e) => panic!("bad {:?}", e),
    }
}

#[test]
fn request_what_was_sent_is_received() {
    let mut req = HttpRequestParts::from_scratch();
    req.http1p1()
        .get("/statuss")
        .ua("wda/1.1.1234")
        .host("127.0.0.1:4444")
        .msgbody_from_slice(b"{ capalibities: { } }");
    let wire = req.to_vec();
    assert_eq!(
        wire,
        b"GET /statuss HTTP/1.1\r\n\
          User-Agent: wda/1.1.1234\r\n\
          Host: 127.0.0.1:4444\r\n\
          Content-Length: 21\r\n\
          \r\n\
          { capalibities: { } }"
            .to_vec()
    );
    let back = parse_request(&wire);
    assert_eq!(back.get_req_uri().unwrap(), b"/statuss");
    assert_eq!(back.get_host().unwrap(), b"127.0.0.1:4444");
    assert_eq!(back.get_content_length().unwrap(), 21);
    assert_eq!(back.get_msgbody(), b"{ capalibities: { } }".to_vec());
    assert_eq!(back.to_bytes(), {
        let mut w = b"GET /statuss HTTP/1.1\r\n\
          User-Agent: wda/1.1.1234\r\n\
          Host: 127.0.0.1:4444\r\n\
          Content-Length: 21\r\n\
          \r\n\r\n"
            .to_vec();
        w.extend(b"{ capalibities: { } }");
        w
    });
}

#[test]
fn request_round_trip_for_each_method() {
    let bodies: [&[u8]; 3] = [b"", b"x", b"{\"url\":\"about:rights\"}"];
    for body in bodies {
        for m in 0..3 {
            let mut req = HttpRequestParts::from_scratch();
            req.http1p1();
            match m {
                0 => req.get("/session/abc/url"),
                1 => req.post("/session"),
                _ => req.delete("/session/abc"),
            };
            req.host("127.0.0.1:9515").content_type("application/json");
            if !body.is_empty() {
                req.msgbody_from_slice(body);
            }
            let back = parse_request(&req.to_vec());
            assert_eq!(back.get_req_uri().unwrap(), req.get_req_uri().unwrap());
            assert_eq!(back.get_host().unwrap(), b"127.0.0.1:9515");
            assert_eq!(back.get_msgbody(), body.to_vec());
            let sent = req.to_vec();
            let line_end = sent.iter().position(|b| *b == b'\r').unwrap();
            assert_eq!(&back.to_vec()[..line_end], &sent[..line_end]);
        }
    }
}

#[test]
fn request_parser_asks_for_what_is_missing() {
    let wire = b"POST /session HTTP/1.1\r\nContent-Length: 4\r\n\r\nabcd";
    for cut in 0..wire.len() {
        match HttpRequestParts::from_bytes(&wire[..cut]) {
            Parsed::Need(k) => assert!(k >= 1 && cut + k <= wire.len()),
            _ => panic!("complete at {}", cut),
        }
    }
    assert!(matches!(HttpRequestParts::from_bytes(&wire[..wire.len() - 2]), Parsed::Need(2)));
    assert!(matches!(HttpRequestParts::from_bytes(wire), Parsed::Done(_)));
}

#[test]
fn request_grammar_is_checked() {
    assert!(matches!(
        HttpRequestParts::from_bytes(b"GET /x HTTP/1.1\rX"),
        Parsed::Bad(HttpError::InvalidHttpData)
    ));
    assert!(matches!(
        HttpRequestParts::from_bytes(b"GET/xHTTP/1.1\r\nHost: a\r\n\r\n"),
        Parsed::Bad(HttpError::InvalidHttpData)
    ));
    assert!(matches!(
        HttpRequestParts::from_bytes(b"GET /xHTTP/1.1\r\nHost: a\r\n\r\n"),
        Parsed::Bad(HttpError::InvalidHttpData)
    ));
    assert!(matches!(
        HttpRequestParts::from_bytes(b"GET /x HTTP/1.1\r\nContent-Length: 1x\r\n\r\n"),
        Parsed::Bad(HttpError::InvalidContentLength)
    ));
}

#[test]
fn header_lookup_takes_either_capitalization_and_trims() {
    let heads: [&[u8]; 4] = [
        b"Connection: Upgrade\r\nUpgrade: websocket\r\nHost: h:1\r\nSec-WebSocket-Key: k\r\nSec-WebSocket-Version: 13\r\nContent-Length: 7\r\n\r\n",
        b"connection: Upgrade\r\nupgrade: websocket\r\nhost: h:1\r\nsec-websocket-key: k\r\nsec-websocket-version: 13\r\ncontent-length: 7\r\n\r\n",
        b"Connection:Upgrade\r\nUpgrade:websocket\r\nHost:h:1\r\nSec-WebSocket-Key:k\r\nSec-WebSocket-Version:13\r\nContent-Length:7\r\n\r\n",
        b"connection:    Upgrade   \r\nupgrade:   websocket  \r\nhost:  h:1 \r\nsec-websocket-key:  k \r\nsec-websocket-version:  13   \r\ncontent-length:   7  \r\n\r\n",
    ];
    for h in heads {
        let mut wire = b"GET / HTTP/1.1\r\n".to_vec();
        wire.extend(h);
        wire.extend(b"1234567");
        let req = parse_request(&wire);
        assert_eq!(req.get_connection().unwrap(), b"Upgrade");
        assert_eq!(req.get_upgrade().unwrap(), b"websocket");
        assert_eq!(req.get_host().unwrap(), b"h:1");
        assert_eq!(req.get_ws_key().unwrap(), b"k");
        assert_eq!(req.get_ws_ver().unwrap(), b"13");
        assert_eq!(req.get_content_length().unwrap(), 7);
        assert_eq!(req.get_msgbody(), b"1234567".to_vec());
    }
    let mut resp = HttpResponseParts::from_scratch();
    resp.http1p1()
        .status(b"101 Switching Protocols")
        .upgrade("websocket")
        .connection("Upgrade")
        .ws_accept("GsCYk86TcY3D9uBDLZuG5FmeV3Y=");
    assert_eq!(resp.get_ws_accept().unwrap(), b"GsCYk86TcY3D9uBDLZuG5FmeV3Y=");
    assert_eq!(resp.get_upgrade().unwrap(), b"websocket");
    assert_eq!(resp.get_connection().unwrap(), b"Upgrade");
    let lower = parse_response(
        b"HTTP/1.1 101 Switching Protocols\r\nsec-websocket-accept:  abc  \r\n\r\n",
        0,
        0,
    );
    assert_eq!(lower.get_ws_accept().unwrap(), b"abc");
}

#[test]
fn header_lookup_says_what_is_missing() {
    let req = parse_request(b"GET / HTTP/1.1\r\nX: y\r\n\r\n");
    assert_eq!(req.get_connection().unwrap_err(), HttpError::HeaderNotExistConnection);
    assert_eq!(req.get_upgrade().unwrap_err(), HttpError::HeaderNotExistUpgrade);
    assert_eq!(req.get_host().unwrap_err(), HttpError::HeaderNotExistHost);
    assert_eq!(req.get_ws_key().unwrap_err(), HttpError::HeaderNotExistWsKey);
    assert_eq!(req.get_ws_ver().unwrap_err(), HttpError::HeaderNotExistWsVer);
    assert_eq!(req.get_content_length().unwrap_err(), HttpError::HeaderNotExistContentLength);
    let empty = HttpRequestParts::from_scratch();
    assert_eq!(empty.get_req_uri().unwrap_err(), HttpError::HeaderNotExistReqUri);
    let resp = HttpResponseParts::from_scratch();
    assert_eq!(resp.get_ws_accept().unwrap_err(), HttpError::HeaderNotExistWsAccept);
    assert_eq!(resp.get_status().unwrap(), b"");
    let mut open = HttpRequestParts::from_scratch();
    open.get("/");
    let blank = parse_request(b"GET / HTTP/1.1\r\nHost:   \r\n\r\n");
    assert_eq!(blank.get_host().unwrap_err(), HttpError::HeaderNotExistHost);
}

#[test]
fn response_in_memory() {
    let wire = b"HTTP/1.1 200 OK\r\nContent-Length: 24\r\nContent-Type: application/json\r\n\r\n{\"value\":\"about:rights\"}";
    let resp = parse_response(wire, 0, 0);
    assert!(resp.is_ok());
    assert_eq!(resp.get_status().unwrap(), b"200 OK");
    assert_eq!(resp.get_content_length().unwrap(), 24);
    assert_eq!(resp.msgbody(), &b"{\"value\":\"about:rights\"}".to_vec());
    assert_eq!(
        resp.headers(),
        &b"Content-Length: 24\r\nContent-Type: application/json\r\n\r\n".to_vec()
    );
    assert!(resp.msgbody_persist().is_none());
    let trimmed = parse_response(wire, 10, 2);
    assert_eq!(trimmed.msgbody(), &b"about:rights".to_vec());
    assert_eq!(trimmed.into_msgbody(), b"about:rights".to_vec());
}

#[test]
fn response_that_failed_keeps_its_whole_body() {
    let wire = b"HTTP/1.1 404 Not Found\r\nContent-Length: 5\r\n\r\nhello";
    let resp = parse_response(wire, 3, 1);
    assert!(!resp.is_ok());
    assert_eq!(resp.get_status().unwrap(), b"404 Not Found");
    assert_eq!(resp.msgbody(), &b"hello".to_vec());
}

#[test]
fn response_without_length_ends_with_its_head() {
    let wire = b"HTTP/1.1 101 Switching Protocols\r\nUpgrade: websocket\r\n\r\n";
    let resp = parse_response(wire, 0, 0);
    assert_eq!(resp.get_status().unwrap(), b"101 Switching Protocols");
    assert_eq!(resp.msgbody().len(), 0);
    assert_eq!(resp.get_content_length().unwrap_err(), HttpError::HeaderNotExistContentLength);
}

#[test]
fn response_versions() {
    for v in ["0.9", "1.0", "1.1", "2.0", "3.0"] {
        let wire = format!("HTTP/{} 200 OK\r\nContent-Length: 0\r\n\r\n", v);
        let resp = parse_response(wire.as_bytes(), 0, 0);
        assert!(resp.is_ok());
    }
    for bad in ["HTTP/1.2 200 OK\r\n", "HTTP/1.1\t200 OK\r\n", "HTTX/1.1 200 OK\r\n"] {
        assert!(matches!(
            HttpResponseParts::from_bytes(bad.as_bytes(), 0, 0),
            Parsed::Bad(HttpError::InvalidHttpVersion)
        ));
    }
}

#[test]
fn response_parser_asks_for_what_is_missing() {
    let wire = b"HTTP/1.1 200 OK\r\nContent-Length: 3\r\n\r\nabc";
    assert!(matches!(HttpResponseParts::from_bytes(b"", 0, 0), Parsed::Need(9)));
    assert!(matches!(HttpResponseParts::from_bytes(&wire[..4], 0, 0), Parsed::Need(5)));
    assert!(matches!(HttpResponseParts::from_bytes(&wire[..9], 0, 0), Parsed::Need(4)));
    assert!(matches!(HttpResponseParts::from_bytes(&wire[..13], 0, 0), Parsed::Need(1)));
    assert!(matches!(HttpResponseParts::from_bytes(&wire[..wire.len() - 3], 0, 0), Parsed::Need(3)));
    for cut in 0..wire.len() {
        match HttpResponseParts::from_bytes(&wire[..cut], 0, 0) {
            Parsed::Need(k) => assert!(k >= 1 && cut + k <= wire.len()),
            _ => panic!("complete at {}", cut),
        }
    }
    assert!(matches!(
        HttpResponseParts::from_bytes(b"HTTP/1.1 200 OK\rX", 0, 0),
        Parsed::Bad(HttpError::InvalidHttpData)
    ));
    assert!(matches!(
        HttpResponseParts::from_bytes(b"HTTP/1.1 200 OK\r\nContent-Length: 3\r\n\r\nabc", 2, 2),
        Parsed::Bad(HttpError::InvalidContentLength)
    ));
    assert!(matches!(
        HttpResponseParts::from_bytes(b"HTTP/1.1 200 OK\r\nContent-Length: z\r\n\r\n", 0, 0),
        Parsed::Bad(HttpError::InvalidContentLength)
    ));
}

#[test]
fn response_written_and_read_back() {
    let mut resp = HttpResponseParts::from_scratch();
    resp.http1p1().status(b"101 Switching Protocols").upgrade("websocket");
    assert_eq!(
        resp.to_vec(),
        b"HTTP/1.1 101 Switching Protocols\r\nUpgrade: websocket\r\n\r\n".to_vec()
    );
    let back = parse_response(&resp.to_vec(), 0, 0);
    assert_eq!(back.get_upgrade().unwrap(), b"websocket");
    assert!(!back.is_ok());
}

fn stream_to_disk(payload: &[u8], chunk: usize, head: usize, tail: usize) -> Vec<u8> {
    let head_bytes = format!("HTTP/1.1 200 OK\r\nContent-Length: {}\r\n\r\n", payload.len());
    let (mut resp, end) = match HttpResponseParts::head_from_bytes(head_bytes.as_bytes()) {
        Parsed::Done(m) => m,
        _ => panic!("head"),
    };
    assert_eq!(end, head_bytes.len());
    let n = resp.get_content_length().unwrap();
    let mut sink = BodySink::start(&resp, n, head, tail).unwrap();
    let mut file: Vec<u8> = vec![];
    let mut at = 0;
    while !sink.is_complete() {
        let nread = std::cmp::min(chunk, payload.len() - at);
        let kept = sink.accept(&payload[at..at + nread]).unwrap();
        file.extend(kept);
        at += nread;
    }
    let keep = sink.finish(&mut resp, "/tmp/body").unwrap();
    assert_eq!(resp.msgbody_persist(), Some("/tmp/body"));
    file.truncate(keep);
    file
}

#[test]
fn body_streaming() {
    let sizes = [37usize, 50 * 1024 * 1024, 1024 + 1024 * 1024];
    for size in sizes {
        let payload: Vec<u8> = (0..size).map(|i| (i % 251) as u8).collect();
        for (head, tail) in [(0usize, 0usize), (10, 0), (10, 2), (0, 5), (30, 7)] {
            for chunk in [7usize, 4096, 1024 * 1024] {
                if size > 1024 * 1024 * 2 && chunk < 4096 {
                    continue;
                }
                let file = stream_to_disk(&payload, chunk, head, tail);
                assert_eq!(file.len(), size - head - tail);
                assert!(file == payload[head..size - tail]);
            }
        }
    }
}

#[test]
fn body_streaming_skips_more_than_one_read() {
    let payload: Vec<u8> = (0..100u8).collect();
    let file = stream_to_disk(&payload, 8, 30, 0);
    assert_eq!(file, payload[30..].to_vec());
    let file = stream_to_disk(&payload, 1, 99, 1);
    assert_eq!(file, Vec::<u8>::new());
}

#[test]
fn fifty_mebibytes_less_ten_bytes() {
    let size = 50 * 1024 * 1024;
    let payload: Vec<u8> = (0..size).map(|i| (i % 253) as u8).collect();
    let file = stream_to_disk(&payload, 1024 * 1024, 10, 0);
    assert_eq!(file.len(), size - 10);
    assert!(file == payload[10..]);
}

#[test]
fn body_sink_refuses() {
    let head = b"HTTP/1.1 200 OK\r\nContent-Length: 5\r\n\r\n";
    let (mut resp, _) = match HttpResponseParts::head_from_bytes(head) {
        Parsed::Done(m) => m,
        _ => panic!("head"),
    };
    assert_eq!(BodySink::start(&resp, 5, 4, 2).unwrap_err(), HttpError::InvalidContentLength);
    let mut sink = BodySink::start(&resp, 5, 1, 1).unwrap();
    assert_eq!(sink.accept(b"abcdef").unwrap_err(), HttpError::InvalidContentLength);
    assert_eq!(sink.accept(b"ab").unwrap(), b"b");
    assert_eq!(sink.finish(&mut resp, "p").unwrap_err(), HttpError::IncompleteFinish);
    assert!(resp.msgbody_persist().is_none());
}

#[test]
fn every_header_getter_agrees_after_a_round_trip() {
    for with in 0..64u32 {
        let mut req = HttpRequestParts::from_scratch();
        req.http1p1().post("/session/abc/element");
        req.ua("wda/1.1");
        if with & 1 != 0 {
            req.host("127.0.0.1:4444");
        }
        if with & 2 != 0 {
            req.connection("Upgrade");
        }
        if with & 4 != 0 {
            req.upgrade("websocket");
        }
        if with & 8 != 0 {
            req.ws_key("aG93LXRvLWhhbmRzaGFrZQ==");
        }
        if with & 16 != 0 {
            req.ws_ver("13");
        }
        if with & 32 != 0 {
            req.msgbody_from_slice(b"{\"using\":\"css selector\",\"value\":\"#a\"}");
        }
        let back = parse_request(&req.to_vec());
        assert_eq!(back.get_req_uri(), req.get_req_uri());
        assert_eq!(back.get_host(), req.get_host());
        assert_eq!(back.get_connection(), req.get_connection());
        assert_eq!(back.get_upgrade(), req.get_upgrade());
        assert_eq!(back.get_ws_key(), req.get_ws_key());
        assert_eq!(back.get_ws_ver(), req.get_ws_ver());
        assert_eq!(back.get_content_length(), req.get_content_length());
        assert_eq!(back.get_msgbody(), req.get_msgbody());
        assert_eq!(back.get_host().is_ok(), with & 1 != 0);
        assert_eq!(back.get_ws_ver().is_ok(), with & 16 != 0);
        assert_eq!(back.get_content_length().is_ok(), with & 32 != 0);
    }
}

#[test]
fn the_first_occurrence_of_a_name_counts() {
    let wire = b"GET / HTTP/1.1\r\nX-Note: Host: a\r\nHost: b\r\n\r\n";
    let req = parse_request(wire);
    assert_eq!(req.get_host().unwrap(), b"a");
}

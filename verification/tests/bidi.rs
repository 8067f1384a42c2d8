use wdc::bidi::{command_message, find_bytes, BidiClient, CreateBidiClient, WsEndpoint};
use wdc::httpp::{HttpResponseParts, Parsed};
use wdc::wsp::{Framing, WebSocketMessage};
use wdc::{ChromeDriver, GeckoDriver, WdcError};

fn answer(status: &str, body: &[u8]) -> HttpResponseParts {
    let mut wire = format!("HTTP/1.1 {}\r\nContent-Length: {}\r\n\r\n", status, body.len()).into_bytes();
    wire.extend(body);
    match HttpResponseParts::from_bytes(&wire, 0, 0) {
        Parsed::Done(r) => r,
        _ => panic!("answer"),
    }
}

#[test]
fn websocket_url_of_a_session() {
    let e = WsEndpoint::parse("ws://127.0.0.1:9222/session/abcd").unwrap();
    assert_eq!(e.raddr, "127.0.0.1:9222");
    assert_eq!(e.uri, "/session/abcd");
    let e = WsEndpoint::parse("ws://localhost:9222/session/f1425a03-0245-43f6-8cdc-541af79a7720").unwrap();
    assert_eq!(e.raddr, "localhost:9222");
    assert_eq!(e.uri, "/session/f1425a03-0245-43f6-8cdc-541af79a7720");
    assert!(WsEndpoint::parse("http://127.0.0.1:9222/session/abcd").is_none());
    assert!(WsEndpoint::parse("ws://127.0.0.1:9222/abcd").is_none());
    assert!(WsEndpoint::from_groups(None).is_none());
    let e = WsEndpoint::from_groups(Some(("h:1".to_string(), "x".to_string()))).unwrap();
    assert_eq!((e.raddr.as_str(), e.uri.as_str()), ("h:1", "/session/x"));
}

#[test]
fn bidi_session() {
    let mut bdc = GeckoDriver::new_bdc("127.0.0.1", 4444);
    assert_eq!(bdc.raddr(), "127.0.0.1:4444");
    assert_eq!(
        bdc.wstd_session_default_request().unwrap().to_vec(),
        b"POST /session HTTP/1.1\r\nHost: 127.0.0.1:4444\r\nContent-Length: 72\r\nContent-Type: application/json\r\n\r\n{\"capabilities\":{\"alwaysMatch\":{\"webSocketUrl\":true},\"firstMatch\":[{}]}}".to_vec()
    );
    let body = br#"{"value":{"sessionId":"f1425a03-0245-43f6-8cdc-541af79a7720","capabilities":{"acceptInsecureCerts":false,"browserName":"firefox","browserVersion":"102.9.0","moz:accessibilityChecks":false,"moz:buildID":"20230309232621","moz:debuggerAddress":"localhost:9222","moz:geckodriverVersion":"0.33.0","moz:headless":false,"moz:processID":457134,"moz:profile":"/tmp/rust_mozprofilezTTjQ9","moz:shutdownTimeout":60000,"moz:useNonSpecCompliantPointerOrigin":false,"moz:webdriverClick":true,"moz:windowless":false,"pageLoadStrategy":"normal","platformName":"linux","platformVersion":"6.1.0-7-amd64","proxy":{},"setWindowRect":true,"strictFileInteractability":false,"timeouts":{"implicit":0,"pageLoad":300000,"script":30000},"unhandledPromptBehavior":"dismiss and notify","webSocketUrl":"ws://localhost:9222/session/f1425a03-0245-43f6-8cdc-541af79a7720"}}}"#;
    let e = bdc.wstd_session_default_outcome(&answer("200 OK", body)).unwrap();
    assert_eq!(e.raddr, "localhost:9222");
    assert_eq!(e.uri, "/session/f1425a03-0245-43f6-8cdc-541af79a7720");
    assert_eq!(bdc.ssmetas.len(), 1);
    assert_eq!(bdc.ssmetas[0].ssid, "f1425a03-0245-43f6-8cdc-541af79a7720");

    let without = br#"{"value":{"sessionId":"s","capabilities":{"acceptInsecureCerts":false,"browserName":"firefox","browserVersion":"102.9.0","moz:profile":"/tmp/p","pageLoadStrategy":"normal","platformName":"linux","setWindowRect":true,"strictFileInteractability":false,"timeouts":{},"unhandledPromptBehavior":"dismiss and notify"}}}"#;
    assert_eq!(
        bdc.wstd_session_default_outcome(&answer("200 OK", without)).err(),
        Some(WdcError::Buggy)
    );
    assert_eq!(
        bdc.wstd_session_default_outcome(&answer("200 OK", b"nothing")).err(),
        Some(WdcError::Buggy)
    );
    assert_eq!(
        bdc.wstd_session_default_outcome(&answer(
            "500 Internal Server Error",
            br#"{"value":{"error":"session not created","message":"Session is already started"}}"#
        ))
        .err(),
        Some(WdcError::BusyCreateSession)
    );
    assert_eq!(bdc.ssmetas.len(), 1);
}

fn payload_of(msg: &WebSocketMessage) -> Vec<u8> {
    match WebSocketMessage::from_bytes(&msg.to_vec()) {
        Framing::Done(m, _) => {
            for i in 0..m.frame_count() {
                let f = m.frame(i).unwrap();
                assert!(f.is_mask());
                assert_eq!(f.to_vec()[0] & 0x0f, if i == 0 { 1 } else { 0 });
            }
            m.get_message_data().unwrap()
        }
        _ => panic!("message"),
    }
}

#[test]
fn bidi_commands() {
    type B = BidiClient<ChromeDriver>;
    assert_eq!(
        payload_of(&B::gen_ctx_message(1).unwrap()),
        br#"{"id":123,"method":"browsingContext.create","params":{"type":"tab"}}"#.to_vec()
    );
    assert_eq!(
        payload_of(&B::gen_ctx_message(0).unwrap()),
        br#"{"id":123,"method":"browsingContext.create","params":{"type":"window"}}"#.to_vec()
    );
    assert_eq!(
        payload_of(&B::navi_message("ctx-1", "about:rights").unwrap()),
        br#"{"id":123,"method":"browsingContext.navigate","params":{"url":"about:rights","context":"ctx-1"}}"#.to_vec()
    );
    assert_eq!(
        payload_of(&B::ctx_tree_message().unwrap()),
        br#"{"id":123,"method":"browsingContext.getTree","params":{}}"#.to_vec()
    );
    assert_eq!(command_message(b"").err(), Some(WdcError::Buggy));

    let mut bdc = ChromeDriver::new_bdc("h", 9515);
    assert_eq!(bdc.gen_ctx_outcome(br#"{"id":123,"result":{"context":"c1"},"type":"success"}"#), Ok(()));
    assert_eq!(bdc.gen_ctx_outcome(br#"{"result":{"context":"c2","x":1},"id":7}"#), Ok(()));
    assert_eq!(bdc.ctxlist(), vec!["c1", "c2"]);
    assert_eq!(bdc.gen_ctx_outcome(br#"{"id":123,"error":"unknown command"}"#), Err(WdcError::Buggy));
    assert_eq!(bdc.gen_ctx_outcome(br#"{"id":-1,"result":{"context":"c3"}}"#), Err(WdcError::Buggy));
    assert_eq!(bdc.gen_ctx_outcome(br#"{"id":1,"result":{}}"#), Err(WdcError::Buggy));
    assert_eq!(bdc.ctxlist().len(), 2);

    assert_eq!(B::result_outcome(br#"{"id":123,"result":{}}"#), Ok(()));
    assert_eq!(B::result_outcome(br#"{"id":123,"error":"x"}"#), Err(WdcError::Buggy));
    assert!(find_bytes(b"xresult", b"result"));
    assert!(find_bytes(b"", b""));
    assert!(!find_bytes(b"resul", b"result"));
    assert!(!find_bytes(b"resulresul", b"result"));
}

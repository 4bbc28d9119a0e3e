use serde_json::Value;
use toolmind::codec::{parse, to_value};
use toolmind::json::Json;
use toolmind::websocket::{
    websocket_exchange, websocket_request, websocket_request_with, WsEnd, WsEvent, WsRequest,
    WsSession,
};

fn json(s: &str) -> Json {
    parse(s).unwrap()
}

fn value(s: &str) -> Value {
    serde_json::from_str(s).unwrap()
}

fn refusal<T>(r: Result<T, Json>) -> Value {
    match r {
        Ok(_) => panic!("accepted"),
        Err(e) => to_value(&e),
    }
}

fn request() -> WsRequest {
    websocket_request(&json(r#"{"url":"wss://example.com/x"}"#)).ok().unwrap()
}

#[test]
fn an_exchange_has_defaults_and_bounds() {
    let q = request();
    assert_eq!((q.timeout_secs, q.receive_max), (30, 16));
    assert_eq!(q.send_texts, Vec::<String>::new());
    let q = websocket_request(&json(
        r#"{"url":"ws://h:1","timeout_secs":1,"receive_max":1000,"send_texts":["a",1,"b"]}"#,
    ))
    .ok()
    .unwrap();
    assert_eq!(q.url, "ws://h:1");
    assert_eq!((q.timeout_secs, q.receive_max), (5, 128));
    assert_eq!(q.send_texts, ["a", "b"]);
}

#[test]
fn an_exchange_needs_a_websocket_address() {
    assert_eq!(refusal(websocket_request(&json("{}")))["error"], "url (ws:// ou wss://) obrigatoria");
    assert_eq!(
        refusal(websocket_request(&json(r#"{"url":"http://a"}"#)))["error"],
        "url deve comecar com ws:// ou wss://"
    );
    assert_eq!(refusal(websocket_request(&json(r#"{"url":"ws://"}"#)))["error"], "URL invalida");
    assert_eq!(
        refusal(websocket_request(&json(r#"{"url":"ws://[bad"}"#)))["error"],
        "URL invalida"
    );
    let good = json(r#"{"url":"ws://a"}"#);
    assert!(websocket_request_with(&good, true).is_ok());
    assert_eq!(refusal(websocket_request_with(&good, false))["error"], "URL invalida");
}

#[test]
fn messages_are_taken_until_one_ends_the_exchange() {
    let mut s = WsSession::new(10);
    for e in [
        WsEvent::Text("olá".to_string()),
        WsEvent::Binary(3),
        WsEvent::Ping,
        WsEvent::Pong,
        WsEvent::Other("m".to_string()),
        WsEvent::Close("None".to_string()),
        WsEvent::Text("tarde".to_string()),
    ] {
        s.take(&e);
    }
    assert!(!s.waits());
    assert_eq!(
        to_value(&websocket_exchange(&request(), &s, &WsEnd::Finished)),
        value(
            r#"{"status":"ok","url":"wss://example.com/x","received":[
                {"kind":"text","data":"olá"},{"kind":"binary","len":3},{"kind":"ping"},{"kind":"pong"},
                {"kind":"other","meta":"m"},{"kind":"close","frame":"None"}]}"#
        )
    );
}

#[test]
fn no_more_messages_are_taken_than_asked_for() {
    let mut s = WsSession::new(2);
    assert!(s.waits());
    for _ in 0..5 {
        s.take(&WsEvent::Ping);
    }
    assert!(!s.waits());
    let r = to_value(&websocket_exchange(&request(), &s, &WsEnd::Finished));
    assert_eq!(r["received"].as_array().unwrap().len(), 2);
}

#[test]
fn errors_timeouts_and_the_end_stop_the_exchange() {
    for (event, entries) in [
        (WsEvent::Failed("e".to_string()), r#"[{"kind":"error","message":"e"}]"#),
        (WsEvent::TimedOut, r#"[{"kind":"timeout"}]"#),
        (WsEvent::Ended, "[]"),
    ] {
        let mut s = WsSession::new(5);
        s.take(&event);
        assert!(!s.waits());
        s.take(&WsEvent::Ping);
        let r = to_value(&websocket_exchange(&request(), &s, &WsEnd::Finished));
        assert_eq!(r["received"], value(entries));
    }
}

#[test]
fn a_failed_exchange_says_why() {
    let s = WsSession::new(1);
    for (end, message) in [
        (WsEnd::NoRuntime("r".to_string()), "r"),
        (WsEnd::Handshake("h".to_string()), "handshake: h"),
        (WsEnd::HandshakeTimeout, "timeout no handshake WebSocket"),
        (WsEnd::Send("s".to_string()), "send: s"),
        (WsEnd::Panicked, "thread websocket panicou"),
    ] {
        let r = to_value(&websocket_exchange(&request(), &s, &end));
        assert_eq!(r["status"], "error");
        assert_eq!(r["error"], message);
    }
}

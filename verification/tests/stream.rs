use proxy_server::stream::STREAM_BUFFER;
use proxy_server::{ProxyError, ProxyServer, ResponseStream, StreamAction, StreamEvent, StreamState};
use reqwest::Client;

fn failure() -> reqwest::Error {
    Client::new().get("no url").build().unwrap_err()
}

fn reading() -> ResponseStream {
    let mut stream = ResponseStream::new("http://h.example/".to_string());
    assert!(matches!(stream.step(StreamEvent::Started), StreamAction::Acquire));
    assert!(matches!(
        stream.step(StreamEvent::Admitted(Ok(()))),
        StreamAction::Connect
    ));
    let client = stream.connect();
    assert!(client.is_ok());
    match stream.step(StreamEvent::Connected(client)) {
        StreamAction::Request(client) => {
            assert!(format!("{:?}", client).contains("timeout: 30s"))
        }
        _ => panic!("a client was made"),
    }
    assert!(matches!(
        stream.step(StreamEvent::Responded(Ok(()))),
        StreamAction::Read
    ));
    stream
}

/// What a reader gets who takes every item.
fn delivered(chunks: Vec<Result<Vec<u8>, reqwest::Error>>) -> Vec<Result<String, ProxyError>> {
    let mut stream = reading();
    let mut items = vec![];
    let mut chunks = chunks.into_iter();
    let mut action = StreamAction::Read;
    loop {
        action = match action {
            StreamAction::Read => stream.step(StreamEvent::Read(chunks.next())),
            StreamAction::Deliver(item) => {
                items.push(item);
                stream.step(StreamEvent::Delivered(true))
            }
            StreamAction::Stop => break,
            _ => panic!("the stream is open"),
        };
    }
    assert_eq!(stream.state(), StreamState::Closed);
    items
}

#[test]
fn stream_of_a_route() {
    let mut server = ProxyServer::new(1, 1, 0);
    server.add_route("/a", "http://h.example/s");
    match server.stream_response("/a") {
        Ok(stream) => {
            assert_eq!(stream.target(), "http://h.example/s");
            assert_eq!(stream.state(), StreamState::Fresh);
        }
        Err(_) => panic!("the path has a route"),
    }
    assert!(matches!(
        server.stream_response("/b"),
        Err(ProxyError::RouteNotFound(path)) if path == "/b"
    ));
}

#[test]
fn chunks_are_delivered_in_order() {
    let items = delivered(vec![
        Ok(b"one".to_vec()),
        Ok("zw\u{f6}lf".as_bytes().to_vec()),
        Ok(vec![]),
        Ok(b"end".to_vec()),
    ]);
    let texts: Vec<String> = items.into_iter().map(|item| item.unwrap()).collect();
    assert_eq!(texts, vec!["one", "zw\u{f6}lf", "", "end"]);
}

#[test]
fn chunk_that_is_not_text_is_left_out() {
    let items = delivered(vec![
        Ok(b"a".to_vec()),
        Ok(vec![0xc3]),
        Ok(vec![0xff, 0x41]),
        Ok(vec![0xed, 0xa0, 0x80]),
        Ok(b"b".to_vec()),
    ]);
    let texts: Vec<String> = items.into_iter().map(|item| item.unwrap()).collect();
    assert_eq!(texts, vec!["a", "b"]);
}

#[test]
fn failure_ends_the_response() {
    let items = delivered(vec![
        Ok(b"a".to_vec()),
        Err(failure()),
        Ok(b"b".to_vec()),
    ]);
    assert_eq!(items.len(), 2);
    assert!(matches!(&items[0], Ok(text) if text == "a"));
    assert!(matches!(&items[1], Err(ProxyError::HttpClient(_))));
}

#[test]
fn stream_stops_without_a_reader() {
    let mut stream = reading();
    assert!(matches!(
        stream.step(StreamEvent::Read(Some(Ok(b"a".to_vec())))),
        StreamAction::Deliver(Ok(_))
    ));
    assert!(matches!(
        stream.step(StreamEvent::Delivered(false)),
        StreamAction::Stop
    ));
}

#[test]
fn refusal_of_the_rate_limit_is_the_only_item() {
    let mut stream = ResponseStream::new(String::new());
    stream.step(StreamEvent::Started);
    assert!(matches!(
        stream.step(StreamEvent::Admitted(Err(ProxyError::RateLimitExceeded))),
        StreamAction::Deliver(Err(ProxyError::RateLimitExceeded))
    ));
    assert!(matches!(
        stream.step(StreamEvent::Delivered(true)),
        StreamAction::Stop
    ));
}

#[test]
fn failed_client_is_the_only_item() {
    let mut stream = ResponseStream::new(String::new());
    stream.step(StreamEvent::Started);
    stream.step(StreamEvent::Admitted(Ok(())));
    assert!(matches!(
        stream.step(StreamEvent::Connected(Err(failure()))),
        StreamAction::Deliver(Err(ProxyError::HttpClient(_)))
    ));
    assert_eq!(stream.state(), StreamState::Closing);
}

#[test]
fn target_that_does_not_respond_is_the_only_item() {
    let mut stream = ResponseStream::new(String::new());
    stream.step(StreamEvent::Started);
    stream.step(StreamEvent::Admitted(Ok(())));
    let client = stream.connect();
    stream.step(StreamEvent::Connected(client));
    assert!(matches!(
        stream.step(StreamEvent::Responded(Err(failure()))),
        StreamAction::Deliver(Err(ProxyError::HttpClient(_)))
    ));
    assert!(matches!(
        stream.step(StreamEvent::Delivered(true)),
        StreamAction::Stop
    ));
}

#[test]
fn reader_holds_the_stream_back() {
    let mut stream = reading();
    let mut waiting = vec![];
    let mut made = 0;
    let mut action = StreamAction::Read;
    loop {
        action = match action {
            StreamAction::Read => stream.step(StreamEvent::Read(Some(Ok(b"x".to_vec())))),
            StreamAction::Deliver(item) => {
                made += 1;
                if waiting.len() == STREAM_BUFFER {
                    break;
                }
                waiting.push(item);
                stream.step(StreamEvent::Delivered(true))
            }
            _ => panic!("the stream is open"),
        };
    }
    assert_eq!(made, 5);
    assert_eq!(waiting.len(), 4);
    assert_eq!(stream.state(), StreamState::Delivering);
    assert!(matches!(
        stream.step(StreamEvent::Delivered(false)),
        StreamAction::Stop
    ));
    assert_eq!(stream.state(), StreamState::Closed);
}

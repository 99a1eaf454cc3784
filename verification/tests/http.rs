use rustwright::cdp_error::CdpError;
use rustwright::http::{
    chunked_body_complete, content_length, decode_chunked, get_request, response_body, HttpEndpoint, ResponseReader,
};

#[test]
fn parses_content_length_case_insensitively() {
    let head = "HTTP/1.1 200 OK\r\nContent-Length: 42\r\nX-Other: 1";
    assert_eq!(content_length(head), Some(42));
}

#[test]
fn missing_content_length_is_none() {
    let head = "HTTP/1.1 200 OK\r\nTransfer-Encoding: chunked";
    assert_eq!(content_length(head), None);
}

#[test]
fn detects_complete_chunked_bodies() {
    assert!(chunked_body_complete(b"5\r\nhello\r\n0\r\n\r\n"));
    assert!(!chunked_body_complete(b"5\r\nhello"));
}

#[test]
fn decodes_chunked_bodies() {
    assert_eq!(
        decode_chunked("5\r\nhello\r\n6\r\n world\r\n0\r\n\r\n").unwrap(),
        "hello world"
    );
}

#[test]
fn endpoint_parses_default_port() {
    let endpoint = HttpEndpoint::parse("http://127.0.0.1").unwrap();
    assert_eq!(endpoint.port, 9222);
    assert_eq!(endpoint.host, "127.0.0.1");
}

fn http_message(result: Result<String, CdpError>) -> String {
    match result {
        Err(CdpError::Http(message)) => message,
        Err(_) => panic!("expected an HTTP error"),
        Ok(text) => panic!("expected an error, got {text:?}"),
    }
}

#[test]
fn endpoint_takes_explicit_port_and_strips_decoration() {
    let endpoint = HttpEndpoint::parse("  https://localhost:9333/  ").unwrap();
    assert_eq!(endpoint.host, "localhost");
    assert_eq!(endpoint.port, 9333);
    assert_eq!(endpoint.base_url(), "http://localhost:9333");
}

#[test]
fn endpoint_errors_name_the_input() {
    assert_eq!(http_message(HttpEndpoint::parse("http://").map(|e| e.host)), "invalid endpoint `http://`");
    assert_eq!(
        http_message(HttpEndpoint::parse("host:99999").map(|e| e.host)),
        "invalid port in endpoint `host:99999`"
    );
    assert_eq!(http_message(HttpEndpoint::parse(":80").map(|e| e.host)), "invalid host in endpoint `:80`");
}

#[test]
fn base_url_parses_back_to_the_endpoint() {
    let endpoint = HttpEndpoint { host: "10.0.0.7".to_string(), port: 4444 };
    let parsed = HttpEndpoint::parse(&endpoint.base_url()).unwrap();
    assert_eq!(parsed.host, endpoint.host);
    assert_eq!(parsed.port, endpoint.port);
}

#[test]
fn content_length_skips_unparsable_values() {
    let head = "HTTP/1.1 200 OK\r\ncontent-length: nope\r\nCONTENT-LENGTH:  +17  ";
    assert_eq!(content_length(head), Some(17));
}

#[test]
fn chunk_sizes_ignore_extensions_and_white_space() {
    assert!(chunked_body_complete(b"3;name=x\r\nabc\r\n 0 \r\n\r\n"));
    assert!(!chunked_body_complete(b"3;name=x\r\nabc\r\n 0 \r\n"));
    assert!(!chunked_body_complete(b"zz\r\nabc\r\n0\r\n"));
}

#[test]
fn decoding_reports_malformed_chunks() {
    assert_eq!(http_message(decode_chunked("5\r\nhi")), "malformed chunked response (short chunk)");
    assert_eq!(http_message(decode_chunked("5 hello")), "malformed chunked response (missing size line)");
    assert_eq!(http_message(decode_chunked("xyz\r\nhello")), "invalid chunk size `xyz`");
}

#[test]
fn decoding_counts_bytes_of_utf8() {
    assert_eq!(decode_chunked("2\r\n\u{e9}\r\n0\r\n\r\n").unwrap(), "\u{e9}");
}

#[test]
fn builds_the_devtools_request() {
    let endpoint = HttpEndpoint { host: "127.0.0.1".to_string(), port: 9222 };
    assert_eq!(
        get_request(&endpoint, "/json/version"),
        "GET /json/version HTTP/1.1\r\nHost: 127.0.0.1:9222\r\nAccept: application/json\r\nConnection: close\r\n\r\n"
    );
}

#[test]
fn reads_plain_and_chunked_responses() {
    let plain = response_body(b"HTTP/1.1 200 OK\r\nContent-Length: 2\r\n\r\n{}", "/json").unwrap().unwrap();
    assert_eq!(plain, "{}");
    let chunked = response_body(
        b"HTTP/1.1 200 OK\r\nTransfer-Encoding: chunked\r\n\r\n2\r\n[]\r\n0\r\n\r\n",
        "/json/list",
    )
    .unwrap()
    .unwrap();
    assert_eq!(chunked, "[]");
}

#[test]
fn reports_failed_responses() {
    let failed = response_body(b"HTTP/1.1 404 Not Found\r\n\r\n  gone \n", "/json/new").unwrap();
    assert_eq!(http_message(failed), "DevTools HTTP 404 for /json/new: gone");
    let malformed = response_body(b"HTTP/1.1 200 OK\r\n", "/json").unwrap();
    assert_eq!(http_message(malformed), "malformed HTTP response from DevTools");
    let no_status = response_body(b"HTTP/1.1\r\n\r\nbody", "/json").unwrap();
    assert_eq!(http_message(no_status), "missing HTTP status from DevTools");
}

#[test]
fn reader_stops_at_content_length() {
    let mut reader = ResponseReader::new();
    assert!(!reader.is_complete());
    reader.push(b"HTTP/1.1 200 OK\r\nContent-Length: 5\r\n\r\nhel");
    assert!(!reader.is_complete());
    reader.push(b"lo");
    assert!(reader.is_complete());
    assert_eq!(reader.into_bytes(), b"HTTP/1.1 200 OK\r\nContent-Length: 5\r\n\r\nhello".to_vec());
}

#[test]
fn reader_stops_at_the_last_chunk() {
    let mut reader = ResponseReader::new();
    reader.push(b"HTTP/1.1 200 OK\r\nTransfer-Encoding: chunked\r\n\r\n5\r\nhello\r\n");
    assert!(!reader.is_complete());
    reader.push(b"0\r\n\r\n");
    assert!(reader.is_complete());
}

#[test]
fn chunked_encoding_round_trips() {
    // hex sizes count bytes, so a multi-byte character and a chunk of 26 bytes
    let chunks = ["caf\u{e9}", "abcdefghijklmnopqrstuvwxyz", "!"];
    let mut encoded = String::new();
    for chunk in chunks.iter() {
        encoded.push_str(&format!("{:x}\r\n{}\r\n", chunk.len(), chunk));
    }
    encoded.push_str("0\r\n\r\n");
    assert!(encoded.starts_with("5\r\ncaf"));
    assert!(encoded.contains("\r\n1a\r\n"));
    assert_eq!(decode_chunked(&encoded).unwrap(), chunks.concat());
    assert!(chunked_body_complete(encoded.as_bytes()));
}

#[test]
fn the_last_chunk_needs_its_trailing_line_break() {
    assert!(!chunked_body_complete(b"5\r\nhello\r\n0\r\n"));
    assert!(!chunked_body_complete(b"5\r\nhello\r\n0\r\n\r"));
    assert!(chunked_body_complete(b"5\r\nhello\r\n0\r\n\r\n"));
    let mut reader = ResponseReader::new();
    reader.push(b"HTTP/1.1 200 OK\r\nTransfer-Encoding: chunked\r\n\r\n5\r\nhello\r\n0\r\n");
    assert!(!reader.is_complete());
    reader.push(b"\r\n");
    assert!(reader.is_complete());
}

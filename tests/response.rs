use rust_webserver::response::{clone_headers, Header, HttpResponse};

fn h(name: &str, value: &str) -> Header {
    (name.to_string(), value.to_string())
}

#[test]
fn serialize_status_ok_with_one_header() {
    let res = HttpResponse::new().headers(&mut vec![h("X-Server", "X")]);
    let bytes = res.send_from_str("hi".to_string(), None);
    assert_eq!(bytes, b"HTTP/1.1 200 OK\nX-Server: X\n\nhi".to_vec());
}

#[test]
fn serialize_without_headers_or_body() {
    let bytes = HttpResponse::new().send_bytes(Vec::new(), None);
    assert_eq!(bytes, b"HTTP/1.1 200 OK\n\n".to_vec());
}

#[test]
fn status_and_message_are_written() {
    let bytes = HttpResponse::new()
        .status(404)
        .message("Not found")
        .send_from_str("gone".to_string(), None);
    assert_eq!(bytes, b"HTTP/1.1 404 Not found\n\ngone".to_vec());
}

#[test]
fn status_digits_at_the_edges() {
    let zero = HttpResponse::new().status(0).send_bytes(Vec::new(), None);
    assert_eq!(zero, b"HTTP/1.1 0 OK\n\n".to_vec());
    let max = HttpResponse::new().status(65535).send_bytes(Vec::new(), None);
    assert_eq!(max, b"HTTP/1.1 65535 OK\n\n".to_vec());
    let ten = HttpResponse::new().status(10).send_bytes(Vec::new(), None);
    assert_eq!(ten, b"HTTP/1.1 10 OK\n\n".to_vec());
}

#[test]
fn base_headers_come_before_additional_ones() {
    let mut base = vec![h("A", "1"), h("B", "2")];
    let res = HttpResponse::new().headers(&mut base);
    assert!(base.is_empty());
    let bytes = res.send_bytes(vec![0u8, 255u8], Some(vec![h("Content-Type", "text/html")]));
    let mut expected = b"HTTP/1.1 200 OK\nA: 1\nB: 2\nContent-Type: text/html\n\n".to_vec();
    expected.extend_from_slice(&[0u8, 255u8]);
    assert_eq!(bytes, expected);
}

#[test]
fn headers_appended_twice_keep_their_order() {
    let res = HttpResponse::new()
        .headers(&mut vec![h("A", "1")])
        .headers(&mut vec![h("A", "2")]);
    let bytes = res.build_response(b"x".to_vec(), Some(Vec::new()));
    assert_eq!(bytes, b"HTTP/1.1 200 OK\nA: 1\nA: 2\n\nx".to_vec());
}

#[test]
fn non_ascii_text_is_utf8_encoded() {
    let bytes = HttpResponse::new()
        .headers(&mut vec![h("X-Name", "caf\u{e9}")])
        .send_from_str("\u{2603}".to_string(), None);
    assert_eq!(
        bytes,
        "HTTP/1.1 200 OK\nX-Name: caf\u{e9}\n\n\u{2603}".as_bytes().to_vec()
    );
}

#[test]
fn cloned_headers_are_equal() {
    let hs = vec![h("A", "1"), h("B", "2")];
    assert_eq!(clone_headers(&hs), hs);
    assert!(clone_headers(&Vec::new()).is_empty());
}

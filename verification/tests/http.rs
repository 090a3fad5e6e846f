use isla::http::handle_request;

#[test]
fn test_http_handler() {
    let request = b"GET /index.html HTTP/1.1\r\nHost: localhost\r\n\r\n";
    let response = handle_request(request).unwrap();
    assert!(response.contains("HTTP/1.1 200 OK"));
    assert!(response.contains("Project Isla"));
}

#[test]
fn test_http_invalid() {
    let request = b"POST /submit HTTP/1.1\r\n\r\n";
    assert!(handle_request(request).is_none());
}

#[test]
fn http_content_length_matches_body() {
    let response = handle_request(b"GET / HTTP/1.1\r\n\r\n").unwrap();
    assert!(response.starts_with("HTTP/1.1 200 OK\r\nContent-Type: text/html\r\nContent-Length: 385\r\nConnection: close\r\nServer: Isla-User-Stack/1.0\r\n\r\n<html>\n"));
    let body_start = response.find("\r\n\r\n").unwrap() + 4;
    assert_eq!(response.len() - body_start, 385);
    assert!(response.ends_with("</body>\n</html>"));
}

#[test]
fn http_get_anywhere_and_in_binary_data() {
    assert!(handle_request(b"xxGET /").is_some());
    assert!(handle_request(&[0xff, 0xfe, b'G', b'E', b'T', b' ', b'/', 0xc3]).is_some());
    assert!(handle_request(b"GET ").is_none());
    assert!(handle_request(b"get /").is_none());
    assert!(handle_request(b"").is_none());
}

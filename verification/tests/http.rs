use servidor_http_threadpool::http::{
    decimal, response, route, starts_with, Page, BLANK_LINE, BUFFER_SIZE, FRONT_REQUEST,
    LENGTH_HEADER, SLOW_REQUEST,
};

fn buffer_with(request: &[u8]) -> [u8; BUFFER_SIZE] {
    let mut buffer = [0u8; BUFFER_SIZE];
    buffer[..request.len()].copy_from_slice(request);
    buffer
}

#[test]
fn request_lines_are_the_literal_prefixes() {
    assert_eq!(BUFFER_SIZE, 512);
    assert_eq!(FRONT_REQUEST.as_bytes(), b"GET / HTTP/1.1\r\n");
    assert_eq!(SLOW_REQUEST.as_bytes(), b"GET /sleep HTTP/1.1\r\n");
    assert_eq!(LENGTH_HEADER, "\r\ncontent-length:");
    assert_eq!(BLANK_LINE, "\r\n\r\n");
}

#[test]
fn front_request_gets_the_front_page() {
    let buffer = buffer_with(b"GET / HTTP/1.1\r\nHost: 127.0.0.1:7878\r\n\r\n");
    assert_eq!(route(&buffer), Page::Front);
    assert_eq!(route(b"GET / HTTP/1.1\r\n"), Page::Front);
}

#[test]
fn sleep_request_gets_the_slow_page() {
    let buffer = buffer_with(b"GET /sleep HTTP/1.1\r\nHost: 127.0.0.1:7878\r\n\r\n");
    assert_eq!(route(&buffer), Page::Slow);
    assert_eq!(route(b"GET /sleep HTTP/1.1\r\n"), Page::Slow);
}

#[test]
fn any_other_request_gets_the_not_found_page() {
    assert_eq!(route(&buffer_with(b"GET /other HTTP/1.1\r\n\r\n")), Page::NotFound);
    assert_eq!(route(&buffer_with(b"POST / HTTP/1.1\r\n\r\n")), Page::NotFound);
    assert_eq!(route(&buffer_with(b"get / http/1.1\r\n\r\n")), Page::NotFound);
    assert_eq!(route(&buffer_with(b" GET / HTTP/1.1\r\n\r\n")), Page::NotFound);
    assert_eq!(route(&[0u8; 512]), Page::NotFound);
    assert_eq!(route(&[]), Page::NotFound);
}

#[test]
fn request_cut_short_of_its_line_gets_the_not_found_page() {
    assert_eq!(route(b"GET / HTTP/1.1\r"), Page::NotFound);
    assert_eq!(route(b"GET /sleep HTTP/1.1"), Page::NotFound);
    assert_eq!(route(b"GET /"), Page::NotFound);
}

#[test]
fn pages_name_their_status_line_file_and_delay() {
    assert_eq!(Page::Front.status_line(), "HTTP/1.1 200 OK");
    assert_eq!(Page::Front.file_name(), "hello.html");
    assert_eq!(Page::Front.delay_seconds(), 0);
    assert_eq!(Page::Slow.status_line(), "HTTP/1.1 200 OK");
    assert_eq!(Page::Slow.file_name(), "hello.html");
    assert_eq!(Page::Slow.delay_seconds(), 5);
    assert_eq!(Page::NotFound.status_line(), "HTTP/1.1 404 NOT FOUND");
    assert_eq!(Page::NotFound.file_name(), "404.html");
    assert_eq!(Page::NotFound.delay_seconds(), 0);
}

#[test]
fn starts_with_compares_the_leading_bytes() {
    assert!(starts_with(b"abcdef", b"abc"));
    assert!(starts_with(b"abc", b"abc"));
    assert!(starts_with(b"abc", b""));
    assert!(starts_with(b"", b""));
    assert!(!starts_with(b"ab", b"abc"));
    assert!(!starts_with(b"abd", b"abc"));
    assert!(!starts_with(b"xbc", b"abc"));
    assert!(!starts_with(b"", b"a"));
}

#[test]
fn decimal_writes_the_digits_most_significant_first() {
    assert_eq!(decimal(0), b"0".to_vec());
    assert_eq!(decimal(7), b"7".to_vec());
    assert_eq!(decimal(9), b"9".to_vec());
    assert_eq!(decimal(10), b"10".to_vec());
    assert_eq!(decimal(99), b"99".to_vec());
    assert_eq!(decimal(100), b"100".to_vec());
    assert_eq!(decimal(512), b"512".to_vec());
    assert_eq!(decimal(1_234_567_890), b"1234567890".to_vec());
    assert_eq!(decimal(usize::MAX), usize::MAX.to_string().into_bytes());
}

#[test]
fn response_carries_status_length_and_body() {
    let body = "<!DOCTYPE html><html><body>Hello!</body></html>\n";
    let expected = format!("{}\r\ncontent-length:{}\r\n\r\n{}", "HTTP/1.1 200 OK", body.len(), body);
    assert_eq!(response("HTTP/1.1 200 OK", body.as_bytes()), expected.into_bytes());
    assert_eq!(
        response("HTTP/1.1 404 NOT FOUND", b"gone"),
        b"HTTP/1.1 404 NOT FOUND\r\ncontent-length:4\r\n\r\ngone".to_vec()
    );
}

#[test]
fn response_with_an_empty_body_has_length_zero() {
    assert_eq!(
        response("HTTP/1.1 200 OK", b""),
        b"HTTP/1.1 200 OK\r\ncontent-length:0\r\n\r\n".to_vec()
    );
}

#[test]
fn response_counts_the_bytes_of_the_body() {
    let body = "añö€";
    assert_eq!(body.len(), 8);
    let bytes = response(Page::Front.status_line(), body.as_bytes());
    let expected = format!("HTTP/1.1 200 OK\r\ncontent-length:8\r\n\r\n{}", body);
    assert_eq!(bytes, expected.into_bytes());
}

#[test]
fn decimal_is_read_back_as_the_number_written() {
    for n in [0usize, 1, 9, 10, 11, 19, 20, 99, 100, 101, 511, 512, 999, 1000, 65_535, 1_000_000] {
        let digits = decimal(n);
        assert!(digits.iter().all(|digit| digit.is_ascii_digit()));
        assert!(n == 0 || digits[0] != b'0');
        assert_eq!(String::from_utf8(digits).unwrap().parse::<usize>(), Ok(n));
    }
}

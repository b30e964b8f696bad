use mitos_network::errors::NetworkError;
use mitos_network::proxy::pac::builtins::{
    civil_from_days, days_and_secs, dns_domain_is, dns_domain_levels, is_in_net,
    is_plain_host_name, local_host_or_domain_is, parse_ipv4, range_match, sh_exp_match,
    weekday_from_days, weekday_index,
};
use mitos_network::proxy::pac::http::{
    check_size, check_status, dechunk, http_request, is_chunked, parse_http_url, response_body,
    split_response,
};
use mitos_network::proxy::pac::lexer::{tokenize, TokKind};

#[test]
fn sh_exp_match_wildcards() {
    assert!(sh_exp_match("foo.example.com", "*.example.com"));
    assert!(sh_exp_match("example.com", "example.com"));
    assert!(!sh_exp_match("example.com", "*.example.com"));
    assert!(sh_exp_match("abc", "a?c"));
}

#[test]
fn is_in_net_matches_subnet() {
    assert!(is_in_net("10.1.2.3", "10.0.0.0", "255.0.0.0"));
    assert!(!is_in_net("11.1.2.3", "10.0.0.0", "255.0.0.0"));
}

#[test]
fn dechunk_reassembles_chunks() {
    let chunked = "5\r\nHello\r\n6\r\n, PAC!\r\n0\r\n\r\n";
    assert_eq!(dechunk(chunked.as_bytes()), "Hello, PAC!".as_bytes());
}

#[test]
fn dechunk_ignores_extensions_and_stops_short() {
    assert_eq!(dechunk(b"3;name=v\r\nabc\r\n0\r\n\r\n"), b"abc".to_vec());
    // The second chunk claims more data than there is: decoding stops.
    assert_eq!(dechunk(b"2\r\nab\r\n9\r\ncd"), b"ab".to_vec());
    // A size line that is not hex ends decoding.
    assert_eq!(dechunk(b"zz\r\nab\r\n"), Vec::<u8>::new());
    assert_eq!(dechunk(b" A \r\n0123456789\r\n0\r\n\r\n"), b"0123456789".to_vec());
}

#[test]
fn glob_edge_cases() {
    assert!(sh_exp_match("", "*"));
    assert!(sh_exp_match("", ""));
    assert!(!sh_exp_match("a", ""));
    assert!(!sh_exp_match("", "?"));
    assert!(sh_exp_match("a*b", "a*b"));
    assert!(sh_exp_match("proxy.corp.local", "*.corp.*"));
}

#[test]
fn ipv4_parsing_follows_dotted_quad_rules() {
    assert_eq!(parse_ipv4("192.168.1.1"), Some(0xC0A8_0101));
    assert_eq!(parse_ipv4("0.0.0.0"), Some(0));
    assert_eq!(parse_ipv4("255.255.255.255"), Some(u32::MAX));
    assert_eq!(parse_ipv4("256.0.0.1"), None);
    assert_eq!(parse_ipv4("01.2.3.4"), None);
    assert_eq!(parse_ipv4("1.2.3"), None);
    assert_eq!(parse_ipv4("+1.2.3.4"), None);
    assert!(!is_in_net("not-an-ip", "10.0.0.0", "255.0.0.0"));
}

#[test]
fn host_name_predicates() {
    assert!(is_plain_host_name("intranet"));
    assert!(!is_plain_host_name("www.example.com"));
    assert!(dns_domain_is("WWW.Example.COM", ".example.com"));
    assert!(!dns_domain_is("www.example.org", ".example.com"));
    assert!(local_host_or_domain_is("www", "www.example.com"));
    assert!(local_host_or_domain_is("www.example.com", "www.example.com"));
    assert!(!local_host_or_domain_is("www.other.com", "www.example.com"));
    assert_eq!(dns_domain_levels("a.b.c"), 2);
    assert_eq!(dns_domain_levels("plain"), 0);
}

#[test]
fn calendar_arithmetic() {
    assert_eq!(civil_from_days(0), (1970, 1, 1));
    assert_eq!(civil_from_days(-1), (1969, 12, 31));
    assert_eq!(civil_from_days(11016), (2000, 2, 29));
    assert_eq!(civil_from_days(19723), (2024, 1, 1));
    assert_eq!(weekday_from_days(0), 4); // Thursday
    assert_eq!(weekday_from_days(-1), 3);
    assert_eq!(weekday_from_days(3), 0); // Sunday 1970-01-04
    assert_eq!(days_and_secs(86_399), (0, 86_399));
    assert_eq!(days_and_secs(-1), (-1, 86_399));
    assert_eq!(days_and_secs(90_000), (1, 3_600));
}

#[test]
fn ranges_wrap_around() {
    assert!(range_match(3, 1, Some(5)));
    assert!(!range_match(6, 1, Some(5)));
    assert!(range_match(6, 5, Some(1)));
    assert!(range_match(0, 5, Some(1)));
    assert!(!range_match(3, 5, Some(1)));
    assert!(range_match(4, 4, None));
    assert!(!range_match(3, 4, None));
    assert_eq!(weekday_index("mon"), Some(1));
    assert_eq!(weekday_index("SAT"), Some(6));
    assert_eq!(weekday_index("funday"), None);
}

#[test]
fn http_url_parts() {
    let (h, p, path) = parse_http_url("http://wpad.example.com/proxy.pac").unwrap();
    assert_eq!((h.as_str(), p, path.as_str()), ("wpad.example.com", 80, "/proxy.pac"));
    let (h, p, path) = parse_http_url("http://10.0.0.1:8080").unwrap();
    assert_eq!((h.as_str(), p, path.as_str()), ("10.0.0.1", 8080, "/"));
    match parse_http_url("https://x/y") {
        Err(NetworkError::Other(m)) => {
            assert_eq!(m, "only http:// PAC URLs are supported (no TLS client available)")
        }
        other => panic!("unexpected {:?}", other),
    }
    match parse_http_url("http://host:99999/") {
        Err(NetworkError::Other(m)) => assert_eq!(m, "invalid port in PAC URL: '99999'"),
        other => panic!("unexpected {:?}", other),
    }
    match parse_http_url("http://:80/") {
        Err(NetworkError::Other(m)) => assert_eq!(m, "PAC URL has no host"),
        other => panic!("unexpected {:?}", other),
    }
}

#[test]
fn http_response_handling() {
    let req = http_request("h", "/p");
    assert!(req.starts_with("GET /p HTTP/1.1\r\nHost: h\r\n"));
    let (headers, body) =
        split_response("HTTP/1.1 200 OK\r\nTransfer-Encoding: Chunked\r\n\r\n3\r\nabc\r\n0\r\n\r\n")
            .unwrap();
    assert!(check_status(&headers).is_ok());
    assert!(is_chunked(&headers));
    assert_eq!(body, "3\r\nabc\r\n0\r\n\r\n");
    match check_status("HTTP/1.1 404 Not Found") {
        Err(NetworkError::Other(m)) => assert_eq!(m, "PAC server returned: HTTP/1.1 404 Not Found"),
        other => panic!("unexpected {:?}", other),
    }
    assert!(split_response("no blank line").is_err());
    assert!(check_size(1024 * 1024).is_ok());
    assert!(check_size(1024 * 1024 + 1).is_err());
}

#[test]
fn tokenizer_produces_tokens() {
    let toks = tokenize("function f(a) { return a == \"x\\n\" && 1.5 >= 2; } // c").unwrap();
    let kinds: Vec<TokKind> = toks.iter().map(|t| t.kind).collect();
    assert_eq!(
        kinds,
        vec![
            TokKind::Ident,
            TokKind::Ident,
            TokKind::LParen,
            TokKind::Ident,
            TokKind::RParen,
            TokKind::LBrace,
            TokKind::Ident,
            TokKind::Ident,
            TokKind::EqEq,
            TokKind::Str,
            TokKind::AndAnd,
            TokKind::Num,
            TokKind::Ge,
            TokKind::Num,
            TokKind::Semi,
            TokKind::RBrace,
            TokKind::Eof,
        ]
    );
    assert_eq!(toks[9].text, "x\n");
    assert_eq!(toks[11].text, "1.5");
    assert_eq!(tokenize("/* a */ x").unwrap().len(), 2);
}

#[test]
fn tokenizer_errors() {
    match tokenize("\"open") {
        Err(NetworkError::Parse(m)) => assert_eq!(m, "unterminated string in PAC script"),
        other => panic!("unexpected {:?}", other),
    }
    match tokenize("1.2.3") {
        Err(NetworkError::Parse(m)) => assert_eq!(m, "bad number literal '1.2.3'"),
        other => panic!("unexpected {:?}", other),
    }
    match tokenize("a # b") {
        Err(NetworkError::Parse(m)) => assert_eq!(m, "unexpected character '#' in PAC script"),
        other => panic!("unexpected {:?}", other),
    }
}

#[test]
fn response_body_plain_and_chunked() {
    let plain = "HTTP/1.1 200 OK\r\nContent-Type: application/x-ns-proxy-autoconfig\r\n\r\nfunction FindProxyForURL(u, h) { return \"DIRECT\"; }";
    let body = response_body(plain).unwrap();
    assert_eq!(body, b"function FindProxyForURL(u, h) { return \"DIRECT\"; }".to_vec());
    let chunked = "HTTP/1.1 200 OK\r\nTransfer-Encoding: Chunked\r\n\r\n5\r\nHello\r\n6\r\n, PAC!\r\n0\r\n\r\n";
    assert_eq!(response_body(chunked).unwrap(), b"Hello, PAC!".to_vec());
}

#[test]
fn response_body_errors() {
    match response_body("HTTP/1.1 404 Not Found\r\nServer: x\r\n\r\nnope") {
        Err(NetworkError::Other(m)) => assert_eq!(m, "PAC server returned: HTTP/1.1 404 Not Found"),
        other => panic!("unexpected {other:?}"),
    }
    match response_body("HTTP/1.1 200 OK\r\nno blank line") {
        Err(NetworkError::Other(m)) => assert_eq!(m, "malformed HTTP response fetching PAC"),
        other => panic!("unexpected {other:?}"),
    }
    let big = format!("HTTP/1.1 200 OK\r\n\r\n{}", "a".repeat(1048577));
    match response_body(&big) {
        Err(NetworkError::Other(m)) => assert_eq!(m, "PAC file exceeds size limit"),
        other => panic!("unexpected {other:?}"),
    }
    let exact = format!("HTTP/1.1 200 OK\r\n\r\n{}", "a".repeat(1048576));
    assert_eq!(response_body(&exact).unwrap().len(), 1048576);
}

#[test]
fn dechunk_trims_unicode_whitespace_around_sizes() {
    assert_eq!(dechunk("5\u{3000}\r\nHello\r\n0\r\n\r\n".as_bytes()), b"Hello".to_vec());
    assert_eq!(dechunk("\u{a0} 5\t\r\nHello\r\n0\r\n\r\n".as_bytes()), b"Hello".to_vec());
    assert_eq!(dechunk("5;ext\u{2003}\r\nHello\r\n".as_bytes()), b"Hello".to_vec());
    assert_eq!(dechunk("5x\r\nHello\r\n".as_bytes()), Vec::<u8>::new());
}

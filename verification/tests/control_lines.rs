//! Commands, replies and addresses of the control channel.

use ftp_audit::command::{
    extract_cmd_path, is_auth_tls_command, is_data_channel_command, is_epsv_command,
    is_pasv_command, is_upload_command, split_command, upload_cmd_path,
};
use ftp_audit::net::{IpAddr, Ipv4Addr, Ipv6Addr, SocketAddr};
use ftp_audit::passive::{
    is_reply_of, parse_epsv_response, parse_pasv_response, rewrite_epsv_response,
    rewrite_pasv_response,
};
use ftp_audit::reply::{is_complete_response, read_line_limited, LineRead, ReplyReader};
use ftp_audit::text::{is_white_space, parse_u16, push_decimal, push_hex, trimmed};


// is_upload_command tests
#[test]
fn is_upload_command_stor() {
    assert!(is_upload_command(b"STOR file.txt\r\n"));
    assert!(is_upload_command(b"stor file.txt\r\n"));
    assert!(is_upload_command(b"StOr file.txt\r\n"));
}

#[test]
fn is_upload_command_stou() {
    assert!(is_upload_command(b"STOU\r\n"));
    assert!(is_upload_command(b"stou\r\n"));
}

#[test]
fn is_upload_command_appe() {
    assert!(is_upload_command(b"APPE existing.txt\r\n"));
    assert!(is_upload_command(b"appe existing.txt\r\n"));
}

#[test]
fn is_upload_command_not_upload() {
    assert!(!is_upload_command(b"USER ftpuser\r\n"));
    assert!(!is_upload_command(b"PASS ftppass\r\n"));
    assert!(!is_upload_command(b"LIST\r\n"));
    assert!(!is_upload_command(b"RETR file.txt\r\n"));
    assert!(!is_upload_command(b"PASV\r\n"));
    assert!(!is_upload_command(b"CWD /pub\r\n"));
}

#[test]
fn is_upload_command_empty() {
    assert!(!is_upload_command(b"\r\n"));
    assert!(!is_upload_command(b""));
    assert!(!is_upload_command(b"   \r\n"));
}

#[test]
fn is_upload_command_with_trailing_spaces() {
    // leading spaces prevent detection (first char must be alphabetic)
    assert!(!is_upload_command(b"  STOR file.txt\r\n"));
    // spaces after command are fine
    assert!(is_upload_command(b"STOR  file.txt  \r\n"));
}

// is_pasv_command tests
#[test]
fn is_pasv_command_pasv() {
    assert!(is_pasv_command(b"PASV\r\n"));
    assert!(is_pasv_command(b"pasv\r\n"));
    assert!(is_pasv_command(b"Pasv\r\n"));
}

#[test]
fn is_pasv_command_epsv() {
    assert!(is_pasv_command(b"EPSV\r\n"));
    assert!(is_pasv_command(b"epsv\r\n"));
    assert!(is_pasv_command(b"EPSV 1\r\n"));
}

#[test]
fn is_pasv_command_not_pasv() {
    assert!(!is_pasv_command(b"PORT 192,168,1,1,4,1\r\n"));
    assert!(!is_pasv_command(b"EPRT |2|::1|54321|\r\n"));
    assert!(!is_pasv_command(b"USER ftpuser\r\n"));
    assert!(!is_pasv_command(b"LIST\r\n"));
}

#[test]
fn is_pasv_command_empty() {
    assert!(!is_pasv_command(b"\r\n"));
    assert!(!is_pasv_command(b""));
}

// is_complete_response tests
#[test]
fn is_complete_response_single_line() {
    assert!(is_complete_response(b"220 FTP Server ready\r\n"));
    assert!(is_complete_response(b"200 Command OK\r\n"));
    assert!(is_complete_response(b"150 Opening data connection\r\n"));
    assert!(is_complete_response(b"226 Transfer complete\r\n"));
    assert!(is_complete_response(b"530 Login authentication failed\r\n"));
}

#[test]
fn is_complete_response_multi_line() {
    assert!(is_complete_response(b"220-First line\r\n220 Second line\r\n"));
    assert!(is_complete_response(b"220-Line1\r\n220-Line2\r\n220 Final line\r\n"));
    assert!(is_complete_response(b"230-User logged in\r\n230-\r\n230 Welcome\r\n"));
}

#[test]
fn is_complete_response_incomplete() {
    assert!(!is_complete_response(b"220"));
    assert!(!is_complete_response(b"220-"));
    assert!(!is_complete_response(b"220 First line"));
    assert!(!is_complete_response(b"220-First line"));
    assert!(!is_complete_response(b""));
}

#[test]
fn is_complete_response_invalid_first_line() {
    assert!(is_complete_response(b"Not a code\r\n")); // invalid first line => complete
    assert!(is_complete_response(b"abc\r\n"));
}

#[test]
fn is_complete_response_mixed_lines() {
    // 123 bad first line => returns true (deemed complete)
    assert!(is_complete_response(b"123\r\n"));
    // 220 followed by continuation then final line with matching code + space
    assert!(is_complete_response(b"220-FTP server\r\n220 OK\r\n"));
    // 220 continuation followed by different code => incomplete (expected 220, got 221)
    assert!(!is_complete_response(b"220-FTP server\r\n221 Different\r\n"));
}

// parse_pasv_response tests (also covers EPSV via passthrough)
#[test]
fn parse_pasv_response_basic() {
    // 227 Entering Passive Mode (192,168,1,1,4,1) => port = 4*256+1 = 1025
    let resp = b"227 Entering Passive Mode (192,168,1,1,4,1)\r\n";
    let addr = parse_pasv_response(resp, Ipv4Addr::new(10, 0, 0, 1));
    assert!(addr.is_some());
    let addr = addr.unwrap();
    let mut text = Vec::new();
    addr.ip().push_text(&mut text);
    assert_eq!(text, b"192.168.1.1");
    assert_eq!(addr.port(), 1025);
}

#[test]
fn parse_pasv_response_with_spaces() {
    let resp = b"227 Entering Passive Mode ( 192 , 168 , 1 , 1 , 4 , 1 )\r\n";
    let addr = parse_pasv_response(resp, Ipv4Addr::localhost());
    assert!(addr.is_some());
    assert_eq!(addr.unwrap().port(), 1025);
}

#[test]
fn parse_pasv_response_high_port() {
    // port = 255*256+255 = 65535
    let resp = b"227 (192,168,1,1,255,255)\r\n";
    let addr = parse_pasv_response(resp, Ipv4Addr::localhost()).unwrap();
    assert_eq!(addr.port(), 65535);
}

#[test]
fn parse_pasv_response_low_port() {
    // port = 0*256+20 = 20
    let resp = b"227 (10,0,0,1,0,20)\r\n";
    let addr = parse_pasv_response(resp, Ipv4Addr::localhost()).unwrap();
    assert_eq!(addr.port(), 20);
}

#[test]
fn parse_pasv_response_invalid() {
    assert!(parse_pasv_response(b"220 OK\r\n", Ipv4Addr::localhost()).is_none());
    assert!(parse_pasv_response(b"227 no parens\r\n", Ipv4Addr::localhost()).is_none());
    assert!(parse_pasv_response(b"227 (1,2,3)\r\n", Ipv4Addr::localhost()).is_none());
    assert!(parse_pasv_response(b"227 (a,b,c,d,e,f)\r\n", Ipv4Addr::localhost()).is_none());
    assert!(parse_pasv_response(b"", Ipv4Addr::localhost()).is_none());
    assert!(parse_pasv_response(b"227 ()\r\n", Ipv4Addr::localhost()).is_none());
}

// EPSV parsing tests
#[test]
fn parse_epsv_response_basic() {
    // 229 Entering Extended Passive Mode (|||12345|) => port = 12345
    let resp = b"229 Entering Extended Passive Mode (|||12345|)\r\n";
    let ctrl_ip = Ipv4Addr::new(192, 168, 1, 100);
    let addr = parse_epsv_response(resp, ctrl_ip);
    assert!(addr.is_some());
    let addr = addr.unwrap();
    assert_eq!(addr.port(), 12345);
    let IpAddr::V4(addr_ip) = addr.ip() else { panic!("expected IPv4") };
    assert_eq!(addr_ip, ctrl_ip);
}

#[test]
fn parse_epsv_response_low_port() {
    let resp = b"229 EPSV (|||21|)\r\n";
    let ctrl_ip = Ipv4Addr::new(10, 0, 0, 1);
    let addr = parse_epsv_response(resp, ctrl_ip).unwrap();
    assert_eq!(addr.port(), 21);
}

#[test]
fn parse_epsv_response_high_port() {
    let resp = b"229 (|||65535|)\r\n";
    let addr = parse_epsv_response(resp, Ipv4Addr::localhost()).unwrap();
    assert_eq!(addr.port(), 65535);
}

#[test]
fn parse_epsv_response_invalid() {
    // Wrong code
    assert!(parse_epsv_response(b"227 (|||12345|)\r\n", Ipv4Addr::localhost()).is_none());
    // Missing pipes
    assert!(parse_epsv_response(b"229 (|12345|)\r\n", Ipv4Addr::localhost()).is_none());
    // Empty port
    assert!(parse_epsv_response(b"229 (||||)\r\n", Ipv4Addr::localhost()).is_none());
    // Non-numeric port
    assert!(parse_epsv_response(b"229 (|||abc|)\r\n", Ipv4Addr::localhost()).is_none());
}

// Verify parse_pasv_response dispatches to EPSV format correctly
#[test]
fn parse_pasv_response_epsv_dispatch() {
    // 229 EPSV response should be resolved using the control peer IP
    let resp = b"229 Entering Extended Passive Mode (|||54321|)\r\n";
    let ctrl_ip = Ipv4Addr::new(203, 0, 113, 10);
    let addr = parse_pasv_response(resp, ctrl_ip);
    assert!(addr.is_some());
    let addr = addr.unwrap();
    assert_eq!(addr.port(), 54321);
    let IpAddr::V4(addr_ip) = addr.ip() else { panic!("expected IPv4") };
    assert_eq!(addr_ip, ctrl_ip);
}

// rewrite_pasv_response tests
#[test]
fn rewrite_pasv_response_basic() {
    let resp = b"227 Entering Passive Mode (192,168,1,1,4,1)\r\n";
    let local: SocketAddr = SocketAddr::new(IpAddr::V4(Ipv4Addr::localhost()), 5000);
    let rewritten = rewrite_pasv_response(resp, Some(local));
    // 5000 = (19, 136): 19*256+136=5000
    let expected = b"(127,0,0,1,19,136)";
    assert!(rewritten.windows(expected.len()).any(|w| w == expected));
    // Should not contain original address bytes
    assert!(!rewritten.windows(4).any(|w| w == b"192."));
}

#[test]
fn rewrite_pasv_response_v6_ignored() {
    // IPv6 address should cause passthrough
    let resp = b"227 (192,168,1,1,4,1)\r\n";
    let local: SocketAddr = SocketAddr::new(
        IpAddr::V6(Ipv6Addr { s0: 0, s1: 0, s2: 0, s3: 0, s4: 0, s5: 0, s6: 0, s7: 1 }),
        21,
    );
    let rewritten = rewrite_pasv_response(resp, Some(local));
    assert_eq!(rewritten, resp);
}

#[test]
fn rewrite_pasv_response_no_local_addr() {
    let resp = b"227 (192,168,1,1,4,1)\r\n";
    let rewritten = rewrite_pasv_response(resp, None);
    assert_eq!(rewritten, resp);
}

#[test]
fn rewrite_pasv_response_missing_parens() {
    let resp = b"227 no parens here\r\n";
    let local: SocketAddr = SocketAddr::new(IpAddr::V4(Ipv4Addr::localhost()), 5000);
    assert_eq!(rewrite_pasv_response(resp, Some(local)), resp);
}

#[test]
fn rewrite_pasv_response_preserves_surrounding() {
    // Preserve text before '(' and after ')'
    let resp = b"220-227 text before (192,168,1,1,4,1) text after\r\n";
    let local: SocketAddr = SocketAddr::new(IpAddr::V4(Ipv4Addr::localhost()), 5000);
    let rewritten = rewrite_pasv_response(resp, Some(local));
    assert!(rewritten.starts_with(b"220-227 text before "));
    assert!(rewritten.ends_with(b" text after\r\n"));
}

#[test]
fn rewrite_pasv_response_no_double_paren() {
    // Ensure no '))' appears in output
    let resp = b"227 Entering Passive Mode (192,168,1,1,4,1)\r\n";
    let local: SocketAddr = SocketAddr::new(IpAddr::V4(Ipv4Addr::localhost()), 5000);
    let rewritten = rewrite_pasv_response(resp, Some(local));
    // Count closing parens - should be exactly one
    let close_count = rewritten.iter().filter(|b| **b == b')').count();
    assert_eq!(close_count, 1, "output: {:?}", String::from_utf8_lossy(&rewritten));
}

// is_epsv_command tests
#[test]
fn is_epsv_command_basic() {
    assert!(is_epsv_command(b"EPSV\r\n"));
    assert!(is_epsv_command(b"epsv\r\n"));
    assert!(is_epsv_command(b"EPSV 1\r\n"));
    assert!(is_epsv_command(b"EPSV\n"));
}

#[test]
fn is_epsv_command_not_epsv() {
    assert!(!is_epsv_command(b"PASV\r\n"));
    assert!(!is_epsv_command(b"pasv\r\n"));
    assert!(!is_epsv_command(b"STOR\r\n"));
    assert!(!is_epsv_command(b"LIST\r\n"));
}

// is_data_channel_command tests
#[test]
fn is_data_channel_command_uploads() {
    assert!(is_data_channel_command(b"STOR file.txt\r\n"));
    assert!(is_data_channel_command(b"stou\r\n"));
    assert!(is_data_channel_command(b"APPE existing.txt\r\n"));
}

#[test]
fn is_data_channel_command_downloads() {
    assert!(is_data_channel_command(b"LIST\r\n"));
    assert!(is_data_channel_command(b"LIST /pub\r\n"));
    assert!(is_data_channel_command(b"NLST\r\n"));
    assert!(is_data_channel_command(b"RETR file.txt\r\n"));
}

#[test]
fn is_data_channel_command_not_data() {
    assert!(!is_data_channel_command(b"USER ftpuser\r\n"));
    assert!(!is_data_channel_command(b"PASS secret\r\n"));
    assert!(!is_data_channel_command(b"PASV\r\n"));
    assert!(!is_data_channel_command(b"EPSV\r\n"));
    assert!(!is_data_channel_command(b"QUIT\r\n"));
    assert!(!is_data_channel_command(b""));
}

// rewrite_epsv_response tests
#[test]
fn rewrite_epsv_response_basic() {
    let resp = b"229 Entering Extended Passive Mode (|||54321|)\r\n";
    let rewritten = rewrite_epsv_response(resp, 12345);
    assert!(rewritten.starts_with(b"229 Entering Extended Passive Mode "));
    assert!(rewritten.ends_with(b"\r\n"));
    let expected = b"(|||12345|)";
    assert!(rewritten.windows(expected.len()).any(|w| w == expected));
    // Should NOT contain the old port
    assert!(!rewritten.windows(5).any(|w| w == b"54321"));
}

#[test]
fn rewrite_epsv_response_no_double_paren() {
    let resp = b"229 Entering Extended Passive Mode (|||54321|)\r\n";
    let rewritten = rewrite_epsv_response(resp, 12345);
    let close_count = rewritten.iter().filter(|b| **b == b')').count();
    assert_eq!(close_count, 1, "output: {:?}", String::from_utf8_lossy(&rewritten));
}

#[test]
fn rewrite_epsv_response_preserves_code() {
    let resp = b"229 (|||1000|)\r\n";
    let rewritten = rewrite_epsv_response(resp, 2000);
    assert!(rewritten.starts_with(b"229 "));
    assert!(rewritten.ends_with(b"\r\n"));
}

#[test]
fn rewrite_epsv_response_missing_parens() {
    let resp = b"229 no parens here\r\n";
    assert_eq!(rewrite_epsv_response(resp, 2000), resp);
}

#[test]
fn auth_tls_in_all_spellings() {
    assert!(is_auth_tls_command(b"AUTH TLS\r\n"));
    assert!(is_auth_tls_command(b"auth tls\r\n"));
    assert!(is_auth_tls_command(b"AUTH\tTLS"));
    assert!(is_auth_tls_command(b"AUTH   TLS  \r\n"));
    assert!(!is_auth_tls_command(b"AUTH SSL\r\n"));
    assert!(!is_auth_tls_command(b"AUTHTLS\r\n"));
    assert!(!is_auth_tls_command(b"AUTH"));
    assert!(!is_auth_tls_command(b"AUTH TLS-C\r\n"));
    assert!(!is_auth_tls_command(b""));
}

#[test]
fn command_classes_do_not_overlap() {
    let upload = b"stOU\r\n";
    assert!(is_upload_command(upload) && is_data_channel_command(upload));
    let epsv = b"ePsV ALL\r\n";
    assert!(is_epsv_command(epsv) && is_pasv_command(epsv) && !is_data_channel_command(epsv));
    let auth = b"AUTH TLS\r\n";
    assert!(is_auth_tls_command(auth) && !is_pasv_command(auth) && !is_data_channel_command(auth));
}

#[test]
fn command_and_path_of_an_upload_line() {
    assert_eq!(
        extract_cmd_path(b"STOR a file.txt\r\n"),
        ("STOR".to_string(), "a file.txt".to_string())
    );
    assert_eq!(extract_cmd_path(b"STOU\r\n"), ("STOU".to_string(), String::new()));
    assert_eq!(
        extract_cmd_path(b"APPE   /x/y  \r\n"),
        ("APPE".to_string(), "/x/y".to_string())
    );
    // Bytes that are no UTF-8 are replaced.
    assert_eq!(
        extract_cmd_path(b"STOR \xff.txt\r\n"),
        ("STOR".to_string(), "\u{fffd}.txt".to_string())
    );
    assert_eq!(
        extract_cmd_path("STOR \u{e9}t\u{e9}\r\n".as_bytes()),
        ("STOR".to_string(), "\u{e9}t\u{e9}".to_string())
    );
}

#[test]
fn line_is_split_at_its_first_space() {
    assert_eq!(split_command(b"STOR a b\r\n"), (b"STOR".to_vec(), Some(b"a b".to_vec())));
    assert_eq!(split_command(b"ST\rOR\n"), (b"STOR".to_vec(), None));
    assert_eq!(split_command(b""), (Vec::new(), None));
}

#[test]
fn first_word_and_rest_of_an_upload_line() {
    assert_eq!(
        upload_cmd_path(b"STOR dir/file.txt\r\n"),
        ("STOR".to_string(), "dir/file.txt".to_string())
    );
    // White space in a path belongs to it.
    assert_eq!(
        upload_cmd_path(b"STOR my file.txt\r\n"),
        ("STOR".to_string(), "my file.txt".to_string())
    );
    assert_eq!(
        upload_cmd_path(b" APPE \t a  b \r\n"),
        ("APPE".to_string(), "a  b".to_string())
    );
    assert_eq!(upload_cmd_path(b"stou\r\n"), ("stou".to_string(), String::new()));
    // A line that is no UTF-8 has no words.
    assert_eq!(upload_cmd_path(b"STOR \xff\r\n"), ("STOR".to_string(), String::new()));
    assert_eq!(upload_cmd_path(b"   \r\n"), ("STOR".to_string(), String::new()));
}

#[test]
fn white_space_is_that_of_unicode() {
    for n in 0..=0x10ffffu32 {
        if let Some(c) = char::from_u32(n) {
            assert_eq!(is_white_space(c), c.is_whitespace(), "{:x}", n);
        }
    }
    assert_eq!(trimmed("\u{2003} a b\u{a0}\n"), "a b");
    assert_eq!(trimmed(" \t "), "");
}

#[test]
fn numbers_as_the_standard_library_reads_them() {
    for s in ["0", "00", "7", "+7", "65535", "65536", "99999", "", "+", "-1", " 1", "1 ", "1a"] {
        assert_eq!(parse_u16(s.as_bytes()), s.parse::<u16>().ok(), "{:?}", s);
    }
    for n in [0u64, 9, 10, 15, 16, 255, 4096, 65535, 1 << 40, u64::MAX] {
        let mut decimal = Vec::new();
        push_decimal(&mut decimal, n);
        assert_eq!(decimal, format!("{}", n).into_bytes());
        let mut hex = Vec::new();
        push_hex(&mut hex, n);
        assert_eq!(hex, format!("{:x}", n).into_bytes());
    }
}

fn v6_text(s: [u16; 8]) -> String {
    let ip = Ipv6Addr {
        s0: s[0],
        s1: s[1],
        s2: s[2],
        s3: s[3],
        s4: s[4],
        s5: s[5],
        s6: s[6],
        s7: s[7],
    };
    let mut out = Vec::new();
    IpAddr::V6(ip).push_text(&mut out);
    String::from_utf8(out).unwrap()
}

#[test]
fn addresses_as_text() {
    let mut out = Vec::new();
    IpAddr::V4(Ipv4Addr::new(10, 0, 200, 255)).push_text(&mut out);
    assert_eq!(out, b"10.0.200.255");
    assert_eq!(v6_text([0, 0, 0, 0, 0, 0, 0, 0]), "::");
    assert_eq!(v6_text([0, 0, 0, 0, 0, 0, 0, 1]), "::1");
    assert_eq!(v6_text([1, 0, 0, 0, 0, 0, 0, 0]), "1::");
    assert_eq!(v6_text([0x2001, 0xdb8, 0, 0, 1, 0, 0, 1]), "2001:db8::1:0:0:1");
    assert_eq!(v6_text([0x2001, 0xdb8, 0, 1, 1, 1, 1, 1]), "2001:db8:0:1:1:1:1:1");
    assert_eq!(v6_text([1, 2, 3, 4, 5, 6, 7, 0xabcd]), "1:2:3:4:5:6:7:abcd");
    assert_eq!(v6_text([0, 0, 0, 0, 0, 0xffff, 0xc0a8, 0x0101]), "::ffff:192.168.1.1");
    assert_eq!(v6_text([1, 0, 0, 2, 0, 0, 0, 3]), "1:0:0:2::3");
}

#[test]
fn lines_arrive_in_pieces() {
    let mut buf = Vec::new();
    assert_eq!(
        read_line_limited(&mut buf, 0, b"STO", 8192),
        LineRead::More { consumed: 3, total: 3 }
    );
    assert_eq!(
        read_line_limited(&mut buf, 3, b"R x\r\nNOOP", 8192),
        LineRead::Line { consumed: 5, total: 8 }
    );
    assert_eq!(buf, b"STOR x\r\n");
    assert_eq!(read_line_limited(&mut buf, 8, b"", 8192), LineRead::End { total: 8 });
}

#[test]
fn last_line_needs_no_end() {
    let mut buf = Vec::new();
    assert_eq!(
        read_line_limited(&mut buf, 0, b"QU", 4),
        LineRead::More { consumed: 2, total: 2 }
    );
    assert_eq!(
        read_line_limited(&mut buf, 2, b"IT", 4),
        LineRead::More { consumed: 2, total: 4 }
    );
    assert_eq!(read_line_limited(&mut buf, 4, b"", 4), LineRead::End { total: 4 });
    assert_eq!(buf, b"QUIT");
}

#[test]
fn lines_that_are_too_long() {
    let mut buf = Vec::new();
    let exact = [vec![b'a'; 8191], vec![b'\n']].concat();
    assert_eq!(
        read_line_limited(&mut buf, 0, &exact, 8192),
        LineRead::Line { consumed: 8192, total: 8192 }
    );
    buf.clear();
    let long = [vec![b'a'; 8192], vec![b'\n']].concat();
    assert_eq!(read_line_limited(&mut buf, 0, &long, 8192), LineRead::TooLong);
    assert_eq!(read_line_limited(&mut buf, 0, &vec![b'a'; 8193], 8192), LineRead::TooLong);
    assert!(buf.is_empty());
}

#[test]
fn replies_are_collected() {
    let mut reader = ReplyReader::new();
    assert!(!reader.feed(b"220-Hello\r\n"));
    assert!(!reader.feed(b"221 not yet\r\n22"));
    assert!(reader.feed(b"0 done\r\n"));
    assert_eq!(reader.finish(), Some(b"220-Hello\r\n221 not yet\r\n220 done\r\n".to_vec()));

    let mut closed = ReplyReader::new();
    assert!(closed.feed(b""));
    assert_eq!(closed.finish(), None);

    let mut partial = ReplyReader::new();
    assert!(!partial.feed(b"220 no line end"));
    assert!(partial.feed(b""));
    assert_eq!(partial.finish(), Some(b"220 no line end".to_vec()));

    let mut flooded = ReplyReader::new();
    assert!(!flooded.feed(&vec![b'x'; 65536]));
    assert!(flooded.feed(b"\n"));
    assert_eq!(flooded.finish().unwrap().len(), 65536);
}

#[test]
fn complete_reply_stays_complete() {
    assert!(is_complete_response(b"226 Done\r\n"));
    assert!(is_complete_response(b"226 Done\r\n220-more"));
}

#[test]
fn passive_numbers_are_cut_to_their_size() {
    // 257 is cut to 1 in an octet; a port is (p1 << 8) | p2 in sixteen bits.
    let addr = parse_pasv_response(b"227 (257,0,0,1,1,256)\r\n", Ipv4Addr::localhost()).unwrap();
    assert_eq!(addr.ip(), IpAddr::V4(Ipv4Addr::new(1, 0, 0, 1)));
    assert_eq!(addr.port(), 256);
}

#[test]
fn bare_pipes_name_no_address() {
    for reply in [&b"229 (|||)\r\n"[..], b"229 ( ||| )\r\n", b"229 (||)\r\n", b"229 (||||)\r\n"] {
        assert_eq!(parse_epsv_response(reply, Ipv4Addr::localhost()), None);
        assert_eq!(parse_pasv_response(reply, Ipv4Addr::localhost()), None);
    }
}

#[test]
fn replies_of_other_codes_are_not_rewritten() {
    let own = Some(SocketAddr::new(IpAddr::V4(Ipv4Addr::localhost()), 5000));
    let welcome = b"230 Welcome (admin)\r\n";
    assert_eq!(rewrite_pasv_response(welcome, own), welcome);
    assert_eq!(rewrite_epsv_response(welcome, 2000), welcome);
    let pasv = b"227 (192,168,1,1,4,1)\r\n";
    assert_eq!(rewrite_epsv_response(pasv, 2000), pasv);
    let epsv = b"229 (|||1000|)\r\n";
    assert_eq!(rewrite_pasv_response(epsv, own), epsv);
    assert_eq!(rewrite_pasv_response(b"227", own), b"227");
    assert_eq!(rewrite_epsv_response(b"", 1), b"");
}

#[test]
fn replies_of_several_lines_are_rewritten() {
    let own = Some(SocketAddr::new(IpAddr::V4(Ipv4Addr::localhost()), 5000));
    assert_eq!(
        rewrite_pasv_response(b"227-Passive (1,2,3,4,5,6)\r\n227 ok\r\n", own),
        b"227-Passive (127,0,0,1,19,136)\r\n227 ok\r\n"
    );
    let epsv = b"229-Extended (|||1|)\r\n229 ok\r\n";
    assert_eq!(rewrite_epsv_response(epsv, 2000), b"229-Extended (|||2000|)\r\n229 ok\r\n");
    assert_eq!(parse_epsv_response(epsv, Ipv4Addr::localhost()), None);
    let other = b"2270 (1,2,3,4,5,6)\r\n";
    assert_eq!(rewrite_pasv_response(other, own), other);
}

#[test]
fn code_belongs_to_the_form() {
    assert!(is_reply_of(false, b"227 ok\r\n"));
    assert!(is_reply_of(false, b"227-ok\r\n"));
    assert!(is_reply_of(true, b"229 ok\r\n"));
    assert!(!is_reply_of(true, b"227 ok\r\n"));
    assert!(!is_reply_of(false, b"229 ok\r\n"));
    assert!(!is_reply_of(false, b"227"));
}

#[test]
fn address_comes_from_six_numbers() {
    // The code does not matter for reading, nor does the control connection.
    for ip in [Ipv4Addr::localhost(), Ipv4Addr::new(9, 9, 9, 9)] {
        assert_eq!(
            parse_pasv_response(b"200 x (1,2,3,255,255,254) y (0)\r\n", ip),
            Some(SocketAddr::new(IpAddr::V4(Ipv4Addr::new(1, 2, 3, 255)), 65534))
        );
    }
    let ip = Ipv4Addr::localhost();
    assert_eq!(parse_pasv_response(b"227 (1,2,3,4,5,6,7)\r\n", ip), None);
    assert_eq!(parse_pasv_response(b"227 (1,2,3,4,5,65536)\r\n", ip), None);
    assert_eq!(parse_pasv_response(b"227 )1,2,3,4,5,6(\r\n", ip), None);
}

#[test]
fn rewritten_address_is_read_back() {
    let reply = b"227 Entering Passive Mode (10,1,2,3,200,7).\r\n";
    let own = SocketAddr::new(IpAddr::V4(Ipv4Addr::new(192, 0, 2, 255)), 65280);
    let told = rewrite_pasv_response(reply, Some(own));
    assert_eq!(told, b"227 Entering Passive Mode (192,0,2,255,255,0).\r\n");
    assert_eq!(parse_pasv_response(&told, Ipv4Addr::localhost()), Some(own));

    let told = rewrite_epsv_response(b"229 Extended (|||1|) now\r\n", 60000);
    assert_eq!(told, b"229 Extended (|||60000|) now\r\n");
    assert_eq!(
        parse_epsv_response(&told, Ipv4Addr::new(1, 2, 3, 4)),
        Some(SocketAddr::new(IpAddr::V4(Ipv4Addr::new(1, 2, 3, 4)), 60000))
    );
}

#[test]
fn last_rewriting_wins() {
    let reply = b"227 (10,1,2,3,200,7)\r\n";
    let first = SocketAddr::new(IpAddr::V4(Ipv4Addr::new(9, 9, 9, 9)), 9);
    let second = SocketAddr::new(IpAddr::V4(Ipv4Addr::localhost()), 5000);
    let once = rewrite_pasv_response(reply, Some(second));
    let twice = rewrite_pasv_response(&rewrite_pasv_response(reply, Some(first)), Some(second));
    assert_eq!(once, twice);

    let reply = b"229 (|||1|)\r\n";
    let twice = rewrite_epsv_response(&rewrite_epsv_response(reply, 65535), 7);
    assert_eq!(twice, b"229 (|||7|)\r\n");
}

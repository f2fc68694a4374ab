use cloudhv::http::{
    find_subsequence, parse_content_length, read_response, request_text, response_complete,
    ApiResponse,
};
use cloudhv::json;
use cloudhv::json::Json;
use cloudhv::netlink::{
    add_redirect_filter_request, copy_range, find_candidate, flush_requests, get_default_gw, get_ipv4,
    get_link_request, parse_link_nlas, push_nla_str, push_u16, push_u32, read_ack, read_attributes,
    read_link_index, read_links, scan_dump, set_link_up_request, u16_at, u32_at, DumpEnd, Link,
    LinkError,
};
use cloudhv::netns::{
    cleanup_requests, tap_ifreq, wait_for_netns, NetlinkSetup, NlAction, NlEvent, SetupError,
};
use cloudhv::text;
use cloudhv::vm::SocketWait;
use cloudhv::vsock::{agent_healthy, connect_command, retry_delay, vsock_connect, VsockClient};

#[test]
fn texts_are_taken_apart() {
    assert_eq!(text::split_on("a,b,,c", ','), vec!["a", "b", "", "c"]);
    assert_eq!(text::lines_of("a\nb\r\n\nc"), vec!["a", "b", "", "c"]);
    assert_eq!(text::lines_of(""), Vec::<String>::new());
    assert_eq!(text::words_of("  a \t b\u{3000}c "), vec!["a", "b", "c"]);
    assert_eq!(text::trim(" \n x y \u{a0}"), "x y");
    assert_eq!(text::replace("a:b:c", ':', "--"), "a--b--c");
    assert!(text::contains("hello", "ell"));
    assert_eq!(text::strip_prefix("--net=x", "--net="), Some("x".to_string()));
    assert_eq!(text::head("0123456789abcdef", 12), "0123456789ab");
    assert_eq!(text::head("abc", 12), "abc");
}

#[test]
fn numbers_are_written_and_read() {
    for n in [0, 7, 10, 4096, u64::MAX] {
        let s = text::decimal(n);
        assert_eq!(s, n.to_string());
        assert_eq!(text::parse_up_to(s.as_str(), u64::MAX), Some(n));
    }
    assert_eq!(text::parse_up_to("+5", u64::MAX), "+5".parse::<u64>().ok());
    assert_eq!(text::parse_up_to("", u64::MAX), None);
    assert_eq!(text::parse_up_to("-1", u64::MAX), None);
    assert_eq!(text::parse_up_to("18446744073709551616", u64::MAX), None);
    assert_eq!(text::parse_up_to("4294967296", u32::MAX as u64), None);
    assert_eq!(text::hexadecimal(0xabc, 5), "00abc");
}

#[test]
fn documents_are_read_and_printed() {
    let j = json::parse(r#"{"b": [1, -2, 1.5, true, null, "x"], "a": {"k": 18446744073709551615}}"#)
        .unwrap();
    assert_eq!(j.pointer(&["a", "k"]).unwrap().as_u64(), Some(u64::MAX));
    let b = j.get("b").unwrap().as_array().unwrap();
    assert_eq!(b[0].as_i64(), Some(1));
    assert_eq!(b[1].as_i64(), Some(-2));
    assert_eq!(b[1].as_u64(), None);
    assert_eq!(b[2].as_i64(), None);
    assert_eq!(b[5].as_str(), Some("x"));
    assert_eq!(
        json::to_text(j),
        r#"{"a":{"k":18446744073709551615},"b":[1,-2,1.5,true,null,"x"]}"#
    );
}

#[test]
fn the_last_of_two_equal_keys_counts() {
    let j = json::parse(r#"{"a": 1, "a": 2}"#).unwrap();
    assert_eq!(j.get("a").unwrap().as_u64(), Some(2));
    assert_eq!(json::to_text(j), r#"{"a":2}"#);
    let mut v: Vec<(String, Json)> = Vec::new();
    json::put(&mut v, "k", Json::Bool(true));
    json::put(&mut v, "k", Json::Null);
    assert_eq!(json::to_text(Json::Object(v)), r#"{"k":null}"#);
}

#[test]
fn broken_documents_are_refused() {
    assert!(json::parse("").is_none());
    assert!(json::parse("{\"a\": }").is_none());
    assert!(json::parse("{} x").is_none());
    assert!(json::parse_bytes(b"[1]").is_some());
    assert!(json::parse_bytes(b"\"\xff\"").is_none());
}

#[test]
fn pretty_documents_are_indented() {
    let j = json::parse(r#"{"a":[1]}"#).unwrap();
    assert_eq!(json::to_text_pretty(j), "{\n  \"a\": [\n    1\n  ]\n}");
}

#[test]
fn api_requests_and_responses() {
    assert_eq!(
        request_text("PUT", "/api/v1/vm.boot", None),
        "PUT /api/v1/vm.boot HTTP/1.1\r\nHost: localhost\r\nAccept: application/json\r\n\r\n"
    );
    let with_body = request_text("PUT", "/x", Some("{}"));
    assert!(with_body.contains("Content-Length: 2\r\n"));
    assert!(with_body.ends_with("\r\n\r\n{}"));
    assert_eq!(find_subsequence(b"abcabc", b"ca"), Some(2));
    assert_eq!(find_subsequence(b"abc", b"x"), None);
    assert_eq!(parse_content_length("HTTP/1.1 200 OK\r\ncontent-length: 12\r\n"), Some(12));
    assert_eq!(parse_content_length("HTTP/1.1 200 OK\r\n"), None);
    assert!(!response_complete(b"HTTP/1.1 200 OK\r\nContent-Length: 3\r\n\r\nab"));
    assert!(response_complete(b"HTTP/1.1 200 OK\r\nContent-Length: 3\r\n\r\nabc"));
    let ok = read_response(b"HTTP/1.1 200 OK\r\nContent-Length: 3\r\n\r\nabc").unwrap();
    assert!(ok.ends_with("abc"));
    assert!(read_response(b"HTTP/1.1 204 No Content\r\n\r\n").is_ok());
    assert!(read_response(b"HTTP/1.1 500 Oops\r\n\r\nbad").is_err());
    let mut r = ApiResponse::new();
    assert!(!r.feed(b"HTTP/1.1 200 OK\r\nContent-"));
    assert!(r.feed(b"Length: 0\r\n\r\n"));
}

#[test]
fn vsock_handshake() {
    assert_eq!(connect_command(), "CONNECT 10789\n");
    assert_eq!(vsock_connect("OK 1073741824\n"), Ok(()));
    assert_eq!(vsock_connect(" no \n"), Err("no".to_string()));
    assert!(agent_healthy(b"OK\xff"));
    assert!(!agent_healthy(b""));
    assert!(!agent_healthy(b"\xffOK"));
    assert_eq!(VsockClient::new("/run/v.sock").socket_path(), "/run/v.sock");
}

#[test]
fn retries_back_off() {
    // For process 0 the jitter is the constant alone: 0x517cc1b727220a95 % 100.
    let percent = 0x517cc1b727220a95u64 % 100;
    assert_eq!(retry_delay(0, 0, 0), Some(200 * (50 + percent) / 100));
    assert_eq!(retry_delay(3, 0, 0), Some(1600 * (50 + percent) / 100));
    assert_eq!(retry_delay(8, 0, 0), Some(3000 * (50 + percent) / 100));
    assert_eq!(retry_delay(9, 0, 0), None);
    assert_eq!(retry_delay(0, 0, 60000), None);
}

#[test]
fn retries_are_jittered_in_binary_fractions() {
    for attempt in 0..9u32 {
        let capped = (200 * 2u64.pow(attempt)).min(3000);
        for pid in 0..500u32 {
            let seed = (pid as u64)
                .wrapping_mul(attempt as u64 + 1)
                .wrapping_add(0x517cc1b727220a95);
            let fraction = (seed % 100) as f64 / 100.0;
            let expected = (capped as f64 * (0.5 + fraction)) as u64;
            assert_eq!(retry_delay(attempt, pid, 0), Some(expected));
        }
    }
}

#[test]
fn netlink_numbers_round_trip() {
    let mut b = vec![9u8];
    push_u16(&mut b, 0xbeef);
    push_u32(&mut b, 0xdead_beef);
    assert_eq!(u16_at(&b, 1), 0xbeef);
    assert_eq!(u32_at(&b, 3), 0xdead_beef);
    assert_eq!(b[1..3], [0xef, 0xbe]);
    assert_eq!(copy_range(&b, 1, 3), vec![0xef, 0xbe]);
}

#[test]
fn netlink_requests_have_their_layout() {
    let up = set_link_up_request(7, 3);
    assert_eq!(up.len(), 32);
    assert_eq!(u32_at(&up, 0), 32);
    assert_eq!(u32_at(&up, 8), 3);
    assert_eq!(u32_at(&up, 20), 7);
    let get = get_link_request("eth0", 1);
    let attrs = read_attributes(&get, 32);
    assert_eq!(attrs.len(), 1);
    assert_eq!(attrs[0].data, b"eth0\0");
    let filter = add_redirect_filter_request(2, 5, 9);
    assert_eq!(u32_at(&filter, 0) as usize, filter.len());
    let attrs = read_attributes(&filter, 36);
    assert_eq!(attrs[0].data, b"u32\0");
    assert_eq!(attrs.len(), 2);
    let inner = read_attributes(&attrs[1].data, 0);
    assert_eq!(inner.len(), 2);
    assert_eq!((inner[0].ty, inner[1].ty), (7, 5));
}

fn message(ty: u16, payload: &[u8]) -> Vec<u8> {
    let mut m = Vec::new();
    push_u32(&mut m, (16 + payload.len()) as u32);
    push_u16(&mut m, ty);
    push_u16(&mut m, 0);
    push_u32(&mut m, 1);
    push_u32(&mut m, 0);
    m.extend_from_slice(payload);
    m
}

fn error_reply(errno: i32) -> Vec<u8> {
    message(2, &(-errno).to_le_bytes())
}

fn link_message(index: u32, name: &str, mac: &[u8; 6]) -> Vec<u8> {
    let mut p = vec![0u8; 16];
    p[4..8].copy_from_slice(&index.to_le_bytes());
    push_nla_str(&mut p, 3, name);
    push_u16(&mut p, 10);
    push_u16(&mut p, 1);
    p.extend_from_slice(mac);
    p.extend_from_slice(&[0, 0]);
    message(16, &p)
}

fn address_message(index: u32, prefix: u8, ip: [u8; 4]) -> Vec<u8> {
    let mut p = vec![2, prefix, 0, 0];
    push_u32(&mut p, index);
    push_u16(&mut p, 8);
    push_u16(&mut p, 1);
    p.extend_from_slice(&ip);
    push_u16(&mut p, 8);
    push_u16(&mut p, 2);
    p.extend_from_slice(&ip);
    message(20, &p)
}

fn route_message(gateway: [u8; 4]) -> Vec<u8> {
    let mut p = vec![2, 0, 0, 0, 254, 3, 0, 1, 0, 0, 0, 0];
    push_u16(&mut p, 8);
    push_u16(&mut p, 5);
    p.extend_from_slice(&gateway);
    message(24, &p)
}

#[test]
fn netlink_replies_are_read() {
    assert_eq!(read_ack(&error_reply(0)), Ok(()));
    assert_eq!(read_ack(&error_reply(17)), Err(17));
    assert_eq!(read_link_index(&error_reply(19)), Err(LinkError::Errno(19)));
    assert_eq!(read_link_index(&link_message(6, "eth0", &[0; 6])), Ok(6));
    assert_eq!(read_link_index(&[0; 16]), Err(LinkError::NotFound));
}

#[test]
fn netlink_dumps_are_scanned() {
    let a = link_message(1, "lo", &[0; 6]);
    let b = link_message(2, "eth0", &[2, 0, 0, 0, 0, 9]);
    let mut buf = a.clone();
    buf.extend_from_slice(&b);
    let mut out = Vec::new();
    assert_eq!(scan_dump(&buf, &mut out), DumpEnd::More);
    assert_eq!(out, vec![a, b]);
    let mut done = Vec::new();
    assert_eq!(scan_dump(&message(3, &[0; 4]), &mut done), DumpEnd::Done);
    assert_eq!(scan_dump(&error_reply(1), &mut done), DumpEnd::Failed(1));
    let mut zero = message(16, &[0; 4]);
    zero[0] = 0;
    assert_eq!(scan_dump(&zero, &mut done), DumpEnd::Malformed);
    // An error number that the buffer cuts off counts with zeros.
    let mut short = message(2, &[]);
    assert_eq!(scan_dump(&short, &mut done), DumpEnd::More);
    assert_eq!(done.len(), 1);
    short.extend_from_slice(&[0xff, 0, 0]);
    assert_eq!(scan_dump(&short, &mut done), DumpEnd::Failed(-255));
    let links = read_links(&out);
    assert_eq!(links.len(), 2);
    assert_eq!(links[1].name, "eth0");
    assert_eq!(links[1].mac, "02:00:00:00:00:09");
    assert_eq!(parse_link_nlas(&out[0], 32).0, "lo");
}

#[test]
fn addresses_and_routes_are_found() {
    let addrs = vec![address_message(1, 8, [127, 0, 0, 1]), address_message(2, 24, [10, 1, 2, 3])];
    assert_eq!(get_ipv4(&addrs, 2), Some("10.1.2.3/24".to_string()));
    assert_eq!(get_ipv4(&addrs, 3), None);
    assert_eq!(get_default_gw(&vec![route_message([10, 1, 2, 1])]), Some("10.1.2.1".to_string()));
    assert_eq!(get_default_gw(&vec![]), None);
    assert_eq!(flush_requests(&addrs, 2, 5).len(), 1);
    let links = vec![
        Link { index: 1, name: "lo".to_string(), mac: String::new() },
        Link { index: 2, name: "eth0".to_string(), mac: "02:00:00:00:00:09".to_string() },
    ];
    assert_eq!(find_candidate(&links, "eth0", 0), None);
    assert_eq!(find_candidate(&links, "tap_x", 0), Some(1));
    assert_eq!(find_candidate(&links, "tap_x", 2), None);
    let (requests, next) = cleanup_requests(&links, "tap_x", 2);
    assert_eq!(requests.len(), 1);
    assert_eq!(requests[0][8..12], [2, 0, 0, 0]);
    assert_eq!(next, 3);
}

#[test]
fn network_namespace_is_waited_for() {
    assert_eq!(wait_for_netns(0, true), SocketWait::Ready);
    assert_eq!(wait_for_netns(18, false), SocketWait::Pause(100));
    assert_eq!(wait_for_netns(19, true), SocketWait::Ready);
    assert_eq!(wait_for_netns(19, false), SocketWait::GiveUp);
}

#[test]
fn tap_request_names_the_device() {
    let r = tap_ifreq("tap_pod");
    assert_eq!(&r[..8], b"tap_pod\0");
    assert_eq!(r.len(), 40);
}

#[test]
fn network_is_set_up_over_netlink() {
    let mut run = NetlinkSetup::new("tap_pod");
    let mut created = false;
    let mut redirects = 0;
    let info = loop {
        let event = match run.action() {
            NlAction::Request(r) => {
                let ty = u16_at(&r, 4);
                if ty == 44 {
                    redirects += 1;
                }
                let reply = if ty == 18 {
                    if created {
                        link_message(9, "tap_pod", &[0; 6])
                    } else {
                        error_reply(19)
                    }
                } else {
                    error_reply(0)
                };
                NlEvent::Reply(Some(reply))
            }
            NlAction::Dump(r) => NlEvent::Dumped(Some(match u16_at(&r, 4) {
                18 => vec![
                    link_message(1, "lo", &[0; 6]),
                    link_message(2, "eth0", &[2, 0, 0, 0, 0, 9]),
                    link_message(9, "tap_pod", &[0; 6]),
                ],
                22 => vec![address_message(2, 24, [10, 1, 2, 3])],
                _ => vec![route_message([10, 1, 2, 1])],
            })),
            NlAction::CreateTap(_) => {
                created = true;
                NlEvent::Created(true)
            }
            NlAction::Sleep(_) => NlEvent::Slept,
            NlAction::Done(info) => break info,
            NlAction::Fail(e) => panic!("failed: {:?}", e),
        };
        run.step(event);
    };
    assert_eq!(info.tap_name, "tap_pod");
    assert_eq!(info.mac, "02:00:00:00:00:09");
    assert_eq!(info.ip_cidr, "10.1.2.3/24");
    assert_eq!(info.gateway, "10.1.2.1");
    assert_eq!(redirects, 2);
}

/// A setup that is about to list the links.
fn listing_links() -> NetlinkSetup {
    let mut run = NetlinkSetup::new("tap_pod");
    run.step(NlEvent::Reply(Some(error_reply(19))));
    run.step(NlEvent::Created(true));
    run.step(NlEvent::Reply(Some(link_message(9, "tap_pod", &[0; 6]))));
    run.step(NlEvent::Reply(Some(error_reply(0))));
    run
}

#[test]
fn addresses_are_listed_for_each_candidate() {
    let dumped = |run: &NetlinkSetup| match run.action() {
        NlAction::Dump(r) => (u16_at(&r, 4), r[8]),
        a => panic!("no dump: {:?}", a),
    };
    // Without a candidate the addresses are not listed: the links are, once more.
    let mut run = listing_links();
    assert_eq!(dumped(&run), (18, 4));
    run.step(NlEvent::Dumped(Some(vec![
        link_message(1, "lo", &[0; 6]),
        link_message(9, "tap_pod", &[0; 6]),
    ])));
    assert!(matches!(run.action(), NlAction::Sleep(100)));
    run.step(NlEvent::Slept);
    assert_eq!(dumped(&run), (18, 5));
    // With two, they are listed for the one and then for the other.
    let links = vec![
        link_message(2, "eth0", &[0; 6]),
        link_message(1, "lo", &[0; 6]),
        link_message(3, "eth1", &[2, 0, 0, 0, 0, 3]),
    ];
    run.step(NlEvent::Dumped(Some(links)));
    assert_eq!(dumped(&run), (22, 6));
    run.step(NlEvent::Dumped(Some(vec![])));
    assert_eq!(dumped(&run), (22, 7));
    run.step(NlEvent::Dumped(Some(vec![address_message(3, 24, [10, 1, 2, 3])])));
    assert_eq!(dumped(&run), (26, 8));
    let mut run = listing_links();
    run.step(NlEvent::Dumped(Some(vec![link_message(2, "eth0", &[0; 6])])));
    run.step(NlEvent::Dumped(None));
    assert!(matches!(run.action(), NlAction::Fail(SetupError::FindVeth)));
}

#[test]
fn network_setup_names_the_failed_step() {
    let mut run = NetlinkSetup::new("tap_pod");
    run.step(NlEvent::Reply(Some(error_reply(19))));
    run.step(NlEvent::Created(false));
    assert!(matches!(run.action(), NlAction::Fail(SetupError::CreateTap)));
}

use mdq::addr::{address_string, dec_octet, hex_group, IpAddress};
use mdq::dispatch::{build_resolver_set, fixed_resolvers};
use mdq::query::{normalize_domain, render_outcome, DnsAnswer, QueryOutcome};
use mdq::route::{default_route_gateway, RouteAttr, RouteAttrKind, RouteMessage, RouteTable};

fn gateway_attr(payload: Vec<u8>) -> RouteAttr {
    RouteAttr { kind: RouteAttrKind::Gateway, payload }
}

fn other_attr(payload: Vec<u8>) -> RouteAttr {
    RouteAttr { kind: RouteAttrKind::Other, payload }
}

#[test]
fn octet_rendering() {
    assert_eq!(dec_octet(0), "0");
    assert_eq!(dec_octet(7), "7");
    assert_eq!(dec_octet(42), "42");
    assert_eq!(dec_octet(100), "100");
    assert_eq!(dec_octet(255), "255");
}

#[test]
fn hex_group_rendering() {
    assert_eq!(hex_group(0), "0");
    assert_eq!(hex_group(9), "9");
    assert_eq!(hex_group(10), "a");
    assert_eq!(hex_group(0x20), "20");
    assert_eq!(hex_group(0xdb8), "db8");
    assert_eq!(hex_group(0x2001), "2001");
    assert_eq!(hex_group(0xffff), "ffff");
}

#[test]
fn v4_address_string() {
    assert_eq!(address_string(&IpAddress::V4(192, 0, 2, 1)), "192.0.2.1");
    assert_eq!(address_string(&IpAddress::V4(1, 1, 1, 1)), "1.1.1.1");
    assert_eq!(
        address_string(&IpAddress::V4(208, 67, 222, 222)),
        "208.67.222.222"
    );
}

#[test]
fn v6_address_string() {
    assert_eq!(
        address_string(&IpAddress::V6(0x2001, 0xdb8, 0, 0, 0, 0, 0, 1)),
        "2001:db8::1"
    );
    assert_eq!(
        address_string(&IpAddress::V6(0xfe80, 0, 0, 0, 0x1234, 0x5678, 0x9abc, 0xdef0)),
        "fe80::1234:5678:9abc:def0"
    );
}

#[test]
fn v6_zero_runs_are_compressed() {
    assert_eq!(address_string(&IpAddress::V6(0, 0, 0, 0, 0, 0, 0, 0)), "::");
    assert_eq!(address_string(&IpAddress::V6(0, 0, 0, 0, 0, 0, 0, 1)), "::1");
    assert_eq!(address_string(&IpAddress::V6(1, 0, 0, 0, 0, 0, 0, 0)), "1::");
}

#[test]
fn v6_single_zero_group_is_kept() {
    assert_eq!(
        address_string(&IpAddress::V6(1, 0, 2, 3, 4, 5, 6, 7)),
        "1:0:2:3:4:5:6:7"
    );
}

#[test]
fn v6_longest_then_leftmost_zero_run_wins() {
    assert_eq!(
        address_string(&IpAddress::V6(1, 0, 0, 2, 0, 0, 0, 3)),
        "1:0:0:2::3"
    );
    assert_eq!(
        address_string(&IpAddress::V6(1, 0, 0, 2, 0, 0, 3, 4)),
        "1::2:0:0:3:4"
    );
}

#[test]
fn normalization_appends_one_separator() {
    assert_eq!(normalize_domain("example.com"), "example.com.");
    assert_eq!(normalize_domain(""), ".");
    assert_eq!(normalize_domain("a"), "a.");
}

#[test]
fn normalization_keeps_qualified_names() {
    assert_eq!(normalize_domain("example.com."), "example.com.");
    assert_eq!(normalize_domain("."), ".");
}

#[test]
fn normalization_is_idempotent() {
    let once = normalize_domain("example.com");
    let twice = normalize_domain(once.as_str());
    assert_eq!(once, twice);
}

#[test]
fn non_main_table_yields_no_gateway() {
    let message = RouteMessage {
        table: RouteTable::Other,
        attrs: vec![gateway_attr(vec![192, 0, 2, 1])],
    };
    assert_eq!(default_route_gateway(&message), None);
}

#[test]
fn single_v4_gateway_is_decoded() {
    let message = RouteMessage {
        table: RouteTable::Main,
        attrs: vec![
            other_attr(vec![1, 2, 3, 4]),
            gateway_attr(vec![192, 0, 2, 254]),
        ],
    };
    assert_eq!(
        default_route_gateway(&message),
        Some(IpAddress::V4(192, 0, 2, 254))
    );
}

#[test]
fn single_v6_gateway_is_decoded() {
    let payload = vec![0x20, 0x01, 0x0d, 0xb8, 0, 0, 0, 0, 0, 0, 0, 0, 0, 0, 0, 1];
    let message = RouteMessage {
        table: RouteTable::Main,
        attrs: vec![gateway_attr(payload)],
    };
    assert_eq!(
        default_route_gateway(&message),
        Some(IpAddress::V6(0x2001, 0xdb8, 0, 0, 0, 0, 0, 1))
    );
}

#[test]
fn no_gateway_attribute_yields_none() {
    let message = RouteMessage {
        table: RouteTable::Main,
        attrs: vec![other_attr(vec![1, 2, 3, 4]), other_attr(vec![])],
    };
    assert_eq!(default_route_gateway(&message), None);
}

#[test]
fn undecodable_gateway_payload_yields_none() {
    let message = RouteMessage {
        table: RouteTable::Main,
        attrs: vec![gateway_attr(vec![10, 0, 0])],
    };
    assert_eq!(default_route_gateway(&message), None);
}

#[test]
fn last_decodable_gateway_wins() {
    let message = RouteMessage {
        table: RouteTable::Main,
        attrs: vec![
            gateway_attr(vec![10, 0, 0, 1]),
            gateway_attr(vec![10, 0, 0, 2]),
        ],
    };
    assert_eq!(
        default_route_gateway(&message),
        Some(IpAddress::V4(10, 0, 0, 2))
    );
}

#[test]
fn undecodable_gateway_does_not_erase_earlier_one() {
    let message = RouteMessage {
        table: RouteTable::Main,
        attrs: vec![gateway_attr(vec![10, 0, 0, 1]), gateway_attr(vec![1, 2])],
    };
    assert_eq!(
        default_route_gateway(&message),
        Some(IpAddress::V4(10, 0, 0, 1))
    );
}

#[test]
fn fixed_resolver_order() {
    let fixed = fixed_resolvers();
    assert_eq!(
        fixed,
        vec![
            IpAddress::V4(1, 1, 1, 1),
            IpAddress::V4(8, 8, 8, 8),
            IpAddress::V4(9, 9, 9, 9),
            IpAddress::V4(37, 235, 1, 174),
            IpAddress::V4(208, 67, 222, 222),
        ]
    );
}

#[test]
fn resolver_set_without_gateway_has_five_entries() {
    let set = build_resolver_set(None);
    assert_eq!(set, fixed_resolvers());
    assert_eq!(set.len(), 5);
}

#[test]
fn resolver_set_with_gateway_appends_it_last() {
    let gateway = IpAddress::V4(192, 168, 0, 1);
    let set = build_resolver_set(Some(gateway));
    assert_eq!(set.len(), 6);
    assert_eq!(set[..5].to_vec(), fixed_resolvers());
    assert_eq!(set[5], gateway);
}

#[test]
fn resolver_set_keeps_a_duplicate_gateway() {
    let gateway = IpAddress::V4(1, 1, 1, 1);
    let set = build_resolver_set(Some(gateway));
    assert_eq!(set.len(), 6);
    assert_eq!(set[0], gateway);
    assert_eq!(set[5], gateway);
}

#[test]
fn zero_answers_prints_no_response() {
    let resolver = IpAddress::V4(9, 9, 9, 9);
    let lines = render_outcome(&resolver, &QueryOutcome::Answers(vec![]));
    assert_eq!(lines, vec!["9.9.9.9: No response".to_string()]);
}

#[test]
fn one_address_record_prints_one_line() {
    let resolver = IpAddress::V4(8, 8, 8, 8);
    let lines = render_outcome(
        &resolver,
        &QueryOutcome::Answers(vec![DnsAnswer::A(192, 0, 2, 1)]),
    );
    assert_eq!(lines, vec!["8.8.8.8: IPv4 192.0.2.1".to_string()]);
}

#[test]
fn canonical_name_record_prints_one_line() {
    let resolver = IpAddress::V4(1, 1, 1, 1);
    let lines = render_outcome(
        &resolver,
        &QueryOutcome::Answers(vec![DnsAnswer::Cname("example.net.".to_string())]),
    );
    assert_eq!(lines, vec!["1.1.1.1: CNAME example.net.".to_string()]);
}

#[test]
fn transport_error_prints_error_line() {
    let resolver = IpAddress::V4(1, 1, 1, 1);
    let lines = render_outcome(
        &resolver,
        &QueryOutcome::Failure("connection timed out".to_string()),
    );
    assert_eq!(
        lines,
        vec!["1.1.1.1: Error connection timed out".to_string()]
    );
}

#[test]
fn uninterpreted_answer_kinds_are_skipped() {
    let resolver = IpAddress::V4(8, 8, 8, 8);
    let lines = render_outcome(
        &resolver,
        &QueryOutcome::Answers(vec![
            DnsAnswer::Other,
            DnsAnswer::A(192, 0, 2, 7),
            DnsAnswer::Other,
            DnsAnswer::Cname("alias.example.org.".to_string()),
        ]),
    );
    assert_eq!(
        lines,
        vec![
            "8.8.8.8: IPv4 192.0.2.7".to_string(),
            "8.8.8.8: CNAME alias.example.org.".to_string(),
        ]
    );
}

#[test]
fn one_failure_does_not_suppress_another_answer() {
    let failing = IpAddress::V4(1, 1, 1, 1);
    let answering = IpAddress::V4(9, 9, 9, 9);
    let failed = render_outcome(&failing, &QueryOutcome::Failure("refused".to_string()));
    let answered = render_outcome(
        &answering,
        &QueryOutcome::Answers(vec![DnsAnswer::A(192, 0, 2, 33)]),
    );
    assert_eq!(failed, vec!["1.1.1.1: Error refused".to_string()]);
    assert_eq!(answered, vec!["9.9.9.9: IPv4 192.0.2.33".to_string()]);
}

#[test]
fn dispatch_produces_one_block_per_resolver() {
    let domain = normalize_domain("example.com");
    assert_eq!(domain, "example.com.");

    let set = build_resolver_set(None);
    let mut blocks: Vec<Vec<String>> = Vec::new();
    for resolver in &set {
        let outcome = QueryOutcome::Answers(vec![DnsAnswer::A(192, 0, 2, 1)]);
        blocks.push(render_outcome(resolver, &outcome));
    }
    assert_eq!(blocks.len(), 5);
    for (resolver, block) in set.iter().zip(&blocks) {
        assert_eq!(
            block,
            &vec![format!("{}: IPv4 192.0.2.1", address_string(resolver))]
        );
    }

    let with_gateway = build_resolver_set(Some(IpAddress::V4(10, 0, 0, 1)));
    let mut blocks: Vec<Vec<String>> = Vec::new();
    for resolver in &with_gateway {
        let outcome = QueryOutcome::Answers(vec![]);
        blocks.push(render_outcome(resolver, &outcome));
    }
    assert_eq!(blocks.len(), 6);
    assert_eq!(blocks[5], vec!["10.0.0.1: No response".to_string()]);
}

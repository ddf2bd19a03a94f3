use flowtally::aggregate::{FlowAggregator, FlowCount};
use flowtally::ether::Ethertype;
use flowtally::flow::FiveTuple;
use flowtally::report::{frame_line, summary_line, summary_lines};

fn tcp_entry(count: u128) -> FlowCount {
    FlowCount {
        flow: FiveTuple {
            ether: Ethertype::IPV4,
            l3_src: 0x0a000001,
            l3_dst: 0x0a000002,
            next_proto: 6,
            l4_sport: 1234,
            l4_dport: 80,
        },
        count,
    }
}

#[test]
fn summary_line_is_flow_colon_count() {
    assert_eq!(summary_line(&tcp_entry(2)), "10.0.0.1:1234 -> 10.0.0.2:80 (6): 2");
    assert_eq!(
        summary_line(&tcp_entry(u128::MAX)),
        "10.0.0.1:1234 -> 10.0.0.2:80 (6): 340282366920938463463374607431768211455"
    );
    assert_eq!(
        summary_line(&FlowCount { flow: FiveTuple::new(), count: 12 }),
        ":0 -> :0 (0): 12"
    );
}

#[test]
fn frame_line_has_stamp_flow_and_count() {
    assert_eq!(
        frame_line("2015-05-15 00:00:00", &tcp_entry(3)),
        "[2015-05-15 00:00:00] 10.0.0.1:1234 -> 10.0.0.2:80 (6) -- 3"
    );
    assert_eq!(frame_line("", &tcp_entry(1)), "[] 10.0.0.1:1234 -> 10.0.0.2:80 (6) -- 1");
}

#[test]
fn summary_lines_follow_the_summary() {
    let mut agg = FlowAggregator::new();
    let flow = tcp_entry(0).flow;
    let other = FiveTuple { next_proto: 17, l4_dport: 53, ..flow };
    let third = FiveTuple { ether: Ethertype::IPV6, ..flow };
    for next in [flow, other, flow, third, flow, other] {
        agg.record(next);
    }
    assert_eq!(
        summary_lines(&agg),
        vec![
            String::from(
                "0000:0000:0000:0000:0000:0000:0a00:0001:1234 -> \
                 0000:0000:0000:0000:0000:0000:0a00:0002:80 (6): 1"
            ),
            String::from("10.0.0.1:1234 -> 10.0.0.2:53 (17): 2"),
            String::from("10.0.0.1:1234 -> 10.0.0.2:80 (6): 3"),
        ]
    );
}

#[test]
fn summary_lines_of_nothing_are_none() {
    assert!(summary_lines(&FlowAggregator::new()).is_empty());
}

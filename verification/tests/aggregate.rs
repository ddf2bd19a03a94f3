use flowtally::aggregate::{FlowAggregator, FlowCount};
use flowtally::ether::Ethertype;
use flowtally::flow::FiveTuple;

fn tcp_flow() -> FiveTuple {
    FiveTuple {
        ether: Ethertype::IPV4,
        l3_src: 0x0a000001,
        l3_dst: 0x0a000002,
        next_proto: 6,
        l4_sport: 1234,
        l4_dport: 80,
    }
}

fn flow_on_port(port: u16) -> FiveTuple {
    FiveTuple { l4_dport: port, ..tcp_flow() }
}

fn flows_of(summary: &[FlowCount]) -> Vec<u16> {
    summary.iter().map(|entry| entry.flow.l4_dport).collect()
}

fn counts_of(summary: &[FlowCount]) -> Vec<u128> {
    summary.iter().map(|entry| entry.count).collect()
}

#[test]
fn new_aggregator_is_empty() {
    let agg = FlowAggregator::new();
    assert_eq!(agg.len(), 0);
    assert_eq!(agg.count(&tcp_flow()), 0);
    assert_eq!(agg.count(&FiveTuple::new()), 0);
    assert!(agg.summary().is_empty());
}

#[test]
fn first_frame_of_a_flow_counts_one() {
    let mut agg = FlowAggregator::new();
    assert_eq!(agg.record(tcp_flow()), Some(1));
    assert_eq!(agg.len(), 1);
    assert_eq!(agg.count(&tcp_flow()), 1);
}

#[test]
fn identical_tuples_share_one_counter() {
    let mut agg = FlowAggregator::new();
    assert_eq!(agg.record(tcp_flow()), Some(1));
    assert_eq!(agg.record(tcp_flow()), Some(2));
    assert_eq!(agg.record(tcp_flow().clone()), Some(3));
    assert_eq!(agg.len(), 1);
    assert_eq!(agg.count(&tcp_flow()), 3);
}

#[test]
fn a_difference_in_any_field_makes_another_counter() {
    let base = tcp_flow();
    let others = [
        FiveTuple { ether: Ethertype::IPV6, ..base },
        FiveTuple { ether: Ethertype::UNKNOWN, ..base },
        FiveTuple { l3_src: base.l3_src + 1, ..base },
        FiveTuple { l3_dst: base.l3_dst + 1, ..base },
        FiveTuple { next_proto: 17, ..base },
        FiveTuple { l4_sport: 1235, ..base },
        FiveTuple { l4_dport: 81, ..base },
    ];
    let mut agg = FlowAggregator::new();
    assert_eq!(agg.record(base), Some(1));
    for (seen, other) in others.iter().enumerate() {
        assert_ne!(*other, base);
        assert_eq!(agg.record(*other), Some(1));
        assert_eq!(agg.len(), seen + 2);
        assert_eq!(agg.count(&base), 1);
    }
    for other in others.iter() {
        assert_eq!(agg.count(other), 1);
    }
}

#[test]
fn a_flow_and_its_reverse_are_counted_apart() {
    let forward = tcp_flow();
    let reverse = FiveTuple {
        l3_src: forward.l3_dst,
        l3_dst: forward.l3_src,
        l4_sport: forward.l4_dport,
        l4_dport: forward.l4_sport,
        ..forward
    };
    let mut agg = FlowAggregator::new();
    agg.record(forward);
    agg.record(reverse);
    agg.record(forward);
    assert_eq!(agg.len(), 2);
    assert_eq!(agg.count(&forward), 2);
    assert_eq!(agg.count(&reverse), 1);
}

#[test]
fn counting_one_flow_leaves_the_others() {
    let mut agg = FlowAggregator::new();
    for _ in 0..5 {
        agg.record(flow_on_port(1));
    }
    for _ in 0..3 {
        agg.record(flow_on_port(2));
    }
    assert_eq!(agg.record(flow_on_port(1)), Some(6));
    assert_eq!(agg.count(&flow_on_port(2)), 3);
    assert_eq!(agg.count(&flow_on_port(3)), 0);
    assert_eq!(agg.len(), 2);
}

#[test]
fn count_is_the_number_of_frames_of_the_flow() {
    let ports = [5u16, 3, 5, 5, 8, 3, 5, 1, 8, 5];
    let mut agg = FlowAggregator::new();
    for port in ports {
        agg.record(flow_on_port(port));
    }
    for port in 0u16..10 {
        let frames = ports.iter().filter(|p| **p == port).count() as u128;
        assert_eq!(agg.count(&flow_on_port(port)), frames);
    }
    assert_eq!(agg.len(), 4);
}

#[test]
fn summary_is_ascending_in_count() {
    let mut agg = FlowAggregator::new();
    for (port, frames) in [(10u16, 4), (20, 1), (30, 7), (40, 2), (50, 3)] {
        for _ in 0..frames {
            agg.record(flow_on_port(port));
        }
    }
    let summary = agg.summary();
    assert_eq!(counts_of(&summary), vec![1, 2, 3, 4, 7]);
    assert_eq!(flows_of(&summary), vec![20, 40, 50, 10, 30]);
}

#[test]
fn summary_never_falls_for_interleaved_frames() {
    let mut agg = FlowAggregator::new();
    let mut seed: u32 = 12345;
    for _ in 0..500 {
        seed = seed.wrapping_mul(1103515245).wrapping_add(12345);
        let port = ((seed >> 16) % 23) as u16;
        agg.record(flow_on_port(port * port % 17));
    }
    let summary = agg.summary();
    assert_eq!(summary.len(), agg.len());
    for pair in summary.windows(2) {
        assert!(pair[0].count <= pair[1].count);
    }
    let total: u128 = summary.iter().map(|entry| entry.count).sum();
    assert_eq!(total, 500);
    for entry in summary.iter() {
        assert_eq!(agg.count(&entry.flow), entry.count);
    }
}

#[test]
fn summary_keeps_first_seen_order_among_equal_counts() {
    let mut agg = FlowAggregator::new();
    for port in [7u16, 3, 9, 1, 5] {
        agg.record(flow_on_port(port));
    }
    assert_eq!(flows_of(&agg.summary()), vec![7, 3, 9, 1, 5]);
    agg.record(flow_on_port(3));
    agg.record(flow_on_port(7));
    let summary = agg.summary();
    assert_eq!(flows_of(&summary), vec![9, 1, 5, 7, 3]);
    assert_eq!(counts_of(&summary), vec![1, 1, 1, 2, 2]);
}

#[test]
fn summary_is_the_same_each_time() {
    let mut agg = FlowAggregator::new();
    for port in [2u16, 1, 2, 3, 1, 2, 4] {
        agg.record(flow_on_port(port));
    }
    let first = agg.summary();
    let second = agg.summary();
    assert_eq!(first, second);
    assert_eq!(flows_of(&first), vec![3, 4, 1, 2]);
    assert_eq!(agg.len(), 4);
}

#[test]
fn summary_of_one_flow_has_one_line() {
    let mut agg = FlowAggregator::new();
    for _ in 0..9 {
        agg.record(tcp_flow());
    }
    assert_eq!(agg.summary(), vec![FlowCount { flow: tcp_flow(), count: 9 }]);
}

#[test]
fn observed_frame_is_counted_under_its_tuple() {
    let mut frame = vec![0u8; 12];
    frame.extend_from_slice(&[0x08, 0x00]);
    let mut header = vec![0u8; 20];
    header[0] = 0x45;
    header[9] = 6;
    header[12..16].copy_from_slice(&[10, 0, 0, 1]);
    header[16..20].copy_from_slice(&[10, 0, 0, 2]);
    frame.extend_from_slice(&header);
    frame.extend_from_slice(&[0x04, 0xd2, 0x00, 0x50]);

    let mut agg = FlowAggregator::new();
    assert_eq!(agg.observe(&frame), Some(FlowCount { flow: tcp_flow(), count: 1 }));
    assert_eq!(agg.observe(&frame), Some(FlowCount { flow: tcp_flow(), count: 2 }));
    assert_eq!(agg.record(tcp_flow()), Some(3));
    assert_eq!(agg.len(), 1);
}

#[test]
fn unparsable_frames_are_counted_under_the_blank_tuple() {
    let mut agg = FlowAggregator::new();
    assert_eq!(agg.observe(&[]), Some(FlowCount { flow: FiveTuple::new(), count: 1 }));
    assert_eq!(agg.observe(&[1, 2, 3]), Some(FlowCount { flow: FiveTuple::new(), count: 2 }));
    assert_eq!(agg.observe(&[0u8; 64]), Some(FlowCount { flow: FiveTuple::new(), count: 3 }));
    assert_eq!(agg.len(), 1);
    assert_eq!(agg.count(&FiveTuple::new()), 3);
}

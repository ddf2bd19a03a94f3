use flowtally::aggregate::FlowAggregator;
use flowtally::report::summary_lines;

fn ipv4_frame(proto: u8, src: [u8; 4], dst: [u8; 4], sport: u16, dport: u16) -> Vec<u8> {
    let mut frame = vec![0u8; 12];
    frame.extend_from_slice(&[0x08, 0x00]);
    let mut header = vec![0u8; 20];
    header[0] = 0x45;
    header[9] = proto;
    header[12..16].copy_from_slice(&src);
    header[16..20].copy_from_slice(&dst);
    frame.extend_from_slice(&header);
    frame.extend_from_slice(&sport.to_be_bytes());
    frame.extend_from_slice(&dport.to_be_bytes());
    frame.extend_from_slice(&[0u8; 8]);
    frame
}

#[test]
fn two_tcp_frames_and_one_udp_frame() {
    let tcp = ipv4_frame(6, [10, 0, 0, 1], [10, 0, 0, 2], 1234, 80);
    let udp = ipv4_frame(17, [10, 0, 0, 3], [10, 0, 0, 4], 5000, 53);
    let mut agg = FlowAggregator::new();
    assert_eq!(agg.observe(&tcp).map(|seen| seen.count), Some(1));
    assert_eq!(agg.observe(&udp).map(|seen| seen.count), Some(1));
    assert_eq!(agg.observe(&tcp).map(|seen| seen.count), Some(2));
    assert_eq!(
        summary_lines(&agg),
        vec![
            String::from("10.0.0.3:5000 -> 10.0.0.4:53 (17): 1"),
            String::from("10.0.0.1:1234 -> 10.0.0.2:80 (6): 2"),
        ]
    );
}

#[test]
fn the_order_of_arrival_does_not_change_the_counts() {
    let tcp = ipv4_frame(6, [10, 0, 0, 1], [10, 0, 0, 2], 1234, 80);
    let udp = ipv4_frame(17, [10, 0, 0, 3], [10, 0, 0, 4], 5000, 53);
    for order in [[&tcp, &tcp, &udp], [&tcp, &udp, &tcp], [&udp, &tcp, &tcp]] {
        let mut agg = FlowAggregator::new();
        for frame in order {
            assert!(agg.observe(frame).is_some());
        }
        assert_eq!(
            summary_lines(&agg),
            vec![
                String::from("10.0.0.3:5000 -> 10.0.0.4:53 (17): 1"),
                String::from("10.0.0.1:1234 -> 10.0.0.2:80 (6): 2"),
            ]
        );
    }
}

#[test]
fn frames_that_differ_only_in_payload_are_one_flow() {
    let mut first = ipv4_frame(6, [10, 0, 0, 1], [10, 0, 0, 2], 1234, 80);
    let mut second = first.clone();
    first.extend_from_slice(b"GET / HTTP/1.1");
    second.extend_from_slice(b"HTTP/1.1 200 OK");
    second[0] = 0xff;
    second[14 + 8] = 63;
    let mut agg = FlowAggregator::new();
    agg.observe(&first);
    agg.observe(&second);
    assert_eq!(agg.len(), 1);
    assert_eq!(summary_lines(&agg), vec![String::from("10.0.0.1:1234 -> 10.0.0.2:80 (6): 2")]);
}

#[test]
fn mixed_capture_is_summarised_in_ascending_order() {
    let mut agg = FlowAggregator::new();
    let web = ipv4_frame(6, [192, 168, 1, 10], [93, 184, 216, 34], 49152, 443);
    let dns = ipv4_frame(17, [192, 168, 1, 10], [192, 168, 1, 1], 40000, 53);
    let ping = ipv4_frame(1, [192, 168, 1, 10], [8, 8, 8, 8], 2048, 1);
    let mut arp = vec![0u8; 12];
    arp.extend_from_slice(&[0x08, 0x06]);
    arp.extend_from_slice(&[0u8; 28]);
    for frame in [&web, &dns, &web, &ping, &arp, &web, &ping, &web, &arp, &arp] {
        agg.observe(frame);
    }
    assert_eq!(
        summary_lines(&agg),
        vec![
            String::from("192.168.1.10:40000 -> 192.168.1.1:53 (17): 1"),
            String::from("192.168.1.10:0 -> 8.8.8.8:0 (1): 2"),
            String::from(":0 -> :0 (0): 3"),
            String::from("192.168.1.10:49152 -> 93.184.216.34:443 (6): 4"),
        ]
    );
}

use lib::net_vis::{
    layer_center_y, step_packet, AnimatedPacket, FunctionHook, NetworkLayer, NetworkVisualizer,
    PacketDirection, PacketPhase,
};
use lib::graphics::color::ColorCode;
use lib::graphics::geometry::{Point, Rect};
use lib::net_vis::scene::DrawOp;

fn packet(y: usize, targets: &[usize]) -> AnimatedPacket {
    AnimatedPacket {
        direction: PacketDirection::Rx,
        x: 100,
        y,
        phases: targets
            .iter()
            .map(|t| PacketPhase { hook: FunctionHook::ReceiveEthPayload, target_y: *t })
            .collect(),
        current_phase: 0,
        pause_remaining: 0,
        age: 0,
        done: false,
        flow_complete: false,
    }
}

#[test]
fn hooks_know_their_direction_and_layer() {
    assert_eq!(FunctionHook::ReceiveTcpPacket.direction(), PacketDirection::Rx);
    assert_eq!(FunctionHook::SendArpPacket.direction(), PacketDirection::Tx);
    assert_eq!(FunctionHook::ReceiveIpv4Paket.layer(), NetworkLayer::L2Network);
    assert_eq!(FunctionHook::SendEthPayload.layer(), NetworkLayer::L1Ethernet);
    assert_eq!(FunctionHook::SendUdpPacket.layer(), NetworkLayer::L3Transport);
    assert_eq!(FunctionHook::ReceiveIcmpPacket.label(), "ICMP");
    assert_eq!(layer_center_y(NetworkLayer::L1Ethernet), 50);
    assert_eq!(layer_center_y(NetworkLayer::L3Transport), 250);
}

#[test]
fn a_received_frame_collects_its_layers() {
    let mut vis = NetworkVisualizer::new();
    vis.hook(FunctionHook::ReceiveEthPayload, String::from("eth"));
    vis.hook(FunctionHook::ReceiveIpv4Paket, String::from("ip"));
    vis.hook(FunctionHook::ReceiveTcpPacket, String::from("tcp"));
    assert_eq!(vis.fn_hooks.len(), 3);
    vis.process_hooks();
    assert!(vis.fn_hooks.is_empty());
    assert_eq!(vis.animated_packets.len(), 1);
    let p = &vis.animated_packets[0];
    assert_eq!(p.direction, PacketDirection::Rx);
    assert_eq!((p.x, p.y), (100, 0));
    let targets: Vec<usize> = p.phases.iter().map(|ph| ph.target_y).collect();
    assert_eq!(targets, vec![50, 150, 250]);
    assert_eq!(vis.log_entries.len(), 3);
    assert_eq!(vis.log_entries[2].detail, "tcp");
    assert_eq!(vis.rx_slot, 1);
}

#[test]
fn an_outgoing_segment_ends_with_its_frame() {
    let mut vis = NetworkVisualizer::new();
    vis.process_hook(FunctionHook::SendTcpPacket, String::from("syn"));
    vis.process_hook(FunctionHook::SendEthPayload, String::from("frame"));
    let p = &vis.animated_packets[0];
    assert_eq!(p.direction, PacketDirection::Tx);
    assert_eq!((p.x, p.y), (210, 250));
    assert_eq!(p.pause_remaining, 5);
    assert!(p.flow_complete);
    assert_eq!(p.phases.len(), 2);
    // a report after the flow is closed starts nothing and joins nothing
    vis.process_hook(FunctionHook::SendEthPayload, String::from("stray"));
    assert_eq!(vis.animated_packets.len(), 1);
    assert_eq!(vis.animated_packets[0].phases.len(), 2);
    assert_eq!(vis.tx_slot, 1);
}

#[test]
fn the_log_keeps_the_last_eight() {
    let mut vis = NetworkVisualizer::new();
    for i in 0..10 {
        vis.process_hook(FunctionHook::ReceiveUdpPacket, format!("d{}", i));
    }
    assert_eq!(vis.log_entries.len(), 8);
    assert_eq!(vis.log_entries[0].detail, "d2");
    assert_eq!(vis.log_entries[7].detail, "d9");
}

#[test]
fn lanes_have_four_slots() {
    let mut vis = NetworkVisualizer::new();
    for _ in 0..5 {
        vis.process_hook(FunctionHook::ReceiveEthPayload, String::new());
    }
    let xs: Vec<usize> = vis.animated_packets.iter().map(|p| p.x).collect();
    assert_eq!(xs, vec![100, 120, 140, 160, 100]);
}

#[test]
fn a_packet_moves_rests_and_goes_on() {
    let mut p = packet(0, &[50, 150]);
    step_packet(&mut p);
    assert_eq!(p.y, 30);
    step_packet(&mut p);
    assert_eq!((p.y, p.pause_remaining), (50, 5));
    for left in (0..5).rev() {
        step_packet(&mut p);
        assert_eq!(p.pause_remaining, left);
    }
    step_packet(&mut p);
    assert_eq!(p.current_phase, 1);
    assert_eq!(p.y, 50);
    step_packet(&mut p);
    assert_eq!(p.y, 80);
}

#[test]
fn a_finished_packet_fades_out() {
    let mut vis = NetworkVisualizer::new();
    vis.animated_packets.push(packet(50, &[50]));
    // it is at its only layer with no rest left, so it is finished
    vis.update_animation();
    assert!(vis.animated_packets[0].done);
    assert_eq!(vis.animated_packets[0].age, 0);
    for _ in 0..29 {
        vis.update_animation();
    }
    assert_eq!(vis.animated_packets.len(), 1);
    assert_eq!(vis.animated_packets[0].age, 29);
    vis.update_animation();
    assert!(vis.animated_packets.is_empty());
}

#[test]
fn a_packet_moves_up_toward_its_layer() {
    let mut p = packet(250, &[50]);
    step_packet(&mut p);
    assert_eq!(p.y, 220);
    let mut q = packet(60, &[50]);
    step_packet(&mut q);
    assert_eq!((q.y, q.pause_remaining), (50, 5));
}

fn rgb(r: u8, g: u8, b: u8) -> ColorCode {
    ColorCode { r, g, b, a: 0 }
}

#[test]
fn hooks_are_shown_in_order() {
    let mut vis = NetworkVisualizer::new();
    vis.hook(FunctionHook::ReceiveEthPayload, String::from("in"));
    vis.hook(FunctionHook::ReceiveIpv4Paket, String::from("ip"));
    vis.process_hooks();
    assert!(vis.fn_hooks.is_empty());
    assert_eq!(vis.log_entries.len(), 2);
    assert_eq!(vis.log_entries[0].detail, "in");
    assert_eq!(vis.log_entries[1].detail, "ip");
    // the second hook added its phase to the flow the first one started
    assert_eq!(vis.animated_packets.len(), 1);
    assert_eq!(vis.animated_packets[0].phases.len(), 2);
}

#[test]
fn the_canvas_is_drawn_band_by_band() {
    let vis = NetworkVisualizer::new();
    let ops = vis.canvas_ops();
    assert_eq!(ops.len(), 346);
    assert!(matches!(&ops[0], DrawOp::Fill(c) if *c == rgb(20, 20, 30)));
    assert!(matches!(&ops[1], DrawOp::Rect(r, c) if *r == Rect::new(0, 0, 332, 100) && *c == rgb(30, 30, 45)));
    assert!(matches!(&ops[2], DrawOp::Text(p, s, _, _) if *p == Point::new(5, 4) && s == "L1 Ethernet"));
    // the first dash of the second band's separator
    assert!(matches!(&ops[3], DrawOp::Rect(r, c) if *r == Rect::new(0, 100, 6, 1) && *c == rgb(80, 80, 80)));
    assert!(matches!(&ops[345], DrawOp::Text(p, s, _, _) if *p == Point::new(2, 310) && s == "Recent:"));

    let mut logged = NetworkVisualizer::new();
    logged.hook(FunctionHook::SendUdpPacket, String::from("dns"));
    logged.process_hooks();
    let ops = logged.canvas_ops();
    let n = ops.len();
    assert!(matches!(&ops[n - 3], DrawOp::Text(p, s, c, _) if *p == Point::new(4, 326) && s == "TX" && *c == rgb(255, 165, 0)));
    assert!(matches!(&ops[n - 2], DrawOp::Text(p, s, c, _) if *p == Point::new(30, 326) && s == "UDP" && *c == rgb(100, 180, 255)));
    assert!(matches!(&ops[n - 1], DrawOp::Text(p, s, _, _) if *p == Point::new(70, 326) && s == "dns"));
}

use castzura::net::{IpAddr, IpSet};
use castzura::routes::disconnect::{disconnect_handler, DisconnectReply};
use castzura::rtp::RtpPacket;
use castzura::session::{
    peer_plan, rtp_clock, rtp_samples, ClientSession, FirstStep, Received, SessionStep, StopReason,
};

const CLIENT: IpAddr = IpAddr::V4(0xc0a8_0105);
const OTHER: IpAddr = IpAddr::V4(0xc0a8_0106);
const LOCAL: IpAddr = IpAddr::V4(0x7f00_0001);

fn unit(kind: u8, len: usize) -> Vec<u8> {
    let mut data = vec![0, 0, 0, 1, kind];
    data.resize(4 + len, 0xab);
    data
}

fn open() -> ClientSession {
    ClientSession::open(CLIENT, &mut IpSet::new())
}

fn check_run(packets: &Vec<RtpPacket>) {
    for i in 1..packets.len() {
        let before = packets[i - 1].sequence_number;
        assert_eq!(packets[i].sequence_number, before.wrapping_add(1));
    }
}

#[test]
fn a_small_unit_is_one_packet_without_its_start_code() {
    let mut session = open();
    let packets = session.packetize(&unit(0x65, 10), 3000);
    assert_eq!(packets.len(), 1);
    assert_eq!(packets[0].payload, unit(0x65, 10)[4..].to_vec());
    assert!(packets[0].marker);
    assert_eq!(packets[0].payload_type, 96);
    assert_eq!(packets[0].ssrc, 0x12345678);
}

#[test]
fn a_large_unit_is_cut_into_fragments() {
    let mut session = open();
    let packets = session.packetize(&unit(0x65, 3000), 3000);
    assert_eq!(packets.len(), 3);
    check_run(&packets);
    let mut bytes: Vec<u8> = Vec::new();
    for (i, packet) in packets.iter().enumerate() {
        assert!(packet.payload.len() <= 1188);
        assert_eq!(packet.payload[0], 28 | 0x60);
        assert_eq!(packet.marker, i == 2);
        assert_eq!(packet.timestamp, packets[0].timestamp);
        bytes.extend_from_slice(&packet.payload[2..]);
    }
    assert_eq!(bytes, unit(0x65, 3000)[5..].to_vec());
}

#[test]
fn parameter_sets_wait_for_the_next_unit() {
    let mut session = open();
    assert!(session.packetize(&unit(0x67, 4), 1).is_empty());
    assert!(session.packetize(&unit(0x68, 3), 2).is_empty());
    let packets = session.packetize(&unit(0x65, 5), 3);
    assert_eq!(packets.len(), 2);
    assert_eq!(
        packets[0].payload,
        vec![0x78, 0, 4, 0x67, 0xab, 0xab, 0xab, 0, 3, 0x68, 0xab, 0xab]
    );
    assert!(!packets[0].marker);
    assert!(packets[1].marker);
}

#[test]
fn an_empty_frame_is_no_packet() {
    assert!(open().packetize(&[], 5).is_empty());
}

#[test]
fn sequence_numbers_run_on_across_frames() {
    let mut session = open();
    let mut packets: Vec<RtpPacket> = Vec::new();
    for k in 1..40 {
        packets.extend(session.packetize(&unit(0x65, 100 * k), k as u32 * 3000));
    }
    check_run(&packets);
}

#[test]
fn timestamps_follow_the_clock() {
    let mut session = open();
    let first = session.packetize(&unit(0x65, 10), 3000)[0].timestamp;
    let second = session.packetize(&unit(0x65, 10), 6500)[0].timestamp;
    let third = session.packetize(&unit(0x65, 10), 9000)[0].timestamp;
    assert_eq!(second.wrapping_sub(first), 3000);
    assert_eq!(third.wrapping_sub(first), 6500);
}

#[test]
fn a_timestamp_advances_though_the_clock_stands_still() {
    let mut session = open();
    session.packetize(&unit(0x65, 10), 3000);
    let second = session.packetize(&unit(0x65, 10), 3000)[0].timestamp;
    let third = session.packetize(&unit(0x65, 10), 3000)[0].timestamp;
    assert_eq!(third.wrapping_sub(second), 1);
}

#[test]
fn samples_are_at_least_one_and_wrap_around() {
    assert_eq!(rtp_samples(0, 0), 1);
    assert_eq!(rtp_samples(0, 1), 1);
    assert_eq!(rtp_samples(100, 3100), 3000);
    assert_eq!(rtp_samples(u32::MAX, 4), 5);
    assert_eq!(rtp_samples(5, 4), u32::MAX);
}

#[test]
fn an_open_session_is_listed_until_it_is_closed() {
    let mut clients = IpSet::new();
    clients.insert(OTHER);
    let session = ClientSession::open(CLIENT, &mut clients);
    assert!(clients.contains(CLIENT));
    session.close(&mut clients);
    assert!(!clients.contains(CLIENT));
    assert!(clients.contains(OTHER));
}

#[test]
fn sessions_of_one_address_are_listed_together() {
    let mut clients = IpSet::new();
    let first = ClientSession::open(CLIENT, &mut clients);
    let _second = ClientSession::open(CLIENT, &mut clients);
    assert_eq!(clients.members(), vec![CLIENT]);
    first.close(&mut clients);
    assert!(clients.members().is_empty());
}

#[test]
fn a_frame_is_sent() {
    let session = open();
    let mut requests = IpSet::new();
    requests.insert(OTHER);
    let step = session.on_receive(Received::Frame(vec![1, 2]), &mut requests);
    assert!(matches!(step, SessionStep::Send(data) if data == vec![1, 2]));
    assert!(requests.contains(OTHER));
}

#[test]
fn missed_frames_are_skipped() {
    let session = open();
    let mut requests = IpSet::new();
    requests.insert(CLIENT);
    let step = session.on_receive(Received::Lagged(7), &mut requests);
    assert!(matches!(step, SessionStep::Wait));
    assert!(requests.contains(CLIENT));
}

#[test]
fn a_closed_channel_ends_the_session() {
    let step = open().on_receive(Received::Closed, &mut IpSet::new());
    assert!(matches!(step, SessionStep::Stop(StopReason::Closed)));
}

#[test]
fn a_request_disconnects_a_client_once() {
    let session = open();
    let mut requests = IpSet::new();
    let reply = disconnect_handler(LOCAL, Some(CLIENT), &mut requests);
    assert!(matches!(reply, DisconnectReply::Redirect("/status")));
    let step = session.on_receive(Received::Frame(vec![1]), &mut requests);
    assert!(matches!(step, SessionStep::Stop(StopReason::Requested)));
    let step = session.on_receive(Received::Frame(vec![1]), &mut requests);
    assert!(matches!(step, SessionStep::Send(_)));
}

#[test]
fn another_machine_cannot_disconnect_a_client() {
    let mut requests = IpSet::new();
    let reply = disconnect_handler(OTHER, Some(CLIENT), &mut requests);
    assert!(matches!(reply, DisconnectReply::Forbidden));
    assert!(requests.members().is_empty());
}

#[test]
fn what_is_no_address_disconnects_no_one() {
    let mut requests = IpSet::new();
    let reply = disconnect_handler(IpAddr::V6(1), None, &mut requests);
    assert!(matches!(reply, DisconnectReply::Redirect("/status")));
    assert!(requests.members().is_empty());
}

#[test]
fn a_text_message_begins_the_handshake() {
    let step = open().on_first_message(Some("offer".to_string()));
    assert!(matches!(step, FirstStep::Handshake(text) if text == "offer"));
}

#[test]
fn any_other_first_message_ends_the_session() {
    assert!(matches!(open().on_first_message(None), FirstStep::End));
}

#[test]
fn the_clock_runs_at_its_rate_and_wraps_around() {
    assert_eq!(rtp_clock(0), 0);
    assert_eq!(rtp_clock(11_111), 0);
    assert_eq!(rtp_clock(11_112), 1);
    assert_eq!(rtp_clock(1_000_000_000), 90_000);
    assert_eq!(rtp_clock(1_500_000_000), 135_000);
    let day: u64 = 86_400;
    let expected = (day * 90_000 % 0x1_0000_0000) as u32;
    assert_eq!(rtp_clock(day * 1_000_000_000), expected);
    assert_eq!(rtp_clock(u64::MAX), (u64::MAX as u128 * 90_000 / 1_000_000_000) as u32);
}

#[test]
fn timestamps_follow_real_time_past_the_wrap() {
    let mut session = open();
    let mut first = 0;
    let step: u64 = 3_600_000_000_000;
    for hour in 1..31 {
        let now = rtp_clock(hour * step);
        let timestamp = session.packetize(&unit(0x65, 10), now)[0].timestamp;
        if hour == 1 {
            first = timestamp;
        } else {
            let ticks = ((hour - 1) * 3600 * 90_000) as u32;
            assert_eq!(timestamp.wrapping_sub(first), ticks);
        }
    }
}

#[test]
fn a_client_is_offered_one_video_track() {
    let plan = peer_plan();
    assert_eq!(plan.mime_type, "video/h264");
    assert_eq!(plan.track_id, "video");
    assert_eq!(plan.stream_id, "webrtc-rs");
    assert!(!plan.multicast_dns);
}

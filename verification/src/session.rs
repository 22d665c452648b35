//! One client's connection: from the frames that it receives to its RTP packets.
use crate::net::{IpAddr, IpSet};
use crate::rtp::{make_packetizer, run_packetizer, H264Packetizer, RtpPacket};
use vstd::prelude::*;

verus! {

/// What waiting for the next frame brought.
#[derive(Debug)]
pub enum Received {
    Frame(Vec<u8>),
    /// The client was too slow and missed this many frames.
    Lagged(u64),
    /// No more frames will come.
    Closed,
}

/// What a session does next.
#[derive(Debug)]
pub enum SessionStep {
    /// Waits for the next frame.
    Wait,
    /// Sends this frame to the client.
    Send(Vec<u8>),
    /// Ends.
    Stop(StopReason),
}

/// Why a session ends.
#[derive(Clone, Copy, Debug, PartialEq, Eq, Structural)]
pub enum StopReason {
    /// It was asked for.
    Requested,
    /// No more frames will come.
    Closed,
}

/// What follows from a client's first message.
#[derive(Debug)]
pub enum FirstStep {
    /// The connection is set up with the offer in this text.
    Handshake(String),
    /// The session ends, with nothing sent.
    End,
}

/// How the connection to a client is set up: its one track, and whether addresses are
/// hidden behind multicast DNS names.
#[derive(Clone, Copy, Debug)]
pub struct PeerPlan {
    pub mime_type: &'static str,
    pub track_id: &'static str,
    pub stream_id: &'static str,
    pub multicast_dns: bool,
}

/// The connection to a client: an H.264 video track, without multicast DNS.
pub fn peer_plan() -> (plan: PeerPlan)
    ensures
        plan.mime_type@ == "video/h264"@,
        plan.track_id@ == "video"@,
        plan.stream_id@ == "webrtc-rs"@,
        !plan.multicast_dns,
{
    PeerPlan {
        mime_type: "video/h264",
        track_id: "video",
        stream_id: "webrtc-rs",
        multicast_dns: false,
    }
}

/// The state of a session.
pub struct SessionView {
    pub client_ip: IpAddr,
    pub last_rtp_ts: u32,
    pub packetizer: crate::rtp::PacketizerState,
}

/// A client's connection.
pub struct ClientSession {
    client_ip: IpAddr,
    last_rtp_ts: u32,
    packetizer: H264Packetizer,
}

impl View for ClientSession {
    type V = SessionView;

    closed spec fn view(&self) -> SessionView {
        SessionView {
            client_ip: self.client_ip,
            last_rtp_ts: self.last_rtp_ts,
            packetizer: crate::rtp::packetizer_state(self.packetizer),
        }
    }
}

/// The packetizer of a session has the settings of the video track.
pub open spec fn video_settings(state: crate::rtp::PacketizerState) -> bool {
    &&& state.mtu == crate::rtp::MTU
    &&& state.payload_type == crate::rtp::PAYLOAD_TYPE
    &&& state.ssrc == crate::rtp::SSRC
    &&& state.clock_rate == crate::rtp::CLOCK_RATE
}

/// The whole ticks of the RTP clock in `nanos` nanoseconds.
pub open spec fn ticks(nanos: nat) -> nat {
    (nanos * crate::rtp::CLOCK_RATE as nat) / 1_000_000_000
}

/// What the RTP clock shows `nanos` nanoseconds after it started. It wraps around.
pub open spec fn clock_reading(nanos: nat) -> u32 {
    (ticks(nanos) % 0x1_0000_0000) as u32
}

/// What the RTP clock shows when `elapsed_nanos` nanoseconds have passed since it started.
pub fn rtp_clock(elapsed_nanos: u64) -> (now: u32)
    ensures
        now == clock_reading(elapsed_nanos as nat),
        now == ((elapsed_nanos as nat * 90000) / 1_000_000_000) % 0x1_0000_0000,
{
    let ticks: u128 = elapsed_nanos as u128 * crate::rtp::CLOCK_RATE as u128 / 1_000_000_000;
    (ticks % 0x1_0000_0000) as u32
}

/// The ticks between two readings of the RTP clock, which wraps around. It is at
/// least one, so that no two frames share a timestamp.
pub open spec fn samples_between(last: u32, now: u32) -> u32 {
    if now == last {
        1
    } else if now > last {
        (now - last) as u32
    } else {
        (now - last + 0x1_0000_0000) as u32
    }
}

/// The ticks between two readings of the RTP clock.
pub fn rtp_samples(last: u32, now: u32) -> (samples: u32)
    ensures
        samples == samples_between(last, now),
        samples >= 1,
        now == last ==> samples == 1,
        now != last ==> (last + samples) % 0x1_0000_0000 == now,
{
    let samples: u32 = now.wrapping_sub(last);
    if samples < 1 {
        1
    } else {
        samples
    }
}

/// The payloads of a frame that is sent in state `s`.
pub open spec fn frame_payloads(s: SessionView, data: Seq<u8>) -> Seq<Seq<u8>> {
    crate::rtp::h264_payloads(
        s.packetizer.units,
        (s.packetizer.mtu - crate::rtp::HEADER_SIZE) as nat,
        data,
    )
}

/// The packets of a frame that is sent in state `s`.
pub open spec fn frame_packets(s: SessionView, data: Seq<u8>) -> Seq<crate::rtp::PacketView> {
    crate::rtp::packets_for(s.packetizer, frame_payloads(s, data))
}

/// The state after a frame has been sent in state `s` when the RTP clock showed `now`.
pub open spec fn after_frame(s: SessionView, data: Seq<u8>, now: u32) -> SessionView {
    SessionView {
        client_ip: s.client_ip,
        last_rtp_ts: now,
        packetizer: crate::rtp::state_after(
            s.packetizer,
            data,
            samples_between(s.last_rtp_ts, now),
            frame_packets(s, data).len(),
        ),
    }
}

/// A frame ends the session of a client whose disconnection was asked for.
pub open spec fn stops_on_frame(disconnect_requests: Set<IpAddr>, client_ip: IpAddr) -> bool {
    disconnect_requests.contains(client_ip)
}

/// The requests to disconnect that are pending after a client has received a frame.
pub open spec fn requests_after_frame(
    disconnect_requests: Set<IpAddr>,
    client_ip: IpAddr,
) -> Set<IpAddr> {
    disconnect_requests.remove(client_ip)
}

impl ClientSession {
    /// Opens the session of a client and lists it as connected. The RTP clock starts
    /// at zero; the first timestamp and the first sequence number are random, so
    /// nothing is said of them.
    pub fn open(client_ip: IpAddr, connected_clients: &mut IpSet) -> (session: ClientSession)
        ensures
            final(connected_clients)@ == old(connected_clients)@.insert(client_ip),
            session@.client_ip == client_ip,
            session@.last_rtp_ts == 0,
            session@.packetizer.units == Seq::<Seq<u8>>::empty(),
            video_settings(session@.packetizer),
            session@.packetizer.mtu == 1200,
            session@.packetizer.payload_type == 96,
            session@.packetizer.ssrc == 0x12345678,
            session@.packetizer.clock_rate == 90000,
    {
        connected_clients.insert(client_ip);
        ClientSession {
            client_ip,
            last_rtp_ts: 0,
            packetizer: make_packetizer(
                crate::rtp::MTU,
                crate::rtp::PAYLOAD_TYPE,
                crate::rtp::SSRC,
                crate::rtp::CLOCK_RATE,
            ),
        }
    }

    /// Decides what follows from the client's first message: `text` is what it holds, if
    /// it came and is text.
    pub fn on_first_message(&self, text: Option<String>) -> (step: FirstStep)
        ensures
            step == (match text {
                Some(offer) => FirstStep::Handshake(offer),
                None => FirstStep::End,
            }),
    {
        match text {
            Some(offer) => FirstStep::Handshake(offer),
            None => FirstStep::End,
        }
    }

    /// Ends the session of a client, which is then no longer listed as connected.
    pub fn close(self, connected_clients: &mut IpSet)
        ensures
            final(connected_clients)@ == old(connected_clients)@.remove(self@.client_ip),
    {
        connected_clients.remove(self.client_ip);
    }

    /// Decides what follows from what waiting for a frame brought. A request to
    /// disconnect the client takes effect, and is used up, when a frame comes.
    pub fn on_receive(&self, received: Received, disconnect_requests: &mut IpSet) -> (step:
        SessionStep)
        ensures
            match received {
                Received::Frame(data) => {
                    &&& step == (if stops_on_frame(
                        old(disconnect_requests)@,
                        self@.client_ip,
                    ) {
                        SessionStep::Stop(StopReason::Requested)
                    } else {
                        SessionStep::Send(data)
                    })
                    &&& final(disconnect_requests)@ == requests_after_frame(
                        old(disconnect_requests)@,
                        self@.client_ip,
                    )
                    &&& old(disconnect_requests)@.contains(self@.client_ip) ==> step
                        == SessionStep::Stop(StopReason::Requested)
                    &&& !old(disconnect_requests)@.contains(self@.client_ip) ==> step
                        == SessionStep::Send(data)
                    &&& final(disconnect_requests)@ == old(disconnect_requests)@.remove(
                        self@.client_ip,
                    )
                },
                Received::Lagged(_) => {
                    &&& step == SessionStep::Wait
                    &&& final(disconnect_requests)@ == old(disconnect_requests)@
                },
                Received::Closed => {
                    &&& step == SessionStep::Stop(StopReason::Closed)
                    &&& final(disconnect_requests)@ == old(disconnect_requests)@
                },
            },
    {
        match received {
            Received::Frame(data) => {
                if disconnect_requests.remove(self.client_ip) {
                    SessionStep::Stop(StopReason::Requested)
                } else {
                    SessionStep::Send(data)
                }
            },
            Received::Lagged(_) => SessionStep::Wait,
            Received::Closed => SessionStep::Stop(StopReason::Closed),
        }
    }

    /// Makes the packets of one frame. `now_ts` is what the RTP clock shows, which starts
    /// when the session begins streaming.
    pub fn packetize(&mut self, data: &[u8], now_ts: u32) -> (packets: Vec<RtpPacket>)
        requires
            video_settings(old(self)@.packetizer),
        ensures
            crate::rtp::packet_views(packets@) == frame_packets(old(self)@, data@),
            final(self)@ == after_frame(old(self)@, data@, now_ts),
            video_settings(final(self)@.packetizer),
            forall|i: int|
                0 <= i < packets@.len() ==> 0 < (#[trigger] packets@[i]).payload@.len()
                    <= crate::rtp::MTU - crate::rtp::HEADER_SIZE,
            forall|i: int| 0 <= i < packets@.len() ==> (#[trigger] packets@[i]).payload@.len() <= 1188,
            packets@.len() == crate::rtp::h264_payloads(
                old(self)@.packetizer.units,
                1188,
                data@,
            ).len(),
            forall|i: int|
                0 <= i < packets@.len() ==> {
                    &&& (#[trigger] packets@[i]).payload@ == crate::rtp::h264_payloads(
                        old(self)@.packetizer.units,
                        1188,
                        data@,
                    )[i]
                    &&& packets@[i].marker == (i == packets@.len() - 1)
                    &&& packets@[i].payload_type == 96
                    &&& packets@[i].ssrc == 0x12345678
                    &&& packets@[i].timestamp == old(self)@.packetizer.timestamp
                    &&& packets@[i].sequence_number == (old(self)@.packetizer.sequence_number + i)
                        % 0x1_0000
                },
            final(self)@.client_ip == old(self)@.client_ip,
            final(self)@.last_rtp_ts == now_ts,
            final(self)@.packetizer.units == old(self)@.packetizer.units.push(data@),
            final(self)@.packetizer.sequence_number == (old(self)@.packetizer.sequence_number
                + packets@.len()) % 0x1_0000,
            now_ts != old(self)@.last_rtp_ts ==> (final(self)@.packetizer.timestamp - old(
                self,
            )@.packetizer.timestamp) % 0x1_0000_0000 == (now_ts - old(self)@.last_rtp_ts)
                % 0x1_0000_0000,
            now_ts == old(self)@.last_rtp_ts ==> final(self)@.packetizer.timestamp == (old(
                self,
            )@.packetizer.timestamp + 1) % 0x1_0000_0000,
    {
        let samples: u32 = rtp_samples(self.last_rtp_ts, now_ts);
        self.last_rtp_ts = now_ts;
        let packets: Vec<RtpPacket> = run_packetizer(&mut self.packetizer, data, samples).unwrap();
        proof {
            let s = old(self)@;
            let payloads = crate::rtp::h264_payloads(s.packetizer.units, 1188, data@);
            assert(crate::rtp::packet_views(packets@).len() == packets@.len());
            assert forall|i: int| 0 <= i < packets@.len() implies (#[trigger] packets@[i])@
                == crate::rtp::packets_for(s.packetizer, payloads)[i] by {
                assert(crate::rtp::packet_views(packets@)[i] == packets@[i]@);
            }
            if now_ts != s.last_rtp_ts {
                lemma_tick(s.last_rtp_ts, now_ts, s.packetizer.timestamp);
            }
        }
        packets
    }
}

/// A frame of any length goes to the payloader whole, one packet carries each payload, and
/// the payloader remembers the whole frame.
pub proof fn law_frame_goes_whole(s: SessionView, data: Seq<u8>, now: u32, i: int)
    requires
        s.packetizer.mtu >= 12,
    ensures
        frame_packets(s, data).len() == crate::rtp::h264_payloads(
            s.packetizer.units,
            (s.packetizer.mtu - 12) as nat,
            data,
        ).len(),
        0 <= i < frame_packets(s, data).len() ==> frame_packets(s, data)[i].payload
            == crate::rtp::h264_payloads(
            s.packetizer.units,
            (s.packetizer.mtu - 12) as nat,
            data,
        )[i],
        after_frame(s, data, now).packetizer.units == s.packetizer.units.push(data),
        after_frame(s, data, now).packetizer.mtu == s.packetizer.mtu,
        after_frame(s, data, now).client_ip == s.client_ip,
        after_frame(s, data, now).last_rtp_ts == now,
{
}

/// The packets of a frame are numbered one after the other, and the next frame's first
/// packet takes the number behind them.
pub proof fn law_frame_is_numbered(s: SessionView, data: Seq<u8>, now: u32, i: int)
    requires
        0 <= i < frame_packets(s, data).len(),
    ensures
        frame_packets(s, data)[i].sequence_number == (s.packetizer.sequence_number + i) % 0x1_0000,
        frame_packets(s, data)[i].payload_type == s.packetizer.payload_type,
        frame_packets(s, data)[i].ssrc == s.packetizer.ssrc,
        after_frame(s, data, now).packetizer.sequence_number == (s.packetizer.sequence_number
            + frame_packets(s, data).len()) % 0x1_0000,
{
}

/// The ticks between two readings lead from the one to the other around the clock.
pub proof fn law_samples_lead_to_now(last: u32, now: u32)
    ensures
        samples_between(last, now) >= 1,
        now == last ==> samples_between(last, now) == 1,
        now != last ==> (last + samples_between(last, now)) % 0x1_0000_0000 == now,
{
}

/// The clock counts ninety thousand ticks in every second, from zero.
pub proof fn law_clock_rate(nanos: nat, seconds: nat)
    ensures
        clock_reading(0) == 0,
        ticks(nanos + seconds * 1_000_000_000) == ticks(nanos) + seconds * 90000,
        ticks(nanos) * 1_000_000_000 <= nanos * 90000 < (ticks(nanos) + 1) * 1_000_000_000,
        clock_reading(nanos) == ticks(nanos) % 0x1_0000_0000,
{
    let r: int = 90000;
    assert((nanos + seconds * 1_000_000_000) * r == nanos * r + (seconds * r) * 1_000_000_000)
        by (nonlinear_arith)
        requires
            r == 90000,
    ;
}

/// The packets of one frame share its timestamp, and only the last of them is marked.
pub proof fn law_marker_ends_frame(s: SessionView, data: Seq<u8>, i: int)
    requires
        0 <= i < frame_packets(s, data).len(),
    ensures
        frame_packets(s, data)[i].timestamp == s.packetizer.timestamp,
        frame_packets(s, data)[i].marker <==> i == frame_packets(s, data).len() - 1,
{
}

/// A client whose session was opened and closed is not listed as connected, and the
/// other clients are listed as before.
pub proof fn law_closed_client_is_unlisted(clients: Set<IpAddr>, client_ip: IpAddr, other: IpAddr)
    ensures
        !clients.insert(client_ip).remove(client_ip).contains(client_ip),
        other != client_ip ==> clients.insert(client_ip).remove(client_ip).contains(other)
            == clients.contains(other),
{
}

/// A frame that is sent and what the RTP clock shows at that time.
pub struct Sent {
    pub data: Seq<u8>,
    pub now: u32,
}

/// The state after `frames` have been sent one after the other.
pub open spec fn after_frames(s: SessionView, frames: Seq<Sent>) -> SessionView
    decreases frames.len(),
{
    if frames.len() == 0 {
        s
    } else {
        let before = after_frames(s, frames.drop_last());
        after_frame(before, frames.last().data, frames.last().now)
    }
}

/// The packets of `frames`, in the order in which they are sent.
pub open spec fn packets_over(s: SessionView, frames: Seq<Sent>) -> Seq<crate::rtp::PacketView>
    decreases frames.len(),
{
    if frames.len() == 0 {
        Seq::empty()
    } else {
        packets_over(s, frames.drop_last()) + frame_packets(
            after_frames(s, frames.drop_last()),
            frames.last().data,
        )
    }
}

/// The sequence numbers of a session run on without a gap, across frames too.
pub proof fn law_sequence_numbers_run_on(s: SessionView, frames: Seq<Sent>, i: int)
    ensures
        0 <= i < packets_over(s, frames).len() ==> packets_over(s, frames)[i].sequence_number
            == crate::rtp::sequence_number_after(s.packetizer.sequence_number, i as nat),
        after_frames(s, frames).packetizer.sequence_number == crate::rtp::sequence_number_after(
            s.packetizer.sequence_number,
            packets_over(s, frames).len(),
        ),
    decreases frames.len(),
{
    if frames.len() > 0 {
        let front = frames.drop_last();
        let before = packets_over(s, front);
        let mid = after_frames(s, front);
        let tail = frame_packets(mid, frames.last().data);
        let first = s.packetizer.sequence_number;
        law_sequence_numbers_run_on(s, front, i);
        lemma_sequence_number_twice(first, before.len(), tail.len());
        if before.len() <= i < before.len() + tail.len() {
            lemma_sequence_number_twice(first, before.len(), (i - before.len()) as nat);
            assert(packets_over(s, frames)[i] == tail[i - before.len()]);
        } else if 0 <= i < before.len() {
            assert(packets_over(s, frames)[i] == before[i]);
        }
    }
}

/// Sequence numbers count on.
proof fn lemma_sequence_number_twice(first: u16, a: nat, b: nat)
    ensures
        crate::rtp::sequence_number_after(crate::rtp::sequence_number_after(first, a), b)
            == crate::rtp::sequence_number_after(first, a + b),
{
}

/// Where the clock has moved, the timestamp and the clock advance together.
proof fn lemma_tick(last: u32, now: u32, stamp: u32)
    requires
        now != last,
    ensures
        (crate::rtp::timestamp_after(stamp, samples_between(last, now) as nat) - stamp)
            % 0x1_0000_0000 == (now - last) % 0x1_0000_0000,
{
}

/// Advances add up.
proof fn lemma_advances_add(t0: int, t1: int, t2: int, c0: int, c1: int, c2: int)
    requires
        (t1 - t0) % 0x1_0000_0000 == (c1 - c0) % 0x1_0000_0000,
        (t2 - t1) % 0x1_0000_0000 == (c2 - c1) % 0x1_0000_0000,
    ensures
        (t2 - t0) % 0x1_0000_0000 == (c2 - c0) % 0x1_0000_0000,
{
}

/// Each frame finds the RTP clock at another reading than the frame before it, and the
/// first one not at the reading of the session's beginning.
pub open spec fn clock_moves(last: u32, frames: Seq<Sent>) -> bool {
    forall|i: int|
        0 <= i < frames.len() ==> (#[trigger] frames[i]).now != (if i == 0 {
            last
        } else {
            frames[i - 1].now
        })
}

/// Timestamps follow the RTP clock without drift: over any number of frames the
/// timestamp advances by what the clock advanced.
pub proof fn law_timestamps_follow_clock(s: SessionView, frames: Seq<Sent>)
    requires
        clock_moves(s.last_rtp_ts, frames),
    ensures
        (after_frames(s, frames).packetizer.timestamp - s.packetizer.timestamp) % 0x1_0000_0000
            == (after_frames(s, frames).last_rtp_ts - s.last_rtp_ts) % 0x1_0000_0000,
        frames.len() > 0 ==> after_frames(s, frames).last_rtp_ts == frames.last().now,
    decreases frames.len(),
{
    if frames.len() > 0 {
        let front = frames.drop_last();
        assert forall|i: int| 0 <= i < front.len() implies (#[trigger] front[i]).now != (if i == 0 {
            s.last_rtp_ts
        } else {
            front[i - 1].now
        }) by {
            assert(front[i] == frames[i]);
        }
        law_timestamps_follow_clock(s, front);
        let mid = after_frames(s, front);
        let end = after_frames(s, frames);
        assert(frames[frames.len() - 1].now != mid.last_rtp_ts);
        lemma_tick(mid.last_rtp_ts, end.last_rtp_ts, mid.packetizer.timestamp);
        lemma_advances_add(
            s.packetizer.timestamp as int,
            mid.packetizer.timestamp as int,
            end.packetizer.timestamp as int,
            s.last_rtp_ts as int,
            mid.last_rtp_ts as int,
            end.last_rtp_ts as int,
        );
    }
}

/// Timestamps follow real time at the clock's rate, however long a session lasts: when a
/// session has sent a frame after `elapsed` nanoseconds, its timestamp has advanced by the
/// ticks in them.
pub proof fn law_timestamps_follow_elapsed_time(s: SessionView, frames: Seq<Sent>, elapsed: nat)
    requires
        s.last_rtp_ts == 0,
        frames.len() > 0,
        clock_moves(s.last_rtp_ts, frames),
        frames.last().now == clock_reading(elapsed),
    ensures
        (after_frames(s, frames).packetizer.timestamp - s.packetizer.timestamp) % 0x1_0000_0000
            == ticks(elapsed) % 0x1_0000_0000,
{
    law_timestamps_follow_clock(s, frames);
}

/// A timestamp advances with every frame, whatever the clock shows.
pub proof fn law_timestamp_advances(s: SessionView, data: Seq<u8>, now: u32)
    ensures
        after_frame(s, data, now).packetizer.timestamp != s.packetizer.timestamp,
{
}

} // verus!

//! Cutting H.264 units into RTP packets.
use vstd::prelude::*;
use webrtc::rtp::codecs::h264::H264Payloader;
use webrtc::rtp::packetizer::{new_packetizer, Packetizer};
use webrtc::rtp::sequence::new_random_sequencer;

verus! {

/// The largest RTP packet, in bytes.
pub const MTU: usize = 1200;

/// The size of the RTP header, in bytes.
pub const HEADER_SIZE: usize = 12;

/// The RTP payload type of the video track.
pub const PAYLOAD_TYPE: u8 = 96;

/// The synchronization source of the video track.
pub const SSRC: u32 = 0x12345678;

/// The RTP clock of the video track, in ticks per second.
pub const CLOCK_RATE: u32 = 90000;

/// One RTP packet.
#[derive(Debug)]
pub struct RtpPacket {
    pub marker: bool,
    pub payload_type: u8,
    pub sequence_number: u16,
    pub timestamp: u32,
    pub ssrc: u32,
    pub payload: Vec<u8>,
}

/// What an RTP packet holds.
pub struct PacketView {
    pub marker: bool,
    pub payload_type: u8,
    pub sequence_number: u16,
    pub timestamp: u32,
    pub ssrc: u32,
    pub payload: Seq<u8>,
}

impl View for RtpPacket {
    type V = PacketView;

    open spec fn view(&self) -> PacketView {
        PacketView {
            marker: self.marker,
            payload_type: self.payload_type,
            sequence_number: self.sequence_number,
            timestamp: self.timestamp,
            ssrc: self.ssrc,
            payload: self.payload@,
        }
    }
}

/// What the packets of a sequence hold.
pub open spec fn packet_views(packets: Seq<RtpPacket>) -> Seq<PacketView> {
    packets.map_values(|p: RtpPacket| p@)
}

/// The state of a packetizer: its settings, the timestamp and the sequence number
/// that come next, and the units that it has been given so far.
pub struct PacketizerState {
    pub mtu: nat,
    pub payload_type: u8,
    pub ssrc: u32,
    pub clock_rate: u32,
    pub timestamp: u32,
    pub sequence_number: u16,
    pub units: Seq<Seq<u8>>,
}

/// The packets in which a packetizer sends `payloads`: one for each, numbered on from
/// its sequence number, all with its timestamp, the last one marked.
pub open spec fn packets_for(state: PacketizerState, payloads: Seq<Seq<u8>>) -> Seq<PacketView> {
    Seq::new(
        payloads.len(),
        |i: int|
            PacketView {
                marker: i == payloads.len() - 1,
                payload_type: state.payload_type,
                sequence_number: sequence_number_after(state.sequence_number, i as nat),
                timestamp: state.timestamp,
                ssrc: state.ssrc,
                payload: payloads[i],
            },
    )
}

/// The sequence number `n` packets after `first`.
pub open spec fn sequence_number_after(first: u16, n: nat) -> u16 {
    ((first + n) % 0x1_0000) as u16
}

/// The timestamp `samples` ticks after `first`.
pub open spec fn timestamp_after(first: u32, samples: nat) -> u32 {
    ((first + samples) % 0x1_0000_0000) as u32
}

/// The state of a packetizer that was given `unit`, sent `sent` packets for it, and
/// let `samples` ticks pass.
pub open spec fn state_after(
    state: PacketizerState,
    unit: Seq<u8>,
    samples: u32,
    sent: nat,
) -> PacketizerState {
    PacketizerState {
        timestamp: timestamp_after(state.timestamp, samples as nat),
        sequence_number: sequence_number_after(state.sequence_number, sent),
        units: state.units.push(unit),
        ..state
    }
}

/// The payloads that `H264Payloader::payload` makes of `unit`, none longer than
/// `limit`, after it has been given the units `before`.
pub uninterp spec fn h264_payloads(
    before: Seq<Seq<u8>>,
    limit: nat,
    unit: Seq<u8>,
) -> Seq<Seq<u8>>;

/// The state that a packetizer of the `webrtc` crate is in.
pub uninterp spec fn packetizer_state(packetizer: H264Packetizer) -> PacketizerState;

/// The `rtp::Error` of the `webrtc` crate.
#[verifier::external_type_specification]
#[verifier::external_body]
pub struct ExRtpError(webrtc::rtp::Error);

/// A packetizer for H.264: what `new_packetizer` of the `webrtc` crate returns, which has
/// no name, as a `Packetizer` trait object.
#[verifier::external_body]
pub struct H264Packetizer {
    inner: Box<dyn Packetizer + Send + Sync>,
}

/// `new_packetizer` with an `H264Payloader` and a sequencer from
/// `new_random_sequencer` makes a packetizer with the given settings that has been
/// given no unit. Its timestamp and its sequence number are random, so nothing is said
/// of them. The packetizer keeps the clock rate but uses it for nothing that it returns.
/// An `mtu` that does not cover the header would make a later call panic.
#[verifier::external_body]
pub(crate) fn make_packetizer(mtu: usize, payload_type: u8, ssrc: u32, clock_rate: u32) -> (packetizer:
    H264Packetizer)
    requires
        mtu >= HEADER_SIZE,
    ensures
        packetizer_state(packetizer).mtu == mtu,
        packetizer_state(packetizer).payload_type == payload_type,
        packetizer_state(packetizer).ssrc == ssrc,
        packetizer_state(packetizer).clock_rate == clock_rate,
        packetizer_state(packetizer).units == Seq::<Seq<u8>>::empty(),
{
    H264Packetizer {
        inner: Box::new(
            new_packetizer(
                mtu,
                payload_type,
                ssrc,
                Box::new(H264Payloader::default()),
                Box::new(new_random_sequencer()),
                clock_rate,
            ),
        ),
    }
}

/// `Packetizer::packetize` hands the unit to the payloader, with what the header
/// leaves of the MTU as the limit, and makes one packet of each payload. The H.264
/// payloader never fails, and without the send time extension neither does the
/// packetizer. No payload is empty or longer than the limit.
#[verifier::external_body]
pub(crate) fn run_packetizer(packetizer: &mut H264Packetizer, unit: &[u8], samples: u32) -> (packets: Result<
    Vec<RtpPacket>,
    webrtc::rtp::Error,
>)
    requires
        packetizer_state(*old(packetizer)).mtu >= HEADER_SIZE,
    ensures
        packets is Ok,
        packet_views(packets->Ok_0@) == packets_for(
            packetizer_state(*old(packetizer)),
            h264_payloads(
                packetizer_state(*old(packetizer)).units,
                (packetizer_state(*old(packetizer)).mtu - HEADER_SIZE) as nat,
                unit@,
            ),
        ),
        packetizer_state(*final(packetizer)) == state_after(
            packetizer_state(*old(packetizer)),
            unit@,
            samples,
            packets->Ok_0@.len(),
        ),
        forall|i: int|
            0 <= i < packets->Ok_0@.len() ==> 0 < (#[trigger] packets->Ok_0@[i]).payload@.len()
                <= packetizer_state(*old(packetizer)).mtu - HEADER_SIZE,
{
    let packets = packetizer.inner.packetize(&unit.to_vec().into(), samples)?;
    Ok(packets.into_iter().map(|p| RtpPacket {
        marker: p.header.marker,
        payload_type: p.header.payload_type,
        sequence_number: p.header.sequence_number,
        timestamp: p.header.timestamp,
        ssrc: p.header.ssrc,
        payload: p.payload.to_vec(),
    }).collect())
}

} // verus!

use castzura::app_state::StreamFlags;
use castzura::ffmpeg_encoder::FfmpegEncoder;
use castzura::net::{whitelist_middleware, Admission, EmptyWhitelist, IpAddr, IpSet, Whitelist};
use castzura::pw_source::{
    CursorMode, Direction, Fraction, FrameAction, FrameBuffer, MediaSubtype, MediaType, NoStreams,
    ParamAction, ParamEvent, PersistMode, PwSource, PwStream, Rectangle, SourceType, VideoFormat,
    VideoInfo,
};

const INFO: VideoInfo = VideoInfo {
    format: VideoFormat::BGRx,
    size: Rectangle { width: 1920, height: 1080 },
    framerate: Fraction { num: 30, denom: 1 },
};

#[test]
fn names_pixel_formats() {
    assert_eq!(PwSource::convert_format_to_ffmpeg(VideoFormat::RGB), "rgb24");
    assert_eq!(PwSource::convert_format_to_ffmpeg(VideoFormat::RGBA), "rgba");
    assert_eq!(PwSource::convert_format_to_ffmpeg(VideoFormat::RGBx), "rgb24");
    assert_eq!(PwSource::convert_format_to_ffmpeg(VideoFormat::BGRx), "bgr0");
    assert_eq!(PwSource::convert_format_to_ffmpeg(VideoFormat::YUY2), "yuyv422");
    assert_eq!(PwSource::convert_format_to_ffmpeg(VideoFormat::I420), "yuv420p");
    assert_eq!(PwSource::convert_format_to_ffmpeg(VideoFormat::Other(23)), "yuv420p");
}

#[test]
fn the_encoder_gets_its_arguments() {
    let encoder = FfmpegEncoder::new(1920, 1080, 30000, 1001, VideoFormat::BGRx);
    assert_eq!(encoder.program, "ffmpeg");
    assert_eq!(
        encoder.args,
        vec![
            "-y", "-f", "rawvideo", "-vcodec", "rawvideo", "-s", "1920x1080", "-pix_fmt", "bgr0",
            "-r", "30000/1001", "-i", "-", "-c:v", "libx264", "-preset", "ultrafast", "-tune",
            "zerolatency", "-profile:v", "baseline", "-level", "3.1", "-pix_fmt", "yuv420p",
            "-x264-params", "keyint=30:min-keyint=30:scenecut=0", "-bsf:v", "h264_mp4toannexb",
            "-f", "h264", "-",
        ]
    );
}

#[test]
fn a_source_without_a_rate_is_taken_at_sixty() {
    let encoder = FfmpegEncoder::new(1, 1, 0, 1, VideoFormat::RGB);
    assert_eq!(encoder.args[6], "1x1");
    assert_eq!(encoder.args[10], "60/1");
}

#[test]
fn captures_the_first_stream() {
    assert_eq!(PwSource::get_pw_node_id(&[42, 7]), Ok(42));
    assert_eq!(PwSource::get_pw_node_id(&[]), Err(NoStreams));
    assert_eq!(NoStreams.message(), "No streams available");
}

#[test]
fn asks_for_one_monitor() {
    let request = PwSource::source_request();
    assert_eq!(request.cursor_mode, CursorMode::Embedded);
    assert_eq!(request.source_type, SourceType::Monitor);
    assert!(!request.multiple);
    assert_eq!(request.restore_token, None);
    assert_eq!(request.persist_mode, PersistMode::DoNot);
}

#[test]
fn asks_for_raw_video() {
    let plan = PwSource.start_pw_stream(42);
    assert_eq!(plan.name, "castzura");
    assert_eq!(plan.media_type, "Video");
    assert_eq!(plan.media_category, "Capture");
    assert_eq!(plan.media_role, "Camera");
    assert_eq!(plan.node_id, 42);
    assert_eq!(plan.direction, Direction::Input);
    assert!(plan.autoconnect);
    assert!(plan.map_buffers);
    assert_eq!(plan.format_type, MediaType::Video);
    assert_eq!(plan.format_subtype, MediaSubtype::Raw);
    assert!(plan.formats.contains(&plan.default_format));
    assert_eq!(plan.formats.len(), 6);
    assert_eq!(plan.size.default, Rectangle { width: 320, height: 240 });
    assert_eq!(plan.size.min, Rectangle { width: 1, height: 1 });
    assert_eq!(plan.size.max, Rectangle { width: 4096, height: 4096 });
    assert_eq!(plan.framerate.default, Fraction { num: 25, denom: 1 });
    assert_eq!(plan.framerate.min, Fraction { num: 0, denom: 1 });
    assert_eq!(plan.framerate.max, Fraction { num: 1000, denom: 1 });
    for format in plan.formats {
        assert!(!matches!(format, VideoFormat::Other(_)));
    }
}

#[test]
fn only_a_format_with_a_value_is_parsed() {
    let mut stream = PwStream::new();
    for (has_value, is_format) in [(false, false), (false, true), (true, false)] {
        let action = stream.param_changed(ParamEvent::Changed { has_value, is_format });
        assert!(matches!(action, ParamAction::Ignore));
    }
    let event = ParamEvent::Changed { has_value: true, is_format: true };
    assert!(matches!(stream.param_changed(event), ParamAction::ParseFormat));
    assert_eq!(stream, PwStream::new());
}

#[test]
fn only_raw_video_is_taken() {
    let mut stream = PwStream::new();
    let refused = [
        None,
        Some((MediaType::Other, MediaSubtype::Raw)),
        Some((MediaType::Video, MediaSubtype::Other)),
    ];
    for parsed in refused {
        let action = stream.param_changed(ParamEvent::FormatParsed(parsed));
        assert!(matches!(action, ParamAction::Ignore));
    }
    let parsed = Some((MediaType::Video, MediaSubtype::Raw));
    let action = stream.param_changed(ParamEvent::FormatParsed(parsed));
    assert!(matches!(action, ParamAction::ParseInfo));
}

#[test]
fn the_first_format_starts_the_encoder() {
    let mut stream = PwStream::new();
    let mut flags = StreamFlags::new();
    match stream.param_changed(ParamEvent::InfoParsed(INFO)) {
        ParamAction::StartEncoder(encoder) => {
            assert_eq!(encoder.args[6], "1920x1080");
            assert_eq!(encoder.args[8], "bgr0");
            assert_eq!(encoder.args[10], "30/1");
        }
        _ => panic!("no encoder"),
    }
    assert_eq!(stream.format, Some(INFO));
    stream.setup_encoder(true, &mut flags);
    assert!(stream.has_encoder);
    assert!(flags.ffmpeg_running);
    let action = stream.param_changed(ParamEvent::InfoParsed(INFO));
    assert!(matches!(action, ParamAction::Ignore));
}

#[test]
fn an_encoder_that_did_not_start_is_tried_again() {
    let mut stream = PwStream::new();
    let mut flags = StreamFlags::new();
    stream.param_changed(ParamEvent::InfoParsed(INFO));
    stream.setup_encoder(false, &mut flags);
    assert_eq!(flags, StreamFlags::new());
    let action = stream.param_changed(ParamEvent::InfoParsed(INFO));
    assert!(matches!(action, ParamAction::StartEncoder(_)));
}

#[test]
fn frames_are_written_once_there_is_an_encoder() {
    let data = [1, 2, 3, 4, 5, 6];
    let buffer = FrameBuffer::Mapped { data: &data, offset: 1, size: 3 };
    let idle = PwStream::new();
    assert!(matches!(idle.process(buffer, true), FrameAction::Skip));
    let stream = PwStream { format: Some(INFO), has_encoder: true };
    assert!(matches!(stream.process(buffer, true), FrameAction::Write(&[2, 3, 4])));
    assert!(matches!(stream.process(buffer, false), FrameAction::Skip));
    let whole = FrameBuffer::Mapped { data: &data, offset: 0, size: 6 };
    assert!(matches!(stream.process(whole, true), FrameAction::Write(&[1, 2, 3, 4, 5, 6])));
}

#[test]
fn buffers_without_a_frame_are_skipped() {
    let stream = PwStream { format: Some(INFO), has_encoder: true };
    assert!(matches!(stream.process(FrameBuffer::OutOfBuffers, true), FrameAction::Warn));
    assert!(matches!(stream.process(FrameBuffer::Empty, true), FrameAction::Skip));
    assert!(matches!(stream.process(FrameBuffer::Unmapped, true), FrameAction::Skip));
}

#[test]
fn knows_loopback_addresses() {
    assert!(IpAddr::V4(0x7f00_0001).is_loopback());
    assert!(IpAddr::V4(0x7fff_ffff).is_loopback());
    assert!(!IpAddr::V4(0x7eff_ffff).is_loopback());
    assert!(!IpAddr::V4(0x8000_0000).is_loopback());
    assert!(!IpAddr::V4(1).is_loopback());
    assert!(IpAddr::V6(1).is_loopback());
    assert!(!IpAddr::V6(0).is_loopback());
    assert!(!IpAddr::V6(0xffff_7f00_0001).is_loopback());
}

#[test]
fn a_set_holds_each_address_once() {
    let mut set = IpSet::new();
    assert!(set.insert(IpAddr::V4(1)));
    assert!(!set.insert(IpAddr::V4(1)));
    assert!(set.insert(IpAddr::V6(1)));
    assert_eq!(set.members().len(), 2);
    assert!(set.remove(IpAddr::V4(1)));
    assert!(!set.remove(IpAddr::V4(1)));
    assert_eq!(set.members(), vec![IpAddr::V6(1)]);
}

#[test]
fn an_empty_whitelist_is_refused() {
    assert_eq!(Whitelist::new(vec![]).err(), Some(EmptyWhitelist));
}

#[test]
fn only_the_whitelist_may_connect() {
    let ips = vec![IpAddr::V4(5), IpAddr::V6(9)];
    let whitelist = Whitelist::new(ips.clone()).unwrap_or_else(|_| panic!("empty"));
    assert_eq!(whitelist.addresses(), ips);
    assert_eq!(whitelist_middleware(&whitelist, IpAddr::V4(5)), Admission::Next);
    assert_eq!(whitelist_middleware(&whitelist, IpAddr::V6(9)), Admission::Next);
    assert_eq!(whitelist_middleware(&whitelist, IpAddr::V4(9)), Admission::Forbidden);
    assert_eq!(whitelist_middleware(&whitelist, IpAddr::V6(5)), Admission::Forbidden);
}

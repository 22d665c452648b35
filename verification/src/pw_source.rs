//! Capturing the screen through PipeWire: what is asked of it, and what is done with
//! what it sends.
use crate::app_state::{StreamEvent, StreamFlags};
use crate::ffmpeg_encoder::FfmpegEncoder;
use vstd::prelude::*;
use vstd::slice::slice_subrange;

verus! {

/// The pixel formats of a screen capture. `Other` holds the identifier of a format that
/// is not asked for.
#[derive(Clone, Copy, Debug, PartialEq, Eq, Structural)]
pub enum VideoFormat {
    RGB,
    RGBA,
    RGBx,
    BGRx,
    YUY2,
    I420,
    Other(u32),
}

/// The encoder's name for a pixel format. A format that is not asked for is taken for
/// `yuv420p`.
pub open spec fn pixel_format(format: VideoFormat) -> Seq<char> {
    match format {
        VideoFormat::RGB => "rgb24"@,
        VideoFormat::RGBA => "rgba"@,
        VideoFormat::RGBx => "rgb24"@,
        VideoFormat::BGRx => "bgr0"@,
        VideoFormat::YUY2 => "yuyv422"@,
        VideoFormat::I420 => "yuv420p"@,
        VideoFormat::Other(_) => "yuv420p"@,
    }
}

/// A frame size, in pixels.
#[derive(Clone, Copy, Debug, PartialEq, Eq, Structural)]
pub struct Rectangle {
    pub width: u32,
    pub height: u32,
}

/// A frame rate, in frames per second.
#[derive(Clone, Copy, Debug, PartialEq, Eq, Structural)]
pub struct Fraction {
    pub num: u32,
    pub denom: u32,
}

/// The frame sizes that are accepted, and the preferred one.
#[derive(Clone, Copy, Debug, PartialEq, Eq, Structural)]
pub struct SizeRange {
    pub default: Rectangle,
    pub min: Rectangle,
    pub max: Rectangle,
}

/// The frame rates that are accepted, and the preferred one.
#[derive(Clone, Copy, Debug, PartialEq, Eq, Structural)]
pub struct RateRange {
    pub default: Fraction,
    pub min: Fraction,
    pub max: Fraction,
}

/// Which way the data of a stream goes.
#[derive(Clone, Copy, Debug, PartialEq, Eq, Structural)]
pub enum Direction {
    /// From the node to this program.
    Input,
    /// From this program to the node.
    Output,
}

/// The capture stream that is asked for: its name and properties, how and to which node it
/// is connected, and the formats that are accepted.
#[derive(Debug)]
pub struct StreamPlan {
    pub name: &'static str,
    pub media_type: &'static str,
    pub media_category: &'static str,
    pub media_role: &'static str,
    pub direction: Direction,
    pub node_id: u32,
    /// The stream is linked to the node by itself.
    pub autoconnect: bool,
    /// The buffers are mapped into memory.
    pub map_buffers: bool,
    pub format_type: MediaType,
    pub format_subtype: MediaSubtype,
    pub default_format: VideoFormat,
    pub formats: Vec<VideoFormat>,
    pub size: SizeRange,
    pub framerate: RateRange,
}

/// The pixel formats that are asked for.
pub open spec fn offered_formats() -> Seq<VideoFormat> {
    seq![
        VideoFormat::RGB,
        VideoFormat::RGBA,
        VideoFormat::RGBx,
        VideoFormat::BGRx,
        VideoFormat::YUY2,
        VideoFormat::I420,
    ]
}

/// The frame sizes that are asked for.
pub open spec fn offered_sizes() -> SizeRange {
    SizeRange {
        default: Rectangle { width: 320, height: 240 },
        min: Rectangle { width: 1, height: 1 },
        max: Rectangle { width: 4096, height: 4096 },
    }
}

/// The frame rates that are asked for.
pub open spec fn offered_rates() -> RateRange {
    RateRange {
        default: Fraction { num: 25, denom: 1 },
        min: Fraction { num: 0, denom: 1 },
        max: Fraction { num: 1000, denom: 1 },
    }
}

/// How the pointer is captured.
#[derive(Clone, Copy, Debug, PartialEq, Eq, Structural)]
pub enum CursorMode {
    Hidden,
    /// As part of the picture.
    Embedded,
    /// Apart from the picture.
    Metadata,
}

/// What is captured.
#[derive(Clone, Copy, Debug, PartialEq, Eq, Structural)]
pub enum SourceType {
    Monitor,
    Window,
    Virtual,
}

/// How long the user's choice of a source is remembered.
#[derive(Clone, Copy, Debug, PartialEq, Eq, Structural)]
pub enum PersistMode {
    DoNot,
    Application,
    ExplicitlyRevoked,
}

/// What the desktop portal is asked to capture.
#[derive(Debug)]
pub struct SourceRequest {
    pub cursor_mode: CursorMode,
    pub source_type: SourceType,
    /// More than one source may be chosen.
    pub multiple: bool,
    /// Stands for a choice that was made before.
    pub restore_token: Option<String>,
    pub persist_mode: PersistMode,
}

/// The screen cast session gave no stream.
#[derive(Clone, Copy, Debug, PartialEq, Eq, Structural)]
pub struct NoStreams;

impl NoStreams {
    /// What is said of it.
    pub fn message(&self) -> (text: &'static str)
        ensures
            text@ == "No streams available"@,
    {
        "No streams available"
    }
}

/// The PipeWire screen capture source.
#[derive(Clone, Copy, Debug)]
pub struct PwSource;

impl PwSource {
    /// What the desktop portal is asked to capture: one monitor with the pointer in the
    /// picture, chosen anew each time.
    pub fn source_request() -> (request: SourceRequest)
        ensures
            request.cursor_mode == CursorMode::Embedded,
            request.source_type == SourceType::Monitor,
            !request.multiple,
            request.restore_token is None,
            request.persist_mode == PersistMode::DoNot,
    {
        SourceRequest {
            cursor_mode: CursorMode::Embedded,
            source_type: SourceType::Monitor,
            multiple: false,
            restore_token: None,
            persist_mode: PersistMode::DoNot,
        }
    }

    /// The node to capture: that of the first stream which the screen cast session gave.
    pub fn get_pw_node_id(streams: &[u32]) -> (node_id: Result<u32, NoStreams>)
        ensures
            node_id == (if streams@.len() > 0 {
                Ok(streams@[0])
            } else {
                Err(NoStreams)
            }),
    {
        if streams.len() > 0 {
            Ok(streams[0])
        } else {
            Err(NoStreams)
        }
    }

    /// The capture stream to start for a node.
    pub fn start_pw_stream(&self, node_id: u32) -> (plan: StreamPlan)
        ensures
            plan.name@ == "castzura"@,
            plan.media_type@ == "Video"@,
            plan.media_category@ == "Capture"@,
            plan.media_role@ == "Camera"@,
            plan.direction == Direction::Input,
            plan.node_id == node_id,
            plan.autoconnect,
            plan.map_buffers,
            plan.format_type == MediaType::Video,
            plan.format_subtype == MediaSubtype::Raw,
            plan.default_format == VideoFormat::RGB,
            plan.formats@ == offered_formats(),
            plan.size == offered_sizes(),
            plan.framerate == offered_rates(),
            plan.formats@ == seq![
                VideoFormat::RGB,
                VideoFormat::RGBA,
                VideoFormat::RGBx,
                VideoFormat::BGRx,
                VideoFormat::YUY2,
                VideoFormat::I420,
            ],
            plan.size.default.width == 320 && plan.size.default.height == 240,
            plan.size.min.width == 1 && plan.size.min.height == 1,
            plan.size.max.width == 4096 && plan.size.max.height == 4096,
            plan.framerate.default.num == 25 && plan.framerate.default.denom == 1,
            plan.framerate.min.num == 0 && plan.framerate.min.denom == 1,
            plan.framerate.max.num == 1000 && plan.framerate.max.denom == 1,
    {
        StreamPlan {
            name: "castzura",
            media_type: "Video",
            media_category: "Capture",
            media_role: "Camera",
            direction: Direction::Input,
            node_id,
            autoconnect: true,
            map_buffers: true,
            format_type: MediaType::Video,
            format_subtype: MediaSubtype::Raw,
            default_format: VideoFormat::RGB,
            formats: vec![
                VideoFormat::RGB,
                VideoFormat::RGBA,
                VideoFormat::RGBx,
                VideoFormat::BGRx,
                VideoFormat::YUY2,
                VideoFormat::I420,
            ],
            size: SizeRange {
                default: Rectangle { width: 320, height: 240 },
                min: Rectangle { width: 1, height: 1 },
                max: Rectangle { width: 4096, height: 4096 },
            },
            framerate: RateRange {
                default: Fraction { num: 25, denom: 1 },
                min: Fraction { num: 0, denom: 1 },
                max: Fraction { num: 1000, denom: 1 },
            },
        }
    }

    /// The encoder's name for a pixel format.
    pub fn convert_format_to_ffmpeg(format: VideoFormat) -> (name: &'static str)
        ensures
            name@ == pixel_format(format),
            name@ == (match format {
                VideoFormat::RGB => "rgb24"@,
                VideoFormat::RGBA => "rgba"@,
                VideoFormat::RGBx => "rgb24"@,
                VideoFormat::BGRx => "bgr0"@,
                VideoFormat::YUY2 => "yuyv422"@,
                VideoFormat::I420 => "yuv420p"@,
                VideoFormat::Other(_) => "yuv420p"@,
            }),
    {
        match format {
            VideoFormat::RGB => "rgb24",
            VideoFormat::RGBA => "rgba",
            VideoFormat::RGBx => "rgb24",
            VideoFormat::BGRx => "bgr0",
            VideoFormat::YUY2 => "yuyv422",
            VideoFormat::I420 => "yuv420p",
            VideoFormat::Other(_) => "yuv420p",
        }
    }

    /// The position of the first Annex B start code in `data` at or after `start`.
    pub fn find_start_code(data: &[u8], start: usize) -> (found: Option<usize>)
        ensures
            match found {
                Some(i) => crate::nal::first_start_code(data@, start as int) == Some(i as int),
                None => crate::nal::first_start_code(data@, start as int) is None,
            },
            match found {
                Some(i) => {
                    &&& start <= i
                    &&& i + 4 <= data@.len()
                    &&& data@.skip(i as int).take(4) == seq![0u8, 0u8, 0u8, 1u8]
                    &&& forall|j: int|
                        start <= j < i ==> (#[trigger] data@.skip(j)).take(4) != seq![
                            0u8,
                            0u8,
                            0u8,
                            1u8,
                        ]
                },
                None => forall|j: int|
                    start <= j && j + 4 <= data@.len() ==> (#[trigger] data@.skip(j)).take(4)
                        != seq![0u8, 0u8, 0u8, 1u8],
            },
    {
        proof {
            crate::nal::law_first_start_code(data@, start as int);
        }
        if data.len() < 4 || data.len() - 4 < start {
            return None;
        }
        let end: usize = data.len() - 3;
        let mut i: usize = start;
        while i < end
            invariant
                start <= i <= end,
                end == data@.len() - 3,
                crate::nal::first_start_code(data@, start as int) == crate::nal::first_start_code(data@, i as int),
            decreases end - i,
        {
            if data[i] == 0 && data[i + 1] == 0 && data[i + 2] == 0 && data[i + 3] == 1 {
                proof {
                    crate::nal::law_first_start_code(data@, start as int);
                }
                return Some(i);
            }
            i = i + 1;
        }
        None
    }
}

/// The media type of a stream.
#[derive(Clone, Copy, Debug, PartialEq, Eq, Structural)]
pub enum MediaType {
    Video,
    Other,
}

/// The media subtype of a stream.
#[derive(Clone, Copy, Debug, PartialEq, Eq, Structural)]
pub enum MediaSubtype {
    Raw,
    Other,
}

/// The format that a stream has.
#[derive(Clone, Copy, Debug, PartialEq, Eq, Structural)]
pub struct VideoInfo {
    pub format: VideoFormat,
    pub size: Rectangle,
    pub framerate: Fraction,
}

/// A parameter of the stream has changed, or what was to be parsed has been parsed.
#[derive(Clone, Copy, Debug)]
pub enum ParamEvent {
    /// A parameter has changed: whether it has a value, and whether it is the format.
    Changed { has_value: bool, is_format: bool },
    /// The media type and subtype of the new format, unless it could not be parsed.
    FormatParsed(Option<(MediaType, MediaSubtype)>),
    /// All of the new format.
    InfoParsed(VideoInfo),
}

/// What is done about a parameter.
#[derive(Debug)]
pub enum ParamAction {
    /// Nothing.
    Ignore,
    /// The media type and subtype are parsed.
    ParseFormat,
    /// All of the format is parsed.
    ParseInfo,
    /// This encoder is started.
    StartEncoder(FfmpegEncoder),
}

/// The encoder is the one for frames of the given format.
pub open spec fn encodes(encoder: FfmpegEncoder, info: VideoInfo) -> bool {
    &&& encoder.program@ == "ffmpeg"@
    &&& crate::text::texts(encoder.args@) == crate::ffmpeg_encoder::encoder_args(
        crate::ffmpeg_encoder::video_size_text(info.size.width, info.size.height),
        pixel_format(info.format),
        crate::ffmpeg_encoder::framerate_text(info.framerate.num, info.framerate.denom),
    )
}

/// A buffer that the stream hands over. The frame is in `data` from `offset` on, `size`
/// bytes long.
#[derive(Clone, Copy, Debug)]
pub enum FrameBuffer<'a> {
    /// There is none.
    OutOfBuffers,
    /// It holds no data blocks.
    Empty,
    /// Its first data block is not mapped into memory.
    Unmapped,
    /// Its first data block.
    Mapped { data: &'a [u8], offset: u32, size: u32 },
}

/// What is done about a buffer.
#[derive(Clone, Copy, Debug)]
pub enum FrameAction<'a> {
    /// It is reported that there was none.
    Warn,
    /// Nothing.
    Skip,
    /// This frame is written to the encoder.
    Write(&'a [u8]),
}

/// A capture stream that is running: its format, once it is known, and whether it has
/// an encoder.
#[derive(Clone, Copy, Debug, PartialEq, Eq, Structural)]
pub struct PwStream {
    pub format: Option<VideoInfo>,
    pub has_encoder: bool,
}

/// The stream after an event: it takes on a format that has been parsed.
pub open spec fn stream_after(stream: PwStream, event: ParamEvent) -> PwStream {
    match event {
        ParamEvent::InfoParsed(info) => PwStream { format: Some(info), ..stream },
        _ => stream,
    }
}

/// The encoder is to be started: a format has been parsed and there is no encoder.
pub open spec fn starts_encoder(stream: PwStream, event: ParamEvent) -> bool {
    event is InfoParsed && !stream.has_encoder
}

impl PwStream {
    /// A stream whose format is not known yet.
    pub fn new() -> (stream: PwStream)
        ensures
            stream == (PwStream { format: None, has_encoder: false }),
    {
        PwStream { format: None, has_encoder: false }
    }

    /// Decides what is done about a parameter. Only the format of raw video counts; the
    /// first one starts the encoder.
    pub fn param_changed(&mut self, event: ParamEvent) -> (action: ParamAction)
        ensures
            *final(self) == stream_after(*old(self), event),
            final(self).has_encoder == old(self).has_encoder,
            final(self).format == (match event {
                ParamEvent::InfoParsed(info) => Some(info),
                _ => old(self).format,
            }),
            event is InfoParsed ==> (action is StartEncoder <==> !old(self).has_encoder),
            event is InfoParsed ==> (action is Ignore <==> old(self).has_encoder),
            event is InfoParsed && !old(self).has_encoder ==> encodes(
                action->StartEncoder_0,
                event->InfoParsed_0,
            ),
            match event {
                ParamEvent::Changed { has_value, is_format } => action == (if has_value
                    && is_format {
                    ParamAction::ParseFormat
                } else {
                    ParamAction::Ignore
                }),
                ParamEvent::FormatParsed(parsed) => action == (if parsed == Some(
                    (MediaType::Video, MediaSubtype::Raw),
                ) {
                    ParamAction::ParseInfo
                } else {
                    ParamAction::Ignore
                }),
                ParamEvent::InfoParsed(info) => if starts_encoder(*old(self), event) {
                    action is StartEncoder && encodes(action->StartEncoder_0, info)
                } else {
                    action == ParamAction::Ignore
                },
            },
    {
        match event {
            ParamEvent::Changed { has_value, is_format } => {
                if !has_value || !is_format {
                    return ParamAction::Ignore;
                }
                ParamAction::ParseFormat
            },
            ParamEvent::FormatParsed(parsed) => match parsed {
                Some((media_type, media_subtype)) => {
                    if media_type != MediaType::Video || media_subtype != MediaSubtype::Raw {
                        return ParamAction::Ignore;
                    }
                    ParamAction::ParseInfo
                },
                None => ParamAction::Ignore,
            },
            ParamEvent::InfoParsed(info) => {
                self.format = Some(info);
                if self.has_encoder {
                    return ParamAction::Ignore;
                }
                ParamAction::StartEncoder(
                    FfmpegEncoder::new(
                        info.size.width,
                        info.size.height,
                        info.framerate.num,
                        info.framerate.denom,
                        info.format,
                    ),
                )
            },
        }
    }

    /// Takes in whether the encoder could be started. Where it could not, the next
    /// format starts it again.
    pub fn setup_encoder(&mut self, started: bool, flags: &mut StreamFlags)
        ensures
            *final(self) == (if started {
                PwStream { has_encoder: true, ..*old(self) }
            } else {
                *old(self)
            }),
            *final(flags) == (if started {
                crate::app_state::flags_after(*old(flags), StreamEvent::EncoderStarted)
            } else {
                *old(flags)
            }),
            final(self).format == old(self).format,
            final(self).has_encoder == (started || old(self).has_encoder),
            final(flags).pw_running == old(flags).pw_running,
            final(flags).ffmpeg_running == (started || old(flags).ffmpeg_running),
    {
        if started {
            self.has_encoder = true;
            flags.on_event(StreamEvent::EncoderStarted);
        }
    }

    /// Decides what is done about a buffer. A frame is written if there is an encoder and
    /// no one else is using it.
    pub fn process<'a>(&self, buffer: FrameBuffer<'a>, encoder_free: bool) -> (action: FrameAction<
        'a,
    >)
        requires
            buffer matches FrameBuffer::Mapped { data, offset, size } ==> offset + size
                <= data.len(),
        ensures
            match buffer {
                FrameBuffer::OutOfBuffers => action is Warn,
                FrameBuffer::Empty => action is Skip,
                FrameBuffer::Unmapped => action is Skip,
                FrameBuffer::Mapped { data, offset, size } => if self.has_encoder && encoder_free {
                    action is Write && action->Write_0@ == data@.subrange(
                        offset as int,
                        offset + size,
                    )
                } else {
                    action is Skip
                },
            },
    {
        match buffer {
            FrameBuffer::OutOfBuffers => FrameAction::Warn,
            FrameBuffer::Empty => FrameAction::Skip,
            FrameBuffer::Unmapped => FrameAction::Skip,
            FrameBuffer::Mapped { data, offset, size } => {
                let start: usize = offset as usize;
                let end: usize = start + size as usize;
                if self.has_encoder && encoder_free {
                    FrameAction::Write(slice_subrange(data, start, end))
                } else {
                    FrameAction::Skip
                }
            },
        }
    }
}

/// Whatever format a stream gets, it starts the encoder if and only if there is none.
pub proof fn law_any_format_starts_encoder(stream: PwStream, info: VideoInfo)
    ensures
        starts_encoder(stream, ParamEvent::InfoParsed(info)) <==> !stream.has_encoder,
        stream_after(stream, ParamEvent::InfoParsed(info)).format == Some(info),
        stream_after(stream, ParamEvent::InfoParsed(info)).has_encoder == stream.has_encoder,
{
}

/// An event that brings no format changes nothing and starts no encoder.
pub proof fn law_other_events_change_nothing(stream: PwStream, event: ParamEvent)
    requires
        !(event is InfoParsed),
    ensures
        stream_after(stream, event) == stream,
        !starts_encoder(stream, event),
{
}

/// The encoder of a format is `ffmpeg`, told where its input comes from and its output
/// goes, and told the width, the height, the pixel format and the rate of that format.
pub proof fn law_encoder_matches_format(encoder: FfmpegEncoder, info: VideoInfo)
    requires
        encodes(encoder, info),
    ensures
        encoder.program@ == "ffmpeg"@,
        encoder.args@.len() == 32,
        crate::text::texts(encoder.args@).take(6) == seq![
            "-y"@,
            "-f"@,
            "rawvideo"@,
            "-vcodec"@,
            "rawvideo"@,
            "-s"@,
        ],
        exists|k: int|
            0 < k < encoder.args@[6]@.len() - 1 && encoder.args@[6]@[k] == 'x' && crate::text::number(
                #[trigger] encoder.args@[6]@.take(k),
            ) == info.size.width && crate::text::number(encoder.args@[6]@.skip(k + 1)) == info.size.height && (forall|i: int|
                0 <= i < encoder.args@[6]@.len() && i != k ==> '0' <= #[trigger] encoder.args@[6]@[i] <= '9'),
        encoder.args@[7]@ == "-pix_fmt"@,
        encoder.args@[8]@ == (match info.format {
            VideoFormat::RGB => "rgb24"@,
            VideoFormat::RGBA => "rgba"@,
            VideoFormat::RGBx => "rgb24"@,
            VideoFormat::BGRx => "bgr0"@,
            VideoFormat::YUY2 => "yuyv422"@,
            VideoFormat::I420 => "yuv420p"@,
            VideoFormat::Other(_) => "yuv420p"@,
        }),
        encoder.args@[9]@ == "-r"@,
        info.framerate.num == 0 ==> encoder.args@[10]@ == "60/1"@,
        info.framerate.num != 0 ==> exists|k: int|
            0 < k < encoder.args@[10]@.len() - 1 && encoder.args@[10]@[k] == '/' && crate::text::number(
                #[trigger] encoder.args@[10]@.take(k),
            ) == info.framerate.num && crate::text::number(encoder.args@[10]@.skip(k + 1)) == info.framerate.denom && (forall|i: int|
                0 <= i < encoder.args@[10]@.len() && i != k ==> '0' <= #[trigger] encoder.args@[10]@[i] <= '9'),
        crate::text::texts(encoder.args@).skip(11) == seq![
            "-i"@,
            "-"@,
            "-c:v"@,
            "libx264"@,
            "-preset"@,
            "ultrafast"@,
            "-tune"@,
            "zerolatency"@,
            "-profile:v"@,
            "baseline"@,
            "-level"@,
            "3.1"@,
            "-pix_fmt"@,
            "yuv420p"@,
            "-x264-params"@,
            "keyint=30:min-keyint=30:scenecut=0"@,
            "-bsf:v"@,
            "h264_mp4toannexb"@,
            "-f"@,
            "h264"@,
            "-"@,
        ],
{
    crate::ffmpeg_encoder::law_encoder_arguments(
        encoder.args@,
        info.size.width,
        info.size.height,
        info.framerate.num,
        info.framerate.denom,
        info.format,
    );
}

/// The stream after the first `n` of `events`.
pub open spec fn stream_over(stream: PwStream, events: Seq<ParamEvent>, n: nat) -> PwStream
    decreases n,
{
    if n == 0 {
        stream
    } else {
        stream_after(stream_over(stream, events, (n - 1) as nat), events[n - 1])
    }
}

/// A stream that has an encoder keeps it: no later format starts another one.
pub proof fn law_one_encoder_per_stream(stream: PwStream, events: Seq<ParamEvent>, n: nat)
    requires
        stream.has_encoder,
    ensures
        stream_over(stream, events, n).has_encoder,
        n < events.len() ==> !starts_encoder(stream_over(stream, events, n), events[n as int]),
    decreases n,
{
    if n > 0 {
        law_one_encoder_per_stream(stream, events, (n - 1) as nat);
    }
}

/// What is asked for makes sense: each preferred value is among the accepted ones, and
/// the encoder has a name of its own for every accepted format.
pub proof fn law_offer_is_consistent(format: VideoFormat)
    requires
        offered_formats().contains(format),
    ensures
        offered_formats().contains(VideoFormat::RGB),
        !(format is Other),
        offered_sizes().min.width <= offered_sizes().default.width <= offered_sizes().max.width,
        offered_sizes().min.height <= offered_sizes().default.height
            <= offered_sizes().max.height,
        offered_rates().min.num * offered_rates().default.denom <= offered_rates().default.num
            * offered_rates().min.denom,
        offered_rates().default.num * offered_rates().max.denom <= offered_rates().max.num
            * offered_rates().default.denom,
{
    assert(offered_formats()[0] == VideoFormat::RGB);
    let r = offered_rates();
    assert(r.min.num * r.default.denom <= r.default.num * r.min.denom && r.default.num
        * r.max.denom <= r.max.num * r.default.denom) by (nonlinear_arith)
        requires
            r.min.num == 0,
            r.min.denom == 1,
            r.default.num == 25,
            r.default.denom == 1,
            r.max.num == 1000,
            r.max.denom == 1,
    ;
}

} // verus!

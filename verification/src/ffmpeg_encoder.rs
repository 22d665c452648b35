//! The command that encodes raw frames as an H.264 byte stream.
use crate::pw_source::{PwSource, VideoFormat};
use crate::text::push_decimal;
use vstd::prelude::*;
use vstd::string::StringExecFns;

verus! {

/// The frame rate as the encoder takes it. A rate of zero means that the source does
/// not say; the encoder then assumes 60 frames a second.
pub open spec fn framerate_text(num: u32, denom: u32) -> Seq<char> {
    if num == 0 {
        "60/1"@
    } else {
        crate::text::decimal(num as nat) + "/"@ + crate::text::decimal(denom as nat)
    }
}

/// The frame size as the encoder takes it.
pub open spec fn video_size_text(width: u32, height: u32) -> Seq<char> {
    crate::text::decimal(width as nat) + "x"@ + crate::text::decimal(height as nat)
}

/// The encoder's arguments: raw frames of the given size, pixel format and rate on its
/// standard input; H.264 in Annex B form, low latency, on its standard output.
pub open spec fn encoder_args(
    video_size: Seq<char>,
    pixel_format: Seq<char>,
    framerate: Seq<char>,
) -> Seq<Seq<char>> {
    seq![
        "-y"@,
        "-f"@,
        "rawvideo"@,
        "-vcodec"@,
        "rawvideo"@,
        "-s"@,
        video_size,
        "-pix_fmt"@,
        pixel_format,
        "-r"@,
        framerate,
        "-i"@,
        "-"@,
        "-c:v"@,
        "libx264"@,
        "-preset"@,
        "ultrafast"@,
        "-tune"@,
        "zerolatency"@,
        "-profile:v"@,
        "baseline"@,
        "-level"@,
        "3.1"@,
        "-pix_fmt"@,
        "yuv420p"@,
        "-x264-params"@,
        "keyint=30:min-keyint=30:scenecut=0"@,
        "-bsf:v"@,
        "h264_mp4toannexb"@,
        "-f"@,
        "h264"@,
        "-"@,
    ]
}

/// The encoder to run: a program and its arguments.
#[derive(Debug)]
pub struct FfmpegEncoder {
    pub program: &'static str,
    pub args: Vec<String>,
}

impl FfmpegEncoder {
    /// The encoder for frames of the given size, rate and format.
    pub fn new(
        width: u32,
        height: u32,
        framerate_num: u32,
        framerate_denom: u32,
        format: VideoFormat,
    ) -> (encoder: FfmpegEncoder)
        ensures
            encoder.program@ == "ffmpeg"@,
            crate::text::texts(encoder.args@) == encoder_args(
                video_size_text(width, height),
                crate::pw_source::pixel_format(format),
                framerate_text(framerate_num, framerate_denom),
            ),
            encoder.args@.len() == 32,
            crate::text::texts(encoder.args@).take(6) == seq![
                "-y"@,
                "-f"@,
                "rawvideo"@,
                "-vcodec"@,
                "rawvideo"@,
                "-s"@,
            ],
            exists|k: int|
                0 < k < encoder.args@[6]@.len() - 1 && encoder.args@[6]@[k] == 'x' && crate::text::number(
                    #[trigger] encoder.args@[6]@.take(k),
                ) == width && crate::text::number(encoder.args@[6]@.skip(k + 1)) == height && (forall|i: int|
                    0 <= i < encoder.args@[6]@.len() && i != k ==> '0' <= #[trigger] encoder.args@[6]@[i] <= '9'),
            encoder.args@[7]@ == "-pix_fmt"@,
            encoder.args@[8]@ == (match format {
                VideoFormat::RGB => "rgb24"@,
                VideoFormat::RGBA => "rgba"@,
                VideoFormat::RGBx => "rgb24"@,
                VideoFormat::BGRx => "bgr0"@,
                VideoFormat::YUY2 => "yuyv422"@,
                VideoFormat::I420 => "yuv420p"@,
                VideoFormat::Other(_) => "yuv420p"@,
            }),
            encoder.args@[9]@ == "-r"@,
            framerate_num == 0 ==> encoder.args@[10]@ == "60/1"@,
            framerate_num != 0 ==> exists|k: int|
                0 < k < encoder.args@[10]@.len() - 1 && encoder.args@[10]@[k] == '/' && crate::text::number(
                    #[trigger] encoder.args@[10]@.take(k),
                ) == framerate_num && crate::text::number(encoder.args@[10]@.skip(k + 1)) == framerate_denom && (forall|i: int|
                    0 <= i < encoder.args@[10]@.len() && i != k ==> '0' <= #[trigger] encoder.args@[10]@[i] <= '9'),
            crate::text::texts(encoder.args@).skip(11) == seq![
                "-i"@,
                "-"@,
                "-c:v"@,
                "libx264"@,
                "-preset"@,
                "ultrafast"@,
                "-tune"@,
                "zerolatency"@,
                "-profile:v"@,
                "baseline"@,
                "-level"@,
                "3.1"@,
                "-pix_fmt"@,
                "yuv420p"@,
                "-x264-params"@,
                "keyint=30:min-keyint=30:scenecut=0"@,
                "-bsf:v"@,
                "h264_mp4toannexb"@,
                "-f"@,
                "h264"@,
                "-"@,
            ],
    {
        let pixel_format: &'static str = PwSource::convert_format_to_ffmpeg(format);

        let framerate: String = if framerate_num == 0 {
            "60/1".to_owned()
        } else {
            fraction(framerate_num, "/", framerate_denom)
        };
        let video_size: String = fraction(width, "x", height);

        let args: Vec<String> = vec![
            "-y".to_owned(),
            "-f".to_owned(),
            "rawvideo".to_owned(),
            "-vcodec".to_owned(),
            "rawvideo".to_owned(),
            "-s".to_owned(),
            video_size,
            "-pix_fmt".to_owned(),
            pixel_format.to_owned(),
            "-r".to_owned(),
            framerate,
            "-i".to_owned(),
            "-".to_owned(),
            "-c:v".to_owned(),
            "libx264".to_owned(),
            "-preset".to_owned(),
            "ultrafast".to_owned(),
            "-tune".to_owned(),
            "zerolatency".to_owned(),
            "-profile:v".to_owned(),
            "baseline".to_owned(),
            "-level".to_owned(),
            "3.1".to_owned(),
            "-pix_fmt".to_owned(),
            "yuv420p".to_owned(),
            "-x264-params".to_owned(),
            "keyint=30:min-keyint=30:scenecut=0".to_owned(),
            "-bsf:v".to_owned(),
            "h264_mp4toannexb".to_owned(),
            "-f".to_owned(),
            "h264".to_owned(),
            "-".to_owned(),
        ];
        proof {
            assert(crate::text::texts(args@) =~= encoder_args(
                video_size@,
                pixel_format@,
                framerate@,
            ));
        }
        let encoder = FfmpegEncoder { program: "ffmpeg", args };
        proof {
            law_encoder_arguments(
                encoder.args@,
                width,
                height,
                framerate_num,
                framerate_denom,
                format,
            );
        }
        encoder
    }
}

/// Two numbers with one other character between them are read back as those two numbers.
proof fn lemma_pair_reads_back(pair: Seq<char>, left: u32, sep: char, right: u32)
    requires
        pair == crate::text::decimal(left as nat) + seq![sep] + crate::text::decimal(right as nat),
    ensures
        exists|k: int|
            0 < k < pair.len() - 1 && pair[k] == sep && crate::text::number(#[trigger] pair.take(k))
                == left && crate::text::number(pair.skip(k + 1)) == right && (forall|i: int|
                0 <= i < pair.len() && i != k ==> '0' <= #[trigger] pair[i] <= '9'),
{
    let l = crate::text::decimal(left as nat);
    let r = crate::text::decimal(right as nat);
    let k = l.len() as int;
    crate::text::law_decimal_reads_back(left as nat);
    crate::text::law_decimal_reads_back(right as nat);
    assert(pair.take(k) =~= l);
    assert(pair.skip(k + 1) =~= r);
    assert forall|i: int| 0 <= i < pair.len() && i != k implies '0' <= #[trigger] pair[i] <= '9' by {
        if i < k {
            assert(pair[i] == l[i]);
        } else {
            assert(pair[i] == r[i - k - 1]);
        }
    }
}

/// The arguments tell the encoder the width and then the height, the pixel format and the
/// rate, each behind its option, and read back as they were given; the other arguments are
/// always the same.
pub proof fn law_encoder_arguments(
    args: Seq<String>,
    width: u32,
    height: u32,
    framerate_num: u32,
    framerate_denom: u32,
    format: VideoFormat,
)
    requires
        crate::text::texts(args) == encoder_args(
            video_size_text(width, height),
            crate::pw_source::pixel_format(format),
            framerate_text(framerate_num, framerate_denom),
        ),
    ensures
        args.len() == 32,
        crate::text::texts(args).take(6) == seq![
            "-y"@,
            "-f"@,
            "rawvideo"@,
            "-vcodec"@,
            "rawvideo"@,
            "-s"@,
        ],
        exists|k: int|
            0 < k < args[6]@.len() - 1 && args[6]@[k] == 'x' && crate::text::number(
                #[trigger] args[6]@.take(k),
            ) == width && crate::text::number(args[6]@.skip(k + 1)) == height && (forall|i: int|
                0 <= i < args[6]@.len() && i != k ==> '0' <= #[trigger] args[6]@[i] <= '9'),
        args[7]@ == "-pix_fmt"@,
        args[8]@ == (match format {
            VideoFormat::RGB => "rgb24"@,
            VideoFormat::RGBA => "rgba"@,
            VideoFormat::RGBx => "rgb24"@,
            VideoFormat::BGRx => "bgr0"@,
            VideoFormat::YUY2 => "yuyv422"@,
            VideoFormat::I420 => "yuv420p"@,
            VideoFormat::Other(_) => "yuv420p"@,
        }),
        args[9]@ == "-r"@,
        framerate_num == 0 ==> args[10]@ == "60/1"@,
        framerate_num != 0 ==> exists|k: int|
            0 < k < args[10]@.len() - 1 && args[10]@[k] == '/' && crate::text::number(
                #[trigger] args[10]@.take(k),
            ) == framerate_num && crate::text::number(args[10]@.skip(k + 1)) == framerate_denom && (forall|i: int|
                0 <= i < args[10]@.len() && i != k ==> '0' <= #[trigger] args[10]@[i] <= '9'),
        crate::text::texts(args).skip(11) == seq![
            "-i"@,
            "-"@,
            "-c:v"@,
            "libx264"@,
            "-preset"@,
            "ultrafast"@,
            "-tune"@,
            "zerolatency"@,
            "-profile:v"@,
            "baseline"@,
            "-level"@,
            "3.1"@,
            "-pix_fmt"@,
            "yuv420p"@,
            "-x264-params"@,
            "keyint=30:min-keyint=30:scenecut=0"@,
            "-bsf:v"@,
            "h264_mp4toannexb"@,
            "-f"@,
            "h264"@,
            "-"@,
        ],
{
    let all = crate::text::texts(args);
    assert(all.len() == args.len());
    assert forall|i: int| 0 <= i < args.len() implies (#[trigger] args[i])@ == all[i] by {}
    assert(args[6]@ == all[6]);
    assert(args[10]@ == all[10]);
    reveal_strlit("x");
    reveal_strlit("/");
    assert("x"@ =~= seq!['x']);
    assert("/"@ =~= seq!['/']);
    lemma_pair_reads_back(args[6]@, width, 'x', height);
    if framerate_num != 0 {
        lemma_pair_reads_back(args[10]@, framerate_num, '/', framerate_denom);
    }
}

/// Two numbers with `sep` between them.
fn fraction(left: u32, sep: &str, right: u32) -> (out: String)
    ensures
        out@ == crate::text::decimal(left as nat) + sep@ + crate::text::decimal(right as nat),
{
    let mut out: String = String::new();
    push_decimal(&mut out, left);
    out.append(sep);
    push_decimal(&mut out, right);
    proof {
        assert(out@ =~= crate::text::decimal(left as nat) + sep@ + crate::text::decimal(
            right as nat,
        ));
    }
    out
}

} // verus!

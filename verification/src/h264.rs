//! H.264 encoding and decoding with OpenH264.

use crate::codec::{encoder_bitrate, to_annex_b, VideoTrackInfo};
use crate::pixels::{Picture, YuvFrame};
use openh264::decoder::Decoder;
use openh264::encoder::{
    BitRate, Encoder, EncoderConfig, FrameRate, IntraFramePeriod, RateControlMode, UsageType,
};
use openh264::formats::{RgbSliceU8, YUVBuffer, YUVSource};
use openh264::OpenH264API;
use vstd::prelude::*;
use vstd::string::*;

verus! {

/// `openh264::decoder::Decoder`.
#[verifier::external_type_specification]
#[verifier::external_body]
pub struct ExDecoder(openh264::decoder::Decoder);

/// `openh264::encoder::Encoder`.
#[verifier::external_type_specification]
#[verifier::external_body]
pub struct ExEncoder(openh264::encoder::Encoder);

/// `openh264::Error`.
#[verifier::external_type_specification]
#[verifier::external_body]
pub struct ExError(openh264::Error);

// Decoding

/// What a decoder was fed since it was made, one item for each call.
pub uninterp spec fn decoder_fed(decoder: openh264::decoder::Decoder) -> Seq<Seq<u8>>;

/// The picture that a decoder returns for the last of the items it was fed, if any.
pub uninterp spec fn h264_picture(fed: Seq<Seq<u8>>) -> Option<Picture>;

/// The RGB bytes of the last picture that a decoder gave as RGB.
pub uninterp spec fn rgb_given(decoder: openh264::decoder::Decoder) -> Seq<u8>;

/// `Decoder::new`: a new decoder was fed nothing. Whether one can be made is up to the
/// native library.
#[verifier::external_body]
fn new_decoder() -> (r: Option<Decoder>)
    ensures
        r matches Some(d) ==> decoder_fed(d) == Seq::<Seq<u8>>::empty(),
{
    Decoder::new().ok()
}

/// `Decoder::decode`: feeds a piece of an Annex-B stream and hands out the picture that
/// results, by its size, its planes and their strides. There is none where the call fails
/// or has no picture yet. The picture, and whether its planes hold all of it, is a function of
/// what was fed so far; nothing is said of the strides and of the bytes between the rows. The
/// call takes the length as an `i32`.
#[verifier::external_body]
fn decode_picture(decoder: &mut Decoder, data: &Vec<u8>) -> (r: Option<YuvFrame>)
    requires
        data@.len() <= i32::MAX,
    ensures
        decoder_fed(*final(decoder)) == decoder_fed(*old(decoder)).push(data@),
        match r {
            Some(f) => h264_picture(decoder_fed(*old(decoder)).push(data@)) == Some(f@.picture()),
            None => h264_picture(decoder_fed(*old(decoder)).push(data@)) is None,
        },
{
    let picture = decoder.decode(data).ok().flatten()?;
    let (width, height) = picture.dimensions();
    let (y_stride, u_stride, v_stride) = picture.strides();
    let (y, u, v) = (picture.y().to_vec(), picture.u().to_vec(), picture.v().to_vec());
    Some(YuvFrame { width, height, y, u, v, y_stride, u_stride, v_stride })
}

/// A decoded picture as RGB.
#[derive(Debug)]
pub struct RgbFrame {
    pub width: usize,
    pub height: usize,
    pub rgb: Vec<u8>,
}

/// `Decoder::decode`, then `DecodedYUV::write_rgb8` into a buffer of `rgb8_len` bytes: as
/// above, but with three bytes for each pixel in place of the planes. Which colours they hold
/// is not stated: the conversion computes in floating point, with other instructions on other
/// machines. They are told apart only as what this decoder gave last.
#[verifier::external_body]
fn decode_rgb(decoder: &mut Decoder, data: &Vec<u8>) -> (r: Option<RgbFrame>)
    requires
        data@.len() <= i32::MAX,
    ensures
        decoder_fed(*final(decoder)) == decoder_fed(*old(decoder)).push(data@),
        match r {
            Some(f) => h264_picture(decoder_fed(*old(decoder)).push(data@)) matches Some(p)
                && f.width == p.width && f.height == p.height && f.rgb@.len() == p.width * p.height
                * 3 && f.rgb@ == rgb_given(*final(decoder)),
            None => h264_picture(decoder_fed(*old(decoder)).push(data@)) is None,
        },
{
    let picture = decoder.decode(data).ok().flatten()?;
    let (width, height) = picture.dimensions();
    let mut rgb = vec![0u8; picture.rgb8_len()];
    picture.write_rgb8(&mut rgb);
    Some(RgbFrame { width, height, rgb })
}

/// A decoder for one track of a file.
pub struct VideoDecoder {
    decoder: Decoder,
    info: VideoTrackInfo,
}

impl VideoDecoder {
    /// The track that is decoded.
    pub closed spec fn track(self) -> crate::codec::VideoTrackModel {
        self.info@
    }

    /// What the decoder was fed since it was made or reset.
    pub closed spec fn fed(self) -> Seq<Seq<u8>> {
        decoder_fed(self.decoder)
    }

    /// The RGB bytes of the last picture that was decoded to RGB.
    pub closed spec fn rgb(self) -> Seq<u8> {
        rgb_given(self.decoder)
    }

    pub open spec fn wf(self) -> bool {
        self.track().time_base.wf()
    }
}

/// What a decoder is fed before the first sample: the track's parameter sets, where there
/// are any that the decoder can take.
pub open spec fn primed(header: Seq<u8>) -> Seq<Seq<u8>> {
    if 0 < header.len() <= i32::MAX {
        seq![header]
    } else {
        Seq::empty()
    }
}

/// Feeds the parameter sets to what making a decoder with the native library gave. There is
/// a decoder exactly where the library gave one.
pub fn prime(made: Option<Decoder>, header: &Vec<u8>) -> (r: Option<Decoder>)
    ensures
        match made {
            Some(d) => r matches Some(p) && decoder_fed(p) == decoder_fed(d) + primed(header@),
            None => r is None,
        },
{
    match made {
        Some(mut decoder) => {
            let ghost before = decoder_fed(decoder);
            if header.len() > 0 && header.len() <= i32::MAX as usize {
                let _ = decode_picture(&mut decoder, header);
            }
            assert(decoder_fed(decoder) =~= before + primed(header@));
            Some(decoder)
        },
        None => None,
    }
}

fn primed_decoder(header: &Vec<u8>) -> (r: Option<Decoder>)
    ensures
        r matches Some(d) ==> decoder_fed(d) == primed(header@),
{
    let r = prime(new_decoder(), header);
    assert(Seq::<Seq<u8>>::empty() + primed(header@) =~= primed(header@));
    r
}

impl VideoDecoder {
    /// Makes a decoder for a track and feeds it the track's parameter sets: without them
    /// it returns no pictures. Whether one can be made is up to the native library.
    pub fn open(info: VideoTrackInfo) -> (r: Option<VideoDecoder>)
        ensures
            r matches Some(v) ==> v.track() == info@ && v.fed() == primed(info@.annexb_header),
    {
        let primed = primed_decoder(&info.annexb_header);
        VideoDecoder::with_primed(info, primed)
    }

    /// The decoder of a track around a native decoder to which the track's parameter sets
    /// were fed. There is one exactly where the native one could be made.
    pub fn with_primed(info: VideoTrackInfo, primed: Option<Decoder>) -> (r: Option<VideoDecoder>)
        ensures
            match primed {
                Some(d) => r matches Some(v) && v.track() == info@ && v.fed() == decoder_fed(d),
                None => r is None,
            },
    {
        match primed {
            Some(decoder) => Some(VideoDecoder { decoder, info }),
            None => None,
        }
    }

    /// Makes a new native decoder, as for a seek, and feeds it the parameter sets. Whether one
    /// can be made is up to the native library.
    pub(crate) fn fresh(&self) -> (r: Option<Decoder>)
        ensures
            r matches Some(d) ==> decoder_fed(d) == primed(self.track().annexb_header),
    {
        primed_decoder(&self.info.annexb_header)
    }

    /// Goes on with a native decoder to which the parameter sets were fed. It does so exactly
    /// where that could be made; else the old one stays.
    pub fn reset_with(&mut self, primed: Option<Decoder>) -> (r: bool)
        ensures
            final(self).track() == old(self).track(),
            r == (primed is Some),
            final(self).fed() == match primed {
                Some(d) => decoder_fed(d),
                None => old(self).fed(),
            },
    {
        match primed {
            Some(decoder) => {
                self.decoder = decoder;
                true
            },
            None => false,
        }
    }

    pub fn track_id(&self) -> (r: u32)
        ensures
            r == self.track().track_id,
    {
        self.info.track_id
    }

    pub fn time_base(&self) -> (r: crate::time::TimeBase)
        ensures
            r == self.track().time_base,
    {
        self.info.time_base
    }

    /// What a sample is fed to the decoder as.
    pub open spec fn unit(self, sample: Seq<u8>) -> Seq<u8> {
        crate::codec::sample_as_annex_b(sample, self.track().nal_length_size as int)
    }

    /// Decodes a sample of the track.
    pub fn decode(&mut self, sample: &Vec<u8>) -> (r: Option<YuvFrame>)
        requires
            old(self).unit(sample@).len() <= i32::MAX,
        ensures
            final(self).track() == old(self).track(),
            final(self).fed() == old(self).fed().push(old(self).unit(sample@)),
            match r {
                Some(f) => h264_picture(final(self).fed()) == Some(f@.picture()),
                None => h264_picture(final(self).fed()) is None,
            },
    {
        let data: Vec<u8> = to_annex_b(sample.as_slice(), self.info.nal_length_size);
        decode_picture(&mut self.decoder, &data)
    }

    /// Decodes a sample of the track to RGB.
    pub fn decode_rgb(&mut self, sample: &Vec<u8>) -> (r: Option<RgbFrame>)
        requires
            old(self).unit(sample@).len() <= i32::MAX,
        ensures
            final(self).track() == old(self).track(),
            final(self).fed() == old(self).fed().push(old(self).unit(sample@)),
            match r {
                Some(f) => h264_picture(final(self).fed()) matches Some(p) && f.width == p.width
                    && f.height == p.height && f.rgb@.len() == p.width * p.height * 3 && f.rgb@
                    == final(self).rgb(),
                None => h264_picture(final(self).fed()) is None,
            },
    {
        let data: Vec<u8> = to_annex_b(sample.as_slice(), self.info.nal_length_size);
        decode_rgb(&mut self.decoder, &data)
    }
}

// Encoding

/// How an encoder keeps to its bit rate.
#[derive(Clone, Copy, Debug, PartialEq, Eq, Structural)]
pub enum RateControl {
    /// It keeps the quality.
    Quality,
    /// It keeps the bit rate.
    Bitrate,
    /// It does neither.
    Off,
}

/// What an encoder is tuned for.
#[derive(Clone, Copy, Debug, PartialEq, Eq, Structural)]
pub enum Content {
    /// Camera pictures.
    Camera,
    /// Screen captures: sharp text and flat regions.
    Screen,
}

/// How an encoder is set up.
#[derive(Clone, Copy, Debug, PartialEq, Eq, Structural)]
pub struct EncoderSettings {
    /// Bits per second.
    pub bitrate: u32,
    /// The most frames per second.
    pub fps: u32,
    pub rate_control: RateControl,
    /// Whether frames may be dropped to keep the bit rate.
    pub skip_frames: bool,
    /// How many frames there are from one keyframe to the next.
    pub keyframe_period: u32,
    pub content: Content,
}

/// What an encoder was set up with.
pub uninterp spec fn encoder_settings(encoder: openh264::encoder::Encoder) -> EncoderSettings;

/// The pictures that an encoder was handed since it was made: width, height and RGB bytes.
pub uninterp spec fn encoder_frames(encoder: openh264::encoder::Encoder) -> Seq<
    (int, int, Seq<u8>),
>;

/// What an encoder gave for each of the pictures that it was handed: bytes, or nothing where
/// it failed.
pub uninterp spec fn encoder_given(encoder: openh264::encoder::Encoder) -> Seq<Option<Seq<u8>>>;

/// No pictures.
pub open spec fn no_frames() -> Seq<(int, int, Seq<u8>)> {
    Seq::empty()
}

/// Bytes that may be missing, as a mathematical value.
pub open spec fn bytes_view(bytes: Option<Vec<u8>>) -> Option<Seq<u8>> {
    match bytes {
        Some(b) => Some(b@),
        None => None,
    }
}

/// `Encoder::with_api_config`: an encoder with the given settings, each passed on by the
/// method of `EncoderConfig` for it. The frame rate is passed on as a floating-point number.
/// Whether an encoder can be made is up to the native library.
#[verifier::external_body]
fn new_encoder(settings: EncoderSettings) -> (r: Result<Encoder, openh264::Error>)
    ensures
        r matches Ok(e) ==> encoder_settings(e) == settings && encoder_frames(e) == no_frames()
            && encoder_given(e).len() == 0,
{
    let config = EncoderConfig::new()
        .bitrate(BitRate::from_bps(settings.bitrate))
        .max_frame_rate(FrameRate::from_hz(settings.fps.to_string().parse().unwrap_or_default()))
        .rate_control_mode(match settings.rate_control {
            RateControl::Quality => RateControlMode::Quality,
            RateControl::Bitrate => RateControlMode::Bitrate,
            RateControl::Off => RateControlMode::Off,
        })
        .skip_frames(settings.skip_frames)
        .intra_frame_period(IntraFramePeriod::from_num_frames(settings.keyframe_period))
        .usage_type(match settings.content {
            Content::Camera => UsageType::CameraVideoRealTime,
            Content::Screen => UsageType::ScreenContentRealTime,
        });
    Encoder::with_api_config(OpenH264API::from_source(), config)
}

/// `ToString::to_string` of an `openh264::Error`. The text is not stated: it holds codes of
/// the native library.
#[verifier::external_body]
fn error_text(error: &openh264::Error) -> (r: String) {
    error.to_string()
}

/// `YUVBuffer::from_rgb_source`, then `Encoder::encode`: hands the encoder a picture and
/// gives back the bytes of the stream that it adds. There are none where the encoder fails,
/// as it does for pictures over 3840 by 2160 in either position. The calls want even sizes
/// and three bytes for each pixel. Which bytes come is not stated: the encoder works with as
/// many threads as the machine has, and its rate control is not documented. They are told
/// apart only as what this encoder gave for the picture.
#[verifier::external_body]
fn encode_picture(encoder: &mut Encoder, rgb: &Vec<u8>, width: usize, height: usize) -> (r: Option<
    Vec<u8>,
>)
    requires
        width % 2 == 0,
        height % 2 == 0,
        width <= i32::MAX,
        height <= i32::MAX,
        rgb@.len() == width * height * 3,
    ensures
        encoder_settings(*final(encoder)) == encoder_settings(*old(encoder)),
        encoder_frames(*final(encoder)) == encoder_frames(*old(encoder)).push(
            (width as int, height as int, rgb@),
        ),
        encoder_given(*final(encoder)) == encoder_given(*old(encoder)).push(bytes_view(r)),
        width > 3840 || height > 3840 || (width > 2160 && height > 2160) ==> r is None,
{
    let yuv = YUVBuffer::from_rgb_source(RgbSliceU8::new(rgb, (width, height)));
    encoder.encode(&yuv).ok().map(|stream| stream.to_vec())
}

/// The start of the message when no encoder can be made.
pub open spec fn encoder_failure() -> Seq<char> {
    "Failed to create H.264 encoder: "@
}

/// Whether a message says that no encoder can be made. The cause follows.
pub open spec fn is_encoder_failure(text: Seq<char>) -> bool {
    text.len() >= encoder_failure().len() && text.take(encoder_failure().len() as int)
        == encoder_failure()
}

/// How an encoder is set up for pictures of the given size and rate: it keeps to a bit rate
/// that follows from both and from the quality, in thousandths, drops no frames and makes a
/// keyframe once per second.
pub open spec fn settings_for(
    width: u32,
    height: u32,
    fps: u32,
    screen_content: bool,
    quality: u32,
) -> EncoderSettings {
    let rate = if fps < 1 {
        1
    } else {
        fps
    };
    EncoderSettings {
        bitrate: crate::codec::bitrate(
            width as int,
            height as int,
            fps as int,
            quality as int,
        ) as u32,
        fps: rate,
        rate_control: RateControl::Bitrate,
        skip_frames: false,
        keyframe_period: rate,
        content: if screen_content {
            Content::Screen
        } else {
            Content::Camera
        },
    }
}

/// Every encoder keeps to a bit rate of half a million bits per second or more, drops no
/// frames and makes a keyframe once per second.
pub proof fn every_frame_is_kept(
    width: u32,
    height: u32,
    fps: u32,
    screen_content: bool,
    quality: u32,
)
    ensures
        ({
            let settings = settings_for(width, height, fps, screen_content, quality);
            &&& 500_000 <= settings.bitrate <= 80_000_000
            &&& settings.rate_control == RateControl::Bitrate
            &&& !settings.skip_frames
            &&& settings.keyframe_period == settings.fps
            &&& fps >= 1 ==> settings.fps == fps
        }),
{
}

/// Makes an encoder for pictures of the given size and rate. The bit rate follows from both
/// and from the quality, in thousandths. Where the native library fails, the message says so.
pub fn build_encoder(
    width: u32,
    height: u32,
    fps: u32,
    screen_content: bool,
    quality: u32,
) -> (r: Result<Encoder, String>)
    ensures
        match r {
            Ok(e) => {
                &&& encoder_settings(e) == settings_for(width, height, fps, screen_content, quality)
                &&& encoder_frames(e) == no_frames()
                &&& encoder_given(e).len() == 0
            },
            Err(text) => is_encoder_failure(text@),
        },
{
    let bitrate: u32 = encoder_bitrate(width, height, fps, quality);
    let rate: u32 = if fps < 1 {
        1
    } else {
        fps
    };
    let settings = EncoderSettings {
        bitrate,
        fps: rate,
        rate_control: RateControl::Bitrate,
        skip_frames: false,
        keyframe_period: rate,
        content: if screen_content {
            Content::Screen
        } else {
            Content::Camera
        },
    };
    match new_encoder(settings) {
        Ok(encoder) => Ok(encoder),
        Err(error) => {
            let mut text: String = String::from_str("Failed to create H.264 encoder: ");
            let cause: String = error_text(&error);
            text.append(cause.as_str());
            assert(text@.take(encoder_failure().len() as int) =~= encoder_failure());
            Err(text)
        },
    }
}

/// Hands an encoder a picture and gives back the bytes that it adds to the stream, if any.
pub fn encode_rgb(encoder: &mut Encoder, rgb: &Vec<u8>, width: usize, height: usize) -> (r: Option<
    Vec<u8>,
>)
    requires
        width % 2 == 0,
        height % 2 == 0,
        width <= i32::MAX,
        height <= i32::MAX,
        rgb@.len() == width * height * 3,
    ensures
        encoder_settings(*final(encoder)) == encoder_settings(*old(encoder)),
        encoder_frames(*final(encoder)) == encoder_frames(*old(encoder)).push(
            (width as int, height as int, rgb@),
        ),
        encoder_given(*final(encoder)) == encoder_given(*old(encoder)).push(bytes_view(r)),
        width > 3840 || height > 3840 || (width > 2160 && height > 2160) ==> r is None,
{
    encode_picture(encoder, rgb, width, height)
}

} // verus!

//! Media metadata as Tencent COS gives it.

use vstd::prelude::*;
use vstd::string::*;

use crate::errors::{failed_step, storage_driver_error, AsterError, Failure, StorageErrorKind};
use crate::media_tree::{
    child_i32, child_string, child_u32, child_u64, child_u8, clamped, descendant_count,
    first_descendant, first_namesake, i32_by_names, namesakes, node_view, text_by_names,
    u32_by_names, u64_by_names, u8_by_names,
};
use crate::text::{ascii_lowercase, starts_with, strs_view, to_ascii_lowercase, trim, trimmed};
use crate::xml::{text_view, Element, ParseOptions, XmlElement};

verus! {

/// The name of the parser that the metadata is attributed to.
pub const COS_NATIVE_MEDIA_METADATA_PARSER: &'static str = "tencent_cos_ci_videoinfo";

/// The version of that parser.
pub const COS_NATIVE_MEDIA_METADATA_VERSION: &'static str = "1";

/// The kind of a file's media metadata.
#[derive(Debug, Clone, Copy, PartialEq, Eq, Structural)]
pub enum MediaMetadataKind {
    Image,
    Audio,
    Video,
}

/// How large a media info document may be.
pub fn media_info_xml_options() -> (options: ParseOptions)
    ensures
        options == (ParseOptions { max_size: 262144, max_depth: 16, max_elements: 500 }),
{
    ParseOptions { max_size: 256 * 1024, max_depth: 16, max_elements: 500 }
}

/// Whether a MIME type is one of those that begin with `prefix`, up to white
/// space around it and the case of its letters.
pub open spec fn has_mime_prefix(mime_type: Seq<char>, prefix: Seq<char>) -> bool {
    prefix.is_prefix_of(ascii_lowercase(trimmed(mime_type)))
}

/// Whether the service can be asked for metadata of a kind, for a file with a MIME
/// type.
pub open spec fn is_candidate(kind: MediaMetadataKind, mime_type: Seq<char>) -> bool {
    match kind {
        MediaMetadataKind::Audio => has_mime_prefix(mime_type, "audio/"@),
        MediaMetadataKind::Video => has_mime_prefix(mime_type, "video/"@),
        MediaMetadataKind::Image => false,
    }
}

/// Whether the service can be asked for the metadata of a file: audio and video
/// files whose MIME type says so.
pub fn is_cos_media_info_candidate(kind: MediaMetadataKind, mime_type: &str) -> (candidate: bool)
    ensures
        candidate == is_candidate(kind, mime_type@),
{
    let mime_type: String = to_ascii_lowercase(trim(mime_type));
    match kind {
        MediaMetadataKind::Audio => starts_with(mime_type.as_str(), "audio/"),
        MediaMetadataKind::Video => starts_with(mime_type.as_str(), "video/"),
        MediaMetadataKind::Image => false,
    }
}

/// Whether a rotation turns width into height.
pub open spec fn turns_sideways(rotation_degrees: Option<i32>) -> bool {
    rotation_degrees matches Some(degrees) && degrees as int % 180 == 90
}

/// The size at which a video is shown: its own, or with width and height
/// exchanged where it is turned sideways. The height is not known without the
/// width.
pub open spec fn shown_size(
    width: Option<u32>,
    height: Option<u32>,
    rotation_degrees: Option<i32>,
) -> (Option<u32>, Option<u32>) {
    if width is None {
        (None, None)
    } else if height is Some && turns_sideways(rotation_degrees) {
        (height, width)
    } else {
        (width, height)
    }
}

/// The size at which a video is shown.
pub fn display_dimensions(
    width: Option<u32>,
    height: Option<u32>,
    rotation_degrees: Option<i32>,
) -> (size: (Option<u32>, Option<u32>))
    ensures
        size == shown_size(width, height, rotation_degrees),
{
    if width.is_none() {
        return (None, None);
    }
    if height.is_none() {
        return (width, None);
    }
    let sideways: bool = match rotation_degrees {
        Some(degrees) => match degrees.checked_rem_euclid(180) {
            Some(rest) => rest == 90,
            None => false,
        },
        None => false,
    };
    if sideways {
        (height, width)
    } else {
        (width, height)
    }
}

/// The metadata of a video.
#[derive(Debug, Clone, PartialEq, Eq)]
pub struct VideoMediaMetadata {
    pub duration_ms: Option<u64>,
    pub width: Option<u32>,
    pub height: Option<u32>,
    pub display_width: Option<u32>,
    pub display_height: Option<u32>,
    pub rotation_degrees: Option<i32>,
    pub codec: Option<String>,
    pub container: Option<String>,
    pub frame_rate: Option<String>,
    pub video_bitrate: Option<u64>,
    pub overall_bitrate: Option<u64>,
    pub pixel_format: Option<String>,
    pub bit_depth: Option<u8>,
    pub color_space: Option<String>,
    pub color_transfer: Option<String>,
    pub color_primaries: Option<String>,
    pub hdr_format: Option<String>,
    pub audio_codec: Option<String>,
    pub audio_channels: Option<u32>,
    pub audio_sample_rate: Option<u32>,
    pub audio_bitrate: Option<u64>,
    pub audio_stream_count: u32,
    pub subtitle_stream_count: u32,
    pub creation_time: Option<String>,
}

/// What a `VideoMediaMetadata` stands for.
pub struct Video {
    pub duration_ms: Option<u64>,
    pub width: Option<u32>,
    pub height: Option<u32>,
    pub display_width: Option<u32>,
    pub display_height: Option<u32>,
    pub rotation_degrees: Option<i32>,
    pub codec: Option<Seq<char>>,
    pub container: Option<Seq<char>>,
    pub frame_rate: Option<Seq<char>>,
    pub video_bitrate: Option<u64>,
    pub overall_bitrate: Option<u64>,
    pub pixel_format: Option<Seq<char>>,
    pub bit_depth: Option<u8>,
    pub color_space: Option<Seq<char>>,
    pub color_transfer: Option<Seq<char>>,
    pub color_primaries: Option<Seq<char>>,
    pub hdr_format: Option<Seq<char>>,
    pub audio_codec: Option<Seq<char>>,
    pub audio_channels: Option<u32>,
    pub audio_sample_rate: Option<u32>,
    pub audio_bitrate: Option<u64>,
    pub audio_stream_count: u32,
    pub subtitle_stream_count: u32,
    pub creation_time: Option<Seq<char>>,
}

impl View for VideoMediaMetadata {
    type V = Video;

    open spec fn view(&self) -> Video {
        Video {
            duration_ms: self.duration_ms,
            width: self.width,
            height: self.height,
            display_width: self.display_width,
            display_height: self.display_height,
            rotation_degrees: self.rotation_degrees,
            codec: text_view(self.codec),
            container: text_view(self.container),
            frame_rate: text_view(self.frame_rate),
            video_bitrate: self.video_bitrate,
            overall_bitrate: self.overall_bitrate,
            pixel_format: text_view(self.pixel_format),
            bit_depth: self.bit_depth,
            color_space: text_view(self.color_space),
            color_transfer: text_view(self.color_transfer),
            color_primaries: text_view(self.color_primaries),
            hdr_format: text_view(self.hdr_format),
            audio_codec: text_view(self.audio_codec),
            audio_channels: self.audio_channels,
            audio_sample_rate: self.audio_sample_rate,
            audio_bitrate: self.audio_bitrate,
            audio_stream_count: self.audio_stream_count,
            subtitle_stream_count: self.subtitle_stream_count,
            creation_time: text_view(self.creation_time),
        }
    }
}

/// The metadata of an audio file.
#[derive(Debug, Clone, PartialEq, Eq)]
pub struct AudioMediaMetadata {
    pub title: Option<String>,
    pub artist: Option<String>,
    pub artists: Vec<String>,
    pub album: Option<String>,
    pub album_artist: Option<String>,
    pub duration_ms: Option<u64>,
    pub sample_rate: Option<u32>,
    pub channels: Option<u8>,
    pub bit_depth: Option<u8>,
    pub overall_bitrate: Option<u32>,
    pub audio_bitrate: Option<u32>,
    pub track_number: Option<u32>,
    pub track_total: Option<u32>,
    pub disc_number: Option<u32>,
    pub disc_total: Option<u32>,
    pub genre: Option<String>,
    pub date: Option<String>,
    pub has_embedded_picture: bool,
    pub embedded_picture_mime_type: Option<String>,
}

/// The part of an `AudioMediaMetadata` that a media info document can give.
pub struct Audio {
    pub duration_ms: Option<u64>,
    pub sample_rate: Option<u32>,
    pub channels: Option<u8>,
    pub bit_depth: Option<u8>,
    pub overall_bitrate: Option<u32>,
    pub audio_bitrate: Option<u32>,
    pub date: Option<Seq<char>>,
}

impl View for AudioMediaMetadata {
    type V = Audio;

    open spec fn view(&self) -> Audio {
        Audio {
            duration_ms: self.duration_ms,
            sample_rate: self.sample_rate,
            channels: self.channels,
            bit_depth: self.bit_depth,
            overall_bitrate: self.overall_bitrate,
            audio_bitrate: self.audio_bitrate,
            date: text_view(self.date),
        }
    }
}

impl AudioMediaMetadata {
    /// Whether nothing is said of the work itself: who made it, what it is called,
    /// where it belongs and how it looks.
    pub open spec fn is_untagged(self) -> bool {
        &&& self.title is None
        &&& self.artist is None
        &&& self.artists@.len() == 0
        &&& self.album is None
        &&& self.album_artist is None
        &&& self.track_number is None
        &&& self.track_total is None
        &&& self.disc_number is None
        &&& self.disc_total is None
        &&& self.genre is None
        &&& !self.has_embedded_picture
        &&& self.embedded_picture_mime_type is None
    }
}

/// Metadata of one kind or the other.
#[derive(Debug, Clone, PartialEq, Eq)]
pub enum MediaMetadataPayload {
    Audio(AudioMediaMetadata),
    Video(VideoMediaMetadata),
}

/// The metadata of a file, and where it comes from.
#[derive(Debug, Clone, PartialEq, Eq)]
pub struct NativeMediaMetadataResult {
    pub kind: MediaMetadataKind,
    pub metadata: MediaMetadataPayload,
    pub parser: String,
    pub parser_version: String,
}

/// The durations that a media info document gives, each as it is written there.
#[derive(Debug, Clone, PartialEq, Eq)]
pub struct DurationTexts {
    pub video: Option<String>,
    pub audio: Option<String>,
    pub format: Option<String>,
}

/// The durations that a media info document gives, in milliseconds; none where
/// the text of `DurationTexts` is no duration.
#[derive(Debug, Clone, Copy, PartialEq, Eq)]
pub struct DurationMillis {
    pub video: Option<u64>,
    pub audio: Option<u64>,
    pub format: Option<u64>,
}

/// The text under the first of some names among the children of a node.
pub open spec fn text_in(node: Option<Element>, candidates: Seq<Seq<char>>) -> Option<Seq<char>> {
    match node {
        Some(e) => text_by_names(e.children, candidates),
        None => None,
    }
}

/// The `u8` under the first of some names among the children of a node.
pub open spec fn u8_in(node: Option<Element>, candidates: Seq<Seq<char>>) -> Option<u8> {
    match node {
        Some(e) => u8_by_names(e.children, candidates),
        None => None,
    }
}

/// The `u32` under the first of some names among the children of a node.
pub open spec fn u32_in(node: Option<Element>, candidates: Seq<Seq<char>>) -> Option<u32> {
    match node {
        Some(e) => u32_by_names(e.children, candidates),
        None => None,
    }
}

/// The `u64` under the first of some names among the children of a node.
pub open spec fn u64_in(node: Option<Element>, candidates: Seq<Seq<char>>) -> Option<u64> {
    match node {
        Some(e) => u64_by_names(e.children, candidates),
        None => None,
    }
}

/// The `i32` under the first of some names among the children of a node.
pub open spec fn i32_in(node: Option<Element>, candidates: Seq<Seq<char>>) -> Option<i32> {
    match node {
        Some(e) => i32_by_names(e.children, candidates),
        None => None,
    }
}

/// The first value, or else the second.
pub open spec fn either<T>(first: Option<T>, second: Option<T>) -> Option<T> {
    if first is Some {
        first
    } else {
        second
    }
}

/// The metadata of the video that a media info document describes.
pub open spec fn video_of(root: Element, durations: DurationMillis) -> Video {
    let video = first_namesake(root, "Video"@);
    let audio = first_namesake(root, "Audio"@);
    let format = first_namesake(root, "Format"@);
    let width = u32_in(video, seq!["Width"@]);
    let height = u32_in(video, seq!["Height"@]);
    let rotation_degrees = i32_in(video, seq!["Rotate"@, "Rotation"@]);
    let shown = shown_size(width, height, rotation_degrees);
    Video {
        duration_ms: either(durations.video, durations.format),
        width,
        height,
        display_width: shown.0,
        display_height: shown.1,
        rotation_degrees,
        codec: text_in(video, seq!["CodecName"@, "Codec"@]),
        container: text_in(format, seq!["FormatName"@, "Format"@]),
        frame_rate: text_in(video, seq!["Fps"@, "FrameRate"@, "AvgFrameRate"@]),
        video_bitrate: u64_in(video, seq!["Bitrate"@, "BitRate"@]),
        overall_bitrate: u64_in(format, seq!["Bitrate"@, "BitRate"@]),
        pixel_format: text_in(video, seq!["PixFormat"@, "PixelFormat"@]),
        bit_depth: u8_in(video, seq!["BitDepth"@]),
        color_space: text_in(video, seq!["ColorSpace"@]),
        color_transfer: text_in(video, seq!["ColorTransfer"@]),
        color_primaries: text_in(video, seq!["ColorPrimaries"@]),
        hdr_format: text_in(video, seq!["HdrFormat"@, "HDRFormat"@]),
        audio_codec: text_in(audio, seq!["CodecName"@, "Codec"@]),
        audio_channels: u32_in(audio, seq!["Channel"@, "Channels"@]),
        audio_sample_rate: u32_in(audio, seq!["SampleRate"@]),
        audio_bitrate: u64_in(audio, seq!["Bitrate"@, "BitRate"@]),
        audio_stream_count: clamped(namesakes(root, "Audio"@).len()),
        subtitle_stream_count: clamped(namesakes(root, "Subtitle"@).len()),
        creation_time: either(
            text_in(format, seq!["CreationTime"@]),
            text_in(video, seq!["CreationTime"@]),
        ),
    }
}

/// The metadata of the audio file that a media info document describes.
pub open spec fn audio_of(root: Element, durations: DurationMillis) -> Audio {
    let audio = first_namesake(root, "Audio"@);
    let format = first_namesake(root, "Format"@);
    Audio {
        duration_ms: either(durations.audio, durations.format),
        sample_rate: u32_in(audio, seq!["SampleRate"@]),
        channels: u8_in(audio, seq!["Channel"@, "Channels"@]),
        bit_depth: u8_in(audio, seq!["BitDepth"@]),
        overall_bitrate: either(
            u32_in(format, seq!["Bitrate"@, "BitRate"@]),
            u32_in(audio, seq!["Bitrate"@, "BitRate"@]),
        ),
        audio_bitrate: u32_in(audio, seq!["Bitrate"@, "BitRate"@]),
        date: text_in(format, seq!["CreationTime"@]),
    }
}

fn node_text(node: Option<&XmlElement>, candidates: &[&str]) -> (text: Option<String>)
    ensures
        text_view(text) == text_in(node_view(node), strs_view(candidates@)),
{
    match node {
        Some(e) => child_string(e, candidates),
        None => None,
    }
}

fn node_u8(node: Option<&XmlElement>, candidates: &[&str]) -> (value: Option<u8>)
    ensures
        value == u8_in(node_view(node), strs_view(candidates@)),
{
    match node {
        Some(e) => child_u8(e, candidates),
        None => None,
    }
}

fn node_u32(node: Option<&XmlElement>, candidates: &[&str]) -> (value: Option<u32>)
    ensures
        value == u32_in(node_view(node), strs_view(candidates@)),
{
    match node {
        Some(e) => child_u32(e, candidates),
        None => None,
    }
}

fn node_u64(node: Option<&XmlElement>, candidates: &[&str]) -> (value: Option<u64>)
    ensures
        value == u64_in(node_view(node), strs_view(candidates@)),
{
    match node {
        Some(e) => child_u64(e, candidates),
        None => None,
    }
}

fn node_i32(node: Option<&XmlElement>, candidates: &[&str]) -> (value: Option<i32>)
    ensures
        value == i32_in(node_view(node), strs_view(candidates@)),
{
    match node {
        Some(e) => child_i32(e, candidates),
        None => None,
    }
}

/// The duration that a media info document gives for a part of it.
pub open spec fn duration_text(root: Element, part: Seq<char>) -> Option<Seq<char>> {
    text_in(first_namesake(root, part), seq!["Duration"@])
}

/// The durations that a media info document gives, each as it is written there.
pub fn duration_texts(root: &XmlElement) -> (texts: DurationTexts)
    ensures
        text_view(texts.video) == duration_text(root@, "Video"@),
        text_view(texts.audio) == duration_text(root@, "Audio"@),
        text_view(texts.format) == duration_text(root@, "Format"@),
{
    let duration: [&str; 1] = ["Duration"];
    assert(strs_view(duration@) =~= seq!["Duration"@]);
    DurationTexts {
        video: node_text(first_descendant(root, "Video"), &duration),
        audio: node_text(first_descendant(root, "Audio"), &duration),
        format: node_text(first_descendant(root, "Format"), &duration),
    }
}

/// Reads the metadata of a video from the root of a media info document.
pub fn parse_cos_video_metadata(root: &XmlElement, durations: DurationMillis) -> (metadata:
    VideoMediaMetadata)
    ensures
        metadata@ == video_of(root@, durations),
{
    let width_names: [&str; 1] = ["Width"];
    let height_names: [&str; 1] = ["Height"];
    let rotation_names: [&str; 2] = ["Rotate", "Rotation"];
    let codec_names: [&str; 2] = ["CodecName", "Codec"];
    let container_names: [&str; 2] = ["FormatName", "Format"];
    let frame_rate_names: [&str; 3] = ["Fps", "FrameRate", "AvgFrameRate"];
    let bitrate_names: [&str; 2] = ["Bitrate", "BitRate"];
    let pixel_format_names: [&str; 2] = ["PixFormat", "PixelFormat"];
    let bit_depth_names: [&str; 1] = ["BitDepth"];
    let color_space_names: [&str; 1] = ["ColorSpace"];
    let color_transfer_names: [&str; 1] = ["ColorTransfer"];
    let color_primaries_names: [&str; 1] = ["ColorPrimaries"];
    let hdr_format_names: [&str; 2] = ["HdrFormat", "HDRFormat"];
    let channel_names: [&str; 2] = ["Channel", "Channels"];
    let sample_rate_names: [&str; 1] = ["SampleRate"];
    let creation_time_names: [&str; 1] = ["CreationTime"];
    proof {
        assert(strs_view(width_names@) =~= seq!["Width"@]);
        assert(strs_view(height_names@) =~= seq!["Height"@]);
        assert(strs_view(rotation_names@) =~= seq!["Rotate"@, "Rotation"@]);
        assert(strs_view(codec_names@) =~= seq!["CodecName"@, "Codec"@]);
        assert(strs_view(container_names@) =~= seq!["FormatName"@, "Format"@]);
        assert(strs_view(frame_rate_names@) =~= seq!["Fps"@, "FrameRate"@, "AvgFrameRate"@]);
        assert(strs_view(bitrate_names@) =~= seq!["Bitrate"@, "BitRate"@]);
        assert(strs_view(pixel_format_names@) =~= seq!["PixFormat"@, "PixelFormat"@]);
        assert(strs_view(bit_depth_names@) =~= seq!["BitDepth"@]);
        assert(strs_view(color_space_names@) =~= seq!["ColorSpace"@]);
        assert(strs_view(color_transfer_names@) =~= seq!["ColorTransfer"@]);
        assert(strs_view(color_primaries_names@) =~= seq!["ColorPrimaries"@]);
        assert(strs_view(hdr_format_names@) =~= seq!["HdrFormat"@, "HDRFormat"@]);
        assert(strs_view(channel_names@) =~= seq!["Channel"@, "Channels"@]);
        assert(strs_view(sample_rate_names@) =~= seq!["SampleRate"@]);
        assert(strs_view(creation_time_names@) =~= seq!["CreationTime"@]);
    }
    let video: Option<&XmlElement> = first_descendant(root, "Video");
    let audio: Option<&XmlElement> = first_descendant(root, "Audio");
    let format: Option<&XmlElement> = first_descendant(root, "Format");
    let width: Option<u32> = node_u32(video, &width_names);
    let height: Option<u32> = node_u32(video, &height_names);
    let rotation_degrees: Option<i32> = node_i32(video, &rotation_names);
    let (display_width, display_height) = display_dimensions(width, height, rotation_degrees);
    VideoMediaMetadata {
        duration_ms: if durations.video.is_some() {
            durations.video
        } else {
            durations.format
        },
        width,
        height,
        display_width,
        display_height,
        rotation_degrees,
        codec: node_text(video, &codec_names),
        container: node_text(format, &container_names),
        frame_rate: node_text(video, &frame_rate_names),
        video_bitrate: node_u64(video, &bitrate_names),
        overall_bitrate: node_u64(format, &bitrate_names),
        pixel_format: node_text(video, &pixel_format_names),
        bit_depth: node_u8(video, &bit_depth_names),
        color_space: node_text(video, &color_space_names),
        color_transfer: node_text(video, &color_transfer_names),
        color_primaries: node_text(video, &color_primaries_names),
        hdr_format: node_text(video, &hdr_format_names),
        audio_codec: node_text(audio, &codec_names),
        audio_channels: node_u32(audio, &channel_names),
        audio_sample_rate: node_u32(audio, &sample_rate_names),
        audio_bitrate: node_u64(audio, &bitrate_names),
        audio_stream_count: descendant_count(root, "Audio"),
        subtitle_stream_count: descendant_count(root, "Subtitle"),
        creation_time: match node_text(format, &creation_time_names) {
            Some(time) => Some(time),
            None => node_text(video, &creation_time_names),
        },
    }
}

/// Reads the metadata of an audio file from the root of a media info document.
pub fn parse_cos_audio_metadata(root: &XmlElement, durations: DurationMillis) -> (metadata:
    AudioMediaMetadata)
    ensures
        metadata@ == audio_of(root@, durations),
        metadata.is_untagged(),
{
    let sample_rate_names: [&str; 1] = ["SampleRate"];
    let channel_names: [&str; 2] = ["Channel", "Channels"];
    let bit_depth_names: [&str; 1] = ["BitDepth"];
    let bitrate_names: [&str; 2] = ["Bitrate", "BitRate"];
    let creation_time_names: [&str; 1] = ["CreationTime"];
    proof {
        assert(strs_view(sample_rate_names@) =~= seq!["SampleRate"@]);
        assert(strs_view(channel_names@) =~= seq!["Channel"@, "Channels"@]);
        assert(strs_view(bit_depth_names@) =~= seq!["BitDepth"@]);
        assert(strs_view(bitrate_names@) =~= seq!["Bitrate"@, "BitRate"@]);
        assert(strs_view(creation_time_names@) =~= seq!["CreationTime"@]);
    }
    let audio: Option<&XmlElement> = first_descendant(root, "Audio");
    let format: Option<&XmlElement> = first_descendant(root, "Format");
    let audio_bitrate: Option<u32> = node_u32(audio, &bitrate_names);
    let format_bitrate: Option<u32> = node_u32(format, &bitrate_names);
    AudioMediaMetadata {
        title: None,
        artist: None,
        artists: Vec::new(),
        album: None,
        album_artist: None,
        duration_ms: if durations.audio.is_some() {
            durations.audio
        } else {
            durations.format
        },
        sample_rate: node_u32(audio, &sample_rate_names),
        channels: node_u8(audio, &channel_names),
        bit_depth: node_u8(audio, &bit_depth_names),
        overall_bitrate: if format_bitrate.is_some() {
            format_bitrate
        } else {
            audio_bitrate
        },
        audio_bitrate,
        track_number: None,
        track_total: None,
        disc_number: None,
        disc_total: None,
        genre: None,
        date: node_text(format, &creation_time_names),
        has_embedded_picture: false,
        embedded_picture_mime_type: None,
    }
}

/// The failure for a kind of metadata that the service does not give.
pub open spec fn image_unsupported() -> Failure {
    Failure {
        kind: StorageErrorKind::Unsupported,
        code: None,
        message: "COS native media metadata does not support image metadata"@,
    }
}

/// Whether `result` is the metadata of the given kind that a media info document
/// describes.
pub open spec fn is_metadata_of(
    result: NativeMediaMetadataResult,
    kind: MediaMetadataKind,
    root: Element,
    durations: DurationMillis,
) -> bool {
    &&& result.kind == kind
    &&& result.parser@ == COS_NATIVE_MEDIA_METADATA_PARSER@
    &&& result.parser_version@ == COS_NATIVE_MEDIA_METADATA_VERSION@
    &&& match kind {
        MediaMetadataKind::Video => result.metadata matches MediaMetadataPayload::Video(video)
            && video@ == video_of(root, durations),
        MediaMetadataKind::Audio => result.metadata matches MediaMetadataPayload::Audio(audio)
            && audio@ == audio_of(root, durations) && audio.is_untagged(),
        MediaMetadataKind::Image => false,
    }
}

/// Whether `parsed` is what a media info document comes to, where parsing it gave
/// `document`.
pub open spec fn is_parsed_media_info(
    parsed: Result<NativeMediaMetadataResult, AsterError>,
    document: Result<XmlElement, String>,
    kind: MediaMetadataKind,
    durations: DurationMillis,
) -> bool {
    match document {
        Ok(root) => if kind == MediaMetadataKind::Image {
            parsed matches Err(error) && error@ == image_unsupported()
        } else {
            parsed matches Ok(result) && is_metadata_of(result, kind, root@, durations)
        },
        Err(cause) => parsed matches Err(error) && error@ == failed_step(
            "parse COS native media metadata XML"@,
            cause@,
        ),
    }
}

/// Reads metadata of a kind from what parsing a media info document within
/// `media_info_xml_options` gave: its root, or the parser's complaint.
pub fn parse_cos_media_info_xml(
    document: &Result<XmlElement, String>,
    kind: MediaMetadataKind,
    durations: DurationMillis,
) -> (parsed: Result<NativeMediaMetadataResult, AsterError>)
    ensures
        is_parsed_media_info(parsed, *document, kind, durations),
{
    let root: &XmlElement = match document {
        Ok(root) => root,
        Err(cause) => {
            return Err(
                AsterError::storage_driver_error(
                    "parse COS native media metadata XML",
                    cause.as_str(),
                ),
            );
        },
    };
    let metadata: MediaMetadataPayload = match kind {
        MediaMetadataKind::Video => MediaMetadataPayload::Video(
            parse_cos_video_metadata(root, durations),
        ),
        MediaMetadataKind::Audio => MediaMetadataPayload::Audio(
            parse_cos_audio_metadata(root, durations),
        ),
        MediaMetadataKind::Image => {
            return Err(
                storage_driver_error(
                    StorageErrorKind::Unsupported,
                    "COS native media metadata does not support image metadata".to_string(),
                ),
            );
        },
    };
    Ok(
        NativeMediaMetadataResult {
            kind,
            metadata,
            parser: COS_NATIVE_MEDIA_METADATA_PARSER.to_string(),
            parser_version: COS_NATIVE_MEDIA_METADATA_VERSION.to_string(),
        },
    )
}

} // verus!

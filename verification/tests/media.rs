use aster_drive::errors::{ApiErrorCode, StorageErrorKind};
use aster_drive::http::HttpStatus;
use aster_drive::media_request::{
    media_info_key_time, media_metadata_from_response, CALENDAR_END, CALENDAR_START,
};
use aster_drive::media_tree::{
    child_i32, child_string, child_u32, child_u64, child_u8, descendant_count, first_descendant,
};
use aster_drive::native_media_metadata::{
    display_dimensions, duration_texts, is_cos_media_info_candidate, media_info_xml_options,
    parse_cos_media_info_xml, AudioMediaMetadata, DurationMillis, MediaMetadataKind,
    MediaMetadataPayload, NativeMediaMetadataResult,
};
use aster_drive::xml::XmlElement;

fn tree_of(element: &xmltree::Element) -> XmlElement {
    let mut tree = XmlElement::new(&element.name);
    if let Some(text) = element.get_text() {
        tree = tree.with_text(&text);
    }
    for node in &element.children {
        if let Some(child) = node.as_element() {
            tree.push(tree_of(child));
        }
    }
    tree
}

fn document(xml: &str) -> XmlElement {
    tree_of(&xmltree::Element::parse(xml.as_bytes()).expect("XML"))
}

fn millis(text: &Option<String>) -> Option<u64> {
    let seconds = text.as_ref()?.parse::<f64>().ok()?;
    if seconds.is_finite() && seconds > 0.0 {
        Some((seconds * 1000.0).round() as u64)
    } else {
        None
    }
}

fn durations(root: &XmlElement) -> DurationMillis {
    let texts = duration_texts(root);
    DurationMillis {
        video: millis(&texts.video),
        audio: millis(&texts.audio),
        format: millis(&texts.format),
    }
}

fn read(xml: &str, kind: MediaMetadataKind) -> NativeMediaMetadataResult {
    let root = document(xml);
    let times = durations(&root);
    parse_cos_media_info_xml(&Ok(root), kind, times).expect("media info")
}

const NO_DURATIONS: DurationMillis = DurationMillis { video: None, audio: None, format: None };

#[test]
fn parses_cos_video_media_info_xml() {
    let xml = r#"
            <Response>
              <MediaInfo>
                <Stream>
                  <Video>
                    <CodecName>h264</CodecName>
                    <Width>1920</Width>
                    <Height>1080</Height>
                    <Duration>12.345000</Duration>
                    <Bitrate>8000000</Bitrate>
                    <Fps>30000/1001</Fps>
                    <Rotate>90</Rotate>
                  </Video>
                  <Audio>
                    <CodecName>aac</CodecName>
                    <Channel>2</Channel>
                    <SampleRate>48000</SampleRate>
                    <Bitrate>192000</Bitrate>
                  </Audio>
                  <Subtitle>
                    <CodecName>subrip</CodecName>
                  </Subtitle>
                </Stream>
                <Format>
                  <FormatName>mov,mp4,m4a,3gp,3g2,mj2</FormatName>
                  <Duration>12.345000</Duration>
                  <Bitrate>8192000</Bitrate>
                  <CreationTime>2026-06-03T10:00:00Z</CreationTime>
                </Format>
              </MediaInfo>
            </Response>
        "#;

    let result = read(xml, MediaMetadataKind::Video);
    assert_eq!(result.kind, MediaMetadataKind::Video);
    assert_eq!(result.parser, "tencent_cos_ci_videoinfo");
    assert_eq!(result.parser_version, "1");
    let MediaMetadataPayload::Video(metadata) = result.metadata else {
        panic!("expected video payload");
    };
    assert_eq!(metadata.duration_ms, Some(12_345));
    assert_eq!(metadata.width, Some(1920));
    assert_eq!(metadata.height, Some(1080));
    assert_eq!(metadata.display_width, Some(1080));
    assert_eq!(metadata.display_height, Some(1920));
    assert_eq!(metadata.rotation_degrees, Some(90));
    assert_eq!(metadata.codec.as_deref(), Some("h264"));
    assert_eq!(
        metadata.container.as_deref(),
        Some("mov,mp4,m4a,3gp,3g2,mj2")
    );
    assert_eq!(metadata.audio_codec.as_deref(), Some("aac"));
    assert_eq!(metadata.audio_stream_count, 1);
    assert_eq!(metadata.subtitle_stream_count, 1);
    assert_eq!(metadata.frame_rate.as_deref(), Some("30000/1001"));
    assert_eq!(metadata.video_bitrate, Some(8_000_000));
    assert_eq!(metadata.overall_bitrate, Some(8_192_000));
    assert_eq!(metadata.audio_channels, Some(2));
    assert_eq!(metadata.audio_sample_rate, Some(48_000));
    assert_eq!(metadata.audio_bitrate, Some(192_000));
    assert_eq!(metadata.creation_time.as_deref(), Some("2026-06-03T10:00:00Z"));
    assert_eq!(metadata.pixel_format, None);
    assert_eq!(metadata.bit_depth, None);
}

#[test]
fn parses_cos_audio_media_info_xml() {
    let xml = r#"
            <MediaInfo>
              <Stream>
                <Audio>
                  <SampleRate>44100</SampleRate>
                  <Channel>2</Channel>
                  <Duration>5.5</Duration>
                  <Bitrate>128000</Bitrate>
                </Audio>
              </Stream>
              <Format>
                <Duration>5.5</Duration>
                <Bitrate>130000</Bitrate>
              </Format>
            </MediaInfo>
        "#;

    let result = read(xml, MediaMetadataKind::Audio);
    let MediaMetadataPayload::Audio(metadata) = result.metadata else {
        panic!("expected audio payload");
    };
    assert_eq!(metadata.duration_ms, Some(5_500));
    assert_eq!(metadata.sample_rate, Some(44_100));
    assert_eq!(metadata.channels, Some(2));
    assert_eq!(metadata.audio_bitrate, Some(128_000));
    assert_eq!(metadata.overall_bitrate, Some(130_000));
    assert_eq!(
        metadata,
        AudioMediaMetadata {
            title: None,
            artist: None,
            artists: Vec::new(),
            album: None,
            album_artist: None,
            duration_ms: Some(5_500),
            sample_rate: Some(44_100),
            channels: Some(2),
            bit_depth: None,
            overall_bitrate: Some(130_000),
            audio_bitrate: Some(128_000),
            track_number: None,
            track_total: None,
            disc_number: None,
            disc_total: None,
            genre: None,
            date: None,
            has_embedded_picture: false,
            embedded_picture_mime_type: None,
        }
    );
}

#[test]
fn duration_texts_are_given_as_written() {
    let root = document("<Info><Video><duration> 1.2345 </duration></Video><Format><Duration>NaN</Duration></Format></Info>");
    let texts = duration_texts(&root);
    assert_eq!(texts.video.as_deref(), Some("1.2345"));
    assert_eq!(texts.audio, None);
    assert_eq!(texts.format.as_deref(), Some("NaN"));
}

#[test]
fn durations_fall_back_to_the_format() {
    let root = || Ok(document("<Info><Video/><Audio/></Info>"));
    let times = DurationMillis { video: None, audio: Some(7), format: Some(9) };
    let video = parse_cos_media_info_xml(&root(), MediaMetadataKind::Video, times).expect("video");
    let MediaMetadataPayload::Video(metadata) = video.metadata else {
        panic!("expected video payload");
    };
    assert_eq!(metadata.duration_ms, Some(9));
    let audio = parse_cos_media_info_xml(&root(), MediaMetadataKind::Audio, times).expect("audio");
    let MediaMetadataPayload::Audio(metadata) = audio.metadata else {
        panic!("expected audio payload");
    };
    assert_eq!(metadata.duration_ms, Some(7));
}

#[test]
fn audio_values_fall_back_and_dates_do_not() {
    let xml = "<Info><Audio><Bitrate>64000</Bitrate><Channels>300</Channels><CreationTime>x</CreationTime></Audio><Format><BitRate>many</BitRate></Format></Info>";
    let MediaMetadataPayload::Audio(metadata) = read(xml, MediaMetadataKind::Audio).metadata else {
        panic!("expected audio payload");
    };
    assert_eq!(metadata.overall_bitrate, Some(64_000));
    assert_eq!(metadata.channels, None);
    assert_eq!(metadata.date, None);
}

#[test]
fn a_document_without_streams_says_nothing_of_them() {
    let MediaMetadataPayload::Video(metadata) =
        read("<Info><Format/></Info>", MediaMetadataKind::Video).metadata
    else {
        panic!("expected video payload");
    };
    assert_eq!(metadata.audio_stream_count, 0);
    assert_eq!(metadata.audio_codec, None);
    assert_eq!(metadata.width, None);
    assert_eq!(metadata.display_width, None);
}

#[test]
fn images_and_broken_documents_are_refused() {
    let error = parse_cos_media_info_xml(
        &Ok(XmlElement::new("MediaInfo")),
        MediaMetadataKind::Image,
        NO_DURATIONS,
    )
    .expect_err("image");
    assert_eq!(
        error.message(),
        "COS native media metadata does not support image metadata"
    );
    assert_eq!(error.kind(), StorageErrorKind::Unsupported);
    assert_eq!(error.api_error_code(), ApiErrorCode::StorageUnsupported);
    let error = parse_cos_media_info_xml(
        &Err("too deep".to_string()),
        MediaMetadataKind::Image,
        NO_DURATIONS,
    )
    .expect_err("broken document");
    assert_eq!(
        error.message(),
        "parse COS native media metadata XML: too deep"
    );
}

#[test]
fn candidates_are_audio_and_video() {
    for (kind, mime_type, expected) in [
        (MediaMetadataKind::Audio, "audio/mpeg", true),
        (MediaMetadataKind::Audio, " \tAUDIO/flac ", true),
        (MediaMetadataKind::Audio, "video/mp4", false),
        (MediaMetadataKind::Audio, "audio", false),
        (MediaMetadataKind::Video, "Video/mp4", true),
        (MediaMetadataKind::Video, "\u{3000}video/mp4", true),
        (MediaMetadataKind::Video, "x-video/mp4", false),
        (MediaMetadataKind::Image, "image/png", false),
        (MediaMetadataKind::Image, "video/mp4", false),
    ] {
        assert_eq!(is_cos_media_info_candidate(kind, mime_type), expected);
    }
}

#[test]
fn quarter_turns_exchange_width_and_height() {
    for degrees in [90, -90, 270, 450, -270] {
        assert_eq!(
            display_dimensions(Some(4), Some(3), Some(degrees)),
            (Some(3), Some(4))
        );
        assert_eq!(
            display_dimensions(Some(3), Some(4), Some(degrees)),
            (Some(4), Some(3))
        );
    }
    for degrees in [0, 180, 360, -180, 45, 91, i32::MIN, i32::MAX] {
        assert_eq!(
            display_dimensions(Some(4), Some(3), Some(degrees)),
            (Some(4), Some(3))
        );
    }
    assert_eq!(display_dimensions(Some(4), Some(3), None), (Some(4), Some(3)));
    assert_eq!(display_dimensions(None, Some(3), Some(90)), (None, None));
    assert_eq!(display_dimensions(Some(4), None, Some(90)), (Some(4), None));
}

#[test]
fn elements_are_found_in_document_order() {
    let root = document(
        "<Info><Stream><AUDIO><N>1</N></AUDIO></Stream><Audio><N>2</N><Audio/></Audio></Info>",
    );
    let first = first_descendant(&root, "Audio").expect("audio");
    assert_eq!(child_u8(first, &["N"]), Some(1));
    assert_eq!(descendant_count(&root, "audio"), 3);
    assert_eq!(descendant_count(&root, "Video"), 0);
    assert_eq!(first_descendant(&root, "Video"), None);
    assert_eq!(first_descendant(&root, "info").map(|e| e.name.clone()), Some("Info".to_string()));
}

#[test]
fn names_are_tried_in_order() {
    let root = document("<V><B>second</B><A> </A><a>first</a></V>");
    assert_eq!(child_string(&root, &["A", "B"]).as_deref(), Some("first"));
    assert_eq!(child_string(&root, &["B", "A"]).as_deref(), Some("second"));
    assert_eq!(child_string(&root, &["C", "B"]).as_deref(), Some("second"));
    assert_eq!(child_string(&root, &[]), None);
}

#[test]
fn numbers_keep_to_their_types() {
    let number = |text: &str| {
        let mut element = XmlElement::new("V");
        element.push(XmlElement::new("N").with_text(text));
        element
    };
    assert_eq!(child_u8(&number("255"), &["N"]), Some(255));
    assert_eq!(child_u8(&number("256"), &["N"]), None);
    assert_eq!(child_u32(&number("4294967295"), &["N"]), Some(u32::MAX));
    assert_eq!(child_u32(&number("4294967296"), &["N"]), None);
    assert_eq!(child_u64(&number("18446744073709551615"), &["N"]), Some(u64::MAX));
    assert_eq!(child_u64(&number("18446744073709551616"), &["N"]), None);
    assert_eq!(child_i32(&number("-2147483648"), &["N"]), Some(i32::MIN));
    assert_eq!(child_i32(&number("-2147483649"), &["N"]), None);
    assert_eq!(child_i32(&number("2147483647"), &["N"]), Some(i32::MAX));
    assert_eq!(child_i32(&number("2147483648"), &["N"]), None);
    assert_eq!(child_i32(&number("+90"), &["N"]), Some(90));
    assert_eq!(child_i32(&number("-"), &["N"]), None);
    assert_eq!(child_i32(&number("- 1"), &["N"]), None);
    assert_eq!(child_u8(&number("000000000000000000000000000007"), &["N"]), Some(7));
}

#[test]
fn key_times_follow_the_calendar() {
    assert_eq!(
        media_info_key_time(1_700_000_000, 0, 900, 0),
        Ok("1700000000;1700000900".to_string())
    );
    assert_eq!(
        media_info_key_time(-5, 600_000_000, 4, 500_000_000),
        Ok("-5;0".to_string())
    );
    assert_eq!(CALENDAR_START, chrono::DateTime::<chrono::Utc>::MIN_UTC.timestamp());
    assert_eq!(CALENDAR_END, chrono::DateTime::<chrono::Utc>::MAX_UTC.timestamp());
    assert_eq!(
        media_info_key_time(CALENDAR_END - 1, 999_999_999, 0, 1),
        Ok(format!("{};{}", CALENDAR_END - 1, CALENDAR_END))
    );
    assert_eq!(
        media_info_key_time(CALENDAR_START, 0, 1, 0),
        Ok(format!("{};{}", CALENDAR_START, CALENDAR_START + 1))
    );
}

#[test]
fn spans_that_cannot_be_added_are_refused() {
    for (seconds, nanos) in [
        (u64::MAX, 0),
        (9_223_372_036_854_776, 0),
        (9_223_372_036_854_775, 807_000_001),
    ] {
        let error = media_info_key_time(0, 0, seconds, nanos).expect_err("span");
        assert_eq!(
            error.message(),
            "COS media info expiry: Source duration value is out of range for the target type"
        );
        assert_eq!(error.kind(), StorageErrorKind::Unknown);
    }
    let longest = std::time::Duration::new(9_223_372_036_854_775, 807_000_000);
    assert!(chrono::TimeDelta::from_std(longest).is_ok());
}

#[test]
fn refused_requests_have_their_kind() {
    for (code, kind) in [
        (404, StorageErrorKind::NotFound),
        (401, StorageErrorKind::Auth),
        (403, StorageErrorKind::Auth),
        (429, StorageErrorKind::RateLimited),
        (502, StorageErrorKind::Transient),
        (400, StorageErrorKind::Unsupported),
        (301, StorageErrorKind::Unsupported),
    ] {
        let error = media_metadata_from_response(
            HttpStatus::from_u16(code).expect("status code"),
            &Ok(XmlElement::new("MediaInfo")),
            MediaMetadataKind::Video,
            NO_DURATIONS,
        )
        .expect_err("refused");
        assert_eq!(error.kind(), kind);
        assert_eq!(error.api_error_code_override(), None);
    }
    let error = media_metadata_from_response(
        HttpStatus::from_u16(404).expect("status code"),
        &Err("not read".to_string()),
        MediaMetadataKind::Video,
        NO_DURATIONS,
    )
    .expect_err("refused");
    assert_eq!(
        error.message(),
        "COS native media metadata request failed with HTTP 404 Not Found"
    );
    let answered = media_metadata_from_response(
        HttpStatus::from_u16(200).expect("status code"),
        &Ok(XmlElement::new("MediaInfo")),
        MediaMetadataKind::Video,
        NO_DURATIONS,
    );
    assert!(answered.is_ok());
}

#[test]
fn media_info_limits() {
    let options = media_info_xml_options();
    assert_eq!(
        (options.max_size, options.max_depth, options.max_elements),
        (256 * 1024, 16, 500)
    );
}

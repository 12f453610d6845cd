//! What media info documents tell, element by element.

use vstd::prelude::*;

use crate::cors_document_laws::with_child;
use crate::errors::{AsterError, Failure, StorageErrorKind};
use crate::media_request::{
    is_answered, media_info_span, media_info_refusal, media_info_refusal_kind, second_after,
};
use crate::media_tree::{
    first_namesake, lemma_namesakes, lemma_namesakes_push, named_text, named_texts, namesakes,
    text_by_names,
};
use crate::native_media_metadata::{
    audio_of, duration_text, i32_in, is_candidate, is_parsed_media_info, shown_size, text_in,
    u32_in, u64_in, u8_in, video_of, Audio, DurationMillis, MediaMetadataKind, MediaMetadataPayload,
    NativeMediaMetadataResult, Video,
};
use crate::numerals::{decimal_signed, parse_signed, parse_unsigned};
use crate::text::ascii_lowercase;
use crate::text_laws::{
    all_white, has_clean_ends, law_lower_case_moves_capitals, law_trimming_drops_what_is_around,
    same_letter,
};
use crate::xml::{Element, XmlElement};
use crate::xml_utils::{names_ignore_case, non_blank};

verus! {

/// The elements with a name are those of an element's children, one child after the
/// other, and before them the element itself where it has the name. The first of
/// them in this order is the one that counts.
pub proof fn law_elements_are_found_child_by_child(e: Element, child: Element, name: Seq<char>)
    ensures
        namesakes(with_child(e, child), name).len() == namesakes(e, name).len() + namesakes(
            child,
            name,
        ).len(),
        first_namesake(with_child(e, child), name) == (if names_ignore_case(e.name, name) {
            Some(with_child(e, child))
        } else if first_namesake(e, name) is Some {
            first_namesake(e, name)
        } else {
            first_namesake(child, name)
        }),
        e.children.len() == 0 ==> {
            &&& namesakes(e, name).len() == (if names_ignore_case(e.name, name) {
                1nat
            } else {
                0
            })
            &&& first_namesake(e, name) == (if names_ignore_case(e.name, name) {
                Some(e)
            } else {
                None
            })
        },
{
    lemma_namesakes(e, name);
    lemma_namesakes(with_child(e, child), name);
    lemma_namesakes_push(e.children, child, name);
}

/// The streams of a video are counted by their names. A child that is added, with
/// all that is inside it, adds its own audio streams to the one count and its own
/// subtitles to the other; so a leaf adds one where it has the name, and changes
/// nothing where it has another. The counts stop at the largest `u32`.
pub proof fn law_streams_are_counted_by_name(
    root: Element,
    child: Element,
    durations: DurationMillis,
)
    ensures
        ({
            let before = video_of(root, durations);
            let after = video_of(with_child(root, child), durations);
            let added = video_of(child, durations);
            &&& after.subtitle_stream_count == (if before.subtitle_stream_count
                + added.subtitle_stream_count < 4294967295 {
                before.subtitle_stream_count + added.subtitle_stream_count
            } else {
                4294967295
            })
            &&& after.audio_stream_count == (if before.audio_stream_count
                + added.audio_stream_count < 4294967295 {
                before.audio_stream_count + added.audio_stream_count
            } else {
                4294967295
            })
        }),
        root.children.len() == 0 ==> {
            &&& video_of(root, durations).subtitle_stream_count == (if names_ignore_case(
                root.name,
                "Subtitle"@,
            ) {
                1int
            } else {
                0
            })
            &&& video_of(root, durations).audio_stream_count == (if names_ignore_case(
                root.name,
                "Audio"@,
            ) {
                1int
            } else {
                0
            })
        },
{
    law_elements_are_found_child_by_child(root, child, "Subtitle"@);
    law_elements_are_found_child_by_child(root, child, "Audio"@);
}

/// Whether a child has a name, up to case, and a text.
pub open spec fn says(child: Element, name: Seq<char>, text: Seq<char>) -> bool {
    names_ignore_case(child.name, name) && non_blank(child.text) == Some(text)
}

/// Whether no child of some has a text under a name.
pub open spec fn none_says(children: Seq<Element>, name: Seq<char>) -> bool {
    forall|i: int|
        0 <= i < children.len() ==> !(names_ignore_case((#[trigger] children[i]).name, name)
            && non_blank(children[i].text) is Some)
}

/// Whether a text is the first one under a name, by the child at `i`, and the earlier
/// names have none.
pub open spec fn told_at(
    children: Seq<Element>,
    candidates: Seq<Seq<char>>,
    text: Seq<char>,
    k: int,
    i: int,
) -> bool {
    &&& 0 <= k < candidates.len()
    &&& 0 <= i < children.len()
    &&& says(children[i], candidates[k], text)
    &&& none_says(children.take(i), candidates[k])
    &&& forall|m: int| 0 <= m < k ==> none_says(children, #[trigger] candidates[m])
}

/// Whether no child of some has a text under any of some names.
pub open spec fn none_tells(children: Seq<Element>, candidates: Seq<Seq<char>>) -> bool {
    forall|m: int| 0 <= m < candidates.len() ==> none_says(children, #[trigger] candidates[m])
}

/// Whether a value is what a node tells under some names, the earlier ones first:
/// the first text under the first name that has any, and none where no name has
/// one.
pub open spec fn tells(
    node: Option<Element>,
    candidates: Seq<Seq<char>>,
    value: Option<Seq<char>>,
) -> bool {
    match (node, value) {
        (Some(e), Some(t)) => exists|k: int, i: int|
            told_at(e.children, candidates, t, k, i),
        (Some(e), None) => none_tells(e.children, candidates),
        (None, _) => value is None,
    }
}

/// Whether a number is the one that a node tells under some names: what is told is
/// read as a number up to a limit.
pub open spec fn tells_number(
    node: Option<Element>,
    candidates: Seq<Seq<char>>,
    max: nat,
    value: Option<int>,
) -> bool {
    exists|text: Option<Seq<char>>| #[trigger]
        tells(node, candidates, text) && value == match text {
            Some(t) => match parse_unsigned(t, max) {
                Some(n) => Some(n as int),
                None => None,
            },
            None => None,
        }
}

proof fn lemma_named_texts_first(children: Seq<Element>, name: Seq<char>)
    ensures
        named_texts(children, name).len() == 0 <==> none_says(children, name),
        named_texts(children, name).len() > 0 ==> exists|i: int|
            0 <= i < children.len() && #[trigger] says(
                children[i],
                name,
                named_texts(children, name)[0],
            ) && none_says(children.take(i), name),
    decreases children.len(),
{
    if children.len() > 0 {
        let shorter = children.drop_last();
        let last = children.last();
        lemma_named_texts_first(shorter, name);
        let texts = named_texts(shorter, name);
        if let Some(t) = named_text(name)(last) {
            assert(named_texts(children, name) =~= texts.push(t));
        } else {
            assert(named_texts(children, name) =~= texts);
        }
        assert(children[children.len() - 1] == last);
        assert(forall|i: int| 0 <= i < shorter.len() ==> shorter[i] == children[i]);
        if texts.len() > 0 {
            let i = choose|i: int|
                0 <= i < shorter.len() && #[trigger] says(shorter[i], name, texts[0])
                    && none_says(shorter.take(i), name);
            assert(says(children[i], name, named_texts(children, name)[0]));
            assert(children.take(i) =~= shorter.take(i));
            assert(!none_says(children, name));
        } else if named_text(name)(last) is Some {
            let n = children.len() - 1;
            assert(says(children[n], name, named_texts(children, name)[0]));
            assert(children.take(n) =~= shorter);
        }
    }
}

proof fn lemma_text_is_told(children: Seq<Element>, candidates: Seq<Seq<char>>) -> (at: (int, int))
    ensures
        text_by_names(children, candidates) matches Some(t) ==> told_at(
            children,
            candidates,
            t,
            at.0,
            at.1,
        ),
        text_by_names(children, candidates) is None ==> none_tells(children, candidates),
    decreases candidates.len(),
{
    if candidates.len() == 0 {
        (0, 0)
    } else {
        lemma_named_texts_first(children, candidates[0]);
        let rest = candidates.drop_first();
        if named_texts(children, candidates[0]).len() > 0 {
            let t = named_texts(children, candidates[0])[0];
            let i = choose|i: int|
                0 <= i < children.len() && #[trigger] says(children[i], candidates[0], t)
                    && none_says(children.take(i), candidates[0]);
            (0, i)
        } else {
            let at = lemma_text_is_told(children, rest);
            assert(forall|m: int| 0 < m < candidates.len() ==> candidates[m] == rest[m - 1]);
            (at.0 + 1, at.1)
        }
    }
}

/// What is looked up under names is what the children tell: the first text that is
/// not blank under the first of the names that has one.
pub proof fn law_lookup_gives_what_is_told(node: Option<Element>, candidates: Seq<Seq<char>>)
    ensures
        tells(node, candidates, text_in(node, candidates)),
{
    if let Some(e) = node {
        lemma_text_is_told(e.children, candidates);
    }
}

/// A number that is looked up is the text that is told, read as a number that its
/// type can hold.
pub proof fn law_number_lookup_reads_what_is_told(
    node: Option<Element>,
    candidates: Seq<Seq<char>>,
)
    ensures
        tells_number(node, candidates, 255, match u8_in(node, candidates) {
            Some(n) => Some(n as int),
            None => None,
        }),
        tells_number(node, candidates, 4294967295, match u32_in(node, candidates) {
            Some(n) => Some(n as int),
            None => None,
        }),
        tells_number(node, candidates, 18446744073709551615, match u64_in(node, candidates) {
            Some(n) => Some(n as int),
            None => None,
        }),
        tells_i32(node, candidates, i32_in(node, candidates)),
{
    law_lookup_gives_what_is_told(node, candidates);
    assert(tells(node, candidates, text_in(node, candidates)));
    if let Some(t) = text_in(node, candidates) {
        assert(i32::MIN == -2147483648);
        assert(i32::MAX == 2147483647);
    }
}

/// Whether a `u32` is the one that a node tells under some names.
pub open spec fn tells_u32(
    node: Option<Element>,
    candidates: Seq<Seq<char>>,
    value: Option<u32>,
) -> bool {
    tells_number(node, candidates, 4294967295, match value {
        Some(n) => Some(n as int),
        None => None,
    })
}

/// Whether a `u64` is the one that a node tells under some names.
pub open spec fn tells_u64(
    node: Option<Element>,
    candidates: Seq<Seq<char>>,
    value: Option<u64>,
) -> bool {
    tells_number(node, candidates, 18446744073709551615, match value {
        Some(n) => Some(n as int),
        None => None,
    })
}

/// Whether a `u8` is the one that a node tells under some names.
pub open spec fn tells_u8(
    node: Option<Element>,
    candidates: Seq<Seq<char>>,
    value: Option<u8>,
) -> bool {
    tells_number(node, candidates, 255, match value {
        Some(n) => Some(n as int),
        None => None,
    })
}

/// Whether an `i32` is the one that a node tells under some names.
pub open spec fn tells_i32(
    node: Option<Element>,
    candidates: Seq<Seq<char>>,
    value: Option<i32>,
) -> bool {
    exists|text: Option<Seq<char>>| #[trigger]
        tells(node, candidates, text) && (match value {
            Some(n) => Some(n as int),
            None => None,
        }) == (match text {
            Some(t) => parse_signed(t, -2147483648, 2147483647),
            None => None,
        })
}

/// Whether a value is what the first of two nodes tells under some names, or what
/// the second tells where the first tells nothing.
pub open spec fn tells_in_turn(
    first: Option<Element>,
    second: Option<Element>,
    candidates: Seq<Seq<char>>,
    value: Option<Seq<char>>,
) -> bool {
    exists|text: Option<Seq<char>>| #[trigger]
        tells(first, candidates, text) && match text {
            Some(t) => value == Some(t),
            None => tells(second, candidates, value),
        }
}

/// Whether a `u32` is the one that a node tells under some names, or another where
/// the node tells none.
pub open spec fn tells_u32_or(
    node: Option<Element>,
    candidates: Seq<Seq<char>>,
    other: Option<u32>,
    value: Option<u32>,
) -> bool {
    exists|told: Option<u32>| #[trigger]
        tells_u32(node, candidates, told) && value == (if told is Some {
            told
        } else {
            other
        })
}

/// Each value of a video's metadata is what its document tells of it: in the first
/// video, the first audio and the first format, under the names of that value.
pub proof fn law_video_says_what_its_document_tells(root: Element, durations: DurationMillis)
    ensures
        ({
            let video = first_namesake(root, "Video"@);
            let format = first_namesake(root, "Format"@);
            let v = video_of(root, durations);
            &&& tells_u32(video, seq!["Width"@], v.width)
            &&& tells_u32(video, seq!["Height"@], v.height)
            &&& tells(video, seq!["CodecName"@, "Codec"@], v.codec)
            &&& tells(format, seq!["FormatName"@, "Format"@], v.container)
            &&& tells(video, seq!["Fps"@, "FrameRate"@, "AvgFrameRate"@], v.frame_rate)
            &&& tells_u64(video, seq!["Bitrate"@, "BitRate"@], v.video_bitrate)
            &&& tells_u64(format, seq!["Bitrate"@, "BitRate"@], v.overall_bitrate)
            &&& tells(video, seq!["PixFormat"@, "PixelFormat"@], v.pixel_format)
            &&& tells_u8(video, seq!["BitDepth"@], v.bit_depth)
            &&& tells(video, seq!["ColorSpace"@], v.color_space)
            &&& tells(video, seq!["ColorTransfer"@], v.color_transfer)
            &&& tells(video, seq!["ColorPrimaries"@], v.color_primaries)
            &&& tells(video, seq!["HdrFormat"@, "HDRFormat"@], v.hdr_format)
        }),
        ({
            let audio = first_namesake(root, "Audio"@);
            let v = video_of(root, durations);
            &&& tells(audio, seq!["CodecName"@, "Codec"@], v.audio_codec)
            &&& tells_u32(audio, seq!["Channel"@, "Channels"@], v.audio_channels)
            &&& tells_u32(audio, seq!["SampleRate"@], v.audio_sample_rate)
            &&& tells_u64(audio, seq!["Bitrate"@, "BitRate"@], v.audio_bitrate)
        }),
{
    let video = first_namesake(root, "Video"@);
    let audio = first_namesake(root, "Audio"@);
    let format = first_namesake(root, "Format"@);
    law_number_lookup_reads_what_is_told(video, seq!["Width"@]);
    law_number_lookup_reads_what_is_told(video, seq!["Height"@]);
    law_lookup_gives_what_is_told(video, seq!["CodecName"@, "Codec"@]);
    law_lookup_gives_what_is_told(format, seq!["FormatName"@, "Format"@]);
    law_lookup_gives_what_is_told(video, seq!["Fps"@, "FrameRate"@, "AvgFrameRate"@]);
    law_number_lookup_reads_what_is_told(video, seq!["Bitrate"@, "BitRate"@]);
    law_number_lookup_reads_what_is_told(format, seq!["Bitrate"@, "BitRate"@]);
    law_lookup_gives_what_is_told(video, seq!["PixFormat"@, "PixelFormat"@]);
    law_number_lookup_reads_what_is_told(video, seq!["BitDepth"@]);
    law_lookup_gives_what_is_told(video, seq!["ColorSpace"@]);
    law_lookup_gives_what_is_told(video, seq!["ColorTransfer"@]);
    law_lookup_gives_what_is_told(video, seq!["ColorPrimaries"@]);
    law_lookup_gives_what_is_told(video, seq!["HdrFormat"@, "HDRFormat"@]);
    law_lookup_gives_what_is_told(audio, seq!["CodecName"@, "Codec"@]);
    law_number_lookup_reads_what_is_told(audio, seq!["Channel"@, "Channels"@]);
    law_number_lookup_reads_what_is_told(audio, seq!["SampleRate"@]);
    law_number_lookup_reads_what_is_told(audio, seq!["Bitrate"@, "BitRate"@]);
}

/// The values of a video's metadata that have two sources, or depend on each other:
/// the rotation and the size it leads to, the duration and the creation time.
pub proof fn law_video_sources(root: Element, durations: DurationMillis)
    ensures
        ({
            let video = first_namesake(root, "Video"@);
            let format = first_namesake(root, "Format"@);
            let v = video_of(root, durations);
            &&& tells_i32(video, seq!["Rotate"@, "Rotation"@], v.rotation_degrees)
            &&& (v.display_width, v.display_height) == shown_size(
                v.width,
                v.height,
                v.rotation_degrees,
            )
            &&& durations.video is Some ==> v.duration_ms == durations.video
            &&& durations.video is None ==> v.duration_ms == durations.format
            &&& tells_in_turn(format, video, seq!["CreationTime"@], v.creation_time)
        }),
{
    let video = first_namesake(root, "Video"@);
    let format = first_namesake(root, "Format"@);
    law_number_lookup_reads_what_is_told(video, seq!["Rotate"@, "Rotation"@]);
    law_lookup_gives_what_is_told(format, seq!["CreationTime"@]);
    law_lookup_gives_what_is_told(video, seq!["CreationTime"@]);
    assert(tells(format, seq!["CreationTime"@], text_in(format, seq!["CreationTime"@])));
}

/// Each value of an audio file's metadata is what its document tells of it: in the
/// first audio and the first format, under the names of that value. The format's
/// bitrate comes before that of the audio, and the audio's duration before that of
/// the format.
pub proof fn law_audio_says_what_its_document_tells(root: Element, durations: DurationMillis)
    ensures
        ({
            let audio = first_namesake(root, "Audio"@);
            let format = first_namesake(root, "Format"@);
            let a = audio_of(root, durations);
            &&& tells_u32(audio, seq!["SampleRate"@], a.sample_rate)
            &&& tells_u8(audio, seq!["Channel"@, "Channels"@], a.channels)
            &&& tells_u8(audio, seq!["BitDepth"@], a.bit_depth)
            &&& tells_u32(audio, seq!["Bitrate"@, "BitRate"@], a.audio_bitrate)
            &&& tells_u32_or(
                format,
                seq!["Bitrate"@, "BitRate"@],
                a.audio_bitrate,
                a.overall_bitrate,
            )
            &&& tells(format, seq!["CreationTime"@], a.date)
            &&& durations.audio is Some ==> a.duration_ms == durations.audio
            &&& durations.audio is None ==> a.duration_ms == durations.format
        }),
{
    let audio = first_namesake(root, "Audio"@);
    let format = first_namesake(root, "Format"@);
    law_number_lookup_reads_what_is_told(audio, seq!["SampleRate"@]);
    law_number_lookup_reads_what_is_told(audio, seq!["Channel"@, "Channels"@]);
    law_number_lookup_reads_what_is_told(audio, seq!["BitDepth"@]);
    law_number_lookup_reads_what_is_told(audio, seq!["Bitrate"@, "BitRate"@]);
    law_number_lookup_reads_what_is_told(format, seq!["Bitrate"@, "BitRate"@]);
    law_lookup_gives_what_is_told(format, seq!["CreationTime"@]);
    assert(tells_u32(
        format,
        seq!["Bitrate"@, "BitRate"@],
        u32_in(format, seq!["Bitrate"@, "BitRate"@]),
    ));
}

/// A duration is what the first part of a document with the part's name tells.
pub proof fn law_duration_is_told_by_its_part(root: Element, part: Seq<char>)
    ensures
        tells(first_namesake(root, part), seq!["Duration"@], duration_text(root, part)),
{
    law_lookup_gives_what_is_told(first_namesake(root, part), seq!["Duration"@]);
}

/// Width and height are exchanged where a video is turned by an odd number of
/// quarter turns, in either direction, and in no other case.
pub proof fn law_odd_quarter_turns_exchange_the_size(
    width: u32,
    height: u32,
    quarters: int,
    degrees: i32,
)
    ensures
        degrees == 90 * quarters && quarters % 2 == 1 ==> shown_size(
            Some(width),
            Some(height),
            Some(degrees),
        ) == (Some(height), Some(width)),
        degrees == 90 * quarters && quarters % 2 == 0 ==> shown_size(
            Some(width),
            Some(height),
            Some(degrees),
        ) == (Some(width), Some(height)),
        degrees as int % 90 != 0 ==> shown_size(Some(width), Some(height), Some(degrees)) == (
            Some(width),
            Some(height),
        ),
        shown_size(Some(width), Some(height), None) == (Some(width), Some(height)),
        shown_size(Some(width), None, Some(degrees)) == (Some(width), None::<u32>),
        shown_size(Some(width), None, None) == (Some(width), None::<u32>),
        shown_size(None, Some(height), Some(degrees)) == (None::<u32>, None::<u32>),
        shown_size(None, Some(height), None) == (None::<u32>, None::<u32>),
        shown_size(None, None, Some(degrees)) == (None::<u32>, None::<u32>),
        shown_size(None, None, None) == (None::<u32>, None::<u32>),
{
    let halves = quarters / 2;
    if degrees == 90 * quarters {
        if quarters % 2 == 1 {
            assert(degrees == 180 * halves + 90);
            assert(degrees as int % 180 == 90);
        } else {
            assert(degrees == 180 * halves);
            assert(degrees as int % 180 == 0);
        }
    }
    if degrees as int % 180 == 90 {
        let turns = degrees as int / 180;
        assert(degrees == 90 * (2 * turns + 1));
        assert(degrees as int % 90 == 0);
    }
}

/// Whether a text begins with a word, up to case.
pub open spec fn begins_with(s: Seq<char>, word: Seq<char>) -> bool {
    s.len() >= word.len() && forall|i: int|
        0 <= i < word.len() ==> same_letter(#[trigger] s[i], word[i])
}

/// The service is asked for audio files and for video files, as their MIME types
/// say, whatever white space is around those, and for no images.
pub proof fn law_candidates_begin_with_their_kind(a: Seq<char>, t: Seq<char>, b: Seq<char>)
    requires
        all_white(a),
        all_white(b),
        has_clean_ends(t),
    ensures
        is_candidate(MediaMetadataKind::Audio, a + t + b) <==> begins_with(t, "audio/"@),
        is_candidate(MediaMetadataKind::Video, a + t + b) <==> begins_with(t, "video/"@),
        !is_candidate(MediaMetadataKind::Image, a + t + b),
{
    law_trimming_drops_what_is_around(a, t, b);
    reveal_strlit("audio/");
    reveal_strlit("video/");
    lemma_begins_with(t, "audio/"@);
    lemma_begins_with(t, "video/"@);
}

proof fn lemma_begins_with(t: Seq<char>, word: Seq<char>)
    requires
        forall|i: int| 0 <= i < word.len() ==> !('A' <= #[trigger] word[i] <= 'Z'),
    ensures
        word.is_prefix_of(ascii_lowercase(t)) <==> begins_with(t, word),
{
    law_lower_case_moves_capitals(t);
    let lower = ascii_lowercase(t);
    if word.is_prefix_of(lower) {
        assert forall|i: int| 0 <= i < word.len() implies same_letter(#[trigger] t[i], word[i]) by {
            assert(lower.subrange(0, word.len() as int)[i] == word[i]);
        }
    }
    if begins_with(t, word) {
        assert forall|i: int| 0 <= i < word.len() implies lower[i] == word[i] by {
            assert(same_letter(t[i], word[i]));
        }
        assert(lower.subrange(0, word.len() as int) =~= word);
    }
}

/// A document that was read gives the metadata of the kind that was asked for, with
/// its source; one that was not read, and images, give an error that says so.
pub proof fn law_media_info_is_of_its_kind(
    parsed: Result<NativeMediaMetadataResult, AsterError>,
    document: Result<XmlElement, String>,
    kind: MediaMetadataKind,
    durations: DurationMillis,
)
    requires
        is_parsed_media_info(parsed, document, kind, durations),
    ensures
        parsed is Ok <==> document is Ok && kind != MediaMetadataKind::Image,
        parsed matches Ok(result) ==> {
            &&& result.kind == kind
            &&& result.parser@ == "tencent_cos_ci_videoinfo"@
            &&& result.parser_version@ == "1"@
            &&& kind == MediaMetadataKind::Video ==> (result.metadata matches
                MediaMetadataPayload::Video(video) && video@ == video_of(document->Ok_0@, durations))
            &&& kind == MediaMetadataKind::Audio ==> (result.metadata matches
                MediaMetadataPayload::Audio(audio) && audio@ == audio_of(document->Ok_0@, durations)
                && audio.is_untagged())
        },
        parsed matches Err(error) ==> error@ == (match document {
            Ok(_) => Failure {
                kind: StorageErrorKind::Unsupported,
                code: None,
                message: "COS native media metadata does not support image metadata"@,
            },
            Err(cause) => Failure {
                kind: StorageErrorKind::Unknown,
                code: None,
                message: "parse COS native media metadata XML"@ + ": "@ + cause@,
            },
        }),
{
}

/// A request for metadata that was refused is an error whose kind goes by the
/// status alone, and whose text ends with the status.
pub proof fn law_refused_metadata_request(status: u16)
    ensures
        media_info_refusal(status).kind == media_info_refusal_kind(status),
        media_info_refusal(status).code is None,
        media_info_refusal(status).message
            == "COS native media metadata request failed with HTTP "@ + crate::http::status_line(
            status,
        ),
        media_info_refusal_kind(status) == StorageErrorKind::NotFound <==> status == 404,
        media_info_refusal_kind(status) == StorageErrorKind::Auth <==> status == 401 || status
            == 403,
        media_info_refusal_kind(status) == StorageErrorKind::RateLimited <==> status == 429,
        media_info_refusal_kind(status) == StorageErrorKind::Transient <==> 500 <= status <= 599,
        media_info_refusal_kind(status) == StorageErrorKind::Unsupported <==> !(status == 404
            || status == 401 || status == 403 || status == 429 || 500 <= status <= 599),
{
}

/// Time is added to the nanosecond: whole seconds are those of the sum.
pub proof fn law_time_is_added_to_the_nanosecond(
    now: i64,
    now_nanos: u32,
    seconds: u64,
    nanos: u32,
)
    ensures
        second_after(now, now_nanos, seconds, nanos) * 1_000_000_000 <= now * 1_000_000_000
            + now_nanos + seconds * 1_000_000_000 + nanos < (second_after(
            now,
            now_nanos,
            seconds,
            nanos,
        ) + 1) * 1_000_000_000,
{
}

/// A request for metadata is valid from the second it is signed in, until the second
/// that the span of time leads to. A span is too long where it is above as many
/// milliseconds as 63 bits can count.
pub proof fn law_metadata_request_is_valid_for_its_span(
    now: i64,
    now_nanos: u32,
    seconds: u64,
    nanos: u32,
)
    requires
        nanos < 1_000_000_000,
    ensures
        media_info_span(now, now_nanos, seconds, nanos) is Ok <==> seconds * 1_000_000_000 + nanos
            <= 0x7fff_ffff_ffff_ffff * 1_000_000,
        media_info_span(now, now_nanos, seconds, nanos) matches Ok(text) ==> text
            == decimal_signed(now as int) + ";"@ + decimal_signed(
            second_after(now, now_nanos, seconds, nanos),
        ),
        media_info_span(now, now_nanos, seconds, nanos) matches Err(failure) ==> failure.kind
            == StorageErrorKind::Unknown && failure.code is None && failure.message
            == "COS media info expiry"@ + ": "@
            + "Source duration value is out of range for the target type"@,
{
}

/// Metadata is read from an answer that says yes, and from no other; any other
/// answer is an error, whatever came with it.
pub proof fn law_answers_about_metadata(
    metadata: Result<NativeMediaMetadataResult, AsterError>,
    status: u16,
    document: Result<XmlElement, String>,
    kind: MediaMetadataKind,
    durations: DurationMillis,
)
    requires
        is_answered(metadata, status, document, kind, durations),
    ensures
        200 <= status <= 299 ==> is_parsed_media_info(metadata, document, kind, durations),
        !(200 <= status <= 299) ==> (metadata matches Err(error) && error@ == media_info_refusal(
            status,
        )),
{
}

} // verus!

//! What holds of the media metadata that the service gives.

use vstd::prelude::*;

use crate::media_tree::{
    named_text, named_texts, namesakes, text_by_names, u32_by_names, u8_by_names,
};
use crate::native_media_metadata::{
    has_mime_prefix, shown_size, turns_sideways, video_of, DurationMillis,
};
use crate::text::{
    ascii_lowercase, is_white_space, law_trimming_keeps_case_apart,
    law_white_space_around_is_ignored,
};
use crate::xml::Element;
use crate::xml_utils::law_kept_text_is_clean;

verus! {

/// Neither white space around a MIME type nor the case of its letters decides
/// whether the service is asked.
pub proof fn law_mime_type_is_read_loosely(
    mime_type: Seq<char>,
    other: Seq<char>,
    prefix: Seq<char>,
    c: char,
)
    ensures
        is_white_space(c) ==> has_mime_prefix(seq![c] + mime_type, prefix) == has_mime_prefix(
            mime_type,
            prefix,
        ),
        is_white_space(c) ==> has_mime_prefix(mime_type.push(c), prefix) == has_mime_prefix(
            mime_type,
            prefix,
        ),
        ascii_lowercase(mime_type) == ascii_lowercase(other) ==> has_mime_prefix(mime_type, prefix)
            == has_mime_prefix(other, prefix),
{
    if is_white_space(c) {
        law_white_space_around_is_ignored(mime_type, c);
    }
    law_trimming_keeps_case_apart(mime_type);
    law_trimming_keeps_case_apart(other);
}

/// Turning a known size twice by the same angle gives the size itself, and a
/// size that is not turned sideways is shown as it is.
pub proof fn law_turning_twice_turns_back(width: u32, height: u32, rotation_degrees: Option<i32>)
    ensures
        ({
            let shown = shown_size(Some(width), Some(height), rotation_degrees);
            shown_size(shown.0, shown.1, rotation_degrees) == (Some(width), Some(height))
        }),
        !turns_sideways(rotation_degrees) ==> shown_size(
            Some(width),
            Some(height),
            rotation_degrees,
        ) == (Some(width), Some(height)),
{
}

/// Half a turn more makes no difference to the size at which a video is shown.
pub proof fn law_half_a_turn_keeps_the_size(
    width: Option<u32>,
    height: Option<u32>,
    degrees: i32,
    turned: i32,
)
    requires
        turned == degrees + 180,
    ensures
        shown_size(width, height, Some(turned)) == shown_size(width, height, Some(degrees)),
{
}

proof fn lemma_named_texts_are_clean(elements: Seq<Element>, name: Seq<char>)
    ensures
        forall|i: int|
            0 <= i < named_texts(elements, name).len() ==> {
                let text = #[trigger] named_texts(elements, name)[i];
                text.len() > 0 && !is_white_space(text[0]) && !is_white_space(text.last())
            },
    decreases elements.len(),
{
    if elements.len() > 0 {
        lemma_named_texts_are_clean(elements.drop_last(), name);
        law_kept_text_is_clean(elements.last().text);
        let fewer = named_texts(elements.drop_last(), name);
        assert forall|i: int| 0 <= i < named_texts(elements, name).len() implies {
            let text = #[trigger] named_texts(elements, name)[i];
            text.len() > 0 && !is_white_space(text[0]) && !is_white_space(text.last())
        } by {
            if i < fewer.len() {
                assert(named_texts(elements, name)[i] == fewer[i]);
            } else {
                assert(named_text(name)(elements.last()) == Some(named_texts(elements, name)[i]));
            }
        }
    }
}

/// A text found in a document neither is empty nor starts or ends with white
/// space.
pub proof fn law_found_text_is_clean(elements: Seq<Element>, candidates: Seq<Seq<char>>)
    ensures
        text_by_names(elements, candidates) matches Some(text) ==> text.len() > 0
            && !is_white_space(text[0]) && !is_white_space(text.last()),
    decreases candidates.len(),
{
    if candidates.len() > 0 {
        lemma_named_texts_are_clean(elements, candidates[0]);
        law_found_text_is_clean(elements, candidates.drop_first());
    }
}

/// Reading a number as a `u8` finds every number that reading it as a `u32` and
/// narrowing it would.
pub proof fn law_narrow_reading_loses_nothing(elements: Seq<Element>, candidates: Seq<Seq<char>>)
    ensures
        u8_by_names(elements, candidates) == (match u32_by_names(elements, candidates) {
            Some(value) => if value <= u8::MAX {
                Some(value as u8)
            } else {
                None
            },
            None => None,
        }),
{
}

/// A document without a stream of a kind says nothing of such a stream.
pub proof fn law_no_stream_no_data(root: Element, durations: DurationMillis)
    ensures
        video_of(root, durations).audio_stream_count == 0 ==> {
            let video = video_of(root, durations);
            &&& video.audio_codec is None
            &&& video.audio_channels is None
            &&& video.audio_sample_rate is None
            &&& video.audio_bitrate is None
        },
        namesakes(root, "Video"@).len() == 0 ==> {
            let video = video_of(root, durations);
            &&& video.width is None
            &&& video.height is None
            &&& video.display_width is None
            &&& video.display_height is None
            &&& video.codec is None
        },
{
}

} // verus!

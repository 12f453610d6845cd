//! What the library's values stand for: nothing that they hold is lost or made up.

use vstd::prelude::*;

use crate::cors::{CosCorsConfiguration, CosCorsRule};
use crate::litmus::{cases_view, warnings_view, LitmusCaseResult, LitmusWarning};
use crate::litmus_baseline::{entries_view, BaselineEntry};
use crate::native_media_metadata::{AudioMediaMetadata, VideoMediaMetadata};
use crate::text::strs_view;
use crate::xml::{
    lemma_elements_view_at, lemma_elements_view_len, text_view, texts_view, XmlElement,
};

verus! {

/// Texts stand for their characters, one for one.
pub proof fn law_texts_stand_for_their_characters(
    text: Option<String>,
    texts: Seq<String>,
    parts: Seq<&str>,
)
    ensures
        text is Some <==> text_view(text) is Some,
        text matches Some(t) ==> text_view(text) == Some(t@),
        texts_view(texts).len() == texts.len(),
        forall|i: int| 0 <= i < texts.len() ==> #[trigger] texts_view(texts)[i] == texts[i]@,
        strs_view(parts).len() == parts.len(),
        forall|i: int| 0 <= i < parts.len() ==> #[trigger] strs_view(parts)[i] == parts[i]@,
{
}

/// An element stands for its name, its text and its children, in order.
pub proof fn law_element_stands_for_its_parts(e: XmlElement)
    ensures
        e@.name == e.name@,
        e@.text == text_view(e.text),
        e@.children.len() == e.children@.len(),
        forall|i: int| 0 <= i < e.children@.len() ==> #[trigger] e@.children[i] == e.children@[i]@,
{
    lemma_elements_view_len(e.children@);
    assert forall|i: int| 0 <= i < e.children@.len() implies #[trigger] e@.children[i]
        == e.children@[i]@ by {
        lemma_elements_view_at(e.children@, i);
    }
}

/// A rule stands for its values, and a configuration for its rules, in order.
pub proof fn law_configuration_stands_for_its_rules(c: CosCorsConfiguration, rule: CosCorsRule)
    ensures
        rule@.id == text_view(rule.id),
        rule@.allowed_origins == texts_view(rule.allowed_origins@),
        rule@.allowed_methods == texts_view(rule.allowed_methods@),
        rule@.allowed_headers == texts_view(rule.allowed_headers@),
        rule@.expose_headers == texts_view(rule.expose_headers@),
        rule@.max_age_seconds == rule.max_age_seconds,
        c@.rules.len() == c.rules@.len(),
        forall|i: int| 0 <= i < c.rules@.len() ==> #[trigger] c@.rules[i] == c.rules@[i]@,
        c@.response_vary == c.response_vary,
{
}

/// What is said of tests stands for its values, in order.
pub proof fn law_reports_stand_for_their_values(
    cases: Seq<LitmusCaseResult>,
    warnings: Seq<LitmusWarning>,
    entries: Seq<BaselineEntry>,
)
    ensures
        cases_view(cases).len() == cases.len(),
        forall|i: int|
            0 <= i < cases.len() ==> {
                let case = #[trigger] cases_view(cases)[i];
                &&& case.number == cases[i].number
                &&& case.name == cases[i].name@
                &&& case.status == cases[i].status
                &&& case.detail == cases[i].detail@
            },
        warnings_view(warnings).len() == warnings.len(),
        forall|i: int|
            0 <= i < warnings.len() ==> {
                let warning = #[trigger] warnings_view(warnings)[i];
                warning.test == warnings[i].test@ && warning.message == warnings[i].message@
            },
        entries_view(entries).len() == entries.len(),
        forall|i: int|
            0 <= i < entries.len() ==> {
                let entry = #[trigger] entries_view(entries)[i];
                &&& entry.key.group == entries[i].key.group@
                &&& entry.key.status == entries[i].key.status
                &&& entry.key.test == entries[i].key.test@
                &&& entry.tracking_issue == entries[i].tracking_issue@
                &&& entry.rationale == entries[i].rationale@
            },
{
}

/// Metadata stands for its values.
pub proof fn law_metadata_stands_for_its_values(v: VideoMediaMetadata, a: AudioMediaMetadata)
    ensures
        v@.duration_ms == v.duration_ms,
        v@.width == v.width,
        v@.height == v.height,
        v@.display_width == v.display_width,
        v@.display_height == v.display_height,
        v@.rotation_degrees == v.rotation_degrees,
        v@.codec == text_view(v.codec),
        v@.container == text_view(v.container),
        v@.frame_rate == text_view(v.frame_rate),
        v@.video_bitrate == v.video_bitrate,
        v@.overall_bitrate == v.overall_bitrate,
        v@.pixel_format == text_view(v.pixel_format),
        v@.bit_depth == v.bit_depth,
        v@.color_space == text_view(v.color_space),
        v@.color_transfer == text_view(v.color_transfer),
        v@.color_primaries == text_view(v.color_primaries),
        v@.hdr_format == text_view(v.hdr_format),
        v@.audio_codec == text_view(v.audio_codec),
        v@.audio_channels == v.audio_channels,
        v@.audio_sample_rate == v.audio_sample_rate,
        v@.audio_bitrate == v.audio_bitrate,
        v@.audio_stream_count == v.audio_stream_count,
        v@.subtitle_stream_count == v.subtitle_stream_count,
        v@.creation_time == text_view(v.creation_time),
        a@.duration_ms == a.duration_ms,
        a@.sample_rate == a.sample_rate,
        a@.channels == a.channels,
        a@.bit_depth == a.bit_depth,
        a@.overall_bitrate == a.overall_bitrate,
        a@.audio_bitrate == a.audio_bitrate,
        a@.date == text_view(a.date),
        a.is_untagged() <==> a.title is None && a.artist is None && a.artists@.len() == 0
            && a.album is None && a.album_artist is None && a.track_number is None
            && a.track_total is None && a.disc_number is None && a.disc_total is None
            && a.genre is None && !a.has_embedded_picture && a.embedded_picture_mime_type is None,
{
}

} // verus!

//! The request for the metadata of a file, and what is made of its answer.

use vstd::prelude::*;
use vstd::string::*;

use crate::errors::{failed_step, storage_driver_error, AsterError, Failure, StorageErrorKind};
use crate::http::{
    is_server_error, is_success, status_line, HttpStatus, FORBIDDEN, NOT_FOUND, TOO_MANY_REQUESTS,
    UNAUTHORIZED,
};
use crate::native_media_metadata::{
    is_parsed_media_info, parse_cos_media_info_xml, DurationMillis, MediaMetadataKind,
    NativeMediaMetadataResult,
};
use crate::numerals::{decimal_signed, push_decimal_signed};
use crate::xml::XmlElement;

verus! {

/// The name of the query parameter that asks for processing.
pub const MEDIA_INFO_PARAMETER: &'static str = "ci-process";

/// The processing that gives the metadata of a file.
pub const MEDIA_INFO_PROCESS: &'static str = "videoinfo";

/// The first second of the calendar, counted from the start of 1970.
pub const CALENDAR_START: i64 = -8334601228800;

/// The last second of the calendar, counted from the start of 1970.
pub const CALENDAR_END: i64 = 8210266876799;

/// The number of nanoseconds in a second.
pub const NANOS_PER_SECOND: u32 = 1_000_000_000;

/// Whether a span of time is not above the largest that can be added to a date:
/// as many milliseconds as an `i64` holds.
pub open spec fn is_addable(seconds: u64, nanos: u32) -> bool {
    seconds < 9223372036854775 || (seconds == 9223372036854775 && nanos <= 807_000_000)
}

/// The second that a point in time falls into once a span of time has passed.
pub open spec fn second_after(now: i64, now_nanos: u32, seconds: u64, nanos: u32) -> int {
    now + seconds + (now_nanos + nanos) / (NANOS_PER_SECOND as int)
}

/// Whether a point in time, and that point once a span of time has passed, are
/// inside the calendar. A span that cannot be added leads nowhere.
pub open spec fn stays_in_calendar(now: i64, now_nanos: u32, seconds: u64, nanos: u32) -> bool {
    &&& CALENDAR_START <= now <= CALENDAR_END
    &&& now_nanos < NANOS_PER_SECOND
    &&& nanos < NANOS_PER_SECOND
    &&& is_addable(seconds, nanos) ==> second_after(now, now_nanos, seconds, nanos) <= CALENDAR_END
}

/// What is said of a span of time that cannot be added.
pub open spec fn span_complaint() -> Seq<char> {
    "Source duration value is out of range for the target type"@
}

/// Adding a `chrono::TimeDelta`, made by `TimeDelta::from_std`, to a
/// `chrono::DateTime<Utc>`: the second that the sum falls into, or the text of
/// the error of `from_std` for a span above its limit. The addition panics where
/// the sum is not inside the calendar.
#[verifier::external_body]
fn timestamp_after(now: i64, now_nanos: u32, seconds: u64, nanos: u32) -> (sum: Result<i64, String>)
    requires
        stays_in_calendar(now, now_nanos, seconds, nanos),
    ensures
        sum is Ok == is_addable(seconds, nanos),
        sum matches Ok(second) ==> second == second_after(now, now_nanos, seconds, nanos),
        sum matches Err(complaint) ==> complaint@ == span_complaint(),
{
    match chrono::TimeDelta::from_std(std::time::Duration::new(seconds, nanos)) {
        Ok(span) => Ok((chrono::DateTime::from_timestamp(now, now_nanos).unwrap() + span).timestamp()),
        Err(error) => Err(error.to_string()),
    }
}

/// The first and the last second of a request that is signed at a point in time and
/// for a span of time.
pub open spec fn media_info_span(now: i64, now_nanos: u32, seconds: u64, nanos: u32) -> Result<
    Seq<char>,
    Failure,
> {
    if is_addable(seconds, nanos) {
        Ok(
            decimal_signed(now as int) + ";"@ + decimal_signed(
                second_after(now, now_nanos, seconds, nanos),
            ),
        )
    } else {
        Err(failed_step("COS media info expiry"@, span_complaint()))
    }
}

/// The seconds from which and until which a request for the metadata of a file is
/// valid, where it is signed at a point in time and for a span of time.
pub fn media_info_key_time(now: i64, now_nanos: u32, seconds: u64, nanos: u32) -> (key_time: Result<
    String,
    AsterError,
>)
    requires
        stays_in_calendar(now, now_nanos, seconds, nanos),
    ensures
        match key_time {
            Ok(text) => media_info_span(now, now_nanos, seconds, nanos) == Ok::<Seq<char>, Failure>(
                text@,
            ),
            Err(error) => media_info_span(now, now_nanos, seconds, nanos) == Err::<
                Seq<char>,
                Failure,
            >(error@),
        },
{
    match timestamp_after(now, now_nanos, seconds, nanos) {
        Ok(end) => {
            let mut text: String = String::new();
            push_decimal_signed(&mut text, now);
            text.append(";");
            push_decimal_signed(&mut text, end);
            assert(text@ =~= decimal_signed(now as int) + ";"@ + decimal_signed(end as int));
            Ok(text)
        },
        Err(complaint) => Err(
            AsterError::storage_driver_error("COS media info expiry", complaint.as_str()),
        ),
    }
}

/// The kind of error that a status of the service means for metadata.
pub open spec fn media_info_refusal_kind(status: u16) -> StorageErrorKind {
    if status == NOT_FOUND {
        StorageErrorKind::NotFound
    } else if status == FORBIDDEN || status == UNAUTHORIZED {
        StorageErrorKind::Auth
    } else if status == TOO_MANY_REQUESTS {
        StorageErrorKind::RateLimited
    } else if is_server_error(status) {
        StorageErrorKind::Transient
    } else {
        StorageErrorKind::Unsupported
    }
}

/// The failure of a request for metadata that the service refused.
pub open spec fn media_info_refusal(status: u16) -> Failure {
    Failure {
        kind: media_info_refusal_kind(status),
        code: None,
        message: "COS native media metadata request failed with HTTP "@ + status_line(status),
    }
}

fn media_info_response_error(status: HttpStatus) -> (error: AsterError)
    ensures
        error@ == media_info_refusal(status@),
{
    let code: u16 = status.as_u16();
    let kind: StorageErrorKind = if code == NOT_FOUND {
        StorageErrorKind::NotFound
    } else if code == FORBIDDEN || code == UNAUTHORIZED {
        StorageErrorKind::Auth
    } else if code == TOO_MANY_REQUESTS {
        StorageErrorKind::RateLimited
    } else if status.is_server_error() {
        StorageErrorKind::Transient
    } else {
        StorageErrorKind::Unsupported
    };
    let message: String = "COS native media metadata request failed with HTTP ".to_string().concat(
        status.line().as_str(),
    );
    storage_driver_error(kind, message)
}

/// Whether `metadata` is what the answer to the request for it comes to.
pub open spec fn is_answered(
    metadata: Result<NativeMediaMetadataResult, AsterError>,
    status: u16,
    document: Result<XmlElement, String>,
    kind: MediaMetadataKind,
    durations: DurationMillis,
) -> bool {
    if is_success(status) {
        is_parsed_media_info(metadata, document, kind, durations)
    } else {
        metadata matches Err(error) && error@ == media_info_refusal(status)
    }
}

/// The metadata of a file, from the answer to the request for it: an error where
/// the request was refused, and otherwise what the body describes. `document` is
/// what parsing the body within `media_info_xml_options` gave, and `durations`
/// what the texts of its `duration_texts` come to.
pub fn media_metadata_from_response(
    status: HttpStatus,
    document: &Result<XmlElement, String>,
    kind: MediaMetadataKind,
    durations: DurationMillis,
) -> (metadata: Result<NativeMediaMetadataResult, AsterError>)
    ensures
        is_answered(metadata, status@, *document, kind, durations),
{
    if !status.is_success() {
        return Err(media_info_response_error(status));
    }
    parse_cos_media_info_xml(document, kind, durations)
}

} // verus!

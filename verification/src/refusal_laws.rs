//! What holds of the errors for requests that the service refused.

use vstd::prelude::*;
use vstd::utf8::{decode_utf8, valid_utf8};

use crate::cors::{configuration_of, configuration_read, Configuration};
use crate::cors_document_laws::with_child;
use crate::cors_exchange::{
    body_excerpt, body_headers, body_written, utf8_complaint, bucket_reading, bucket_writing,
    document_tag_text, first_tag_text, key_span, labelled, refusal, refusal_detail, refusal_kind,
    service_message, tag_text, BODY_EXCERPT_CHARS,
};
use crate::digest::{base64_standard, md5_digest};
use crate::errors::{
    code_of_kind, failed_step, reported_code, ApiErrorCode, Failure, StorageErrorKind,
};
use crate::http::{is_server_error, status_line, FORBIDDEN};
use crate::numerals::decimal;
use crate::search::{occurs, occurs_at};
use crate::text::{is_white_space, lemma_trimmed, trimmed};
use crate::text_laws::{all_white, has_clean_ends, law_trimming_drops_what_is_around};
use crate::xml::{Element, XmlElement};
use crate::xml_utils::{local_part, non_blank};

verus! {

/// What stands between two texts stands in the whole.
proof fn lemma_occurs_between(before: Seq<char>, pattern: Seq<char>, after: Seq<char>)
    ensures
        occurs(before + pattern + after, pattern),
{
    let whole = before + pattern + after;
    let i = before.len() as int;
    assert(whole.subrange(i, i + pattern.len()) =~= pattern);
    assert(occurs_at(whole, pattern, i));
}

/// The permission that the credential lacks is named exactly where the service
/// answers that it is forbidden, and only there is the API's code set.
pub proof fn law_permission_is_named(
    status: u16,
    body: Seq<char>,
    document: Option<XmlElement>,
    action: Seq<char>,
)
    ensures
        refusal(status, body, document, action).code == (if status == FORBIDDEN {
            Some(ApiErrorCode::StoragePermission)
        } else {
            None
        }),
        refusal(status, body, document, action).kind == StorageErrorKind::Permission <==> status
            == FORBIDDEN,
        status == FORBIDDEN ==> occurs(
            refusal(status, body, document, action).message,
            "name/cos:PutBucketCORS"@,
        ),
{
    if status == FORBIDDEN {
        let hint = ". The Tencent COS credential needs name/cos:PutBucketCORS."@;
        let permission = "name/cos:PutBucketCORS"@;
        reveal_strlit(". The Tencent COS credential needs name/cos:PutBucketCORS.");
        reveal_strlit("name/cos:PutBucketCORS");
        let start = hint.take(35);
        let end = hint.skip(35 + permission.len() as int);
        assert(hint =~= start + permission + end);
        let detail = refusal_detail(status, body, document, action);
        lemma_occurs_between(detail + start, permission, end);
        assert(detail + hint =~= (detail + start) + permission + end);
    }
}

/// A refusal says which request was refused, with which status, and what the
/// service said of it: its error code, its ID of the request, and its message.
pub proof fn law_refusal_says_what_the_service_said(
    status: u16,
    body: Seq<char>,
    document: Option<XmlElement>,
    action: Seq<char>,
)
    ensures
        ("Tencent COS "@ + action + " failed with HTTP "@ + status_line(status)).is_prefix_of(
            refusal(status, body, document, action).message,
        ),
        document_tag_text(document, "Code"@) matches Some(code) ==> occurs(
            refusal(status, body, document, action).message,
            " code="@ + code,
        ),
        document_tag_text(document, "RequestId"@) matches Some(id) ==> occurs(
            refusal(status, body, document, action).message,
            " request_id="@ + id,
        ),
        service_message(body, document).len() > 0 ==> occurs(
            refusal(status, body, document, action).message,
            ": "@ + service_message(body, document),
        ),
{
    let opening = "Tencent COS "@ + action + " failed with HTTP "@ + status_line(status);
    let code = labelled(" code="@, document_tag_text(document, "Code"@));
    let id = labelled(" request_id="@, document_tag_text(document, "RequestId"@));
    let told = if service_message(body, document).len() == 0 {
        Seq::empty()
    } else {
        ": "@ + service_message(body, document)
    };
    let hint = if refusal_kind(status) == StorageErrorKind::Permission {
        ". The Tencent COS credential needs name/cos:PutBucketCORS."@
    } else {
        Seq::empty()
    };
    let message = refusal(status, body, document, action).message;
    assert(message =~= opening + code + id + told + hint);
    lemma_occurs_between(opening, code, id + told + hint);
    assert(message =~= opening + code + (id + told + hint));
    lemma_occurs_between(opening + code, id, told + hint);
    assert(message =~= (opening + code) + id + (told + hint));
    lemma_occurs_between(opening + code + id, told, hint);
    assert(opening.is_prefix_of(message));
}

/// A server's own failure is one that may pass, and no other refusal is.
pub proof fn law_server_errors_are_transient(status: u16)
    ensures
        refusal_kind(status) == StorageErrorKind::Transient <==> is_server_error(status),
{
}

/// What stands in for a missing message is short, and without white space around
/// it.
pub proof fn law_excerpt_is_short(body: Seq<char>)
    ensures
        body_excerpt(body).len() <= BODY_EXCERPT_CHARS,
        body_excerpt(body).len() > 0 ==> !is_white_space(body_excerpt(body)[0])
            && !is_white_space(body_excerpt(body).last()),
{
    let kept = trimmed(body);
    let start = if kept.len() > BODY_EXCERPT_CHARS {
        kept.take(BODY_EXCERPT_CHARS as int)
    } else {
        kept
    };
    lemma_trimmed(start);
}

/// The kind of a refusal goes by the status alone.
pub proof fn law_kinds_of_refusals(status: u16)
    ensures
        refusal_kind(status) == StorageErrorKind::Misconfigured <==> status == 400,
        refusal_kind(status) == StorageErrorKind::Auth <==> status == 401,
        refusal_kind(status) == StorageErrorKind::Permission <==> status == 403,
        refusal_kind(status) == StorageErrorKind::Precondition <==> status == 409 || status == 412,
        refusal_kind(status) == StorageErrorKind::RateLimited <==> status == 429,
        refusal_kind(status) == StorageErrorKind::Transient <==> 500 <= status <= 599,
        refusal_kind(status) == StorageErrorKind::Unknown <==> !(status == 400 || status == 401
            || status == 403 || status == 409 || status == 412 || status == 429 || 500 <= status
            <= 599),
{
}

/// A text after a label, and nothing where there is no text.
pub open spec fn part(label: Seq<char>, text: Option<Seq<char>>) -> Seq<char> {
    if text is Some {
        label + text->0
    } else {
        Seq::empty()
    }
}

/// The text of a refusal: what was asked for, the status, the service's code and ID
/// of the request where it gives them, then its message, or else what can be quoted
/// of the body, and for a lack of permission what is needed.
pub proof fn law_text_of_a_refusal(
    status: u16,
    body: Seq<char>,
    document: Option<XmlElement>,
    action: Seq<char>,
    message: Seq<char>,
)
    requires
        match document_tag_text(document, "Message"@) {
            Some(text) => message == text,
            None => message == body_excerpt(body),
        },
    ensures
        refusal(status, body, document, action).kind == refusal_kind(status),
        refusal(status, body, document, action).message == "Tencent COS "@ + action
            + " failed with HTTP "@ + status_line(status) + part(
            " code="@,
            document_tag_text(document, "Code"@),
        ) + part(" request_id="@, document_tag_text(document, "RequestId"@)) + (if message.len()
            > 0 {
            ": "@ + message
        } else {
            Seq::empty()
        }) + (if status == 403 {
            ". The Tencent COS credential needs name/cos:PutBucketCORS."@
        } else {
            Seq::empty()
        }),
{
    let opening = "Tencent COS "@ + action + " failed with HTTP "@ + status_line(status) + part(
        " code="@,
        document_tag_text(document, "Code"@),
    ) + part(" request_id="@, document_tag_text(document, "RequestId"@));
    let told = if message.len() > 0 {
        ": "@ + message
    } else {
        Seq::empty()
    };
    let hint = if status == 403 {
        ". The Tencent COS credential needs name/cos:PutBucketCORS."@
    } else {
        Seq::empty()
    };
    assert(refusal_detail(status, body, document, action) =~= opening + told);
    assert(refusal(status, body, document, action).message =~= opening + told + hint);
}

/// What is quoted of a body without white space around it: all of it up to 300
/// characters, and otherwise its first 300, without white space at their end.
pub proof fn law_body_is_quoted_in_part(a: Seq<char>, t: Seq<char>, b: Seq<char>)
    requires
        all_white(a),
        all_white(b),
        has_clean_ends(t),
    ensures
        t.len() <= 300 ==> body_excerpt(a + t + b) == t,
        t.len() > 300 ==> body_excerpt(a + t + b) == trimmed(t.take(300)),
{
    law_trimming_drops_what_is_around(a, t, b);
    lemma_trimmed(t);
}

proof fn lemma_first_tag_text_push(elements: Seq<Element>, e: Element, tag: Seq<char>)
    ensures
        first_tag_text(elements.push(e), tag) == (if first_tag_text(elements, tag) is Some {
            first_tag_text(elements, tag)
        } else {
            tag_text(e, tag)
        }),
    decreases elements.len(),
{
    let more = elements.push(e);
    if elements.len() == 0 {
        assert(more.drop_first() =~= elements);
        assert(more[0] == e);
        assert(first_tag_text(more.drop_first(), tag) is None);
    } else {
        lemma_first_tag_text_push(elements.drop_first(), e, tag);
        assert(more.drop_first() =~= elements.drop_first().push(e));
        assert(more[0] == elements[0]);
    }
}

/// A tag's text is looked for child by child: what an earlier child gives stands,
/// a later child is asked only where none did. An element with the tag's name gives
/// its own text or nothing, whatever is inside it, and a document that could not be
/// read gives nothing.
pub proof fn law_tags_are_found_child_by_child(e: Element, child: Element, tag: Seq<char>)
    ensures
        local_part(e.name) == tag ==> tag_text(e, tag) == non_blank(e.text),
        local_part(e.name) != tag && e.children.len() == 0 ==> tag_text(e, tag) is None,
        local_part(e.name) != tag ==> tag_text(with_child(e, child), tag) == (if tag_text(
            e,
            tag,
        ) is Some {
            tag_text(e, tag)
        } else {
            tag_text(child, tag)
        }),
        document_tag_text(None, tag) is None,
        forall|root: XmlElement| #[trigger]
            document_tag_text(Some(root), tag) == tag_text(root@, tag),
{
    lemma_first_tag_text_push(e.children, child, tag);
}

/// A document is a configuration by the name of its root alone; one that is none,
/// or could not be read, is an error that says so.
pub proof fn law_configuration_needs_its_root(document: Result<XmlElement, String>)
    ensures
        configuration_read(document) is Ok <==> (document matches Ok(root) && local_part(
            root@.name,
        ) == "CORSConfiguration"@),
        configuration_read(document) matches Ok(c) ==> c == configuration_of(document->Ok_0@),
        configuration_read(document) matches Err(failure) ==> failure.code is None && (
        match document {
            Ok(_) => failure.kind == StorageErrorKind::Misconfigured && failure.message
                == "COS CORS XML root is not CORSConfiguration"@,
            Err(cause) => failure.kind == StorageErrorKind::Unknown && failure.message
                == "parse COS CORS XML"@ + ": "@ + cause@,
        }),
{
}

/// A bucket that has no configuration is one without rules, whatever the answer
/// says; a configuration is read from an answer that says yes, and from no other;
/// any other answer is a refusal of the request that was made.
pub proof fn law_answers_about_a_configuration(
    status: u16,
    body: Seq<char>,
    document: Result<XmlElement, String>,
    error_document: Option<XmlElement>,
    request_id: Option<String>,
)
    ensures
        status == 404 ==> bucket_reading(status, body, document, error_document) == Ok::<
            Configuration,
            Failure,
        >(Configuration { rules: Seq::empty(), response_vary: None }),
        200 <= status <= 299 ==> bucket_reading(status, body, document, error_document)
            == configuration_read(document),
        status != 404 && !(200 <= status <= 299) ==> bucket_reading(
            status,
            body,
            document,
            error_document,
        ) == Err::<Configuration, Failure>(
            refusal(status, body, error_document, "GET Bucket cors"@),
        ),
        200 <= status <= 299 ==> bucket_writing(status, body, error_document, request_id) == Ok::<
            Option<String>,
            Failure,
        >(request_id),
        !(200 <= status <= 299) ==> bucket_writing(status, body, error_document, request_id)
            == Err::<Option<String>, Failure>(
            refusal(status, body, error_document, "PUT Bucket cors"@),
        ),
{
}

/// A request is valid from the second it is signed in, for five minutes.
pub proof fn law_key_span_is_five_minutes(now: nat)
    ensures
        key_span(now) == decimal(now) + ";"@ + decimal(now + 300),
{
}

/// A step that failed is an error of unknown kind that names the step and its cause,
/// and every kind is reported under its own code.
pub proof fn law_errors_name_step_and_cause(
    context: Seq<char>,
    cause: Seq<char>,
    a: StorageErrorKind,
    b: StorageErrorKind,
)
    ensures
        failed_step(context, cause).kind == StorageErrorKind::Unknown,
        failed_step(context, cause).code is None,
        failed_step(context, cause).message == context + ": "@ + cause,
        forall|failure: Failure|
            failure.code is Some ==> #[trigger] reported_code(failure) == failure.code->0,
        forall|failure: Failure|
            failure.code is None ==> #[trigger] reported_code(failure) == code_of_kind(
                failure.kind,
            ),
        code_of_kind(a) == code_of_kind(b) ==> a == b,
        code_of_kind(StorageErrorKind::NotFound) == ApiErrorCode::StorageNotFound,
        code_of_kind(StorageErrorKind::Auth) == ApiErrorCode::StorageAuth,
        code_of_kind(StorageErrorKind::Permission) == ApiErrorCode::StoragePermission,
        code_of_kind(StorageErrorKind::Misconfigured) == ApiErrorCode::StorageMisconfigured,
        code_of_kind(StorageErrorKind::Precondition) == ApiErrorCode::StoragePrecondition,
        code_of_kind(StorageErrorKind::RateLimited) == ApiErrorCode::StorageRateLimited,
        code_of_kind(StorageErrorKind::Transient) == ApiErrorCode::StorageTransient,
        code_of_kind(StorageErrorKind::Unsupported) == ApiErrorCode::StorageUnsupported,
        code_of_kind(StorageErrorKind::Unknown) == ApiErrorCode::StorageUnknown,
{
}

/// A document that was written is sent as the text that its bytes encode, whatever
/// its length. What the writer complains of, and bytes that are no text, are errors
/// of their own.
pub proof fn law_body_is_the_text_written(written: Result<Vec<u8>, String>)
    ensures
        body_written(written) is Ok <==> (written matches Ok(bytes) && valid_utf8(bytes@)),
        body_written(written) matches Ok(text) ==> text == decode_utf8(written->Ok_0@),
        body_written(written) matches Err(failure) ==> failure.kind == StorageErrorKind::Unknown
            && failure.code is None && failure.message == (match written {
            Ok(bytes) => "encode COS CORS XML"@ + ": "@ + utf8_complaint(bytes@),
            Err(cause) => "serialize COS CORS XML"@ + ": "@ + cause@,
        }),
{
}

/// A body goes with its type and its own digest, under the names that the service
/// knows.
pub proof fn law_body_goes_with_its_digest(body: Seq<u8>)
    ensures
        body_headers(body).len() == 2,
        body_headers(body)[0] == ("content-type"@, "application/xml"@),
        body_headers(body)[1] == ("Content-MD5"@, base64_standard(md5_digest(body))),
{
}

} // verus!

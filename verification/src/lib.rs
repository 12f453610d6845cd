//! Tencent COS bucket rules and native media metadata for AsterDrive.

pub mod cors;
pub mod cors_document_laws;
pub mod cors_exchange;
pub mod cors_laws;
pub mod cors_update;
pub mod cors_update_laws;
pub mod digest;
pub mod errors;
pub mod http;
pub mod litmus;
pub mod litmus_baseline;
pub mod litmus_laws;
pub mod media_document_laws;
pub mod media_laws;
pub mod media_request;
pub mod media_tree;
pub mod native_media_metadata;
pub mod numerals;
pub mod redaction;
pub mod refusal_laws;
pub mod search;
pub mod text;
pub mod text_laws;
pub mod view_laws;
pub mod xml;
pub mod xml_utils;

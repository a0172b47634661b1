//! Vocabulary of the media services: what a media item is, where it is
//! kept, who may see it, and the replies of the upload and download
//! endpoints.
use vstd::prelude::*;
use crate::json::decimal_text;

verus! {

/// The kind of a media item.
#[derive(PartialEq, Eq, Structural, Clone, Copy, Debug)]
pub enum MediaEnum {
    Image,
    Video,
    Unknown,
}

/// Where a media item is kept.
#[derive(PartialEq, Eq, Structural, Clone, Copy, Debug)]
pub enum LocationEnum {
    S3,
    Local,
}

/// Who may see a media item.
#[derive(PartialEq, Eq, Structural, Clone, Copy, Debug)]
pub enum MediaAudienceEnum {
    Personal,
    Friends,
    Family,
}

/// A comment posted on a media item.
pub struct CommentRequest {
    pub comment: String,
}

fn labelled_number(label: &str, n: u32) -> (t: String)
    ensures
        t@ == label@ + decimal_text(n as nat),
{
    let mut v: Vec<char> = Vec::new();
    crate::jwt::push_str(&mut v, label);
    crate::json::push_decimal(&mut v, n as u64);
    crate::text::string_from(v.as_slice())
}

/// The reply to an upload from the device `device_id`.
pub fn upload_reply(device_id: u32) -> (t: String)
    ensures
        t@ == "upload "@ + decimal_text(device_id as nat),
{
    labelled_number("upload ", device_id)
}

/// The reply to a download of the item `id`.
pub fn download_reply(id: u32) -> (t: String)
    ensures
        t@ == "download "@ + decimal_text(id as nat),
{
    labelled_number("download ", id)
}

} // verus!

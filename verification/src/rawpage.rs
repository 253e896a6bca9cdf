//! Conversion of raw catalog records into the typed model. The raw record
//! is a `serde_json::Value`, opaque to the verifier; the probing calls go
//! through trusted wrappers, and everything downstream of the conversion
//! works on the typed model alone. Probing an array index where the record
//! holds nothing yields `Null`, which ends the iteration — the end-of-page
//! convention of the catalog format.

use vstd::prelude::*;
use serde_json::Value;
use crate::record::{GalleryPage, ImageUrls, PostRecord, UserPage, UserPreview};

verus! {

#[verifier::external_type_specification]
#[verifier::external_body]
pub struct ExValue(Value);

/// Relies on `serde_json::Value`'s `Index<usize>` impl: yields the array
/// element at `i`, or `Null` when the value is not an array or is too
/// short; never panics.
#[verifier::external_body]
fn json_at<'a>(v: &'a Value, i: usize) -> &'a Value {
    &v[i]
}

/// Relies on `serde_json::Value`'s `Index<&str>` impl: yields the object
/// member named `key`, or `Null` when the value is not an object or has no
/// such member; never panics.
#[verifier::external_body]
fn json_key<'a>(v: &'a Value, key: &str) -> &'a Value {
    &v[key]
}

/// Relies on `serde_json::Value::is_null`.
#[verifier::external_body]
fn json_is_null(v: &Value) -> bool {
    v.is_null()
}

/// Relies on `serde_json::Value::to_string`, which renders the value in
/// JSON syntax; the double quotes around a string value are stripped, so
/// no double-quote character remains in the result.
#[verifier::external_body]
fn json_unquoted(v: &Value) -> (r: String)
    ensures
        forall|i: int| 0 <= i < r@.len() ==> r@[i] != '"',
{
    v.to_string().replace('"', "")
}

/// The three size URLs of one image record.
fn parse_image_urls(v: &Value) -> ImageUrls {
    ImageUrls {
        square_medium: json_unquoted(json_key(v, "square_medium")),
        medium: json_unquoted(json_key(v, "medium")),
        large: json_unquoted(json_key(v, "large")),
    }
}

/// One post of a gallery or feed page: identity, title, owner, its image
/// URLs, and one image record per sub-page of a multi-page post.
pub fn parse_post(v: &Value) -> PostRecord {
    let user = json_key(v, "user");
    let mut meta_pages: Vec<ImageUrls> = Vec::new();
    let metas = json_key(v, "meta_pages");
    let mut i: usize = 0;
    while i < usize::MAX
        invariant
            true,
        decreases usize::MAX - i,
    {
        let mp = json_at(metas, i);
        if json_is_null(mp) {
            break;
        }
        meta_pages.push(parse_image_urls(json_key(mp, "image_urls")));
        i = i + 1;
    }
    PostRecord {
        post_id: json_unquoted(json_key(v, "id")),
        title: json_unquoted(json_key(v, "title")),
        user_id: json_unquoted(json_key(user, "id")),
        image_urls: parse_image_urls(json_key(v, "image_urls")),
        meta_pages,
    }
}

/// The pagination continuation of a page record: absent when the record
/// has none (the last page).
fn parse_next_url(v: &Value) -> Option<String> {
    let nu = json_key(v, "next_url");
    if json_is_null(nu) {
        None
    } else {
        Some(json_unquoted(nu))
    }
}

/// One gallery or feed page: its posts in catalog order, stopping at the
/// first absent index, and the pagination continuation.
pub fn parse_gallery_page(v: &Value) -> GalleryPage {
    let illusts = json_key(v, "illusts");
    let mut posts: Vec<PostRecord> = Vec::new();
    let mut i: usize = 0;
    while i < usize::MAX
        invariant
            true,
        decreases usize::MAX - i,
    {
        let post = json_at(illusts, i);
        if json_is_null(post) {
            break;
        }
        posts.push(parse_post(post));
        i = i + 1;
    }
    GalleryPage { illusts: posts, next_url: parse_next_url(v) }
}

/// One user-listing page: each followed artist with identity, avatar URL,
/// and recent-work thumbnails in preview order, stopping at the first
/// absent index; and the pagination continuation.
pub fn parse_user_page(v: &Value) -> UserPage {
    let page = json_key(v, "user_previews");
    let mut previews: Vec<UserPreview> = Vec::new();
    let mut i: usize = 0;
    while i < usize::MAX
        invariant
            true,
        decreases usize::MAX - i,
    {
        let pv = json_at(page, i);
        if json_is_null(pv) {
            break;
        }
        let user = json_key(pv, "user");
        let illusts = json_key(pv, "illusts");
        let mut work_urls: Vec<String> = Vec::new();
        let mut j: usize = 0;
        while j < usize::MAX
            invariant
                true,
            decreases usize::MAX - j,
        {
            let url = json_key(json_key(json_at(illusts, j), "image_urls"), "square_medium");
            if json_is_null(url) {
                break;
            }
            work_urls.push(json_unquoted(url));
            j = j + 1;
        }
        previews.push(
            UserPreview {
                user_id: json_unquoted(json_key(user, "id")),
                user_name: json_unquoted(json_key(user, "name")),
                profile_pic_url: json_unquoted(
                    json_key(json_key(user, "profile_image_urls"), "medium"),
                ),
                work_urls,
            },
        );
        i = i + 1;
    }
    UserPage { previews, next_url: parse_next_url(v) }
}

} // verus!
